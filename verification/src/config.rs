//! Settings of a run and the stored choice of accelerator.

use vstd::prelude::*;

use crate::phrase::{is_whitespace, is_whitespace_char};

verus! {

/// The largest rejection threshold that a run takes.
pub const MAX_THRESHOLD: usize = 200;

/// The largest bucket cap that a run takes.
pub const MAX_COUNT: usize = 1000;

/// The largest batch size that a run takes.
pub const MAX_BATCH_SIZE: usize = 1_000_000;

/// The stored configuration.
#[derive(Debug)]
pub struct Config {
    /// The kind of accelerator chosen at setup, if a choice was stored.
    pub gpu_type: Option<String>,
}

impl Config {
    /// The configuration that stores `gpu_type` as the chosen kind.
    pub fn with_gpu_type(gpu_type: &str) -> (config: Config)
        ensures
            config.gpu_type matches Some(kind) && kind@ == gpu_type@,
    {
        Config { gpu_type: Some(gpu_type.to_owned()) }
    }
}

/// Whether the accelerator has to be set up before a run: when the stored
/// configuration was reset, or when there is none.
pub fn needs_setup(reset_config: bool, config: &Option<Config>) -> (setup: bool)
    ensures
        setup == (reset_config || config is None),
{
    reset_config || config.is_none()
}

/// The setting of a run that is out of range.
#[derive(Clone, Copy, Debug, PartialEq, Eq, Structural)]
pub enum SettingsError {
    /// The rejection threshold is zero or above `MAX_THRESHOLD`.
    Threshold,
    /// The bucket cap is zero or above `MAX_COUNT`.
    Count,
    /// The batch size is zero or above `MAX_BATCH_SIZE`.
    BatchSize,
}

impl SettingsError {
    /// The message for the user.
    pub fn message(&self) -> (message: &'static str)
        ensures
            message@ == match self {
                SettingsError::Threshold => "Error: Threshold must be between 1 and 200"@,
                SettingsError::Count => "Error: Count must be between 1 and 1000"@,
                SettingsError::BatchSize => "Error: Batch size must be between 1 and 1,000,000"@,
            },
    {
        match self {
            SettingsError::Threshold => "Error: Threshold must be between 1 and 200",
            SettingsError::Count => "Error: Count must be between 1 and 1000",
            SettingsError::BatchSize => "Error: Batch size must be between 1 and 1,000,000",
        }
    }
}

/// Whether `value` is one of the settings from one up to `max`.
pub open spec fn in_range(value: usize, max: usize) -> bool {
    1 <= value <= max
}

/// Checks the settings of a run: the threshold, then the bucket cap, then
/// the batch size. The first that is out of range is reported.
pub fn check_settings(threshold: usize, count: usize, batch_size: usize) -> (checked: Result<
    (),
    SettingsError,
>)
    ensures
        checked is Ok <==> in_range(threshold, MAX_THRESHOLD) && in_range(count, MAX_COUNT)
            && in_range(batch_size, MAX_BATCH_SIZE),
        checked == Err::<(), SettingsError>(SettingsError::Threshold) <==> !in_range(
            threshold,
            MAX_THRESHOLD,
        ),
        checked == Err::<(), SettingsError>(SettingsError::Count) <==> in_range(
            threshold,
            MAX_THRESHOLD,
        ) && !in_range(count, MAX_COUNT),
        checked == Err::<(), SettingsError>(SettingsError::BatchSize) <==> in_range(
            threshold,
            MAX_THRESHOLD,
        ) && in_range(count, MAX_COUNT) && !in_range(batch_size, MAX_BATCH_SIZE),
{
    if threshold == 0 || threshold > MAX_THRESHOLD {
        Err(SettingsError::Threshold)
    } else if count == 0 || count > MAX_COUNT {
        Err(SettingsError::Count)
    } else if batch_size == 0 || batch_size > MAX_BATCH_SIZE {
        Err(SettingsError::BatchSize)
    } else {
        Ok(())
    }
}

/// The kind of accelerator that a setup can choose.
#[derive(Clone, Copy, Debug, PartialEq, Eq, Structural)]
pub enum GpuKind {
    /// An NVIDIA accelerator.
    Nvidia,
    /// An AMD or Intel accelerator.
    Amd,
    /// No accelerator: the processor alone.
    Cpu,
}

impl GpuKind {
    /// The name under which the kind is stored.
    pub fn name(&self) -> (name: &'static str)
        ensures
            name@ == match self {
                GpuKind::Nvidia => "nvidia"@,
                GpuKind::Amd => "amd"@,
                GpuKind::Cpu => "cpu"@,
            },
    {
        match self {
            GpuKind::Nvidia => "nvidia",
            GpuKind::Amd => "amd",
            GpuKind::Cpu => "cpu",
        }
    }

    /// Whether a run with this kind uses an accelerator.
    pub fn uses_gpu(&self) -> (uses: bool)
        ensures
            uses == (*self != GpuKind::Cpu),
    {
        match self {
            GpuKind::Cpu => false,
            _ => true,
        }
    }
}

/// The number of white-space characters at the start of a text.
pub open spec fn leading_space(text: Seq<char>) -> nat
    decreases text.len(),
{
    if text.len() > 0 && is_whitespace(text.first()) {
        1 + leading_space(text.drop_first())
    } else {
        0
    }
}

/// The number of white-space characters at the end of a text.
pub open spec fn trailing_space(text: Seq<char>) -> nat
    decreases text.len(),
{
    if text.len() > 0 && is_whitespace(text.last()) {
        1 + trailing_space(text.drop_last())
    } else {
        0
    }
}

/// A text without the white space at its start and at its end.
pub open spec fn trimmed(text: Seq<char>) -> Seq<char> {
    if leading_space(text) == text.len() {
        Seq::empty()
    } else {
        text.subrange(leading_space(text) as int, text.len() - trailing_space(text))
    }
}

/// A text whose first `count` characters are white space, and whose next
/// character is not, starts with `count` white-space characters.
proof fn lemma_leading_space(text: Seq<char>, count: int)
    requires
        0 <= count <= text.len(),
        forall|j: int| 0 <= j < count ==> is_whitespace(#[trigger] text[j]),
        count < text.len() ==> !is_whitespace(text[count]),
    ensures
        leading_space(text) == count,
    decreases count,
{
    if count > 0 {
        let rest = text.drop_first();
        assert forall|j: int| 0 <= j < count - 1 implies is_whitespace(#[trigger] rest[j]) by {
            assert(rest[j] == text[j + 1]);
        }
        if count < text.len() {
            assert(rest[count - 1] == text[count]);
        }
        lemma_leading_space(rest, count - 1);
    }
}

/// A text whose last `count` characters are white space, and whose
/// character before them is not, ends with `count` white-space characters.
proof fn lemma_trailing_space(text: Seq<char>, count: int)
    requires
        0 <= count <= text.len(),
        forall|j: int| text.len() - count <= j < text.len() ==> is_whitespace(#[trigger] text[j]),
        count < text.len() ==> !is_whitespace(text[text.len() - count - 1]),
    ensures
        trailing_space(text) == count,
    decreases count,
{
    if count > 0 {
        let rest = text.drop_last();
        assert forall|j: int| rest.len() - (count - 1) <= j < rest.len() implies is_whitespace(
            #[trigger] rest[j],
        ) by {
            assert(rest[j] == text[j]);
        }
        if count < text.len() {
            assert(rest[rest.len() - (count - 1) - 1] == text[text.len() - count - 1]);
        }
        lemma_trailing_space(rest, count - 1);
    }
}

/// `text` without the white space at its start and at its end.
pub fn trim(text: &str) -> (inner: &str)
    ensures
        inner@ == trimmed(text@),
{
    let length = text.unicode_len();
    let mut index: usize = 0;
    let mut seen = false;
    let mut start: usize = 0;
    let mut end: usize = 0;
    for c in it: text.chars()
        invariant
            length == text@.len(),
            it.seq() == text@,
            index == it.index(),
            !seen ==> start == index && end == index,
            seen ==> start < end <= index && !is_whitespace(text@[start as int]) && !is_whitespace(
                text@[end - 1],
            ),
            forall|j: int| 0 <= j < start ==> is_whitespace(#[trigger] text@[j]),
            forall|j: int| end <= j < index ==> is_whitespace(#[trigger] text@[j]),
    {
        if is_whitespace_char(c) {
            if !seen {
                start = index + 1;
                end = index + 1;
            }
        } else {
            if !seen {
                seen = true;
                start = index;
            }
            end = index + 1;
        }
        index = index + 1;
    }
    proof {
        lemma_leading_space(text@, start as int);
        if seen {
            lemma_trailing_space(text@, length - end);
        }
    }
    if seen {
        text.substring_char(start, end)
    } else {
        text.substring_char(0, 0)
    }
}

/// Whether `answer`, without the white space around it, is the one character
/// `choice`.
fn is_choice(answer: &str, choice: char) -> (is: bool)
    ensures
        is == (trimmed(answer@) == seq![choice]),
{
    let inner = trim(answer);
    if inner.unicode_len() == 1 {
        let given = inner.get_char(0);
        assert(given == choice ==> inner@ =~= seq![choice]);
        given == choice
    } else {
        false
    }
}

/// Whether the user asked for the accelerator: whether the answer, without
/// the white space around it, is `1`.
pub fn wants_gpu(answer: &str) -> (wants: bool)
    ensures
        wants == (trimmed(answer@) == seq!['1']),
{
    is_choice(answer, '1')
}

/// The kind of accelerator that the user chose, and whether the answer was
/// one of the choices: without the white space around it, `1` is NVIDIA and
/// `2` is AMD or Intel; any other answer is no choice, and NVIDIA is taken.
pub fn chosen_kind(answer: &str) -> (chosen: (GpuKind, bool))
    ensures
        chosen == if trimmed(answer@) == seq!['1'] {
            (GpuKind::Nvidia, true)
        } else if trimmed(answer@) == seq!['2'] {
            (GpuKind::Amd, true)
        } else {
            (GpuKind::Nvidia, false)
        },
{
    if is_choice(answer, '1') {
        (GpuKind::Nvidia, true)
    } else if is_choice(answer, '2') {
        (GpuKind::Amd, true)
    } else {
        (GpuKind::Nvidia, false)
    }
}

} // verus!
