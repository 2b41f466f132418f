//! Text for the user: the status line, and the two files of results.

use vstd::prelude::*;
use vstd::string::StringExecFns;

use crate::store::entries_of;
use crate::throttle::{factor_of, SampleView, ThrottleSample, SCALE};

verus! {

/// The character of a decimal digit.
pub open spec fn digit_char(digit: nat) -> char {
    seq!['0', '1', '2', '3', '4', '5', '6', '7', '8', '9'][digit as int]
}

/// The decimal digits of a number, without leading zeros.
pub open spec fn decimal(n: nat) -> Seq<char>
    decreases n,
{
    if n < 10 {
        seq![digit_char(n)]
    } else {
        decimal(n / 10).push(digit_char(n % 10))
    }
}

/// The decimal digits of a number in groups of three, counted from the
/// right, with a comma between two groups.
pub open spec fn grouped(n: nat) -> Seq<char>
    decreases n,
{
    if n < 1000 {
        decimal(n)
    } else {
        grouped(n / 1000) + seq![
            ',',
            digit_char((n % 1000) / 100),
            digit_char((n % 100) / 10),
            digit_char(n % 10),
        ]
    }
}

/// The blocks gone through in a second, to the nearest whole number, for
/// `iterations` blocks in `elapsed_ms` milliseconds; zero while no time has
/// passed.
pub open spec fn rate_of(iterations: nat, elapsed_ms: nat) -> nat {
    if elapsed_ms == 0 {
        0
    } else {
        (iterations * 1000 + elapsed_ms / 2) / elapsed_ms
    }
}

/// A number of millionths in units of `unit` millionths, to the nearest
/// unit.
pub open spec fn rounded(millionths: nat, unit: nat) -> nat {
    (millionths + unit / 2) / unit
}

/// A number of tenths, written with one digit after the point.
pub open spec fn one_decimal(tenths: nat) -> Seq<char> {
    decimal(tenths / 10) + seq!['.', digit_char(tenths % 10)]
}

/// A number of hundredths, written with two digits after the point.
pub open spec fn two_decimals(hundredths: nat) -> Seq<char> {
    decimal(hundredths / 100) + seq![
        '.',
        digit_char((hundredths % 100) / 10),
        digit_char(hundredths % 10),
    ]
}

/// What the status line says of the throttles: both of them, where work is
/// scaled down, and nothing where it is not.
pub open spec fn throttle_note(sample: SampleView) -> Seq<char> {
    if factor_of(sample) < SCALE {
        " [THROTTLE: CPU="@ + two_decimals(rounded(sample.cpu_throttle, 10_000)) + ", GPU="@
            + two_decimals(rounded(sample.gpu_throttle, 10_000)) + "]"@
    } else {
        Seq::empty()
    }
}

/// The status line: a carriage return, so that it overwrites the line
/// before; the blocks gone through, with grouped digits; the blocks in a
/// second; both utilisations in percent; and the note on the throttles.
pub open spec fn status_text(iterations: nat, elapsed_ms: nat, sample: SampleView) -> Seq<char> {
    "\rProcessed: "@ + grouped(iterations) + " ("@ + decimal(rate_of(iterations, elapsed_ms))
        + "/s) | CPU: "@ + one_decimal(rounded(sample.cpu_usage, 1000)) + "% | GPU: "@
        + one_decimal(rounded(sample.gpu_usage, 1000)) + "%"@ + throttle_note(sample)
}

/// The line of one result in the list of seeds: the phrase, a space, the
/// weight, and a line feed.
pub open spec fn output_line(entry: (Seq<char>, usize)) -> Seq<char> {
    entry.0 + seq![' '] + decimal(entry.1 as nat) + seq!['\n']
}

/// The list of seeds: one line for each result, in order.
pub open spec fn output_text(entries: Seq<(Seq<char>, usize)>) -> Seq<char>
    decreases entries.len(),
{
    if entries.len() == 0 {
        Seq::empty()
    } else {
        output_text(entries.drop_last()) + output_line(entries.last())
    }
}

/// The entry of one result in the log: the phrase, its weight, the time
/// that the run took, and a rule.
pub open spec fn log_entry(entry: (Seq<char>, usize), elapsed: Seq<char>) -> Seq<char> {
    "Mnemonic: "@ + entry.0 + "\nTotal characters: "@ + decimal(entry.1 as nat)
        + "\nTime elapsed: "@ + elapsed + "\n----------------------------------\n"@
}

/// The log: one entry for each result, in order.
pub open spec fn log_text(entries: Seq<(Seq<char>, usize)>, elapsed: Seq<char>) -> Seq<char>
    decreases entries.len(),
{
    if entries.len() == 0 {
        Seq::empty()
    } else {
        log_text(entries.drop_last(), elapsed) + log_entry(entries.last(), elapsed)
    }
}

/// The text of one decimal digit.
fn digit_text(digit: u64) -> (text: &'static str)
    requires
        digit < 10,
    ensures
        text@ == seq![digit_char(digit as nat)],
{
    proof {
        reveal_strlit("0");
        reveal_strlit("1");
        reveal_strlit("2");
        reveal_strlit("3");
        reveal_strlit("4");
        reveal_strlit("5");
        reveal_strlit("6");
        reveal_strlit("7");
        reveal_strlit("8");
        reveal_strlit("9");
    }
    let text = if digit == 0 {
        "0"
    } else if digit == 1 {
        "1"
    } else if digit == 2 {
        "2"
    } else if digit == 3 {
        "3"
    } else if digit == 4 {
        "4"
    } else if digit == 5 {
        "5"
    } else if digit == 6 {
        "6"
    } else if digit == 7 {
        "7"
    } else if digit == 8 {
        "8"
    } else {
        "9"
    };
    text
}

/// Appends the decimal digits of `n` to `text`.
fn push_decimal(text: &mut String, n: u128)
    ensures
        final(text)@ == old(text)@ + decimal(n as nat),
    decreases n,
{
    if n < 10 {
        text.append(digit_text(n as u64));
    } else {
        push_decimal(text, n / 10);
        text.append(digit_text((n % 10) as u64));
    }
}

/// Appends `tenths` tenths, with one digit after the point, to `text`.
fn push_one_decimal(text: &mut String, tenths: u32)
    ensures
        final(text)@ == old(text)@ + one_decimal(tenths as nat),
{
    proof {
        reveal_strlit(".");
    }
    push_decimal(text, (tenths / 10) as u128);
    text.append(".");
    text.append(digit_text((tenths % 10) as u64));
}

/// Appends `hundredths` hundredths, with two digits after the point, to
/// `text`.
fn push_two_decimals(text: &mut String, hundredths: u32)
    ensures
        final(text)@ == old(text)@ + two_decimals(hundredths as nat),
{
    proof {
        reveal_strlit(".");
    }
    push_decimal(text, (hundredths / 100) as u128);
    text.append(".");
    text.append(digit_text(((hundredths % 100) / 10) as u64));
    text.append(digit_text((hundredths % 10) as u64));
}

/// Appends the digits of `n` in groups of three to `text`.
fn push_grouped(text: &mut String, n: u64)
    ensures
        final(text)@ == old(text)@ + grouped(n as nat),
    decreases n,
{
    if n < 1000 {
        push_decimal(text, n as u128);
    } else {
        push_grouped(text, n / 1000);
        proof {
            reveal_strlit(",");
        }
        text.append(",");
        text.append(digit_text((n % 1000) / 100));
        text.append(digit_text((n % 100) / 10));
        text.append(digit_text(n % 10));
    }
}

/// The decimal digits of `n` in groups of three, counted from the right,
/// with a comma between two groups: `1234567` gives `1,234,567`.
pub fn format_number(n: u64) -> (text: String)
    ensures
        text@ == grouped(n as nat),
{
    let mut text = String::new();
    push_grouped(&mut text, n);
    text
}

/// The blocks gone through in a second, to the nearest whole number, for
/// `iterations` blocks in `elapsed_ms` milliseconds; zero while no time has
/// passed.
pub fn rate(iterations: u64, elapsed_ms: u64) -> (per_second: u128)
    ensures
        per_second == rate_of(iterations as nat, elapsed_ms as nat),
{
    if elapsed_ms == 0 {
        0
    } else {
        (iterations as u128 * 1000 + (elapsed_ms / 2) as u128) / (elapsed_ms as u128)
    }
}

/// The status line for `iterations` blocks gone through in `elapsed_ms`
/// milliseconds under the given sample.
pub fn status_line(iterations: u64, elapsed_ms: u64, sample: &ThrottleSample) -> (text: String)
    ensures
        text@ == status_text(iterations as nat, elapsed_ms as nat, sample@),
{
    let cpu_usage = sample.cpu_usage().millionths();
    let gpu_usage = sample.gpu_usage().millionths();
    let cpu_throttle = sample.cpu_throttle().millionths();
    let gpu_throttle = sample.gpu_throttle().millionths();
    let mut text = String::new();
    text.append("\rProcessed: ");
    push_grouped(&mut text, iterations);
    text.append(" (");
    push_decimal(&mut text, rate(iterations, elapsed_ms));
    text.append("/s) | CPU: ");
    push_one_decimal(&mut text, (cpu_usage + 500) / 1000);
    text.append("% | GPU: ");
    push_one_decimal(&mut text, (gpu_usage + 500) / 1000);
    text.append("%");
    if sample.is_throttled() {
        text.append(" [THROTTLE: CPU=");
        push_two_decimals(&mut text, (cpu_throttle + 5000) / 10_000);
        text.append(", GPU=");
        push_two_decimals(&mut text, (gpu_throttle + 5000) / 10_000);
        text.append("]");
    }
    text
}

/// The list of seeds for the given results: for each, in order, a line with
/// the phrase, a space and the weight.
pub fn output_content(results: &Vec<(String, usize)>) -> (text: String)
    ensures
        text@ == output_text(entries_of(results@)),
{
    let ghost entries = entries_of(results@);
    let mut text = String::new();
    let mut i: usize = 0;
    while i < results.len()
        invariant
            i <= results.len(),
            entries == entries_of(results@),
            text@ == output_text(entries.take(i as int)),
        decreases results.len() - i,
    {
        proof {
            reveal_strlit(" ");
            reveal_strlit("\n");
            assert(entries.take(i + 1).drop_last() =~= entries.take(i as int));
        }
        let ghost before = text@;
        text.append(results[i].0.as_str());
        text.append(" ");
        push_decimal(&mut text, results[i].1 as u128);
        text.append("\n");
        i = i + 1;
    }
    assert(entries.take(results.len() as int) =~= entries);
    text
}

/// The log for the given results: for each, in order, the phrase, its
/// weight, the time that the run took as `elapsed` words it, and a rule.
pub fn log_content(results: &Vec<(String, usize)>, elapsed: &str) -> (text: String)
    ensures
        text@ == log_text(entries_of(results@), elapsed@),
{
    let ghost entries = entries_of(results@);
    let mut text = String::new();
    let mut i: usize = 0;
    while i < results.len()
        invariant
            i <= results.len(),
            entries == entries_of(results@),
            text@ == log_text(entries.take(i as int), elapsed@),
        decreases results.len() - i,
    {
        proof {
            assert(entries.take(i + 1).drop_last() =~= entries.take(i as int));
        }
        let ghost before = text@;
        text.append("Mnemonic: ");
        text.append(results[i].0.as_str());
        text.append("\nTotal characters: ");
        push_decimal(&mut text, results[i].1 as u128);
        text.append("\nTime elapsed: ");
        text.append(elapsed);
        text.append("\n----------------------------------\n");
        i = i + 1;
    }
    assert(entries.take(results.len() as int) =~= entries);
    text
}

} // verus!
