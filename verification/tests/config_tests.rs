use gpuseed::config::{
    check_settings, chosen_kind, needs_setup, trim, wants_gpu, Config, GpuKind, SettingsError,
    MAX_BATCH_SIZE, MAX_COUNT, MAX_THRESHOLD,
};

#[test]
fn settings_in_range_are_taken() {
    assert_eq!(check_settings(46, 5, 8192), Ok(()));
    assert_eq!(check_settings(1, 1, 1), Ok(()));
    assert_eq!(check_settings(200, 1000, 1_000_000), Ok(()));
    assert_eq!(MAX_THRESHOLD, 200);
    assert_eq!(MAX_COUNT, 1000);
    assert_eq!(MAX_BATCH_SIZE, 1_000_000);
}

#[test]
fn threshold_out_of_range() {
    assert_eq!(check_settings(0, 5, 8192), Err(SettingsError::Threshold));
    assert_eq!(check_settings(201, 5, 8192), Err(SettingsError::Threshold));
    assert_eq!(check_settings(usize::MAX, 5, 8192), Err(SettingsError::Threshold));
}

#[test]
fn count_out_of_range() {
    assert_eq!(check_settings(46, 0, 8192), Err(SettingsError::Count));
    assert_eq!(check_settings(46, 1001, 8192), Err(SettingsError::Count));
}

#[test]
fn batch_size_out_of_range() {
    assert_eq!(check_settings(46, 5, 0), Err(SettingsError::BatchSize));
    assert_eq!(check_settings(46, 5, 1_000_001), Err(SettingsError::BatchSize));
}

#[test]
fn first_setting_out_of_range_is_reported() {
    assert_eq!(check_settings(0, 0, 0), Err(SettingsError::Threshold));
    assert_eq!(check_settings(46, 0, 0), Err(SettingsError::Count));
    assert_eq!(check_settings(500, 5, 0), Err(SettingsError::Threshold));
}

#[test]
fn messages_name_the_range() {
    assert_eq!(SettingsError::Threshold.message(), "Error: Threshold must be between 1 and 200");
    assert_eq!(SettingsError::Count.message(), "Error: Count must be between 1 and 1000");
    assert_eq!(
        SettingsError::BatchSize.message(),
        "Error: Batch size must be between 1 and 1,000,000"
    );
}

#[test]
fn config_stores_the_kind() {
    let config = Config::with_gpu_type("nvidia");
    assert_eq!(config.gpu_type.as_deref(), Some("nvidia"));
    let config = Config::with_gpu_type(GpuKind::Cpu.name());
    assert_eq!(config.gpu_type.as_deref(), Some("cpu"));
}

#[test]
fn setup_is_needed_without_a_stored_choice() {
    let stored = Some(Config::with_gpu_type("amd"));
    assert!(!needs_setup(false, &stored));
    assert!(needs_setup(true, &stored));
    assert!(needs_setup(false, &None));
    assert!(needs_setup(true, &None));
}

#[test]
fn only_one_asks_for_the_accelerator() {
    assert!(wants_gpu("1"));
    assert!(!wants_gpu("2"));
    assert!(!wants_gpu(""));
    assert!(!wants_gpu("11"));
    assert!(!wants_gpu("yes"));
    assert!(!wants_gpu("1 1"));
}

#[test]
fn answers_are_read_without_the_white_space_around_them() {
    assert!(wants_gpu("1\n"));
    assert!(wants_gpu("  1\r\n"));
    assert!(wants_gpu("\t1 "));
    assert!(!wants_gpu("\n"));
    assert!(!wants_gpu(" 2 \n"));
    assert_eq!(chosen_kind(" 2\n"), (GpuKind::Amd, true));
    assert_eq!(chosen_kind("1\n"), (GpuKind::Nvidia, true));
    assert_eq!(chosen_kind("nvidia\n"), (GpuKind::Nvidia, false));
    assert_eq!(chosen_kind("\n"), (GpuKind::Nvidia, false));
}

#[test]
fn trim_takes_white_space_off_both_ends() {
    assert_eq!(trim(""), "");
    assert_eq!(trim("   "), "");
    assert_eq!(trim("\n"), "");
    assert_eq!(trim("a"), "a");
    assert_eq!(trim(" a"), "a");
    assert_eq!(trim("a "), "a");
    assert_eq!(trim("  a b  c \r\n"), "a b  c");
    assert_eq!(trim("\u{3000}\u{e9}t\u{e9}\u{a0}"), "\u{e9}t\u{e9}");
    for text in ["", " ", "x", " x", "x ", " x y ", "\t\tx\n\n", "1\n", " \u{2003}z\u{2003} "] {
        assert_eq!(trim(text), text.trim());
    }
}

#[test]
fn kinds_by_answer() {
    assert_eq!(chosen_kind("1"), (GpuKind::Nvidia, true));
    assert_eq!(chosen_kind("2"), (GpuKind::Amd, true));
    assert_eq!(chosen_kind("3"), (GpuKind::Nvidia, false));
    assert_eq!(chosen_kind(""), (GpuKind::Nvidia, false));
    assert_eq!(chosen_kind("12"), (GpuKind::Nvidia, false));
}

#[test]
fn kind_names_and_use() {
    assert_eq!(GpuKind::Nvidia.name(), "nvidia");
    assert_eq!(GpuKind::Amd.name(), "amd");
    assert_eq!(GpuKind::Cpu.name(), "cpu");
    assert!(GpuKind::Nvidia.uses_gpu());
    assert!(GpuKind::Amd.uses_gpu());
    assert!(!GpuKind::Cpu.uses_gpu());
}
