use remerge::verbosity::Verbosity;

fn args(v: &[&str]) -> Vec<String> {
    v.iter().map(|s| s.to_string()).collect()
}

#[test]
fn explicit_flags_win_over_default_opts() {
    assert_eq!(Verbosity::from_flags(true, 3, "--verbose"), Verbosity::Quiet);
    assert_eq!(Verbosity::from_flags(false, 1, "--quiet"), Verbosity::Verbose);
    assert_eq!(Verbosity::from_flags(false, 2, ""), Verbosity::VerboseDebug);
    assert_eq!(Verbosity::from_flags(false, 9, ""), Verbosity::VerboseTrace);
}

#[test]
fn default_opts_are_consulted_without_flags() {
    assert_eq!(Verbosity::from_flags(false, 0, ""), Verbosity::Normal);
    assert_eq!(Verbosity::from_flags(false, 0, "--jobs=4 --quiet"), Verbosity::Quiet);
    assert_eq!(Verbosity::from_flags(false, 0, "--ask --verbose"), Verbosity::Verbose);
}

#[test]
fn default_opts_clusters_and_repeats() {
    assert_eq!(Verbosity::from_emerge_default_opts("-vv"), Verbosity::VerboseDebug);
    assert_eq!(Verbosity::from_emerge_default_opts("-v -v -v"), Verbosity::VerboseTrace);
    assert_eq!(Verbosity::from_emerge_default_opts("-vq"), Verbosity::VerboseDebug);
    assert_eq!(Verbosity::from_emerge_default_opts("-qv"), Verbosity::Quiet);
    assert_eq!(Verbosity::from_emerge_default_opts("--verbose -q"), Verbosity::Quiet);
    assert_eq!(Verbosity::from_emerge_default_opts("--jobs=4"), Verbosity::Normal);
}

#[test]
fn early_detect_reads_raw_arguments() {
    assert_eq!(Verbosity::early_detect(&args(&["-v", "world"])), Verbosity::Verbose);
    assert_eq!(Verbosity::early_detect(&args(&["-vvv", "@world"])), Verbosity::VerboseTrace);
    assert_eq!(Verbosity::early_detect(&args(&["-v", "-q"])), Verbosity::Quiet);
    assert_eq!(Verbosity::early_detect(&args(&["--verbose"])), Verbosity::Normal);
    assert_eq!(Verbosity::early_detect(&args(&["-va"])), Verbosity::Normal);
    assert_eq!(Verbosity::early_detect(&[]), Verbosity::Normal);
}

#[test]
fn levels_map_to_log_levels_and_emerge_flags() {
    assert_eq!(Verbosity::Quiet.rust_log_level(), "error");
    assert_eq!(Verbosity::Normal.rust_log_level(), "warn");
    assert_eq!(Verbosity::Verbose.rust_log_level(), "info");
    assert_eq!(Verbosity::VerboseDebug.rust_log_level(), "debug");
    assert_eq!(Verbosity::VerboseTrace.rust_log_level(), "trace");
    assert_eq!(Verbosity::Quiet.emerge_flag(), Some("--quiet"));
    assert_eq!(Verbosity::Normal.emerge_flag(), None);
    assert_eq!(Verbosity::VerboseTrace.emerge_flag(), Some("--verbose"));
    assert!(Verbosity::VerboseDebug.is_verbose());
    assert!(!Verbosity::Normal.is_verbose());
    assert!(Verbosity::Quiet.is_quiet());
    assert_eq!(Verbosity::default(), Verbosity::Normal);
}
