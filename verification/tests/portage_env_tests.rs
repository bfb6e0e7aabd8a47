use remerge::cflags::{CflagsError, NativeProbes};
use remerge::portage_env::{
    effective_make_conf, effective_var, portageq_variables, strip_use_expand_flags,
    use_expand_keys, PortageqAnswers,
};
use remerge::strmap::StrMap;

fn vars(entries: &[(&str, &str)]) -> StrMap<String> {
    let mut m = StrMap::new();
    for (k, v) in entries {
        m.insert(k.to_string(), v.to_string());
    }
    m
}

fn answers(queryable: bool, entries: &[(&str, Option<&str>)]) -> PortageqAnswers {
    let mut m = StrMap::new();
    for (k, v) in entries {
        m.insert(k.to_string(), v.map(|s| s.to_string()));
    }
    PortageqAnswers { queryable, answers: m }
}

fn probes() -> NativeProbes {
    NativeProbes {
        resolve_march_native: Some("-march=znver3 -mtune=znver3\n".to_string()),
        gcc_target_help: None,
        cpuid2cpuflags: Some("CPU_FLAGS_X86: aes avx\n".to_string()),
        portageq_chost: None,
        gcc_dumpmachine: Some("x86_64-pc-linux-gnu\n".to_string()),
        uname_machine: None,
    }
}

fn strings(v: &[&str]) -> Vec<String> {
    v.iter().map(|s| s.to_string()).collect()
}

#[test]
fn without_portageq_make_conf_is_read_as_written() {
    let v = vars(&[
        ("CFLAGS", "-O2 -march=native -pipe"),
        ("CXXFLAGS", "${CFLAGS}"),
        ("USE", "X wayland"),
        ("FEATURES", "buildpkg  parallel-fetch"),
        ("PYTHON_TARGETS", "python3_12"),
        ("VIDEO_CARDS", "amdgpu"),
        ("CUSTOM_VAR", "1"),
    ]);
    let q = answers(false, &[("USE", Some("ignored"))]);
    let c = effective_make_conf(&v, &q, &probes()).unwrap();
    assert_eq!(c.cflags, "-O2 -march=znver3 -pipe");
    assert_eq!(c.original_cflags.as_deref(), Some("-O2 -march=native -pipe"));
    assert_eq!(c.cxxflags, "${CFLAGS}");
    assert!(c.use_flags.is_empty());
    assert!(c.use_flags_resolved);
    assert_eq!(c.features, strings(&["buildpkg", "parallel-fetch"]));
    assert_eq!(c.chost, "x86_64-pc-linux-gnu");
    assert_eq!(c.cpu_flags, Some(("CPU_FLAGS_X86".to_string(), strings(&["aes", "avx"]))));
    assert_eq!(c.use_expand.len(), 0);
    assert_eq!(c.extra.len(), 1);
    assert_eq!(c.extra.get("CUSTOM_VAR").map(|s| s.as_str()), Some("1"));
    assert_eq!(c.ldflags, "");
}

#[test]
fn portageq_answers_are_preferred_and_expand_flags_stripped() {
    let v = vars(&[
        ("CFLAGS", "-O2 -march=native"),
        ("CXXFLAGS", "-O2 -march=native"),
        ("USE", "X"),
        ("ABI_X86", "64"),
        ("CHOST", "from-make-conf"),
        ("GENTOO_MIRRORS", "https://mirror.example"),
    ]);
    let q = answers(
        true,
        &[
            ("USE_EXPAND", Some("PYTHON_TARGETS VIDEO_CARDS CPU_FLAGS_X86\n")),
            ("USE_EXPAND_UNPREFIXED", None),
            ("USE_EXPAND_HIDDEN", Some("ABI_X86")),
            (
                "USE",
                Some("X abi_x86_64 python_targets_python3_12 video_cards_amdgpu wayland cpu_flags_x86_aes"),
            ),
            ("PYTHON_TARGETS", Some("python3_12 python3_13")),
            ("VIDEO_CARDS", Some("")),
            ("CFLAGS", Some("-O3 -pipe\n")),
            ("CHOST", Some("")),
        ],
    );
    let c = effective_make_conf(&v, &q, &probes()).unwrap();
    assert_eq!(c.cflags, "-O3 -pipe");
    assert_eq!(c.original_cflags, None);
    assert_eq!(c.cxxflags, "-O2 -march=znver3");
    assert_eq!(c.use_flags, strings(&["X", "wayland"]));
    assert!(c.use_flags_resolved);
    assert_eq!(c.chost, "from-make-conf");
    assert_eq!(c.use_expand.len(), 2);
    assert_eq!(c.use_expand.get("ABI_X86"), Some(&strings(&["64"])));
    assert_eq!(c.use_expand.get("PYTHON_TARGETS"), Some(&strings(&["python3_12", "python3_13"])));
    assert_eq!(c.use_expand.get("VIDEO_CARDS"), None);
    assert_eq!(c.use_expand.get("CPU_FLAGS_X86"), None);
    assert_eq!(c.extra.len(), 1);
    assert!(c.extra.get("GENTOO_MIRRORS").is_some());
}

#[test]
fn failed_use_query_falls_back_to_make_conf() {
    let v = vars(&[("USE", "X  alsa")]);
    let q = answers(true, &[("USE", None)]);
    let c = effective_make_conf(&v, &q, &probes()).unwrap();
    assert_eq!(c.use_flags, strings(&["X", "alsa"]));
    assert!(!c.use_flags_resolved);
}

#[test]
fn no_chost_anywhere_is_an_error() {
    let mut p = probes();
    p.gcc_dumpmachine = None;
    let r = effective_make_conf(&vars(&[]), &answers(false, &[]), &p);
    assert_eq!(r.err(), Some(CflagsError::UnameFailed));
}

#[test]
fn expand_keys_are_sorted_and_unique_or_the_fallback() {
    let q = answers(
        true,
        &[("USE_EXPAND", Some("VIDEO_CARDS L10N")), ("USE_EXPAND_HIDDEN", Some("L10N ABI_X86"))],
    );
    assert_eq!(use_expand_keys(&q), strings(&["ABI_X86", "L10N", "VIDEO_CARDS"]));
    let none = answers(true, &[]);
    let fallback = use_expand_keys(&none);
    assert_eq!(fallback.len(), 11);
    assert_eq!(fallback[0], "ABI_X86");
    assert_eq!(fallback[10], "LLVM_TARGETS");
}

#[test]
fn stripping_uses_the_fallback_prefixes_without_answers() {
    let q = answers(true, &[]);
    let flags = strings(&["abi_mips_n64", "cpu_flags_arm_neon", "l10n_de", "ssl", "l10nx"]);
    assert_eq!(strip_use_expand_flags(flags, &q), strings(&["ssl", "l10nx"]));
}

#[test]
fn effective_value_prefers_a_non_empty_answer() {
    let v = vars(&[("MAKEOPTS", "-j4")]);
    assert_eq!(effective_var(&v, &answers(true, &[("MAKEOPTS", Some(" -j16 "))]), "MAKEOPTS"), "-j16");
    assert_eq!(effective_var(&v, &answers(true, &[("MAKEOPTS", Some("  "))]), "MAKEOPTS"), "-j4");
    assert_eq!(effective_var(&v, &answers(false, &[("MAKEOPTS", Some("-j16"))]), "MAKEOPTS"), "-j4");
    assert_eq!(effective_var(&v, &answers(true, &[]), "LDFLAGS"), "");
}

#[test]
fn portageq_is_asked_for_settings_and_expand_variables() {
    let vars = portageq_variables(&strings(&["L10N"]));
    assert_eq!(vars.len(), 11);
    assert_eq!(vars[0], "CFLAGS");
    assert_eq!(vars[10], "L10N");
}
