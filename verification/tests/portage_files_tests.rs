use remerge::makeconf::parse_make_conf_vars;
use remerge::portage_files::{
    arch_from_profile, arch_from_uname, choose_distdir, empty_accept_keywords_defaults,
    expand_set, known_set, parse_atom_with_values, parse_package_accept_keywords,
    parse_package_atoms, parse_package_env, parse_profile_packages, parse_repo_sections,
    parse_world, profile_from_link, python_targets, should_snapshot_repo, version_from_output,
    AtomValues, DistdirSource, KnownSet, PackageEnvEntry,
};

fn entry(atom: &str, values: &[&str]) -> AtomValues {
    AtomValues { atom: atom.to_string(), values: values.iter().map(|s| s.to_string()).collect() }
}

#[test]
fn package_use_lines_need_an_atom_and_flags() {
    let content = "# comment\n\ndev-libs/foo bar -baz\n  app-misc/lone  \nsys-apps/x\tpython_targets_python3_12\n";
    assert_eq!(
        parse_atom_with_values(content),
        vec![
            entry("dev-libs/foo", &["bar", "-baz"]),
            entry("sys-apps/x", &["python_targets_python3_12"]),
        ]
    );
}

#[test]
fn accept_keywords_fill_in_testing_keywords_for_a_lone_atom() {
    assert_eq!(empty_accept_keywords_defaults("amd64 ~arm64 -x86  arm"), vec!["~amd64", "~arm"]);
    let content = "dev-libs/foo\ndev-libs/bar **\n#x\n";
    assert_eq!(
        parse_package_accept_keywords(content, "amd64"),
        vec![entry("dev-libs/foo", &["~amd64"]), entry("dev-libs/bar", &["**"])]
    );
    assert_eq!(
        parse_package_accept_keywords("dev-libs/foo\n", ""),
        vec![entry("dev-libs/foo", &[])]
    );
}

#[test]
fn mask_files_list_one_atom_per_line() {
    assert_eq!(
        parse_package_atoms(">=dev-libs/foo-2 # too new\n\n# c\n=app-misc/bar-1*\n"),
        vec![">=dev-libs/foo-2", "=app-misc/bar-1*"]
    );
}

#[test]
fn package_env_maps_atoms_to_env_files() {
    assert_eq!(
        parse_package_env("dev-qt/qtwebengine no-lto.conf\nlonely/atom\n"),
        vec![PackageEnvEntry {
            atom: "dev-qt/qtwebengine".to_string(),
            env_file: "no-lto.conf".to_string()
        }]
    );
}

#[test]
fn world_and_profile_packages() {
    assert_eq!(parse_world("app-editors/vim\n\n# note\n  dev-vcs/git \n"), vec!["app-editors/vim", "dev-vcs/git"]);
    assert_eq!(
        parse_profile_packages("*sys-apps/baselayout\n* \n-*sys-apps/old\nsys-apps/not-system\n* app-shells/bash\n"),
        vec!["sys-apps/baselayout", "app-shells/bash"]
    );
}

#[test]
fn sets_expand_to_their_atoms_or_pass_through() {
    assert_eq!(known_set("@world"), Some(KnownSet::World));
    assert_eq!(known_set("@system"), Some(KnownSet::System));
    assert_eq!(known_set("@custom"), None);
    assert_eq!(expand_set("@world", Some(vec!["a/b".to_string()])), vec!["a/b"]);
    assert_eq!(expand_set("@world", Some(Vec::new())), vec!["@world"]);
    assert_eq!(expand_set("@custom", None), vec!["@custom"]);
}

#[test]
fn repos_conf_sections_with_locations() {
    let content = "[DEFAULT]\nmain-repo = gentoo\nlocation = /ignored\n\n[gentoo]\nlocation = /var/db/repos/gentoo\n\n[ local ]\nLocation=/var/db/repos/local\nsync-type = git\n\n[nolocation]\nsync-uri = x\n";
    assert_eq!(
        parse_repo_sections(content),
        vec![
            ("gentoo".to_string(), "/var/db/repos/gentoo".to_string()),
            ("local".to_string(), "/var/db/repos/local".to_string()),
        ]
    );
}

#[test]
fn the_main_repository_is_not_snapshotted() {
    assert!(!should_snapshot_repo("gentoo", "/var/db/repos/gentoo"));
    assert!(!should_snapshot_repo("Gentoo", "/elsewhere"));
    assert!(!should_snapshot_repo("main", "/var/db/repos/gentoo//"));
    assert!(should_snapshot_repo("local", "/var/db/repos/local"));
    assert!(should_snapshot_repo("local", "/var/db/repos/mygentoo"));
}

#[test]
fn profile_names_and_architectures() {
    assert_eq!(
        profile_from_link("../../var/db/repos/gentoo/profiles/default/linux/amd64/23.0"),
        "default/linux/amd64/23.0"
    );
    assert_eq!(profile_from_link("/custom/profile"), "/custom/profile");
    assert_eq!(arch_from_profile("default/linux/amd64/23.0").as_deref(), Some("amd64"));
    assert_eq!(arch_from_profile("default/linux/arm64/23.0").as_deref(), Some("arm64"));
    assert_eq!(arch_from_profile("default/linux/sparc/23.0"), None);
    assert_eq!(arch_from_uname(Some("x86_64\n")), "amd64");
    assert_eq!(arch_from_uname(Some("aarch64\n")), "arm64");
    assert_eq!(arch_from_uname(Some("riscv64\n")), "riscv64");
    assert_eq!(arch_from_uname(None), "amd64");
}

#[test]
fn versions_come_from_the_first_output_line() {
    assert_eq!(version_from_output(Some("gcc (Gentoo 14.2.1) 14.2.1\nCopyright\n")), "gcc (Gentoo 14.2.1) 14.2.1");
    assert_eq!(version_from_output(Some("")), "unknown");
    assert_eq!(version_from_output(None), "unknown");
}

#[test]
fn python_targets_are_the_words_of_the_variable() {
    let vars = parse_make_conf_vars("PYTHON_TARGETS=\"python3_12 python3_13\"\n");
    assert_eq!(python_targets(&vars), vec!["python3_12", "python3_13"]);
    assert!(python_targets(&parse_make_conf_vars("USE=x\n")).is_empty());
}

#[test]
fn distdir_choice_order() {
    assert_eq!(
        choose_distdir(Some(" /mnt/distfiles "), true, true, Some("/x")),
        DistdirSource::Environment("/mnt/distfiles".to_string())
    );
    assert_eq!(choose_distdir(Some("  "), true, true, None), DistdirSource::UnderRoot);
    assert_eq!(choose_distdir(None, false, false, Some("/x")), DistdirSource::Default);
    assert_eq!(choose_distdir(None, false, true, Some("/x")), DistdirSource::Portageq("/x".to_string()));
    assert_eq!(choose_distdir(None, false, true, Some("")), DistdirSource::Default);
}
