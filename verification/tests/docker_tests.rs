use remerge::docker::{
    generate_dockerfile, image_tag, image_tuple_key, plan_image_reaping, worker_binds, worker_env,
    ImageUse,
};

fn expected_dockerfile(base: &str, install: &str, cross: &str, mount: &str) -> String {
    format!(
        r#"FROM {base}

{install}

# Set up portage for building.
RUN emerge --sync --quiet || true
{cross}
# Create binpkg output directory.
RUN mkdir -p {mount}

# Default FEATURES for binary package creation.
RUN echo 'FEATURES="buildpkg noclean"' >> /etc/portage/make.conf && \
    echo 'PKGDIR="{mount}"' >> /etc/portage/make.conf

WORKDIR /root

# The entrypoint will be the remerge-worker binary.
ENTRYPOINT ["/usr/local/bin/remerge-worker"]
"#
    )
}

fn expected_crossdev(chost: &str) -> String {
    format!(
        r#"
# ── Crossdev toolchain for {chost} ──────────────────────────
# Install crossdev and build the cross toolchain.
# The emerge-{chost} wrapper is created automatically.
RUN emerge --oneshot --quiet sys-devel/crossdev && \
    crossdev --stable -t {chost}

# Set CHOST and CBUILD so portage knows this is a cross-build.
# (remerge-worker will also write these, but having them in the
# base image speeds up subsequent builds.)
RUN echo 'CHOST="{chost}"' >> /etc/portage/make.conf && \
    echo 'CBUILD="x86_64-pc-linux-gnu"' >> /etc/portage/make.conf
"#
    )
}

#[test]
fn image_tags_are_sanitised() {
    assert_eq!(
        image_tag("remerge-worker", "x86_64-pc-linux-gnu", "default/linux/amd64/23.0", "gcc (Gentoo 13.2.1_p20240113) 13.2.1"),
        "remerge-worker:x86_64-pc-linux-gnu-default-linux-amd64-23.0-gcc13_2_1"
    );
    assert_eq!(
        image_tag("w", "aarch64-unknown-linux-gnu", "p", "   "),
        "w:aarch64-unknown-linux-gnu-p-gccunknown"
    );
}

#[test]
fn tuple_key_drops_prefix_and_gcc_suffix() {
    assert_eq!(
        image_tuple_key("remerge-worker:x86_64-pc-linux-gnu-default-linux-amd64-23_0-gcc13_2_1"),
        "x86_64-pc-linux-gnu-default-linux-amd64-23_0"
    );
    assert_eq!(image_tuple_key("no-colon-gcc1-gcc2"), "no-colon-gcc1");
    assert_eq!(image_tuple_key("p:plain"), "plain");
}

#[test]
fn native_dockerfile() {
    let text = generate_dockerfile("x86_64-pc-linux-gnu", "amd64", false, "/var/cache/binpkgs");
    assert_eq!(
        text,
        expected_dockerfile(
            "gentoo/stage3:latest",
            "# Worker binary must be pre-installed in the image or mounted at runtime.",
            "",
            "/var/cache/binpkgs"
        )
    );
    let arm = generate_dockerfile("x86_64-pc-linux-gnu", "arm64", true, "/b");
    assert!(arm.starts_with("FROM gentoo/stage3:arm64-latest\n\n# Install remerge-worker binary from build context.\nCOPY remerge-worker /usr/local/bin/remerge-worker\nRUN chmod +x /usr/local/bin/remerge-worker\n\n"));
}

#[test]
fn cross_dockerfile() {
    let chost = "aarch64-unknown-linux-gnu";
    let text = generate_dockerfile(chost, "arm64", false, "/b");
    assert_eq!(
        text,
        expected_dockerfile(
            "gentoo/stage3:latest",
            "# Worker binary must be pre-installed in the image or mounted at runtime.",
            &expected_crossdev(chost),
            "/b"
        )
    );
}

#[test]
fn worker_mounts_and_environment() {
    assert_eq!(worker_binds("/srv/binpkgs", "/var/cache/binpkgs", None), vec!["/srv/binpkgs:/var/cache/binpkgs".to_string()]);
    assert_eq!(
        worker_binds("/srv/binpkgs", "/m", Some("/etc/remerge/gnupg")),
        vec!["/srv/binpkgs:/m".to_string(), "/etc/remerge/gnupg:/var/cache/remerge/gnupg:ro".to_string()]
    );
    assert_eq!(
        worker_env("{}", Some("ABCD"), true, 8),
        vec![
            "REMERGE_WORKORDER={}".to_string(),
            "REMERGE_GPG_KEY=ABCD".to_string(),
            "REMERGE_GPG_HOME=/var/cache/remerge/gnupg".to_string(),
            "REMERGE_PARALLEL_JOBS=8".to_string(),
        ]
    );
    assert_eq!(worker_env("x", None, false, 1).len(), 2);
}

#[test]
fn reaper_keeps_the_newest_image_of_each_group() {
    const S: u64 = 1_000_000_000;
    let imgs = vec![
        ImageUse { tag: "w:a-p-gcc12".to_string(), last_used_nanos: 100 * S },
        ImageUse { tag: "w:a-p-gcc13".to_string(), last_used_nanos: 200 * S },
        ImageUse { tag: "w:b-p-gcc13".to_string(), last_used_nanos: 50 * S },
        ImageUse { tag: "w:a-p-gcc14".to_string(), last_used_nanos: 900 * S },
    ];
    // Idle timeout 60 s at t = 1000 s: all but gcc14 are idle; b has one image.
    assert_eq!(plan_image_reaping(&imgs, 1000 * S, 60), vec!["w:a-p-gcc12".to_string(), "w:a-p-gcc13".to_string()]);
    assert!(plan_image_reaping(&imgs, 1000 * S, 10_000).is_empty());
}
