use remerge::status_bar::{base_phase, render, BarOutput, StatusBar, StatusBarMode};

#[test]
fn tty_bar_draws_hides_shows_and_finishes() {
    let mut bar = StatusBar::init(false, true);
    assert_eq!(bar.mode, StatusBarMode::Tty);
    assert!(bar.hidden);
    assert_eq!(bar.show(), BarOutput::Nothing);
    assert_eq!(
        bar.set_phase("Syncing".to_string()),
        BarOutput::Draw { phase: "Syncing".to_string(), restart_timer: true }
    );
    assert_eq!(bar.hide_bar(), BarOutput::Clear);
    assert_eq!(bar.hide_bar(), BarOutput::Nothing);
    assert_eq!(
        bar.show(),
        BarOutput::Draw { phase: "Syncing".to_string(), restart_timer: false }
    );
    assert_eq!(
        bar.println("hello"),
        BarOutput::Compose { message: "hello".to_string(), phase: "Syncing".to_string() }
    );
    assert_eq!(bar.finish(), BarOutput::Clear);
    assert!(bar.finished);
    assert_eq!(bar.tick(), None);
    assert_eq!(bar.println("bye"), BarOutput::Line("bye".to_string()));
    assert_eq!(bar.show(), BarOutput::Nothing);
    assert!(bar.hidden);
    assert_eq!(bar.println("after"), BarOutput::Line("after".to_string()));
}

#[test]
fn log_line_mode_ignores_heartbeat_updates() {
    let mut bar = StatusBar::init(false, false);
    assert_eq!(
        bar.set_phase("Syncing".to_string()),
        BarOutput::Line("remerge: Syncing".to_string())
    );
    assert_eq!(bar.set_phase("Syncing (42s)\u{2026}".to_string()), BarOutput::Nothing);
    assert_eq!(bar.set_phase("Syncing (43s)...".to_string()), BarOutput::Nothing);
}

#[test]
fn log_line_bar_prints_phase_changes_only() {
    let mut bar = StatusBar::init(false, false);
    assert_eq!(bar.mode, StatusBarMode::LogLine);
    assert_eq!(
        bar.set_phase("Building".to_string()),
        BarOutput::Line("remerge: Building".to_string())
    );
    assert_eq!(bar.set_phase("Building".to_string()), BarOutput::Nothing);
    assert_eq!(bar.hide_bar(), BarOutput::Nothing);
    assert_eq!(bar.finish(), BarOutput::Nothing);
}

#[test]
fn quiet_bar_is_silent() {
    let mut bar = StatusBar::init(true, true);
    assert_eq!(bar.mode, StatusBarMode::Silent);
    assert_eq!(bar.set_phase("x".to_string()), BarOutput::Nothing);
    assert_eq!(bar.phase, "");
}

#[test]
fn heartbeat_suffix_is_stripped_by_base_phase() {
    assert_eq!(base_phase("Syncing (42s)\u{2026}"), "Syncing");
    assert_eq!(base_phase("Syncing (42s)..."), "Syncing");
    assert_eq!(base_phase("Syncing"), "Syncing");
    assert_eq!(base_phase("Build (x)"), "Build (x)");
    assert_eq!(base_phase("Build (s)..."), "Build (s)...");
    assert_eq!(base_phase("A (1s) b (7s)\u{2026}"), "A (1s) b");
    assert_eq!(base_phase("plain"), "plain");
}

#[test]
fn render_truncates_to_width() {
    assert_eq!(render("phase", 0, 80), " \u{22ef} phase");
    assert_eq!(render("phase", 3, 80), " \u{22ef} phase [3s]");
    assert_eq!(render("abcdefghij", 0, 10), " \u{22ef} abcd\u{2026}");
}
