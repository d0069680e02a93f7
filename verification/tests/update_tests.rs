use fwaifu::update::{FetchFailure, Line, Update, UpdateAction, UpdateEvent, UpdatePhase};

fn texts(lines: &[Line]) -> Vec<(bool, String)> {
    lines.iter().map(|l| (l.to_stderr, l.text.clone())).collect()
}

const HINT: &str = "  curl -fsSL https://raw.githubusercontent.com/cublueer/fwaifu/main/install.sh | bash";

#[test]
fn newer_version_is_installed_after_yes() {
    let (mut u, lines, action) = Update::start(false, "0.1.0");
    assert!(lines.is_empty() && matches!(action, UpdateAction::Fetch));
    let body = "[package]\nname = \"fwaifu\"\nversion = \"0.2.0\"\n".to_string();
    let (lines, action) = u.step(UpdateEvent::Fetched(Ok(body)));
    assert_eq!(
        texts(&lines),
        vec![(false, "Current version: 0.1.0".to_string()), (false, "Latest version:  0.2.0".to_string())]
    );
    assert!(matches!(action, UpdateAction::CheckGit));
    let (lines, action) = u.step(UpdateEvent::GitFound(true));
    assert!(lines.is_empty());
    assert!(matches!(action, UpdateAction::Prompt(ref p) if p == "Install update? [y/N] "));
    let (lines, action) = u.step(UpdateEvent::Answer(Some(" Y\n".to_string())));
    assert_eq!(texts(&lines), vec![(false, "Cloning repository...".to_string())]);
    assert!(matches!(action, UpdateAction::Clone));
    let (lines, action) = u.step(UpdateEvent::Cloned(true));
    assert_eq!(texts(&lines), vec![(false, "Running install.sh...".to_string())]);
    assert!(matches!(action, UpdateAction::Install));
    let (lines, action) = u.step(UpdateEvent::Installed(true));
    assert!(lines.is_empty() && matches!(action, UpdateAction::RemoveTemp));
    let (lines, action) = u.step(UpdateEvent::Removed);
    assert_eq!(texts(&lines), vec![(false, "Update complete!".to_string())]);
    assert!(matches!(action, UpdateAction::Stop));
    assert_eq!(u.phase, UpdatePhase::Done);
}

#[test]
fn same_version_is_up_to_date() {
    let (mut u, _, _) = Update::start(false, "0.1.0");
    let (lines, action) = u.step(UpdateEvent::Fetched(Ok("version = \"0.1.0\"".to_string())));
    assert_eq!(texts(&lines).last().unwrap(), &(false, "Already up to date.".to_string()));
    assert_eq!(lines.len(), 3);
    assert!(matches!(action, UpdateAction::Stop));
}

#[test]
fn missing_version_reads_as_zero() {
    let (mut u, _, _) = Update::start(false, "0.1.0");
    let (lines, _) = u.step(UpdateEvent::Fetched(Ok("nothing".to_string())));
    assert_eq!(texts(&lines)[1], (false, "Latest version:  0.0.0".to_string()));
}

#[test]
fn fetch_failures_are_reported() {
    let (mut u, _, _) = Update::start(false, "0.1.0");
    let (lines, action) = u.step(UpdateEvent::Fetched(Err(FetchFailure::Request("timeout".to_string()))));
    assert_eq!(texts(&lines), vec![(true, "Failed to check for updates: timeout".to_string())]);
    assert!(matches!(action, UpdateAction::Stop));
    let (mut u, _, _) = Update::start(false, "0.1.0");
    let (lines, _) = u.step(UpdateEvent::Fetched(Err(FetchFailure::Body("eof".to_string()))));
    assert_eq!(texts(&lines), vec![(true, "Failed to read remote version: eof".to_string())]);
}

#[test]
fn forced_update_skips_the_check() {
    let (mut u, lines, action) = Update::start(true, "0.1.0");
    assert_eq!(texts(&lines), vec![(false, "Forcing reinstall of version 0.1.0...".to_string())]);
    assert!(matches!(action, UpdateAction::CheckGit));
    let (lines, action) = u.step(UpdateEvent::GitFound(false));
    assert_eq!(
        texts(&lines),
        vec![
            (false, "git is not installed. Install it first, or update manually:".to_string()),
            (false, HINT.to_string())
        ]
    );
    assert!(matches!(action, UpdateAction::Stop));
}

#[test]
fn refusal_and_failures_end_the_update() {
    let (mut u, _, _) = Update::start(true, "0.1.0");
    u.step(UpdateEvent::GitFound(true));
    let (lines, action) = u.step(UpdateEvent::Answer(Some("yes".to_string())));
    assert_eq!(texts(&lines), vec![(false, "Update cancelled.".to_string())]);
    assert!(matches!(action, UpdateAction::Stop));

    let (mut u, _, _) = Update::start(true, "0.1.0");
    u.step(UpdateEvent::GitFound(true));
    let (lines, _) = u.step(UpdateEvent::Answer(None));
    assert_eq!(texts(&lines), vec![(false, "Update cancelled.".to_string())]);

    let (mut u, _, _) = Update::start(true, "0.1.0");
    u.step(UpdateEvent::GitFound(true));
    u.step(UpdateEvent::Answer(Some("y".to_string())));
    let (lines, action) = u.step(UpdateEvent::Cloned(false));
    assert_eq!(
        texts(&lines),
        vec![(true, "Failed to clone repository. Update manually:".to_string()), (true, HINT.to_string())]
    );
    assert!(matches!(action, UpdateAction::RemoveTemp));
    let (lines, action) = u.step(UpdateEvent::Removed);
    assert!(lines.is_empty() && matches!(action, UpdateAction::Stop));

    let (mut u, _, _) = Update::start(true, "0.1.0");
    u.step(UpdateEvent::GitFound(true));
    u.step(UpdateEvent::Answer(Some("y".to_string())));
    u.step(UpdateEvent::Cloned(true));
    u.step(UpdateEvent::Installed(false));
    let (lines, _) = u.step(UpdateEvent::Removed);
    assert_eq!(
        texts(&lines),
        vec![(true, "Install failed. You can try manually:".to_string()), (true, HINT.to_string())]
    );
}

#[test]
fn update_repeats_pending_request() {
    let (mut u, _, _) = Update::start(false, "0.1.0");
    let (lines, action) = u.step(UpdateEvent::Removed);
    assert!(lines.is_empty() && matches!(action, UpdateAction::Fetch));
    assert_eq!(u.phase, UpdatePhase::Fetching);
}

#[test]
fn versions_compare_as_numbers() {
    let (mut u, _, _) = Update::start(false, "0.1.9");
    let (lines, action) = u.step(UpdateEvent::Fetched(Ok("[package]\nversion = \"0.1.10\"\n".to_string())));
    assert_eq!(
        texts(&lines),
        vec![(false, "Current version: 0.1.9".to_string()), (false, "Latest version:  0.1.10".to_string())]
    );
    assert!(matches!(action, UpdateAction::CheckGit));
    u.step(UpdateEvent::GitFound(true));
    let (lines, action) = u.step(UpdateEvent::Answer(Some("n\n".to_string())));
    assert_eq!(texts(&lines), vec![(false, "Update cancelled.".to_string())]);
    assert!(matches!(action, UpdateAction::Stop));

    let (mut u, _, _) = Update::start(false, "0.1.10");
    let (lines, action) = u.step(UpdateEvent::Fetched(Ok("version = \"0.1.9\"".to_string())));
    assert_eq!(texts(&lines).last().unwrap(), &(false, "Already up to date.".to_string()));
    assert!(matches!(action, UpdateAction::Stop));
}
