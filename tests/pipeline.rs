use ahc_tools::{
    answer_is_yes, is_affirmative, list_updated_files, Action, CommitArgs, CommitError,
    CommitSession, DiffEntry, Event, ExecResult, Stage,
};

fn entry(path: &str, is_dir: bool) -> DiffEntry {
    DiffEntry {
        path: path.to_string(),
        is_dir,
    }
}

fn started(message: &str) -> CommitSession {
    let mut session = CommitSession::new(CommitArgs {
        message: message.to_string(),
    });
    assert_eq!(session.step(Event::Begin), Action::ListChanges);
    session
}

#[test]
fn empty_message_is_refused_before_listing() {
    let mut session = CommitSession::new(CommitArgs {
        message: String::new(),
    });
    assert_eq!(
        session.step(Event::Begin),
        Action::Fail(CommitError::EmptyMessage)
    );
    assert_eq!(session.stage, Stage::Failed);
}

#[test]
fn no_staged_changes_is_nothing_to_commit() {
    let mut session = started("msg");
    assert_eq!(
        session.step(Event::Changes(vec![])),
        Action::Fail(CommitError::NothingToCommit)
    );
    assert_eq!(session.step(Event::Committed), Action::Ignore);
    assert_eq!(session.stage, Stage::Failed);
}

#[test]
fn only_directories_is_nothing_to_commit() {
    let mut session = started("msg");
    assert_eq!(
        session.step(Event::Changes(vec![entry("sub", true)])),
        Action::Fail(CommitError::NothingToCommit)
    );
}

#[test]
fn no_result_file_asks_and_commits_on_yes() {
    let mut session = started("plain message");
    assert_eq!(
        session.step(Event::Changes(vec![entry("main.rs", false)])),
        Action::Ask
    );
    assert_eq!(
        session.step(Event::Answer(" Y\n".to_string())),
        Action::Commit("plain message".to_string())
    );
    assert_eq!(session.step(Event::Committed), Action::Finish);
    assert_eq!(session.stage, Stage::Finished);
}

#[test]
fn no_result_file_declined_finishes_without_commit() {
    let mut session = started("plain message");
    assert_eq!(
        session.step(Event::Changes(vec![entry("main.rs", false)])),
        Action::Ask
    );
    assert_eq!(session.step(Event::Answer("n\n".to_string())), Action::Finish);
    assert_eq!(session.stage, Stage::Finished);
}

#[test]
fn unreadable_answer_fails() {
    let mut session = started("m");
    session.step(Event::Changes(vec![entry("main.rs", false)]));
    assert_eq!(
        session.step(Event::InputFailed),
        Action::Fail(CommitError::Input)
    );
}

#[test]
fn latest_result_file_is_read_and_scored() {
    let mut session = started("Test commit message");
    let action = session.step(Event::Changes(vec![
        entry("result_20210901_123456.json", false),
        entry("result_20210901_234567.json", false),
        entry("main.rs", false),
    ]));
    assert_eq!(
        action,
        Action::ReadArtifact("result_20210901_234567.json".to_string())
    );
    let loaded = ExecResult {
        case_count: 2,
        total_score: 10,
    };
    assert_eq!(
        session.step(Event::ArtifactLoaded(loaded)),
        Action::FormatAverage(loaded)
    );
    assert_eq!(
        session.step(Event::AverageFormatted("5.00".to_string())),
        Action::Commit("(5.00) Test commit message".to_string())
    );
    assert_eq!(
        session.step(Event::RepositoryFailed),
        Action::Fail(CommitError::RepositoryAccess)
    );
}

#[test]
fn zero_case_count_is_malformed() {
    let mut session = started("m");
    session.step(Event::Changes(vec![entry("result_20210901_123456.json", false)]));
    let loaded = ExecResult {
        case_count: 0,
        total_score: 10,
    };
    assert_eq!(
        session.step(Event::ArtifactLoaded(loaded)),
        Action::Fail(CommitError::MalformedArtifact)
    );
}

#[test]
fn artifact_failures_abort() {
    let mut session = started("m");
    session.step(Event::Changes(vec![entry("result_20210901_123456.json", false)]));
    assert_eq!(
        session.step(Event::ArtifactUnreadable),
        Action::Fail(CommitError::ArtifactUnreadable)
    );
    let mut session = started("m");
    session.step(Event::Changes(vec![entry("result_20210901_123456.json", false)]));
    assert_eq!(
        session.step(Event::ArtifactMalformed),
        Action::Fail(CommitError::MalformedArtifact)
    );
}

#[test]
fn repository_failure_while_listing() {
    let mut session = started("m");
    assert_eq!(
        session.step(Event::RepositoryFailed),
        Action::Fail(CommitError::RepositoryAccess)
    );
}

#[test]
fn out_of_order_event_is_ignored() {
    let mut session = CommitSession::new(CommitArgs {
        message: "m".to_string(),
    });
    assert_eq!(session.step(Event::Committed), Action::Ignore);
    assert_eq!(session.stage, Stage::Start);
}

#[test]
fn second_run_without_changes_reports_nothing() {
    let mut first = started("m");
    first.step(Event::Changes(vec![entry("a.txt", false)]));
    first.step(Event::Answer("y".to_string()));
    assert_eq!(first.step(Event::Committed), Action::Finish);
    let mut second = started("m");
    assert_eq!(
        second.step(Event::Changes(vec![])),
        Action::Fail(CommitError::NothingToCommit)
    );
}

#[test]
fn updated_files_skip_directories() {
    let entries = vec![entry("file.txt", false), entry("dir", true), entry("b/c.rs", false)];
    assert_eq!(
        list_updated_files(&entries),
        vec!["file.txt".to_string(), "b/c.rs".to_string()]
    );
}

#[test]
fn answers() {
    assert!(answer_is_yes("y"));
    assert!(!answer_is_yes("Y"));
    assert!(!answer_is_yes("yes"));
    assert!(!answer_is_yes(""));
    assert!(is_affirmative("y\n"));
    assert!(is_affirmative("  Y  "));
    assert!(!is_affirmative("yes\n"));
    assert!(!is_affirmative("\n"));
}

#[test]
fn equal_stamps_read_the_first_listed() {
    let mut session = started("m");
    let action = session.step(Event::Changes(vec![
        entry("x/result_20210901_123456.json", false),
        entry("a/result_20210901_123456.json", false),
    ]));
    assert_eq!(
        action,
        Action::ReadArtifact("x/result_20210901_123456.json".to_string())
    );
}

#[test]
fn average_text_arrives_before_commit() {
    let mut session = started("m");
    session.step(Event::Changes(vec![entry("result_20210901_123456.json", false)]));
    assert_eq!(
        session.step(Event::AverageFormatted("1.00".to_string())),
        Action::Ignore
    );
    assert_eq!(session.stage, Stage::Reading);
}

#[test]
fn answers_trim_unicode_white_space() {
    assert!(is_affirmative("\u{3000}y\u{85}"));
    assert!(is_affirmative("\u{a0}Y\t\r\n"));
    assert!(!is_affirmative("\u{200b}y"));
}
