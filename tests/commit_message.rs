use ahc_tools::{build_commit_message, CommitArgs, ExecResult};

fn average_of(result: &ExecResult) -> String {
    format!(
        "{:.2}",
        result.total_score as f64 / result.case_count as f64
    )
}

fn message_for(total: usize, count: usize, message: &str) -> String {
    let args = CommitArgs {
        message: message.to_string(),
    };
    let result = ExecResult {
        case_count: count,
        total_score: total,
    };
    build_commit_message(&args, &average_of(&result))
}

#[test]
fn test_build_commit_message() {
    let args = CommitArgs {
        message: "Test commit message".to_string(),
    };
    let result = ExecResult {
        case_count: 2,
        total_score: 10,
    };

    let commit_message = build_commit_message(&args, &average_of(&result));

    assert_eq!(commit_message, "(5.00) Test commit message");
}

#[test]
fn average_with_half_hundredth() {
    assert_eq!(message_for(101781, 2, "test message"), "(50890.50) test message");
}

#[test]
fn average_follows_float_quotient() {
    assert_eq!(message_for(1, 40, "m"), "(0.03) m");
    assert_eq!(message_for(12365, 1000, "m"), "(12.37) m");
    assert_eq!(message_for(1, 3, "m"), "(0.33) m");
}

#[test]
fn message_is_kept_verbatim() {
    let args = CommitArgs {
        message: " two  spaces ".to_string(),
    };
    assert_eq!(build_commit_message(&args, "1.50"), "(1.50)  two  spaces ");
    let empty = CommitArgs {
        message: String::new(),
    };
    assert_eq!(build_commit_message(&empty, "0.00"), "(0.00) ");
}
