//! Library side of a contest-workflow helper: the decisions of the
//! score-annotated commit pipeline, the choice of the tool archive to fetch,
//! and the dispatch of the command line.
mod command;
mod laws;
mod pipeline;
mod score;
mod select;
mod tool_link;

pub use score::{build_commit_message, CommitArgs, ExecResult};
pub use select::{file_name, filter_and_sort_result_files, is_result_file, name_lt};
pub use pipeline::{
    answer_is_yes, is_affirmative, list_updated_files, Action, CommitError, CommitSession, DiffEntry,
    Event, Stage,
};
pub use laws::{
    lemma_empty_message_refused_first, lemma_ended_run_stays_ended,
    lemma_fallback_commits_iff_affirmative, lemma_no_changes_no_commit, lemma_selects_greatest_name,
};
pub use command::{
    build_default_problem_url, download, init, run_command, Cli, Commands, Config, Dispatch,
    DownloadArgs, DownloadPlan, General, InitArgs, InitError, UrlError, ZipSource, DEFAULT_CONFIG_FILE_NAME,
};
pub use tool_link::{find_tool_url, select_tool_url, text_contains, Anchor, ToolLinkError};
