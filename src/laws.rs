//! Properties of whole runs of the commit pipeline, stated over its transitions.
use crate::pipeline::{
    affirmative, file_paths, is_latest_result, transition, ActionView, CommitError, EventView,
    Stage,
};
use crate::select::{file_name_of, is_result_path, lex_ge, result_path_pred, result_paths};
use vstd::prelude::*;

verus! {

/// A run that has finished or failed stays so: every later event is ignored,
/// so it never asks for a commit again.
pub proof fn lemma_ended_run_stays_ended(
    stage: Stage,
    message: Seq<char>,
    event: EventView,
    next: Stage,
    action: ActionView,
)
    requires
        stage == Stage::Finished || stage == Stage::Failed,
        transition(stage, message, event, next, action),
    ensures
        next == stage,
        action == ActionView::Ignore,
{
}

/// When the staging area holds no changed file, the run fails with
/// `NothingToCommit`, and whatever happens next, no commit is asked for.
pub proof fn lemma_no_changes_no_commit(
    message: Seq<char>,
    entries: Seq<(Seq<char>, bool)>,
    next: Stage,
    action: ActionView,
    later: EventView,
    after: Stage,
    later_action: ActionView,
)
    requires
        file_paths(entries).len() == 0,
        transition(Stage::Listing, message, EventView::Changes(entries), next, action),
        transition(next, message, later, after, later_action),
    ensures
        action == ActionView::Fail(CommitError::NothingToCommit),
        next == Stage::Failed,
        !(later_action is Commit),
{
}

/// When changed files are staged but none is a result file, the run asks the
/// operator, and then commits with the message as given if and only if the
/// answer agrees; otherwise it finishes without a commit.
pub proof fn lemma_fallback_commits_iff_affirmative(
    message: Seq<char>,
    entries: Seq<(Seq<char>, bool)>,
    asked: Stage,
    ask: ActionView,
    line: Seq<char>,
    next: Stage,
    action: ActionView,
)
    requires
        file_paths(entries).len() > 0,
        result_paths(file_paths(entries)).len() == 0,
        transition(Stage::Listing, message, EventView::Changes(entries), asked, ask),
        transition(asked, message, EventView::Answer(line), next, action),
    ensures
        ask == ActionView::Ask,
        action == ActionView::Commit(message) <==> affirmative(line),
        !affirmative(line) ==> next == Stage::Finished && action == ActionView::Finish,
{
}

/// When result files are among the changed files, the one read is a changed
/// result file whose file name is the greatest among them.
pub proof fn lemma_selects_greatest_name(
    message: Seq<char>,
    entries: Seq<(Seq<char>, bool)>,
    next: Stage,
    action: ActionView,
)
    requires
        result_paths(file_paths(entries)).len() > 0,
        transition(Stage::Listing, message, EventView::Changes(entries), next, action),
    ensures
        action is ReadArtifact,
        file_paths(entries).contains(action->ReadArtifact_0),
        is_result_path(action->ReadArtifact_0),
        forall|q: Seq<char>|
            file_paths(entries).contains(q) && is_result_path(q) ==> lex_ge(
                file_name_of(action->ReadArtifact_0),
                file_name_of(q),
            ),
{
    broadcast use vstd::seq_lib::group_filter_ensures;

    let files = file_paths(entries);
    let p = action->ReadArtifact_0;
    assert(files.len() > 0);
    assert(is_latest_result(p, files));
    files.lemma_filter_contains_rev(result_path_pred(), p);
    let k = choose|k: int| 0 <= k < result_paths(files).len() && result_paths(files)[k] == p;
    assert(is_result_path(p));
    assert forall|q: Seq<char>| files.contains(q) && is_result_path(q) implies lex_ge(
        file_name_of(p),
        file_name_of(q),
    ) by {
        let j = choose|j: int| 0 <= j < files.len() && files[j] == q;
        files.lemma_filter_contains(result_path_pred(), j);
    }
}

/// An empty message is refused at the first step: the repository is never
/// asked for its changes.
pub proof fn lemma_empty_message_refused_first(
    message: Seq<char>,
    event: EventView,
    next: Stage,
    action: ActionView,
)
    requires
        message.len() == 0,
        transition(Stage::Start, message, event, next, action),
    ensures
        action != ActionView::ListChanges,
        event == EventView::Begin ==> next == Stage::Failed && action == ActionView::Fail(
            CommitError::EmptyMessage,
        ),
{
}

} // verus!
