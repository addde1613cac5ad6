//! The commit pipeline as a state machine: the caller performs each action
//! (list the staged changes, read a result file, ask the operator, write the
//! commit) and hands back what happened as the next event.
use crate::score::{build_commit_message, scored_message, CommitArgs, ExecResult};
use crate::select::{
    comes_before, file_name_of, filter_and_sort_result_files, keeps_order_of_ties,
    lemma_lex_irreflexive, lex_ge, result_paths, sorted_by_name_desc, views,
};
use vstd::prelude::*;

verus! {

/// One entry of the difference between the head tree and the staging area.
#[derive(Clone, Debug, PartialEq, Eq)]
pub struct DiffEntry {
    pub path: String,
    pub is_dir: bool,
}

/// Why a run of the pipeline ended without a commit.
#[derive(Clone, Copy, Debug, PartialEq, Eq, Structural)]
pub enum CommitError {
    /// The operator's message is empty.
    EmptyMessage,
    /// The staging area holds no changed file.
    NothingToCommit,
    /// The selected result file could not be opened.
    ArtifactUnreadable,
    /// The selected result file does not hold a well-formed record.
    MalformedArtifact,
    /// The repository could not be read or written.
    RepositoryAccess,
    /// The operator's answer could not be read.
    Input,
}

/// Where a run of the pipeline stands.
#[derive(Clone, Copy, Debug, PartialEq, Eq, Structural)]
pub enum Stage {
    Start,
    Listing,
    Reading,
    Scoring,
    Asking,
    Committing,
    Finished,
    Failed,
}

/// What the caller reports back after an action.
#[derive(Clone, Debug, PartialEq, Eq)]
pub enum Event {
    Begin,
    Changes(Vec<DiffEntry>),
    ArtifactLoaded(ExecResult),
    ArtifactUnreadable,
    ArtifactMalformed,
    AverageFormatted(String),
    Answer(String),
    Committed,
    RepositoryFailed,
    InputFailed,
}

/// What the caller is asked to do next.
#[derive(Clone, Debug, PartialEq, Eq)]
pub enum Action {
    /// Compute the difference between the head tree and the staging area.
    ListChanges,
    /// Read and decode the result file at this path of the working tree.
    ReadArtifact(String),
    /// Write the average `total_score / case_count` of this record, computed
    /// in floating point, with two decimals.
    FormatAverage(ExecResult),
    /// Ask the operator whether to commit without a score.
    Ask,
    /// Commit the staging area with this message.
    Commit(String),
    /// The run is over and succeeded.
    Finish,
    /// The run is over and failed.
    Fail(CommitError),
    /// The event does not fit the current stage; nothing changes.
    Ignore,
}

/// What an event carries, as plain values.
pub enum EventView {
    Begin,
    Changes(Seq<(Seq<char>, bool)>),
    ArtifactLoaded(ExecResult),
    ArtifactUnreadable,
    ArtifactMalformed,
    AverageFormatted(Seq<char>),
    Answer(Seq<char>),
    Committed,
    RepositoryFailed,
    InputFailed,
}

/// What an action carries, as plain values.
pub enum ActionView {
    ListChanges,
    ReadArtifact(Seq<char>),
    FormatAverage(ExecResult),
    Ask,
    Commit(Seq<char>),
    Finish,
    Fail(CommitError),
    Ignore,
}

/// Each entry as its path and whether it is a directory.
pub open spec fn entry_views(entries: Seq<DiffEntry>) -> Seq<(Seq<char>, bool)> {
    entries.map_values(|e: DiffEntry| (e.path@, e.is_dir))
}

impl View for Event {
    type V = EventView;

    open spec fn view(&self) -> EventView {
        match self {
            Event::Begin => EventView::Begin,
            Event::Changes(entries) => EventView::Changes(entry_views(entries@)),
            Event::ArtifactLoaded(res) => EventView::ArtifactLoaded(*res),
            Event::ArtifactUnreadable => EventView::ArtifactUnreadable,
            Event::ArtifactMalformed => EventView::ArtifactMalformed,
            Event::AverageFormatted(text) => EventView::AverageFormatted(text@),
            Event::Answer(line) => EventView::Answer(line@),
            Event::Committed => EventView::Committed,
            Event::RepositoryFailed => EventView::RepositoryFailed,
            Event::InputFailed => EventView::InputFailed,
        }
    }
}

impl View for Action {
    type V = ActionView;

    open spec fn view(&self) -> ActionView {
        match self {
            Action::ListChanges => ActionView::ListChanges,
            Action::ReadArtifact(p) => ActionView::ReadArtifact(p@),
            Action::FormatAverage(res) => ActionView::FormatAverage(*res),
            Action::Ask => ActionView::Ask,
            Action::Commit(m) => ActionView::Commit(m@),
            Action::Finish => ActionView::Finish,
            Action::Fail(e) => ActionView::Fail(*e),
            Action::Ignore => ActionView::Ignore,
        }
    }
}

/// The paths of the entries that are not directories, in their order.
pub open spec fn file_paths(entries: Seq<(Seq<char>, bool)>) -> Seq<Seq<char>>
    decreases entries.len(),
{
    if entries.len() == 0 {
        Seq::empty()
    } else {
        let rest = file_paths(entries.drop_last());
        if entries.last().1 {
            rest
        } else {
            rest.push(entries.last().0)
        }
    }
}

/// `p` is a result file among `files` whose file name is at least that of
/// every other result file among them, and that stands before every other
/// result file of the same name.
pub open spec fn is_latest_result(p: Seq<char>, files: Seq<Seq<char>>) -> bool {
    &&& result_paths(files).contains(p)
    &&& forall|q: Seq<char>|
        result_paths(files).contains(q) ==> lex_ge(file_name_of(p), file_name_of(q))
    &&& forall|q: Seq<char>|
        result_paths(files).contains(q) && q != p && file_name_of(q) == file_name_of(p)
            ==> comes_before(result_paths(files), p, q)
}

/// A character of Unicode's White_Space property.
pub open spec fn is_white_space(c: char) -> bool {
    let u = c as u32;
    (0x09 <= u && u <= 0x0d) || u == 0x20 || u == 0x85 || u == 0xa0 || u == 0x1680 || (0x2000
        <= u && u <= 0x200a) || u == 0x2028 || u == 0x2029 || u == 0x202f || u == 0x205f || u
        == 0x3000
}

/// `s` without its leading white space.
pub open spec fn trim_start_of(s: Seq<char>) -> Seq<char>
    decreases s.len(),
{
    if s.len() > 0 && is_white_space(s[0]) {
        trim_start_of(s.drop_first())
    } else {
        s
    }
}

/// `s` without its trailing white space.
pub open spec fn trim_end_of(s: Seq<char>) -> Seq<char>
    decreases s.len(),
{
    if s.len() > 0 && is_white_space(s.last()) {
        trim_end_of(s.drop_last())
    } else {
        s
    }
}

/// `s` without its leading and trailing white space.
pub open spec fn trim_of(s: Seq<char>) -> Seq<char> {
    trim_end_of(trim_start_of(s))
}

/// What `str::to_lowercase` makes of a text.
pub uninterp spec fn lower_of(s: Seq<char>) -> Seq<char>;

/// An answer line agrees when, trimmed and in lower case, it is `y`.
pub open spec fn affirmative(line: Seq<char>) -> bool {
    lower_of(trim_of(line)) == seq!['y']
}

/// One step of the pipeline: from `stage`, with the operator's `message`,
/// `event` leads to `next` and asks for `action`.
pub open spec fn transition(
    stage: Stage,
    message: Seq<char>,
    event: EventView,
    next: Stage,
    action: ActionView,
) -> bool {
    match (stage, event) {
        (Stage::Start, EventView::Begin) => if message.len() == 0 {
            next == Stage::Failed && action == ActionView::Fail(CommitError::EmptyMessage)
        } else {
            next == Stage::Listing && action == ActionView::ListChanges
        },
        (Stage::Listing, EventView::Changes(entries)) => {
            let files = file_paths(entries);
            if files.len() == 0 {
                next == Stage::Failed && action == ActionView::Fail(CommitError::NothingToCommit)
            } else if result_paths(files).len() == 0 {
                next == Stage::Asking && action == ActionView::Ask
            } else {
                next == Stage::Reading && action is ReadArtifact && is_latest_result(
                    action->ReadArtifact_0,
                    files,
                )
            }
        },
        (Stage::Listing, EventView::RepositoryFailed) => next == Stage::Failed && action
            == ActionView::Fail(CommitError::RepositoryAccess),
        (Stage::Reading, EventView::ArtifactLoaded(res)) => if res.case_count == 0 {
            next == Stage::Failed && action == ActionView::Fail(CommitError::MalformedArtifact)
        } else {
            next == Stage::Scoring && action == ActionView::FormatAverage(res)
        },
        (Stage::Scoring, EventView::AverageFormatted(average)) => next == Stage::Committing
            && action == ActionView::Commit(scored_message(average, message)),
        (Stage::Reading, EventView::ArtifactUnreadable) => next == Stage::Failed && action
            == ActionView::Fail(CommitError::ArtifactUnreadable),
        (Stage::Reading, EventView::ArtifactMalformed) => next == Stage::Failed && action
            == ActionView::Fail(CommitError::MalformedArtifact),
        (Stage::Asking, EventView::Answer(line)) => if affirmative(line) {
            next == Stage::Committing && action == ActionView::Commit(message)
        } else {
            next == Stage::Finished && action == ActionView::Finish
        },
        (Stage::Asking, EventView::InputFailed) => next == Stage::Failed && action
            == ActionView::Fail(CommitError::Input),
        (Stage::Committing, EventView::Committed) => next == Stage::Finished && action
            == ActionView::Finish,
        (Stage::Committing, EventView::RepositoryFailed) => next == Stage::Failed && action
            == ActionView::Fail(CommitError::RepositoryAccess),
        _ => next == stage && action == ActionView::Ignore,
    }
}

/// Relies on str::trim, which removes the leading and trailing characters of
/// Unicode's White_Space property.
#[verifier::external_body]
fn trim(s: &str) -> (r: &str)
    ensures
        r@ == trim_of(s@),
{
    s.trim()
}

/// Relies on str::to_lowercase; the result depends on the text alone.
#[verifier::external_body]
fn lowercase(s: &str) -> (r: String)
    ensures
        r@ == lower_of(s@),
{
    s.to_lowercase()
}

/// Whether an answer that is already trimmed and in lower case agrees: it is
/// exactly `y`.
pub fn answer_is_yes(normalized: &str) -> (r: bool)
    ensures
        r == (normalized@ == seq!['y']),
{
    let n = normalized.unicode_len();
    if n != 1 {
        proof {
            assert(seq!['y'].len() == 1);
        }
        false
    } else {
        let c = normalized.get_char(0);
        proof {
            if c == 'y' {
                assert(normalized@ =~= seq!['y']);
            }
        }
        c == 'y'
    }
}

/// Whether the operator's answer line agrees to commit: trimmed and in lower
/// case, it is `y`.
pub fn is_affirmative(line: &str) -> (r: bool)
    ensures
        r == affirmative(line@),
{
    let t = trim(line);
    let lower = lowercase(t);
    answer_is_yes(lower.as_str())
}

/// The paths of the changed entries that are not directories, in their order.
pub fn list_updated_files(entries: &Vec<DiffEntry>) -> (r: Vec<String>)
    ensures
        views(r@) == file_paths(entry_views(entries@)),
{
    let mut r: Vec<String> = Vec::new();
    let mut i: usize = 0;
    assert(entry_views(entries@).take(0) =~= Seq::<(Seq<char>, bool)>::empty());
    assert(views(r@) =~= Seq::<Seq<char>>::empty());
    while i < entries.len()
        invariant
            i <= entries.len(),
            views(r@) == file_paths(entry_views(entries@).take(i as int)),
        decreases entries.len() - i,
    {
        let e = &entries[i];
        proof {
            assert(entry_views(entries@).take(i + 1).drop_last() =~= entry_views(entries@).take(
                i as int,
            ));
        }
        if !e.is_dir {
            let item = e.path.clone();
            proof {
                assert(views(r@.push(item)) =~= views(r@).push(item@));
            }
            r.push(item);
        }
        i = i + 1;
    }
    assert(entry_views(entries@).take(i as int) =~= entry_views(entries@));
    r
}

proof fn lemma_first_is_latest(sorted: Seq<Seq<char>>, files: Seq<Seq<char>>)
    requires
        sorted.to_multiset() == result_paths(files).to_multiset(),
        sorted_by_name_desc(sorted),
        keeps_order_of_ties(sorted, result_paths(files)),
        result_paths(files).len() > 0,
    ensures
        sorted.len() > 0,
        is_latest_result(sorted[0], files),
{
    let cands = result_paths(files);
    sorted.to_multiset_ensures();
    cands.to_multiset_ensures();
    assert(cands.contains(cands[0]));
    assert(sorted.len() > 0);
    assert(sorted.contains(sorted[0]));
    assert(sorted.to_multiset().count(sorted[0]) > 0);
    assert(cands.contains(sorted[0]));
    assert forall|q: Seq<char>| cands.contains(q) implies lex_ge(
        file_name_of(sorted[0]),
        file_name_of(q),
    ) by {
        assert(cands.to_multiset().count(q) > 0);
        assert(sorted.contains(q));
        let k = choose|k: int| 0 <= k < sorted.len() && sorted[k] == q;
        if k == 0 {
            lemma_lex_irreflexive(file_name_of(q));
        }
    }
    assert forall|q: Seq<char>|
        cands.contains(q) && q != sorted[0] && file_name_of(q) == file_name_of(sorted[0])
            implies comes_before(cands, sorted[0], q) by {
        assert(cands.to_multiset().count(q) > 0);
        assert(sorted.contains(q));
        let k = choose|k: int| 0 <= k < sorted.len() && sorted[k] == q;
        assert(k != 0);
        assert(file_name_of(sorted[0]) == file_name_of(sorted[k]));
    }
}

/// A run of the commit pipeline for one message.
pub struct CommitSession {
    pub message: String,
    pub stage: Stage,
}

impl CommitSession {
    /// A run that has not started yet.
    pub fn new(args: CommitArgs) -> (r: CommitSession)
        ensures
            r.message@ == args.message@,
            r.stage == Stage::Start,
    {
        CommitSession { message: args.message, stage: Stage::Start }
    }

    /// Takes what happened and says what to do next.
    pub fn step(&mut self, event: Event) -> (r: Action)
        ensures
            final(self).message@ == old(self).message@,
            transition(old(self).stage, old(self).message@, event@, final(self).stage, r@),
    {
        match (self.stage, event) {
            (Stage::Start, Event::Begin) => {
                if self.message.as_str().unicode_len() == 0 {
                    self.stage = Stage::Failed;
                    Action::Fail(CommitError::EmptyMessage)
                } else {
                    self.stage = Stage::Listing;
                    Action::ListChanges
                }
            },
            (Stage::Listing, Event::Changes(entries)) => {
                let files = list_updated_files(&entries);
                if files.len() == 0 {
                    self.stage = Stage::Failed;
                    Action::Fail(CommitError::NothingToCommit)
                } else {
                    let cands = filter_and_sort_result_files(&files);
                    proof {
                        views(cands@).to_multiset_ensures();
                        result_paths(views(files@)).to_multiset_ensures();
                    }
                    if cands.len() == 0 {
                        self.stage = Stage::Asking;
                        Action::Ask
                    } else {
                        proof {
                            lemma_first_is_latest(views(cands@), views(files@));
                        }
                        self.stage = Stage::Reading;
                        Action::ReadArtifact(cands[0].clone())
                    }
                }
            },
            (Stage::Listing, Event::RepositoryFailed) => {
                self.stage = Stage::Failed;
                Action::Fail(CommitError::RepositoryAccess)
            },
            (Stage::Reading, Event::ArtifactLoaded(res)) => {
                if res.case_count == 0 {
                    self.stage = Stage::Failed;
                    Action::Fail(CommitError::MalformedArtifact)
                } else {
                    self.stage = Stage::Scoring;
                    Action::FormatAverage(res)
                }
            },
            (Stage::Scoring, Event::AverageFormatted(average)) => {
                let args = CommitArgs { message: self.message.clone() };
                self.stage = Stage::Committing;
                Action::Commit(build_commit_message(&args, average.as_str()))
            },
            (Stage::Reading, Event::ArtifactUnreadable) => {
                self.stage = Stage::Failed;
                Action::Fail(CommitError::ArtifactUnreadable)
            },
            (Stage::Reading, Event::ArtifactMalformed) => {
                self.stage = Stage::Failed;
                Action::Fail(CommitError::MalformedArtifact)
            },
            (Stage::Asking, Event::Answer(line)) => {
                if is_affirmative(line.as_str()) {
                    self.stage = Stage::Committing;
                    Action::Commit(self.message.clone())
                } else {
                    self.stage = Stage::Finished;
                    Action::Finish
                }
            },
            (Stage::Asking, Event::InputFailed) => {
                self.stage = Stage::Failed;
                Action::Fail(CommitError::Input)
            },
            (Stage::Committing, Event::Committed) => {
                self.stage = Stage::Finished;
                Action::Finish
            },
            (Stage::Committing, Event::RepositoryFailed) => {
                self.stage = Stage::Failed;
                Action::Fail(CommitError::RepositoryAccess)
            },
            _ => Action::Ignore,
        }
    }
}

} // verus!
