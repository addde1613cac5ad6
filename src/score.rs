//! The scored-run record and the commit message that embeds its average.
use vstd::prelude::*;

verus! {

/// A scored-run record: how many cases ran and the sum of their scores.
#[derive(Clone, Copy, Debug, PartialEq, Eq, Structural)]
pub struct ExecResult {
    pub case_count: usize,
    pub total_score: usize,
}

/// The operator's input to the commit command.
#[derive(Clone, Debug, PartialEq, Eq)]
pub struct CommitArgs {
    pub message: String,
}

/// `(<average>) <message>`.
pub open spec fn scored_message(average: Seq<char>, message: Seq<char>) -> Seq<char> {
    seq!['('] + average + seq![')', ' '] + message
}

/// The commit message that embeds an average score: the average as given
/// (the caller writes `total_score / case_count` of the record, computed in
/// floating point, with two decimals), in parentheses, a space, and the
/// operator's message.
pub fn build_commit_message(args: &CommitArgs, average: &str) -> (r: String)
    ensures
        r@ == scored_message(average@, args.message@),
{
    let mut s = String::from_str("(");
    s.append(average);
    s.append(") ");
    s.append(args.message.as_str());
    proof {
        reveal_strlit("(");
        reveal_strlit(") ");
        assert(s@ =~= scored_message(average@, args.message@));
    }
    s
}

} // verus!
