//! The relocation orchestrator: the per-tag state machine that decides
//! whether a tag is skipped, checked for ancestry, traced, relocated or out
//! of range, and the laws the whole pass obeys.

use vstd::prelude::*;

use crate::model::tag_wf;
use crate::model::Comment;
use crate::model::CommentTag;
use crate::model::TagStatus;
use crate::parse::GitBlameResult;

verus! {

/// The per-tag states of the relocation state machine.
#[derive(Debug, PartialEq)]
pub enum TagState {
    /// No relocation is possible or needed; nothing is appended.
    Skip,
    /// The tag is not stamped at the present revision: ask the oracle
    /// whether its revision is an ancestor of the present.
    NeedsAncestryCheck,
    /// The tag's revision is an ancestor: run a reverse trace.
    NeedsTrace,
    /// The trace gave the tag's new position: append this tag.
    Relocated(CommentTag),
    /// The tag's line falls outside the trace's records; silently skipped.
    OutOfRange,
}

/// The first decision: a tag stamped at the present revision cannot have
/// drifted, so it is skipped; any other tag needs an ancestry check.
pub open spec fn spec_initial_state(tag: CommentTag, current: Seq<char>) -> TagState {
    if tag.revision@ == current {
        TagState::Skip
    } else {
        TagState::NeedsAncestryCheck
    }
}

/// The second decision: a revision outside current history cannot be
/// relocated safely; an ancestor revision calls for a trace.
pub open spec fn spec_state_after_ancestry(is_ancestor: bool) -> TagState {
    if is_ancestor {
        TagState::NeedsTrace
    } else {
        TagState::Skip
    }
}

/// Whether a tag's line indexes into a trace of `n` records.
pub open spec fn spec_in_range(line: i32, n: nat) -> bool {
    1 <= line as int && line as int <= n
}

/// The tag a relocation appends: record `line - 1`'s revision and new line
/// number, with normal status.
pub open spec fn spec_relocated_tag(tag: CommentTag, records: Seq<GitBlameResult>) -> CommentTag {
    CommentTag {
        revision: records[tag.line - 1].revision,
        line: records[tag.line - 1].new_line_number,
        status: TagStatus::Normal,
    }
}

/// The relocation decision once a trace is in hand.
pub open spec fn spec_relocate_option(tag: CommentTag, records: Seq<GitBlameResult>) -> Option<
    CommentTag,
> {
    if spec_in_range(tag.line, records.len()) {
        Some(spec_relocated_tag(tag, records))
    } else {
        None
    }
}

/// The third decision: in range relocates, out of range is silently skipped.
pub open spec fn spec_state_after_trace(tag: CommentTag, records: Seq<GitBlameResult>) -> TagState {
    match spec_relocate_option(tag, records) {
        Some(t) => TagState::Relocated(t),
        None => TagState::OutOfRange,
    }
}

/// The whole per-tag pipeline, given the oracle's two answers: skip when
/// already current, skip when not an ancestor, otherwise decide by the
/// trace.
pub open spec fn spec_tag_outcome(
    tag: CommentTag,
    current: Seq<char>,
    is_ancestor: bool,
    records: Seq<GitBlameResult>,
) -> TagState {
    if tag.revision@ == current {
        TagState::Skip
    } else if !is_ancestor {
        TagState::Skip
    } else {
        spec_state_after_trace(tag, records)
    }
}

/// What an outcome does to a comment's tag sequence: only a relocation
/// appends, and it appends exactly one tag at the end.
pub open spec fn spec_apply_outcome(tags: Seq<CommentTag>, outcome: TagState) -> Seq<CommentTag> {
    match outcome {
        TagState::Relocated(t) => tags.push(t),
        _ => tags,
    }
}

/// Decide the first state of a tag against the current revision.
pub fn initial_tag_state(tag: &CommentTag, current_revision: &String) -> (st: TagState)
    ensures
        st == spec_initial_state(*tag, current_revision@),
{
    if tag.revision == *current_revision {
        TagState::Skip
    } else {
        TagState::NeedsAncestryCheck
    }
}

/// Decide the state after the oracle has answered the ancestry question.
pub fn state_after_ancestry(is_ancestor: bool) -> (st: TagState)
    ensures
        st == spec_state_after_ancestry(is_ancestor),
{
    if is_ancestor {
        TagState::NeedsTrace
    } else {
        TagState::Skip
    }
}

/// Select the trace record a tag relocates to, if its line is in range.
pub fn relocate_tag(tag: &CommentTag, records: &Vec<GitBlameResult>) -> (r: Option<CommentTag>)
    ensures
        r == spec_relocate_option(*tag, records@),
{
    if tag.line >= 1 && tag.line as usize <= records.len() {
        let rec = &records[(tag.line - 1) as usize];
        Some(
            CommentTag {
                revision: rec.revision.clone(),
                line: rec.new_line_number,
                status: TagStatus::Normal,
            },
        )
    } else {
        None
    }
}

/// Decide the state of a tag once its trace has been parsed.
pub fn tag_state_after_trace(tag: &CommentTag, records: &Vec<GitBlameResult>) -> (st: TagState)
    ensures
        st == spec_state_after_trace(*tag, records@),
{
    match relocate_tag(tag, records) {
        Some(t) => TagState::Relocated(t),
        None => TagState::OutOfRange,
    }
}

/// Apply one tag's outcome to the output copy of its comment: a relocation
/// appends its tag; every other outcome leaves the comment untouched.
pub fn apply_tag_outcome(comment: &mut Comment, outcome: TagState)
    ensures
        final(comment)@.text == old(comment)@.text,
        final(comment)@.tags == spec_apply_outcome(old(comment)@.tags, outcome),
{
    match outcome {
        TagState::Relocated(t) => {
            comment.push_tag(t);
        },
        _ => {},
    }
}

/// Idempotence of skip: a tag stamped at the current revision produces no
/// new tag, and the comment's tag sequence stays exactly as it was,
/// whatever the oracle or a trace would have answered.
pub proof fn lemma_skip_when_current(
    tag: CommentTag,
    current: Seq<char>,
    is_ancestor: bool,
    records: Seq<GitBlameResult>,
    tags: Seq<CommentTag>,
)
    requires
        tag.revision@ == current,
    ensures
        spec_tag_outcome(tag, current, is_ancestor, records) is Skip,
        spec_apply_outcome(tags, spec_tag_outcome(tag, current, is_ancestor, records)) == tags,
{
}

/// Ancestry gate: when the tag's revision is not an ancestor of the
/// present, no new tag is appended, whatever the trace holds.
pub proof fn lemma_ancestry_gate(
    tag: CommentTag,
    current: Seq<char>,
    records: Seq<GitBlameResult>,
    tags: Seq<CommentTag>,
)
    ensures
        spec_tag_outcome(tag, current, false, records) is Skip,
        spec_apply_outcome(tags, spec_tag_outcome(tag, current, false, records)) == tags,
{
}

/// Append-only: whatever one tag's outcome, a comment's tag sequence never
/// shrinks, and every original tag is kept unchanged, in its original
/// place — the new sequence is a prefix-preserving extension.
pub proof fn lemma_append_only(tags: Seq<CommentTag>, outcome: TagState)
    ensures
        spec_apply_outcome(tags, outcome).len() >= tags.len(),
        forall|i: int| 0 <= i < tags.len() ==> spec_apply_outcome(tags, outcome)[i] == tags[i],
{
}

/// Positional lookup correctness: for a trace of `N` records and a tag line
/// `k` with `1 <= k <= N`, relocation yields exactly record `k - 1`'s
/// revision and new line number, with normal status.
pub proof fn lemma_positional_lookup(tag: CommentTag, records: Seq<GitBlameResult>)
    requires
        1 <= tag.line as int <= records.len(),
    ensures
        spec_state_after_trace(tag, records) matches TagState::Relocated(t) && t.revision
            == records[tag.line - 1].revision && t.line == records[tag.line - 1].new_line_number
            && t.status == TagStatus::Normal,
{
}

/// What a whole pass does to one comment's tag sequence: its tags' outcomes
/// are applied one after the other.
pub open spec fn spec_apply_outcomes(tags: Seq<CommentTag>, outcomes: Seq<TagState>) -> Seq<
    CommentTag,
>
    decreases outcomes.len(),
{
    if outcomes.len() == 0 {
        tags
    } else {
        spec_apply_outcomes(
            spec_apply_outcome(tags, outcomes[0]),
            outcomes.subrange(1, outcomes.len() as int),
        )
    }
}

/// Append-only over a whole pass: however many outcomes are applied to one
/// comment, its tag sequence never shrinks and every original tag is kept
/// unchanged, in its original place.
pub proof fn lemma_append_only_pass(tags: Seq<CommentTag>, outcomes: Seq<TagState>)
    ensures
        spec_apply_outcomes(tags, outcomes).len() >= tags.len(),
        forall|i: int| 0 <= i < tags.len() ==> spec_apply_outcomes(tags, outcomes)[i] == tags[i],
    decreases outcomes.len(),
{
    if outcomes.len() > 0 {
        lemma_append_only(tags, outcomes[0]);
        lemma_append_only_pass(
            spec_apply_outcome(tags, outcomes[0]),
            outcomes.subrange(1, outcomes.len() as int),
        );
    }
}

/// A relocation out of a trace whose new line numbers are all positive
/// yields a well-formed tag, keeping the data model's invariant that every
/// tag's line counts from 1.
pub proof fn lemma_relocated_tag_wf(tag: CommentTag, records: Seq<GitBlameResult>)
    requires
        spec_in_range(tag.line, records.len()),
        forall|i: int| 0 <= i < records.len() ==> (#[trigger] records[i]).new_line_number >= 1,
    ensures
        tag_wf(spec_relocated_tag(tag, records)),
{
}

/// Out-of-range safety: a tag whose line falls outside the trace's record
/// count appends nothing and raises no error.
pub proof fn lemma_out_of_range(
    tag: CommentTag,
    records: Seq<GitBlameResult>,
    tags: Seq<CommentTag>,
)
    requires
        (tag.line as int) < 1 || (tag.line as int) > records.len(),
    ensures
        spec_state_after_trace(tag, records) is OutOfRange,
        spec_apply_outcome(tags, spec_state_after_trace(tag, records)) == tags,
{
}

} // verus!
