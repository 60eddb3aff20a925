//! Line diffs of a proposed edit, and the decision to keep it.
use vstd::prelude::*;

verus! {

/// How a line of a diff relates the old text to the new.
#[derive(Debug, Clone, Copy, PartialEq, Eq, Structural)]
pub enum ChangeKind {
    /// The line is in both texts.
    Equal,
    /// The line is only in the new text.
    Insert,
    /// The line is only in the old text.
    Delete,
}

impl ChangeKind {
    /// The character that marks a line of this kind when a diff is shown.
    pub fn sign(self) -> (r: char)
        ensures
            r == match self {
                ChangeKind::Equal => ' ',
                ChangeKind::Insert => '+',
                ChangeKind::Delete => '-',
            },
    {
        match self {
            ChangeKind::Equal => ' ',
            ChangeKind::Insert => '+',
            ChangeKind::Delete => '-',
        }
    }
}

/// One line of a diff, with its line ending if it has one.
#[derive(Debug)]
pub struct DiffLine {
    pub kind: ChangeKind,
    pub line: String,
}

/// The line diff that `similar::TextDiff::from_lines` computes from `before` to `after`.
pub uninterp spec fn line_diff(before: Seq<char>, after: Seq<char>) -> Seq<(ChangeKind, Seq<char>)>;

/// The diff lines of `v`, as values.
pub open spec fn diff_view(v: Seq<DiffLine>) -> Seq<(ChangeKind, Seq<char>)> {
    v.map_values(|d: DiffLine| (d.kind, d.line@))
}

/// Relies on `similar::TextDiff::from_lines` and `iter_all_changes`: the line
/// changes from `before` to `after`, in order, which depend on the two texts alone.
#[verifier::external_body]
fn diff_lines(before: &str, after: &str) -> (r: Vec<DiffLine>)
    ensures
        diff_view(r@) == line_diff(before@, after@),
{
    let diff = similar::TextDiff::from_lines(before, after);
    diff.iter_all_changes().map(|c| {
        let kind = match c.tag() {
            similar::ChangeTag::Equal => ChangeKind::Equal,
            similar::ChangeTag::Insert => ChangeKind::Insert,
            similar::ChangeTag::Delete => ChangeKind::Delete,
        };
        DiffLine { kind, line: c.value().to_string() }
    }).collect()
}

/// The line diff from `before` to `after`, for display.
pub fn line_changes(before: &str, after: &str) -> (r: Vec<DiffLine>)
    ensures
        diff_view(r@) == line_diff(before@, after@),
{
    diff_lines(before, after)
}

/// The text kept after a review: `after` where the edit was confirmed, else `before`.
pub fn settle(before: String, after: String, confirmed: bool) -> (r: String)
    ensures
        r@ == if confirmed {
            after@
        } else {
            before@
        },
{
    if confirmed {
        after
    } else {
        before
    }
}

} // verus!
