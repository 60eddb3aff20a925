//! The hole-by-hole resolution of a file: a state machine whose outside work
//! (asking the model, asking the user, writing the file) is done by its caller.
use vstd::prelude::*;

use crate::error::Error;
use crate::fill::Fill;
use crate::grammar::{
    completion_of, fallback_token, holes_of, lemma_holes_nonempty, lemma_no_markers_no_holes,
    markers_from, query_of,
};
use crate::text::occurs_in;
use crate::review::{diff_view, line_changes, line_diff, settle, DiffLine};
use crate::text::{replace_all, views};

verus! {

/// The text that results from `source` when the edits for the first
/// `decisions.len()` holes are proposed with `completions` and kept where the
/// decision is `true`: each kept edit replaces every occurrence of its hole in
/// the text so far.
pub open spec fn apply_edits(
    source: Seq<char>,
    holes: Seq<Seq<char>>,
    completions: Seq<Seq<char>>,
    decisions: Seq<bool>,
) -> Seq<char>
    decreases decisions.len(),
{
    if decisions.len() == 0 {
        source
    } else {
        let k = decisions.len() - 1;
        let prev = apply_edits(source, holes, completions, decisions.drop_last());
        if decisions[k] {
            replace_all(prev, holes[k], completions[k])
        } else {
            prev
        }
    }
}

/// What a resolution is, as values.
pub struct ResolutionView {
    /// The file's text when the run began.
    pub source: Seq<char>,
    /// The context blob that every query is built from.
    pub blob: Seq<char>,
    /// The holes, in the order they are processed.
    pub holes: Seq<Seq<char>>,
    /// The working text.
    pub current: Seq<char>,
    /// How many holes have been decided.
    pub next: nat,
    /// The edit proposed for hole `next`, awaiting a decision.
    pub proposed: Option<Seq<char>>,
    /// The completions received so far, one for each hole.
    pub completions: Seq<Seq<char>>,
    /// The decisions taken so far, one for each hole.
    pub decisions: Seq<bool>,
}

/// The resolution of the holes of one file.
pub struct Resolution {
    blob: String,
    holes: Vec<String>,
    current: String,
    next: usize,
    proposed: Option<String>,
    source: Ghost<Seq<char>>,
    completions: Ghost<Seq<Seq<char>>>,
    decisions: Ghost<Seq<bool>>,
}

/// What the caller of a resolution does next.
pub enum Step {
    /// Ask the model for a completion of `hole`, sending `query`.
    Ask { hole: String, query: String },
    /// Show `changes`, the diff from `before` to `after`, and ask whether to keep it.
    Review { hole: String, before: String, after: String, changes: Vec<DiffLine> },
    /// Every hole is decided: write this text to the file.
    Write(String),
    /// There were no holes: leave the file as it is.
    Nothing,
}

impl View for Resolution {
    type V = ResolutionView;

    closed spec fn view(&self) -> ResolutionView {
        ResolutionView {
            source: self.source@,
            blob: self.blob@,
            holes: views(self.holes@),
            current: self.current@,
            next: self.next as nat,
            proposed: match self.proposed {
                Some(p) => Some(p@),
                None => None,
            },
            completions: self.completions@,
            decisions: self.decisions@,
        }
    }
}

/// `apply_edits` reads only the completions of the holes decided.
proof fn lemma_apply_edits_extra_completion(
    source: Seq<char>,
    holes: Seq<Seq<char>>,
    completions: Seq<Seq<char>>,
    c: Seq<char>,
    decisions: Seq<bool>,
)
    requires
        decisions.len() <= completions.len(),
    ensures
        apply_edits(source, holes, completions.push(c), decisions) == apply_edits(
            source,
            holes,
            completions,
            decisions,
        ),
    decreases decisions.len(),
{
    if decisions.len() > 0 {
        lemma_apply_edits_extra_completion(source, holes, completions, c, decisions.drop_last());
    }
}

impl Resolution {
    /// The resolution's state is consistent: the working text is the source
    /// with the kept edits applied, and a proposed edit is the working text with
    /// the hole replaced by its completion.
    pub open spec fn wf(&self) -> bool {
        let v = self@;
        &&& v.next <= v.holes.len()
        &&& forall|i: int| 0 <= i < v.holes.len() ==> v.holes[i].len() > 0
        &&& v.decisions.len() == v.next
        &&& v.completions.len() == v.next + if v.proposed is Some {
            1int
        } else {
            0int
        }
        &&& v.current == apply_edits(v.source, v.holes, v.completions, v.decisions)
        &&& v.proposed matches Some(p) ==> v.next < v.holes.len() && p == replace_all(
            v.current,
            v.holes[v.next as int],
            v.completions[v.next as int],
        )
    }

    /// Starts the resolution of `source`, whose holes are found in `blob`.
    pub fn new(source: String, blob: String) -> (r: Resolution)
        ensures
            r.wf(),
            r@.source == source@,
            r@.blob == blob@,
            r@.holes == holes_of(blob@),
            r@.current == source@,
            r@.next == 0,
            r@.proposed is None,
            r@.completions.len() == 0,
            r@.decisions.len() == 0,
    {
        let holes = Fill::detect_holes(blob.as_str());
        proof {
            lemma_holes_nonempty(blob@);
        }
        let ghost src = source@;
        Resolution {
            blob,
            holes,
            current: source,
            next: 0,
            proposed: None,
            source: Ghost(src),
            completions: Ghost(Seq::empty()),
            decisions: Ghost(Seq::empty()),
        }
    }

    /// What to do next.
    pub fn step(&self) -> (r: Step)
        requires
            self.wf(),
        ensures
            match r {
                Step::Ask { hole, query } => {
                    &&& self@.proposed is None
                    &&& self@.next < self@.holes.len()
                    &&& hole@ == self@.holes[self@.next as int]
                    &&& query@ == query_of(self@.blob)
                },
                Step::Review { hole, before, after, changes } => {
                    &&& self@.proposed matches Some(p)
                    &&& hole@ == self@.holes[self@.next as int]
                    &&& before@ == self@.current
                    &&& after@ == p
                    &&& diff_view(changes@) == line_diff(self@.current, p)
                },
                Step::Write(t) => {
                    &&& self@.proposed is None
                    &&& self@.holes.len() > 0
                    &&& self@.next == self@.holes.len()
                    &&& t@ == self@.current
                },
                Step::Nothing => self@.holes.len() == 0,
            },
    {
        match &self.proposed {
            Some(p) => Step::Review {
                hole: self.holes[self.next].clone(),
                before: self.current.clone(),
                after: p.clone(),
                changes: line_changes(self.current.as_str(), p.as_str()),
            },
            None => {
                if self.next < self.holes.len() {
                    Step::Ask {
                        hole: self.holes[self.next].clone(),
                        query: Fill::query(self.blob.as_str()),
                    }
                } else if self.holes.len() == 0 {
                    Step::Nothing
                } else {
                    Step::Write(self.current.clone())
                }
            },
        }
    }

    /// Takes the model's reply for the hole in turn: its completion, substituted
    /// for every occurrence of the hole in the working text, becomes the proposed
    /// edit. A reply without a completion stops the run and changes nothing.
    pub fn receive(&mut self, reply: &str) -> (r: Result<(), Error>)
        requires
            old(self).wf(),
            old(self)@.proposed is None,
            old(self)@.next < old(self)@.holes.len(),
        ensures
            final(self).wf(),
            match completion_of(reply@) {
                Some(c) => {
                    &&& r is Ok
                    &&& final(self)@ == (ResolutionView {
                        proposed: Some(
                            replace_all(old(self)@.current, old(self)@.holes[old(self)@.next as int], c),
                        ),
                        completions: old(self)@.completions.push(c),
                        ..old(self)@
                    })
                },
                None => r == Err::<(), Error>(Error::MalformedReply) && final(self)@ == old(self)@,
            },
    {
        match Fill::extract_completion(reply) {
            Ok(c) => {
                let after = Fill::substitute(
                    self.current.as_str(),
                    self.holes[self.next].as_str(),
                    c.as_str(),
                );
                proof {
                    lemma_apply_edits_extra_completion(
                        self.source@,
                        views(self.holes@),
                        self.completions@,
                        c@,
                        self.decisions@,
                    );
                    self.completions@ = self.completions@.push(c@);
                }
                self.proposed = Some(after);
                Ok(())
            },
            Err(e) => Err(e),
        }
    }

    /// Takes the user's decision on the proposed edit: kept, it becomes the working
    /// text; refused, the working text stays as it was. The next hole is then in turn.
    pub fn decide(&mut self, confirmed: bool)
        requires
            old(self).wf(),
            old(self)@.proposed is Some,
        ensures
            final(self).wf(),
            final(self)@ == (ResolutionView {
                current: if confirmed {
                    old(self)@.proposed->0
                } else {
                    old(self)@.current
                },
                next: old(self)@.next + 1,
                proposed: None,
                decisions: old(self)@.decisions.push(confirmed),
                ..old(self)@
            }),
    {
        let count = self.holes.len();
        let proposed = self.proposed.take();
        match proposed {
            Some(p) => {
                let before = self.current.clone();
                self.current = settle(before, p, confirmed);
                proof {
                    let d = self.decisions@.push(confirmed);
                    assert(d.drop_last() =~= self.decisions@);
                    self.decisions@ = d;
                }
                assert(self.next < count);
                self.next = self.next + 1;
            },
            None => {},
        }
    }
}

} // verus!

verus! {

/// Refusing every proposed edit leaves the source as it was.
pub proof fn lemma_rejecting_all_keeps_source(
    source: Seq<char>,
    holes: Seq<Seq<char>>,
    completions: Seq<Seq<char>>,
    decisions: Seq<bool>,
)
    requires
        forall|i: int| 0 <= i < decisions.len() ==> !decisions[i],
    ensures
        apply_edits(source, holes, completions, decisions) == source,
    decreases decisions.len(),
{
    if decisions.len() > 0 {
        lemma_rejecting_all_keeps_source(source, holes, completions, decisions.drop_last());
    }
}

/// In a resolution where every edit so far was refused, the working text, and so
/// the text that is written at the end, is the source.
pub proof fn lemma_rejected_run_keeps_source(r: Resolution)
    requires
        r.wf(),
        forall|i: int| 0 <= i < r@.decisions.len() ==> !r@.decisions[i],
    ensures
        r@.current == r@.source,
{
    lemma_rejecting_all_keeps_source(r@.source, r@.holes, r@.completions, r@.decisions);
}

/// A resolution of a blob with no hole marker and no fallback marker has no
/// holes: its only step is to leave the file as it is.
pub proof fn lemma_nothing_to_fill(r: Resolution)
    requires
        r@.holes == holes_of(r@.blob),
        markers_from(r@.blob, 0).len() == 0,
        !occurs_in(r@.blob, fallback_token()),
    ensures
        r@.holes.len() == 0,
{
    lemma_no_markers_no_holes(r@.blob);
}

} // verus!
