//! The lexical forms recognised in a text: hole markers, the fallback marker,
//! import directives and the reply wrapper.
use vstd::prelude::*;

use crate::text::{find_from, lemma_find_first, lemma_find_from, occurs_at, occurs_in};

verus! {

/// What `char::is_alphanumeric` says of `c`.
pub uninterp spec fn alphanumeric(c: char) -> bool;

/// Relies on `char::is_alphanumeric`: whether `c` is a letter or a digit, which
/// depends on `c` alone.
#[verifier::external_body]
pub(crate) fn is_alphanumeric(c: char) -> (r: bool)
    ensures
        r == alphanumeric(c),
{
    c.is_alphanumeric()
}

/// A character that may stand inside a hole marker: a letter, a digit or `_`.
pub open spec fn is_word_char(c: char) -> bool {
    alphanumeric(c) || c == '_'
}

/// The end of the run of word characters that starts at `k`.
pub open spec fn word_end(s: Seq<char>, k: int) -> int
    decreases s.len() - k,
{
    if 0 <= k < s.len() && is_word_char(s[k]) {
        word_end(s, k + 1)
    } else {
        k
    }
}

/// The end (exclusive) of the hole marker `{{WORD}}` that starts at `i`, if one does.
pub open spec fn marker_end(s: Seq<char>, i: int) -> Option<int> {
    if 0 <= i && i + 1 < s.len() && s[i] == '{' && s[i + 1] == '{' {
        let k = word_end(s, i + 2);
        if k > i + 2 && k + 1 < s.len() && s[k] == '}' && s[k + 1] == '}' {
            Some(k + 2)
        } else {
            None
        }
    } else {
        None
    }
}

/// The hole markers of `s` from index `i` on, left to right, each taken whole.
pub open spec fn markers_from(s: Seq<char>, i: int) -> Seq<Seq<char>>
    decreases s.len() - i,
{
    if i < 0 || i >= s.len() {
        Seq::empty()
    } else {
        match marker_end(s, i) {
            Some(e) => seq![s.subrange(i, e)] + markers_from(s, e),
            None => markers_from(s, i + 1),
        }
    }
}

/// The fallback marker, recognised only where no hole marker is.
pub open spec fn fallback_token() -> Seq<char> {
    seq!['?', '?']
}

/// The holes to fill in a context blob: its hole markers in order of appearance;
/// where it has none, the fallback marker once if it occurs; else none.
pub open spec fn holes_of(s: Seq<char>) -> Seq<Seq<char>> {
    let m = markers_from(s, 0);
    if m.len() > 0 {
        m
    } else if occurs_in(s, fallback_token()) {
        seq![fallback_token()]
    } else {
        Seq::empty()
    }
}

/// The opening delimiter of an import directive.
pub open spec fn directive_open() -> Seq<char> {
    seq!['/', '/', '.', '/']
}

/// The closing delimiter of an import directive.
pub open spec fn directive_close() -> Seq<char> {
    seq!['/', '/']
}

/// Where an import directive starts at `i`: the index of its closing delimiter.
pub open spec fn directive_end(s: Seq<char>, i: int) -> Option<int> {
    if occurs_at(s, i, directive_open()) {
        find_from(s, directive_close(), i + 4)
    } else {
        None
    }
}

/// The paths that the import directives of `s` from index `i` on name, in order.
pub open spec fn directives_from(s: Seq<char>, i: int) -> Seq<Seq<char>>
    decreases s.len() - i,
{
    if i < 0 || i >= s.len() {
        Seq::empty()
    } else {
        match directive_end(s, i) {
            Some(j) => {
                proof {
                    lemma_find_from(s, directive_close(), i + 4);
                }
                seq![s.subrange(i + 4, j)] + directives_from(s, j + 2)
            },
            None => directives_from(s, i + 1),
        }
    }
}

/// The paths that the import directives of `s` name, in order.
pub open spec fn directives(s: Seq<char>) -> Seq<Seq<char>> {
    directives_from(s, 0)
}

/// `s` from index `i` on, each import directive replaced by a newline and the next
/// of `imports`; what was put in is not scanned again.
pub open spec fn expand_from(s: Seq<char>, imports: Seq<Seq<char>>, i: int) -> Seq<char>
    decreases s.len() - i,
{
    if i < 0 || i >= s.len() {
        Seq::empty()
    } else {
        match directive_end(s, i) {
            Some(j) => {
                proof {
                    lemma_find_from(s, directive_close(), i + 4);
                }
                seq!['\n'] + imports[0] + expand_from(s, imports.drop_first(), j + 2)
            },
            None => seq![s[i]] + expand_from(s, imports, i + 1),
        }
    }
}

/// `s` with its import directives expanded by `imports`, one for each in order.
pub open spec fn expand(s: Seq<char>, imports: Seq<Seq<char>>) -> Seq<char> {
    expand_from(s, imports, 0)
}

/// What `char::is_whitespace` says of `c`.
pub uninterp spec fn whitespace(c: char) -> bool;

/// Relies on `char::is_whitespace`: whether `c` has the Unicode White_Space
/// property, which depends on `c` alone.
#[verifier::external_body]
pub(crate) fn is_whitespace(c: char) -> (r: bool)
    ensures
        r == whitespace(c),
{
    c.is_whitespace()
}

/// Index `i` of `s` starts a word: a maximal run of characters that are not whitespace.
pub open spec fn starts_word(s: Seq<char>, i: int) -> bool {
    0 <= i < s.len() && !whitespace(s[i]) && (i == 0 || whitespace(s[i - 1]))
}

/// The number of words of `s` that start at or after `i`.
pub open spec fn words_from(s: Seq<char>, i: int) -> nat
    decreases s.len() - i,
{
    if i < 0 || i >= s.len() {
        0
    } else {
        (if starts_word(s, i) { 1nat } else { 0nat }) + words_from(s, i + 1)
    }
}

/// The number of whitespace-separated words of `s`.
pub open spec fn word_count(s: Seq<char>) -> nat {
    words_from(s, 0)
}

/// The opening tag of a query.
pub open spec fn query_open() -> Seq<char> {
    seq!['<', 'Q', 'U', 'E', 'R', 'Y', '>', '\n']
}

/// The closing tag of a query.
pub open spec fn query_close() -> Seq<char> {
    seq!['\n', '<', '/', 'Q', 'U', 'E', 'R', 'Y', '>']
}

/// The query for a context blob: the blob between the query tags, each on a line of its own.
pub open spec fn query_of(blob: Seq<char>) -> Seq<char> {
    query_open() + blob + query_close()
}

/// The opening tag of the reply wrapper.
pub open spec fn open_tag() -> Seq<char> {
    seq!['<', 'C', 'O', 'M', 'P', 'L', 'E', 'T', 'I', 'O', 'N', '>']
}

/// The closing tag of the reply wrapper.
pub open spec fn close_tag() -> Seq<char> {
    seq!['<', '/', 'C', 'O', 'M', 'P', 'L', 'E', 'T', 'I', 'O', 'N', '>']
}

/// What stands between the first opening tag of `s` and the first closing tag
/// after it, if both are there.
pub open spec fn completion_of(s: Seq<char>) -> Option<Seq<char>> {
    match find_from(s, open_tag(), 0) {
        Some(i) => match find_from(s, close_tag(), i + open_tag().len()) {
            Some(j) => Some(s.subrange(i + open_tag().len(), j)),
            None => None,
        },
        None => None,
    }
}

} // verus!

verus! {

/// Every hole marker is non-empty.
proof fn lemma_markers_nonempty(s: Seq<char>, i: int)
    ensures
        forall|k: int| 0 <= k < markers_from(s, i).len() ==> markers_from(s, i)[k].len() > 0,
    decreases s.len() - i,
{
    if i < 0 || i >= s.len() {
    } else {
        match marker_end(s, i) {
            Some(e) => {
                lemma_markers_nonempty(s, e);
                let m = markers_from(s, i);
                assert(m == seq![s.subrange(i, e)] + markers_from(s, e));
                assert forall|k: int| 0 <= k < m.len() implies m[k].len() > 0 by {
                    if k > 0 {
                        assert(m[k] == markers_from(s, e)[k - 1]);
                    } else {
                        assert(m[0] == s.subrange(i, e));
                    }
                }
            },
            None => {
                lemma_markers_nonempty(s, i + 1);
                assert(markers_from(s, i) == markers_from(s, i + 1));
            },
        }
    }
}

/// Every hole found is non-empty.
pub proof fn lemma_holes_nonempty(s: Seq<char>)
    ensures
        forall|k: int| 0 <= k < holes_of(s).len() ==> holes_of(s)[k].len() > 0,
{
    lemma_markers_nonempty(s, 0);
}

} // verus!

verus! {

/// A blob with no hole marker and no fallback marker has no holes.
pub proof fn lemma_no_markers_no_holes(s: Seq<char>)
    requires
        markers_from(s, 0).len() == 0,
        !occurs_in(s, fallback_token()),
    ensures
        holes_of(s) == Seq::<Seq<char>>::empty(),
{
}

/// A blob with no hole marker and the fallback marker once has that marker as
/// its only hole.
pub proof fn lemma_fallback_hole(s: Seq<char>, k: int)
    requires
        markers_from(s, 0).len() == 0,
        occurs_at(s, k, fallback_token()),
        forall|m: int| m != k ==> !occurs_at(s, m, fallback_token()),
    ensures
        holes_of(s) == seq![fallback_token()],
{
    lemma_find_from(s, fallback_token(), 0);
}

/// A text without import directives is its own expansion.
proof fn lemma_expand_plain(t: Seq<char>, im: Seq<Seq<char>>, i: int)
    requires
        0 <= i <= t.len(),
        directives_from(t, i).len() == 0,
    ensures
        expand_from(t, im, i) == t.subrange(i, t.len() as int),
    decreases t.len() - i,
{
    if i >= t.len() {
        assert(t.subrange(i, t.len() as int) =~= Seq::<char>::empty());
    } else {
        match directive_end(t, i) {
            Some(j) => {
                lemma_find_from(t, directive_close(), i + 4);
                assert(directives_from(t, i) == seq![t.subrange(i + 4, j)] + directives_from(
                    t,
                    j + 2,
                ));
            },
            None => {
                assert(directives_from(t, i) == directives_from(t, i + 1));
                lemma_expand_plain(t, im, i + 1);
                assert(t.subrange(i, t.len() as int) =~= seq![t[i]] + t.subrange(
                    i + 1,
                    t.len() as int,
                ));
            },
        }
    }
}

/// Expanding an already expanded blob, one with no directive left, changes nothing.
pub proof fn lemma_expand_idempotent(s: Seq<char>, imports: Seq<Seq<char>>)
    requires
        directives(expand(s, imports)).len() == 0,
    ensures
        expand(expand(s, imports), Seq::empty()) == expand(s, imports),
{
    let t = expand(s, imports);
    lemma_expand_plain(t, Seq::empty(), 0);
    assert(t.subrange(0, t.len() as int) =~= t);
}

/// The closing tag holds `<` only at its start.
proof fn lemma_close_tag_single_angle(d: int)
    requires
        1 <= d < 13,
    ensures
        close_tag()[d] != '<',
{
    let c = close_tag();
    assert(c[1] == '/' && c[2] == 'C' && c[3] == 'O' && c[4] == 'M' && c[5] == 'P' && c[6] == 'L'
        && c[7] == 'E' && c[8] == 'T' && c[9] == 'I' && c[10] == 'O' && c[11] == 'N' && c[12]
        == '>');
}

/// In `open_tag() + x + close_tag()`, where `x` holds no closing tag, the first
/// closing tag from the end of the opening one is the last one.
proof fn lemma_no_early_close(x: Seq<char>, m: int)
    requires
        forall|k: int| 0 <= k ==> !occurs_at(x, k, close_tag()),
        12 <= m < 12 + x.len(),
    ensures
        !occurs_at(open_tag() + x + close_tag(), m, close_tag()),
{
    let s = open_tag() + x + close_tag();
    let q: int = 12 + x.len() as int;
    if occurs_at(s, m, close_tag()) {
        if m + 13 <= q {
            assert(x.subrange(m - 12, m + 1) =~= s.subrange(m, m + 13));
            assert(occurs_at(x, m - 12, close_tag()));
        } else {
            let d = q - m;
            lemma_close_tag_single_angle(d);
            assert(s[q] == '<');
            assert(s.subrange(m, m + 13)[d] == s[q]);
        }
    }
}

/// A reply that wraps `x`, which holds no closing tag, gives back `x` exactly.
pub proof fn lemma_completion_round_trip(x: Seq<char>)
    requires
        !occurs_in(x, close_tag()),
    ensures
        completion_of(open_tag() + x + close_tag()) == Some(x),
{
    let s = open_tag() + x + close_tag();
    let q: int = 12 + x.len() as int;
    assert(s.subrange(0, 12) =~= open_tag());
    lemma_find_first(s, open_tag(), 0, 0);
    assert(s.subrange(q, q + 13) =~= close_tag());
    lemma_find_from(x, close_tag(), 0);
    assert forall|m: int| 12 <= m < q implies !occurs_at(s, m, close_tag()) by {
        lemma_no_early_close(x, m);
    }
    lemma_find_first(s, close_tag(), 12, q);
    assert(s.subrange(12, q) =~= x);
}

} // verus!
