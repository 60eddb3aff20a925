use vstd::prelude::*;

verus! {

broadcast use vstd::string::group_string_axioms;

/// The characters of `s`, in order.
pub fn chars_of(s: &str) -> (r: Vec<char>)
    ensures
        r@ == s@,
{
    let mut v: Vec<char> = Vec::new();
    for c in it: s.chars()
        invariant
            v@ == it.seq().take(it.index() as int),
    {
        v.push(c);
    }
    assert(v@ =~= s@);
    v
}

} // verus!

verus! {

/// `p` occurs in `s` starting at index `k`.
pub open spec fn occurs_at(s: Seq<char>, k: int, p: Seq<char>) -> bool {
    0 <= k && k + p.len() <= s.len() && s.subrange(k, k + p.len()) == p
}

/// The first index at or after `k` where `p` occurs in `s`.
pub open spec fn find_from(s: Seq<char>, p: Seq<char>, k: int) -> Option<int>
    decreases s.len() + 1 - k,
{
    if k < 0 || k + p.len() > s.len() {
        None
    } else if occurs_at(s, k, p) {
        Some(k)
    } else {
        find_from(s, p, k + 1)
    }
}

/// `p` occurs somewhere in `s`.
pub open spec fn occurs_in(s: Seq<char>, p: Seq<char>) -> bool {
    find_from(s, p, 0) is Some
}

/// `s` from index `k` on, with every occurrence of the non-empty `p` replaced by `r`,
/// occurrences taken left to right and never overlapping.
pub open spec fn replace_from(s: Seq<char>, p: Seq<char>, r: Seq<char>, k: int) -> Seq<char>
    decreases s.len() - k,
{
    if k < 0 || k >= s.len() {
        Seq::empty()
    } else if p.len() > 0 && occurs_at(s, k, p) {
        r + replace_from(s, p, r, k + p.len())
    } else {
        seq![s[k]] + replace_from(s, p, r, k + 1)
    }
}

/// `s` with every occurrence of the non-empty `p` replaced by `r`.
pub open spec fn replace_all(s: Seq<char>, p: Seq<char>, r: Seq<char>) -> Seq<char> {
    replace_from(s, p, r, 0)
}

/// Whether `p` occurs in `s` at index `k`.
pub fn occurs_at_exec(s: &Vec<char>, k: usize, p: &Vec<char>) -> (r: bool)
    ensures
        r == occurs_at(s@, k as int, p@),
{
    if k > s.len() || p.len() > s.len() - k {
        return false;
    }
    let mut j: usize = 0;
    while j < p.len()
        invariant
            k + p@.len() <= s@.len(),
            k + p.len() <= s.len(),
            j <= p@.len(),
            forall|m: int| 0 <= m < j ==> s@[k + m] == p@[m],
        decreases p@.len() - j,
    {
        if s[k + j] != p[j] {
            assert(s@.subrange(k as int, k + p@.len())[j as int] != p@[j as int]);
            return false;
        }
        j = j + 1;
    }
    assert(s@.subrange(k as int, k + p@.len()) =~= p@);
    true
}

/// The first index at or after `k` where `p` occurs in `s`.
pub fn find_from_exec(s: &Vec<char>, p: &Vec<char>, k: usize) -> (r: Option<usize>)
    ensures
        r matches Some(i) ==> find_from(s@, p@, k as int) == Some(i as int),
        r is None ==> find_from(s@, p@, k as int) is None,
{
    let mut i: usize = k;
    if k > s.len() {
        return None;
    }
    while p.len() <= s.len() - i
        invariant
            k <= i <= s.len(),
            find_from(s@, p@, k as int) == find_from(s@, p@, i as int),
        decreases s@.len() - i,
    {
        if occurs_at_exec(s, i, p) {
            return Some(i);
        }
        if i == s.len() {
            assert(find_from(s@, p@, i + 1) is None);
            return None;
        }
        i = i + 1;
    }
    None
}

/// `s` with every occurrence of the non-empty `p` replaced by `r`.
pub fn replace_all_exec(s: &str, p: &str, r: &str) -> (out: String)
    requires
        p@.len() > 0,
    ensures
        out@ == replace_all(s@, p@, r@),
{
    let v = chars_of(s);
    let pv = chars_of(p);
    let n = v.len();
    let mut out = String::new();
    let mut st: usize = 0;
    let mut i: usize = 0;
    while i < n
        invariant
            v@ == s@,
            pv@ == p@,
            n == s@.len(),
            p@.len() > 0,
            st <= i <= n,
            out@ + s@.subrange(st as int, i as int) + replace_from(s@, p@, r@, i as int)
                == replace_all(s@, p@, r@),
        decreases n - i,
    {
        if occurs_at_exec(&v, i, &pv) {
            let piece = s.substring_char(st, i);
            out.append(piece);
            out.append(r);
            assert(out@ + s@.subrange(i + p@.len(), i + p@.len()) + replace_from(s@, p@, r@, i + p@.len())
                =~= out@ + replace_from(s@, p@, r@, i + p@.len()));
            i = i + pv.len();
            st = i;
        } else {
            assert(s@.subrange(st as int, i + 1) =~= s@.subrange(st as int, i as int) + seq![s@[i as int]]);
            assert(out@ + s@.subrange(st as int, i + 1) + replace_from(s@, p@, r@, i + 1)
                =~= out@ + s@.subrange(st as int, i as int) + (seq![s@[i as int]] + replace_from(s@, p@, r@, i + 1)));
            i = i + 1;
        }
    }
    let rest = s.substring_char(st, n);
    out.append(rest);
    assert(out@ =~= replace_all(s@, p@, r@));
    out
}

} // verus!

verus! {

/// What `find_from` returns is the first occurrence at or after `k`, if there is one.
pub proof fn lemma_find_from(s: Seq<char>, p: Seq<char>, k: int)
    requires
        0 <= k,
    ensures
        match find_from(s, p, k) {
            Some(j) => k <= j && occurs_at(s, j, p) && forall|m: int|
                k <= m < j ==> !occurs_at(s, m, p),
            None => forall|m: int| k <= m ==> !occurs_at(s, m, p),
        },
    decreases s.len() + 1 - k,
{
    if k + p.len() > s.len() {
    } else if occurs_at(s, k, p) {
    } else {
        lemma_find_from(s, p, k + 1);
    }
}

/// The views of a sequence of strings.
pub open spec fn views(v: Seq<String>) -> Seq<Seq<char>> {
    v.map_values(|x: String| x@)
}

} // verus!

verus! {

/// Whether `a` and `b` hold the same characters.
pub fn same_text(a: &str, b: &str) -> (r: bool)
    ensures
        r == (a@ == b@),
{
    let av = chars_of(a);
    let bv = chars_of(b);
    if av.len() != bv.len() {
        return false;
    }
    let mut i: usize = 0;
    while i < av.len()
        invariant
            av@ == a@,
            bv@ == b@,
            av@.len() == bv@.len(),
            i <= av@.len(),
            forall|k: int| 0 <= k < i ==> av@[k] == bv@[k],
        decreases av@.len() - i,
    {
        if av[i] != bv[i] {
            return false;
        }
        i = i + 1;
    }
    assert(av@ =~= bv@);
    true
}

/// What `str::to_lowercase` returns for `s`.
pub uninterp spec fn lower_of(s: Seq<char>) -> Seq<char>;

/// Relies on `str::to_lowercase`: the lowercase form of `s`, which depends on
/// the characters of `s` alone.
#[verifier::external_body]
pub(crate) fn lowercase(s: &str) -> (r: String)
    ensures
        r@ == lower_of(s@),
{
    s.to_lowercase()
}

} // verus!

verus! {

/// Where `p` does not occur in `s` between `i` and `j`, replacing from `i` keeps
/// that stretch as it is.
proof fn lemma_replace_plain(s: Seq<char>, p: Seq<char>, r: Seq<char>, i: int, j: int)
    requires
        0 <= i <= j <= s.len(),
        forall|m: int| i <= m < j ==> !occurs_at(s, m, p),
    ensures
        replace_from(s, p, r, i) == s.subrange(i, j) + replace_from(s, p, r, j),
    decreases j - i,
{
    if i < j {
        lemma_replace_plain(s, p, r, i + 1, j);
        assert(s.subrange(i, j) =~= seq![s[i]] + s.subrange(i + 1, j));
    } else {
        assert(s.subrange(i, j) =~= Seq::<char>::empty());
    }
}

/// A hole that occurs twice is replaced at both places, and the text between
/// and around them is kept.
pub proof fn lemma_replace_both_occurrences(s: Seq<char>, h: Seq<char>, r: Seq<char>, p: int, q: int)
    requires
        h.len() > 0,
        occurs_at(s, p, h),
        occurs_at(s, q, h),
        p + h.len() <= q,
        forall|m: int| occurs_at(s, m, h) ==> m == p || m == q,
    ensures
        replace_all(s, h, r) == s.subrange(0, p) + r + s.subrange(p + h.len(), q) + r + s.subrange(
            q + h.len(),
            s.len() as int,
        ),
{
    let n = s.len() as int;
    let e = q + h.len();
    lemma_replace_plain(s, h, r, 0, p);
    lemma_replace_plain(s, h, r, p + h.len(), q);
    lemma_replace_plain(s, h, r, e, n);
    assert(replace_from(s, h, r, n) =~= Seq::<char>::empty());
    assert(replace_from(s, h, r, p) == r + replace_from(s, h, r, p + h.len()));
    assert(replace_from(s, h, r, q) == r + replace_from(s, h, r, e));
    assert(replace_all(s, h, r) =~= s.subrange(0, p) + r + s.subrange(p + h.len(), q) + r
        + s.subrange(e, n));
}

/// Where no occurrence of `p` lies in `[k, j)` and one lies at `j`, the first
/// occurrence from `k` is at `j`.
pub proof fn lemma_find_first(s: Seq<char>, p: Seq<char>, k: int, j: int)
    requires
        0 <= k <= j,
        occurs_at(s, j, p),
        forall|m: int| k <= m < j ==> !occurs_at(s, m, p),
    ensures
        find_from(s, p, k) == Some(j),
    decreases j - k,
{
    if k < j {
        lemma_find_first(s, p, k + 1, j);
    }
}

} // verus!
