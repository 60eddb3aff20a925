//! Composing the context blob, finding holes, and reading replies.
use vstd::prelude::*;

use crate::error::Error;
use crate::grammar::{
    close_tag, completion_of, directive_close, directive_end, directive_open, directives,
    directives_from, expand, expand_from, fallback_token, holes_of, is_alphanumeric, is_whitespace,
    marker_end, markers_from, open_tag, query_close, query_of, query_open, starts_word, whitespace,
    word_count, word_end, words_from,
};
use crate::text::{
    chars_of, find_from_exec, lemma_find_from, occurs_at_exec, replace_all, replace_all_exec, views,
};

verus! {

broadcast use vstd::string::group_string_axioms;

/// The context lines joined by newlines.
pub open spec fn join_lines(v: Seq<Seq<char>>) -> Seq<char>
    decreases v.len(),
{
    if v.len() == 0 {
        Seq::empty()
    } else if v.len() == 1 {
        v[0]
    } else {
        join_lines(v.drop_last()) + seq!['\n'] + v.last()
    }
}

/// The raw blob: the context files joined by newlines, a newline, then the source.
pub open spec fn combined(context: Seq<Seq<char>>, code: Seq<char>) -> Seq<char> {
    join_lines(context) + seq!['\n'] + code
}

/// The fill command: the file whose holes are filled, and the context files.
pub struct Fill {
    pub file: String,
    pub context: Vec<String>,
}

/// A string holding one newline.
fn newline() -> (r: &'static str)
    ensures
        r@ == seq!['\n'],
{
    let r = "\n";
    proof {
        reveal_strlit("\n");
    }
    assert(r@ =~= seq!['\n']);
    r
}

impl Fill {
    /// The raw blob: the contents of the context files joined by newlines, a
    /// newline, then the source text.
    pub fn combine(context: &Vec<String>, code: &str) -> (r: String)
        ensures
            r@ == combined(views(context@), code@),
    {
        let mut out = String::new();
        let mut i: usize = 0;
        while i < context.len()
            invariant
                i <= context@.len(),
                out@ == join_lines(views(context@).take(i as int)),
            decreases context@.len() - i,
        {
            proof {
                let w = views(context@).take(i + 1);
                assert(w.drop_last() =~= views(context@).take(i as int));
            }
            if i > 0 {
                out.append(newline());
            } else {
                assert(out@ =~= Seq::<char>::empty());
            }
            out.append(context[i].as_str());
            i = i + 1;
        }
        assert(views(context@).take(context@.len() as int) =~= views(context@));
        out.append(newline());
        out.append(code);
        out
    }

    /// The paths named by the import directives of `code`, in order of appearance.
    pub fn import_paths(code: &str) -> (r: Vec<String>)
        ensures
            views(r@) == directives(code@),
    {
        let v = chars_of(code);
        let op = Self::directive_open_chars();
        let cl = Self::directive_close_chars();
        let n = v.len();
        let mut out: Vec<String> = Vec::new();
        let mut i: usize = 0;
        while i < n
            invariant
                v@ == code@,
                op@ == directive_open(),
                cl@ == directive_close(),
                n == code@.len(),
                i <= n,
                views(out@) + directives_from(code@, i as int) == directives(code@),
            decreases n - i,
        {
            let mut next = i + 1;
            if occurs_at_exec(&v, i, &op) {
                match find_from_exec(&v, &cl, i + 4) {
                    Some(j) => {
                        proof {
                            lemma_find_from(code@, directive_close(), i + 4);
                        }
                        let path = String::from_str(code.substring_char(i + 4, j));
                        let ghost before = out@;
                        out.push(path);
                        assert(views(out@) =~= views(before) + seq![code@.subrange(i + 4, j as int)]);
                        next = j + 2;
                    },
                    None => {},
                }
            }
            i = next;
        }
        assert(views(out@) =~= directives(code@));
        out
    }

    /// `code` with each import directive, delimiters included, replaced by a newline
    /// and the contents of the file it names: `imports` holds them in order.
    /// What is put in is not scanned again.
    pub fn add_context(code: &str, imports: &Vec<String>) -> (r: String)
        requires
            imports@.len() == directives(code@).len(),
        ensures
            r@ == expand(code@, views(imports@)),
    {
        let v = chars_of(code);
        let op = Self::directive_open_chars();
        let cl = Self::directive_close_chars();
        let n = v.len();
        let ghost im = views(imports@);
        let mut out = String::new();
        let total = imports.len();
        let mut used: usize = 0;
        let mut st: usize = 0;
        let mut i: usize = 0;
        assert(im.skip(0) =~= im);
        assert(out@ + code@.subrange(0, 0) =~= Seq::<char>::empty());
        while i < n
            invariant
                v@ == code@,
                op@ == directive_open(),
                cl@ == directive_close(),
                n == code@.len(),
                im == views(imports@),
                st <= i <= n,
                total == imports@.len(),
                used <= imports@.len(),
                directives_from(code@, i as int).len() == imports@.len() - used,
                out@ + code@.subrange(st as int, i as int) + expand_from(code@, im.skip(used as int), i as int)
                    == expand(code@, im),
            decreases n - i,
        {
            let mut found: Option<usize> = None;
            if occurs_at_exec(&v, i, &op) {
                found = find_from_exec(&v, &cl, i + 4);
            }
            match found {
                Some(j) => {
                    proof {
                        lemma_find_from(code@, directive_close(), i + 4);
                        assert(directive_end(code@, i as int) == Some(j as int));
                        assert(directives_from(code@, i as int) == seq![code@.subrange(i + 4, j as int)]
                            + directives_from(code@, j + 2));
                        assert(directives_from(code@, i as int).len() >= 1);
                        assert(used < imports@.len());
                        assert(im.skip(used as int).drop_first() =~= im.skip(used + 1));
                        assert(im.skip(used as int)[0] == imports@[used as int]@);
                    }
                    out.append(code.substring_char(st, i));
                    out.append(newline());
                    out.append(imports[used].as_str());
                    proof {
                        let e = expand_from(code@, im.skip(used + 1), j + 2);
                        assert(code@.subrange(j + 2, j + 2) =~= Seq::<char>::empty());
                        assert(out@ + code@.subrange(j + 2, j + 2) + e =~= out@ + e);
                    }
                    used = used + 1;
                    i = j + 2;
                    st = i;
                },
                None => {
                    proof {
                        let e = expand_from(code@, im.skip(used as int), i + 1);
                        assert(code@.subrange(st as int, i + 1) =~= code@.subrange(st as int, i as int) + seq![code@[i as int]]);
                    }
                    i = i + 1;
                },
            }
        }
        out.append(code.substring_char(st, n));
        proof {
            assert(code@.subrange(st as int, n as int) + expand_from(code@, im.skip(used as int), n as int)
                =~= code@.subrange(st as int, n as int));
        }
        out
    }

    /// The contents of the imported files, given what reading each of `paths`
    /// gave (`None` where the file is missing); the first missing file stops the
    /// run, naming its path.
    pub fn collect_imports(paths: &Vec<String>, read: &Vec<Option<String>>) -> (r: Result<
        Vec<String>,
        Error,
    >)
        requires
            read@.len() == paths@.len(),
        ensures
            match r {
                Ok(v) => {
                    &&& forall|i: int| 0 <= i < read@.len() ==> read@[i] is Some
                    &&& v@.len() == read@.len()
                    &&& forall|i: int| 0 <= i < v@.len() ==> (#[trigger] read@[i] matches Some(t) && t@ == v@[i]@)
                },
                Err(e) => exists|i: int|
                    {
                        &&& 0 <= i < read@.len()
                        &&& read@[i] is None
                        &&& forall|k: int| 0 <= k < i ==> read@[k] is Some
                        &&& e matches Error::InputNotFound(p) && p@ == paths@[i]@
                    },
            },
    {
        let mut out: Vec<String> = Vec::new();
        let mut i: usize = 0;
        while i < paths.len()
            invariant
                read@.len() == paths@.len(),
                i <= read@.len(),
                out@.len() == i,
                forall|k: int| 0 <= k < i ==> (#[trigger] read@[k] matches Some(t) && t@ == out@[k]@),
            decreases paths@.len() - i,
        {
            match &read[i] {
                Some(text) => {
                    out.push(text.clone());
                },
                None => {
                    return Err(Error::InputNotFound(paths[i].clone()));
                },
            }
            i = i + 1;
        }
        Ok(out)
    }

    /// The holes of a context blob: its hole markers left to right, one entry for each
    /// occurrence; where it has none, the fallback marker if it occurs; else none.
    pub fn detect_holes(blob: &str) -> (r: Vec<String>)
        ensures
            views(r@) == holes_of(blob@),
    {
        let v = chars_of(blob);
        let markers = Self::markers(blob, &v);
        if markers.len() > 0 {
            return markers;
        }
        let fb = "??";
        proof {
            reveal_strlit("??");
        }
        let fv = chars_of(fb);
        assert(fv@ =~= fallback_token());
        let mut out: Vec<String> = Vec::new();
        if find_from_exec(&v, &fv, 0).is_some() {
            out.push(String::from_str(fb));
            assert(views(out@) =~= seq![fallback_token()]);
        } else {
            assert(views(out@) =~= Seq::<Seq<char>>::empty());
        }
        out
    }

    /// The hole markers of `s`, left to right.
    fn markers(s: &str, v: &Vec<char>) -> (r: Vec<String>)
        requires
            v@ == s@,
        ensures
            views(r@) == markers_from(s@, 0),
    {
        let n = v.len();
        let mut out: Vec<String> = Vec::new();
        let mut i: usize = 0;
        while i < n
            invariant
                v@ == s@,
                n == s@.len(),
                i <= n,
                views(out@) + markers_from(s@, i as int) == markers_from(s@, 0),
            decreases n - i,
        {
            match Self::marker_end_at(v, i) {
                Some(e) => {
                    let ghost before = out@;
                    out.push(String::from_str(s.substring_char(i, e)));
                    assert(views(out@) =~= views(before) + seq![s@.subrange(i as int, e as int)]);
                    i = e;
                },
                None => {
                    i = i + 1;
                },
            }
        }
        assert(views(out@) =~= markers_from(s@, 0));
        out
    }

    /// The end of the hole marker that starts at `i`, if one does.
    fn marker_end_at(v: &Vec<char>, i: usize) -> (r: Option<usize>)
        requires
            i < v@.len(),
        ensures
            r matches Some(e) ==> marker_end(v@, i as int) == Some(e as int),
            r is None ==> marker_end(v@, i as int) is None,
    {
        let n = v.len();
        if i + 1 >= n || v[i] != '{' || v[i + 1] != '{' {
            return None;
        }
        let mut k: usize = i + 2;
        while k < n && (v[k] == '_' || is_alphanumeric(v[k]))
            invariant
                i + 2 <= k <= n,
                n == v@.len(),
                word_end(v@, i + 2) == word_end(v@, k as int),
            decreases n - k,
        {
            k = k + 1;
        }
        if k > i + 2 && k < n - 1 && v[k] == '}' && v[k + 1] == '}' {
            Some(k + 2)
        } else {
            None
        }
    }

    /// The query for a context blob: the blob, verbatim, between `<QUERY>` and
    /// `</QUERY>`, each tag on a line of its own.
    pub fn query(blob: &str) -> (r: String)
        ensures
            r@ == query_of(blob@),
    {
        let open = "<QUERY>\n";
        let close = "\n</QUERY>";
        proof {
            reveal_strlit("<QUERY>\n");
            reveal_strlit("\n</QUERY>");
        }
        assert(open@ =~= query_open());
        assert(close@ =~= query_close());
        let mut out = String::from_str(open);
        out.append(blob);
        out.append(close);
        out
    }

    /// The number of whitespace-separated words of a blob, for display.
    pub fn token_count(blob: &str) -> (r: usize)
        ensures
            r == word_count(blob@),
    {
        let v = chars_of(blob);
        let n = v.len();
        let mut count: usize = 0;
        let mut prev_white = true;
        let mut i: usize = 0;
        while i < n
            invariant
                v@ == blob@,
                n == blob@.len(),
                i <= n,
                count <= i,
                prev_white == (i == 0 || whitespace(blob@[i - 1])),
                count + words_from(blob@, i as int) == word_count(blob@),
            decreases n - i,
        {
            let white = is_whitespace(v[i]);
            if !white && prev_white {
                assert(starts_word(blob@, i as int));
                count = count + 1;
            }
            prev_white = white;
            i = i + 1;
        }
        count
    }

    /// The completion in a reply: what stands between the first `<COMPLETION>` and
    /// the first `</COMPLETION>` after it, verbatim. Without such a span the reply
    /// is malformed.
    pub fn extract_completion(answer: &str) -> (r: Result<String, Error>)
        ensures
            match completion_of(answer@) {
                Some(c) => r matches Ok(x) && x@ == c,
                None => r == Err::<String, Error>(Error::MalformedReply),
            },
    {
        let v = chars_of(answer);
        let n = v.len();
        let open = "<COMPLETION>";
        let close = "</COMPLETION>";
        proof {
            reveal_strlit("<COMPLETION>");
            reveal_strlit("</COMPLETION>");
        }
        let ov = chars_of(open);
        let cv = chars_of(close);
        assert(ov@ =~= open_tag());
        assert(cv@ =~= close_tag());
        match find_from_exec(&v, &ov, 0) {
            Some(i) => {
                proof {
                    lemma_find_from(answer@, open_tag(), 0);
                    assert(open_tag().len() == 12);
                    assert(i + 12 <= n);
                }
                match find_from_exec(&v, &cv, i + 12) {
                    Some(j) => {
                        proof {
                            lemma_find_from(answer@, close_tag(), i + 12);
                        }
                        Ok(String::from_str(answer.substring_char(i + 12, j)))
                    },
                    None => Err(Error::MalformedReply),
                }
            },
            None => Err(Error::MalformedReply),
        }
    }

    /// `current` with every occurrence of `hole` replaced by `completion`.
    pub fn substitute(current: &str, hole: &str, completion: &str) -> (r: String)
        requires
            hole@.len() > 0,
        ensures
            r@ == replace_all(current@, hole@, completion@),
    {
        replace_all_exec(current, hole, completion)
    }

    /// The characters of the opening delimiter of an import directive.
    fn directive_open_chars() -> (r: Vec<char>)
        ensures
            r@ == directive_open(),
    {
        let s = "//./";
        proof {
            reveal_strlit("//./");
        }
        let r = chars_of(s);
        assert(r@ =~= directive_open());
        r
    }

    /// The characters of the closing delimiter of an import directive.
    fn directive_close_chars() -> (r: Vec<char>)
        ensures
            r@ == directive_close(),
    {
        let s = "//";
        proof {
            reveal_strlit("//");
        }
        let r = chars_of(s);
        assert(r@ =~= directive_close());
        r
    }
}

} // verus!
