use holefill::error::Error;
use holefill::fill::Fill;
use holefill::resolution::{Resolution, Step};
use holefill::review::{line_changes, settle, ChangeKind};

fn strings(v: &[&str]) -> Vec<String> {
    v.iter().map(|s| s.to_string()).collect()
}

fn ask_query(r: &Resolution) -> (String, String) {
    match r.step() {
        Step::Ask { hole, query } => (hole, query),
        _ => panic!("expected a query"),
    }
}

fn review_after(r: &Resolution) -> (String, String) {
    match r.step() {
        Step::Review { before, after, .. } => (before, after),
        _ => panic!("expected a review"),
    }
}

fn written(r: &Resolution) -> Option<String> {
    match r.step() {
        Step::Write(t) => Some(t),
        Step::Nothing => None,
        _ => panic!("expected the end of the run"),
    }
}

#[test]
fn add_body_from_imported_context() {
    let source = "fn add(a,b){ {{BODY}} }";
    let context = strings(&["//./deps.txt//"]);
    let raw = Fill::combine(&context, source);
    assert_eq!(raw, "//./deps.txt//\nfn add(a,b){ {{BODY}} }");
    let paths = Fill::import_paths(&raw);
    assert_eq!(paths, strings(&["deps.txt"]));
    let imports = Fill::collect_imports(&paths, &vec![Some("helpers".to_string())]).unwrap();
    let blob = Fill::add_context(&raw, &imports);
    assert_eq!(blob, "\nhelpers\nfn add(a,b){ {{BODY}} }");
    let mut run = Resolution::new(source.to_string(), blob.clone());
    let (hole, query) = ask_query(&run);
    assert_eq!(hole, "{{BODY}}");
    assert_eq!(query, format!("<QUERY>\n{}\n</QUERY>", blob));
    assert_eq!(run.receive("<COMPLETION>return a+b;</COMPLETION>"), Ok(()));
    let (before, after) = review_after(&run);
    assert_eq!(before, source);
    assert_eq!(after, "fn add(a,b){ return a+b; }");
    run.decide(true);
    assert_eq!(written(&run), Some("fn add(a,b){ return a+b; }".to_string()));
}

#[test]
fn missing_import_stops_before_any_query() {
    let raw = Fill::combine(&strings(&["//./nowhere.txt//"]), "{{X}}");
    let paths = Fill::import_paths(&raw);
    assert_eq!(paths, strings(&["nowhere.txt"]));
    let r = Fill::collect_imports(&paths, &vec![None]);
    assert_eq!(r, Err(Error::InputNotFound("nowhere.txt".to_string())));
}

#[test]
fn first_missing_import_is_named() {
    let paths = strings(&["a.txt", "b.txt", "c.txt"]);
    let read = vec![Some("A".to_string()), None, None];
    assert_eq!(
        Fill::collect_imports(&paths, &read),
        Err(Error::InputNotFound("b.txt".to_string()))
    );
    let read = vec![Some("A".to_string()), Some("B".to_string()), Some("C".to_string())];
    assert_eq!(Fill::collect_imports(&paths, &read), Ok(strings(&["A", "B", "C"])));
}

#[test]
fn no_holes_means_nothing_to_do() {
    let text = "fn main() { println!(\"{}\", 1); } // ? and {x} and {{ }}";
    assert!(Fill::detect_holes(text).is_empty());
    let run = Resolution::new(text.to_string(), text.to_string());
    assert_eq!(written(&run), None);
}

#[test]
fn single_fallback_marker_is_the_hole() {
    assert_eq!(Fill::detect_holes("let x = ??;"), strings(&["??"]));
}

#[test]
fn fallback_reported_once_when_repeated() {
    assert_eq!(Fill::detect_holes("a ?? b ??? c"), strings(&["??"]));
}

#[test]
fn fallback_ignored_when_markers_exist() {
    assert_eq!(Fill::detect_holes("?? {{A}} ??"), strings(&["{{A}}"]));
}

#[test]
fn markers_in_order_with_repeats() {
    assert_eq!(
        Fill::detect_holes("{{B}} x {{A_1}} y {{B}} {{}} {{a-b}} {{{C}}}"),
        strings(&["{{B}}", "{{A_1}}", "{{B}}", "{{C}}"])
    );
}

#[test]
fn unicode_letters_are_word_characters() {
    assert_eq!(Fill::detect_holes("x {{café}} y"), strings(&["{{café}}"]));
}

#[test]
fn expansion_of_expanded_blob_is_identity() {
    let raw = "head //./one.txt// mid //./two.txt// tail";
    let paths = Fill::import_paths(raw);
    assert_eq!(paths, strings(&["one.txt", "two.txt"]));
    let once = Fill::add_context(raw, &strings(&["ONE", "TWO"]));
    assert_eq!(once, "head \nONE mid \nTWO tail");
    assert!(Fill::import_paths(&once).is_empty());
    assert_eq!(Fill::add_context(&once, &vec![]), once);
}

#[test]
fn imported_text_is_not_scanned_again() {
    let raw = "//./a.txt// end";
    let once = Fill::add_context(raw, &strings(&["//./b.txt//"]));
    assert_eq!(once, "\n//./b.txt// end");
}

#[test]
fn unterminated_directive_is_left_alone() {
    let raw = "x //./open path";
    assert!(Fill::import_paths(raw).is_empty());
    assert_eq!(Fill::add_context(raw, &vec![]), raw);
}

#[test]
fn completion_round_trip_keeps_newlines_and_spaces() {
    let x = "  line one\nline two\n\n";
    let reply = format!("<COMPLETION>{}</COMPLETION>", x);
    assert_eq!(Fill::extract_completion(&reply), Ok(x.to_string()));
}

#[test]
fn first_completion_span_is_taken() {
    let reply = "Sure! <COMPLETION>a</COMPLETION> and <COMPLETION>b</COMPLETION>";
    assert_eq!(Fill::extract_completion(reply), Ok("a".to_string()));
    assert_eq!(Fill::extract_completion("<COMPLETION></COMPLETION>"), Ok(String::new()));
}

#[test]
fn reply_without_wrapper_is_malformed() {
    assert_eq!(Fill::extract_completion("return a+b;"), Err(Error::MalformedReply));
    assert_eq!(Fill::extract_completion("<COMPLETION>unclosed"), Err(Error::MalformedReply));
    assert_eq!(Fill::extract_completion("</COMPLETION>x<COMPLETION>"), Err(Error::MalformedReply));
}

#[test]
fn malformed_reply_stops_the_hole() {
    let mut run = Resolution::new("{{A}}".to_string(), "{{A}}".to_string());
    assert_eq!(run.receive("no tags here"), Err(Error::MalformedReply));
    let (hole, _) = ask_query(&run);
    assert_eq!(hole, "{{A}}");
}

#[test]
fn rejecting_every_edit_keeps_the_source() {
    let source = "a {{X}} b {{Y}} c";
    let mut run = Resolution::new(source.to_string(), source.to_string());
    for reply in ["<COMPLETION>1</COMPLETION>", "<COMPLETION>2</COMPLETION>"] {
        ask_query(&run);
        run.receive(reply).unwrap();
        run.decide(false);
    }
    assert_eq!(written(&run), Some(source.to_string()));
}

#[test]
fn repeated_hole_replaced_everywhere() {
    let source = "x = {{A}}; y = {{A}};";
    let mut run = Resolution::new(source.to_string(), source.to_string());
    assert_eq!(ask_query(&run).0, "{{A}}");
    run.receive("<COMPLETION>42</COMPLETION>").unwrap();
    assert_eq!(review_after(&run).1, "x = 42; y = 42;");
    run.decide(true);
    assert_eq!(ask_query(&run).0, "{{A}}");
    run.receive("<COMPLETION>42</COMPLETION>").unwrap();
    run.decide(true);
    assert_eq!(written(&run), Some("x = 42; y = 42;".to_string()));
}

#[test]
fn queries_use_the_original_blob() {
    let source = "{{A}} {{B}}";
    let blob = "ctx\n{{A}} {{B}}";
    let mut run = Resolution::new(source.to_string(), blob.to_string());
    let (_, q1) = ask_query(&run);
    run.receive("<COMPLETION>1</COMPLETION>").unwrap();
    run.decide(true);
    let (hole, q2) = ask_query(&run);
    assert_eq!(hole, "{{B}}");
    assert_eq!(q1, q2);
    run.receive("<COMPLETION>2</COMPLETION>").unwrap();
    run.decide(true);
    assert_eq!(written(&run), Some("1 2".to_string()));
}

#[test]
fn holes_found_in_context_only_change_nothing() {
    let mut run = Resolution::new("body".to_string(), "{{CTX}}\nbody".to_string());
    run.receive("<COMPLETION>z</COMPLETION>").unwrap();
    let (before, after) = review_after(&run);
    assert_eq!(before, after);
    run.decide(true);
    assert_eq!(written(&run), Some("body".to_string()));
}

#[test]
fn substitute_replaces_all_occurrences() {
    assert_eq!(Fill::substitute("??+??", "??", "1"), "1+1");
    assert_eq!(Fill::substitute("aaa", "aa", "b"), "ba");
    assert_eq!(Fill::substitute("none", "{{A}}", "x"), "none");
}

#[test]
fn query_wraps_blob_verbatim() {
    assert_eq!(Fill::query(" a\n"), "<QUERY>\n a\n\n</QUERY>");
    assert_eq!(Fill::query(""), "<QUERY>\n\n</QUERY>");
}

#[test]
fn token_count_counts_words() {
    assert_eq!(Fill::token_count(""), 0);
    assert_eq!(Fill::token_count("  a  b\tc\nd  "), 4);
    assert_eq!(Fill::token_count("one"), 1);
}

#[test]
fn combine_joins_context_with_newlines() {
    assert_eq!(Fill::combine(&vec![], "src"), "\nsrc");
    assert_eq!(Fill::combine(&strings(&["a", "b"]), "src"), "a\nb\nsrc");
}

#[test]
fn diff_lines_tag_each_line() {
    let changes = line_changes("a\nb\nc\n", "a\nB\nc\n");
    let got: Vec<(ChangeKind, String)> = changes.into_iter().map(|d| (d.kind, d.line)).collect();
    assert_eq!(
        got,
        vec![
            (ChangeKind::Equal, "a\n".to_string()),
            (ChangeKind::Delete, "b\n".to_string()),
            (ChangeKind::Insert, "B\n".to_string()),
            (ChangeKind::Equal, "c\n".to_string()),
        ]
    );
    assert_eq!(ChangeKind::Insert.sign(), '+');
    assert_eq!(ChangeKind::Delete.sign(), '-');
    assert_eq!(ChangeKind::Equal.sign(), ' ');
}

#[test]
fn settle_keeps_or_discards() {
    assert_eq!(settle("old".to_string(), "new".to_string(), true), "new");
    assert_eq!(settle("old".to_string(), "new".to_string(), false), "old");
}
