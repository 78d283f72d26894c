use acc::codec::{encode_testcases, escape_string, parse_testcases};
use acc::testcase::{Testcase, TestcaseFile};

fn file_of(pairs: &[(&str, &str)]) -> TestcaseFile {
    let mut tcs = Vec::new();
    for (i, o) in pairs {
        tcs.push(Testcase::new((*i).to_string(), (*o).to_string()));
    }
    TestcaseFile::new(tcs)
}

#[test]
fn escape_plain_text_is_unchanged() {
    assert_eq!(escape_string("1 2 3"), "1 2 3");
}

#[test]
fn escape_rewrites_special_characters() {
    assert_eq!(escape_string("a\nb"), "a\\nb");
    assert_eq!(escape_string("q\"q"), "q\\\"q");
    assert_eq!(escape_string("b\\b"), "b\\\\b");
    assert_eq!(escape_string("t\tr\r"), "t\\tr\\r");
}

#[test]
fn encode_one_testcase_exact_document() {
    let file = file_of(&[("1 2\n", "3\n")]);
    let expected = "[[testcases]]\ninput = \"1 2\\n\"\noutput = \"3\\n\"\n\n";
    assert_eq!(encode_testcases(&file), expected);
}

#[test]
fn encode_two_testcases_keeps_order() {
    let file = file_of(&[("a\n", "b\n"), ("c\n", "d\n")]);
    let expected = "[[testcases]]\ninput = \"a\\n\"\noutput = \"b\\n\"\n\n[[testcases]]\ninput = \"c\\n\"\noutput = \"d\\n\"\n\n";
    assert_eq!(encode_testcases(&file), expected);
}

#[test]
fn parse_recovers_the_collection() {
    let doc = "[[testcases]]\ninput = \"1 2\\n\"\noutput = \"3\\n\"\n\n";
    let file = parse_testcases(doc).expect("well-formed document");
    assert_eq!(file.len(), 1);
    assert_eq!(file.testcase(0).input(), "1 2\n");
    assert_eq!(file.testcase(0).output(), "3\n");
}

#[test]
fn save_then_load_keeps_every_pair() {
    let pairs = [
        ("1 2\n", "3\n"),
        ("he said \"hi\"\n", "back\\slash\ttab\r\n"),
        ("", "\n"),
    ];
    let file = file_of(&pairs);
    let doc = encode_testcases(&file);
    let loaded = parse_testcases(&doc).expect("own output must load");
    assert_eq!(loaded.len(), pairs.len());
    for (k, (i, o)) in pairs.iter().enumerate() {
        assert_eq!(loaded.testcase(k).input(), i);
        assert_eq!(loaded.testcase(k).output(), o);
    }
}

#[test]
fn load_then_save_is_byte_identical() {
    let doc = "[[testcases]]\ninput = \"1 2\\n\"\noutput = \"3\\n\"\n\n[[testcases]]\ninput = \"x\\ty\"\noutput = \"z\\\\w\"\n\n";
    let file = parse_testcases(doc).expect("well-formed document");
    assert_eq!(encode_testcases(&file), doc);
}

#[test]
fn empty_document_holds_no_testcases() {
    let file = parse_testcases("").expect("empty record list");
    assert_eq!(file.len(), 0);
    assert_eq!(encode_testcases(&file), "");
}

#[test]
fn malformed_header_is_rejected() {
    assert!(parse_testcases("[[cases]]\ninput = \"a\"\noutput = \"b\"\n\n").is_none());
}

#[test]
fn unterminated_string_is_rejected() {
    assert!(parse_testcases("[[testcases]]\ninput = \"a\noutput = \"b\"\n\n").is_none());
}

#[test]
fn unknown_escape_is_rejected() {
    assert!(parse_testcases("[[testcases]]\ninput = \"a\\qb\"\noutput = \"c\"\n\n").is_none());
}

#[test]
fn raw_tab_in_string_is_rejected() {
    assert!(parse_testcases("[[testcases]]\ninput = \"a\tb\"\noutput = \"c\"\n\n").is_none());
}

#[test]
fn missing_blank_line_is_rejected() {
    assert!(parse_testcases("[[testcases]]\ninput = \"a\"\noutput = \"b\"\n").is_none());
}

#[test]
fn trailing_garbage_is_rejected() {
    assert!(parse_testcases("[[testcases]]\ninput = \"a\"\noutput = \"b\"\n\nx").is_none());
}
