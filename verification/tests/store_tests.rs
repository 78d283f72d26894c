use acc::store::{
    accept_fetched, load_testcases, save_testcases, split_alternating, testcase_file_name,
};

fn texts(items: &[&str]) -> Vec<String> {
    items.iter().map(|s| s.to_string()).collect()
}

#[test]
fn cache_file_name_appends_toml() {
    assert_eq!(testcase_file_name("abc001_a"), "abc001_a.toml");
}

#[test]
fn alternating_texts_pair_up() {
    let items = texts(&["in1", "out1", "in2", "out2"]);
    let (inputs, outputs) = split_alternating(&items);
    assert_eq!(inputs, vec!["in1", "in2"]);
    assert_eq!(outputs, vec!["out1", "out2"]);
}

#[test]
fn empty_fetch_is_rejected() {
    assert!(accept_fetched(&Vec::new()).is_none());
}

#[test]
fn odd_fetch_is_rejected() {
    let items = texts(&["in1", "out1", "in2"]);
    assert!(accept_fetched(&items).is_none());
}

#[test]
fn even_nonempty_fetch_is_accepted() {
    let items = texts(&["1\n", "2\n", "3\n", "4\n"]);
    let (inputs, outputs) = accept_fetched(&items).expect("usable fetch");
    assert_eq!(inputs, vec!["1\n", "3\n"]);
    assert_eq!(outputs, vec!["2\n", "4\n"]);
}

#[test]
fn fetched_collection_round_trips_through_the_cache() {
    let inputs = texts(&["1 2\n", "3 4\n"]);
    let outputs = texts(&["3\n", "7\n"]);
    let doc = save_testcases(&inputs, &outputs);
    let (l_in, l_out) = load_testcases(&doc).expect("saved document loads");
    assert_eq!(l_in, inputs);
    assert_eq!(l_out, outputs);
    let doc_again = save_testcases(&l_in, &l_out);
    assert_eq!(doc_again, doc);
}

#[test]
fn malformed_cache_document_fails_to_load() {
    assert!(load_testcases("[[testcases]]\ninput = oops").is_none());
}
