use ap_core::LogProcessor;

#[test]
fn extracts_single_fragment_between_noise() {
    let mut lp = LogProcessor::new();
    let out = lp.process_line("[Logger] stuff {\"a\":1} trailing");
    assert_eq!(out, vec!["{\"a\":1}".to_string()]);
}

#[test]
fn strips_whitespace_inside_fragments() {
    let mut lp = LogProcessor::new();
    let out = lp.process_line("{ \"a\" : [1, 2] }\r\n");
    assert_eq!(out, vec!["{\"a\":[1,2]}".to_string()]);
}

#[test]
fn extracts_multiple_fragments_from_one_line() {
    let mut lp = LogProcessor::new();
    let out = lp.process_line("{\"a\":1}{\"b\":{\"c\":2}}");
    assert_eq!(
        out,
        vec!["{\"a\":1}".to_string(), "{\"b\":{\"c\":2}}".to_string()]
    );
}

#[test]
fn holds_partial_fragment_across_calls() {
    let mut lp = LogProcessor::new();
    let first = lp.process_line("prefix {\"a\":{\"b\":");
    assert!(first.is_empty());
    let second = lp.process_line("1}}");
    assert_eq!(second, vec!["{\"a\":{\"b\":1}}".to_string()]);
}

#[test]
fn split_anywhere_gives_same_fragments() {
    let text = "x{\"a\":1}y{\"b\":[2,3]}{\"c\":{\"d\":4}}z";
    let mut whole = LogProcessor::new();
    let expected = whole.process_line(text);
    for split in 0..text.len() {
        if !text.is_char_boundary(split) {
            continue;
        }
        let mut lp = LogProcessor::new();
        let mut got = lp.process_line(&text[..split]);
        got.extend(lp.process_line(&text[split..]));
        assert_eq!(got, expected);
    }
}

#[test]
fn discards_text_outside_fragments() {
    let mut lp = LogProcessor::new();
    let out = lp.process_line("no braces at all");
    assert!(out.is_empty());
}

#[test]
fn stray_closing_brace_is_ignored() {
    let mut lp = LogProcessor::new();
    let out = lp.process_line("} {\"a\":1}");
    assert_eq!(out, vec!["{\"a\":1}".to_string()]);
}
