use json2jsonl::framing::Fault;
use json2jsonl::stream::{collect_lines, ArrayStream, StreamError};

fn run(input: &str) -> (Vec<String>, Result<(), StreamError>) {
    collect_lines(input.as_bytes())
}

fn fault_of(r: &Result<(), StreamError>) -> Option<(Fault, usize)> {
    match r {
        Err(e) => Some((e.fault, e.offset)),
        _ => None,
    }
}

#[test]
fn elements_become_lines_in_order() {
    let (lines, r) = run("[1, \"a\", {\"b\": 2, \"a\": 1}, [true, null]]");
    assert!(r.is_ok());
    assert_eq!(
        lines,
        vec![
            "1\n".to_string(),
            "\"a\"\n".to_string(),
            "{\"a\":1,\"b\":2}\n".to_string(),
            "[true,null]\n".to_string(),
        ]
    );
}

#[test]
fn empty_array_gives_no_lines() {
    let (lines, r) = run("[]");
    assert!(r.is_ok());
    assert!(lines.is_empty());
    let (lines, r) = run(" \n[ \t]\n");
    assert!(r.is_ok());
    assert!(lines.is_empty());
}

#[test]
fn non_array_input_is_refused_before_any_line() {
    for input in ["{}", "\"x\"", "42"] {
        let (lines, r) = run(input);
        assert!(lines.is_empty());
        assert_eq!(fault_of(&r), Some((Fault::NotAnArray, 0)));
    }
    let (lines, r) = run("  {\"a\": [1]}");
    assert!(lines.is_empty());
    assert_eq!(fault_of(&r), Some((Fault::NotAnArray, 2)));
}

#[test]
fn empty_input_ends_too_early() {
    let (lines, r) = run("");
    assert!(lines.is_empty());
    assert_eq!(fault_of(&r), Some((Fault::UnexpectedEnd, 0)));
    let (lines, r) = run("[1,");
    assert_eq!(lines, vec!["1\n".to_string()]);
    assert_eq!(fault_of(&r), Some((Fault::UnexpectedEnd, 3)));
    let (lines, r) = run("[");
    assert!(lines.is_empty());
    assert_eq!(fault_of(&r), Some((Fault::UnexpectedEnd, 1)));
}

#[test]
fn bad_element_keeps_the_lines_before_it() {
    let (lines, r) = run("[1, 2, tru, 4]");
    assert_eq!(lines, vec!["1\n".to_string(), "2\n".to_string()]);
    match r {
        Err(e) => {
            assert_eq!(e.fault, Fault::BadElement);
            assert_eq!(e.offset, 7);
            assert!(e.cause.is_some());
        }
        _ => panic!("expected an element error"),
    }
}

#[test]
fn punctuation_errors() {
    let (lines, r) = run("[1 2]");
    assert_eq!(lines, vec!["1\n".to_string()]);
    assert_eq!(fault_of(&r), Some((Fault::ExpectedCommaOrEnd, 3)));
    let (lines, r) = run("[1,]");
    assert_eq!(lines, vec!["1\n".to_string()]);
    assert_eq!(fault_of(&r), Some((Fault::TrailingComma, 3)));
    let (lines, r) = run("[,1]");
    assert!(lines.is_empty());
    assert_eq!(fault_of(&r), Some((Fault::BadElement, 1)));
}

#[test]
fn text_after_the_array_is_not_read() {
    let (lines, r) = run("[1] trailing");
    assert!(r.is_ok());
    assert_eq!(lines, vec!["1\n".to_string()]);
}

#[test]
fn line_feeds_inside_strings_stay_escaped() {
    let (lines, r) = run("[\"a\\nb\", {\"k\":\n\"v\"}]");
    assert!(r.is_ok());
    assert_eq!(lines, vec!["\"a\\nb\"\n".to_string(), "{\"k\":\"v\"}\n".to_string()]);
    for l in &lines {
        assert_eq!(l.matches('\n').count(), 1);
        assert!(l.ends_with('\n'));
    }
}

#[test]
fn lines_round_trip_to_the_same_values() {
    let input = "[0, -1.5e3, \"\\u00e9t\\u00e9\", {\"z\": [1, {\"y\": null}], \"a\": false}, []]";
    let (lines, r) = run(input);
    assert!(r.is_ok());
    let original: Vec<serde_json::Value> = serde_json::from_str(input).unwrap();
    assert_eq!(lines.len(), original.len());
    for (line, value) in lines.iter().zip(original.iter()) {
        let back: serde_json::Value = serde_json::from_str(line.trim_end_matches('\n')).unwrap();
        assert_eq!(&back, value);
    }
}

#[test]
fn two_runs_give_the_same_output() {
    let input = "[{\"b\": 1, \"a\": [2, 3]}, \"x\", 4.25, null]";
    let first = run(input);
    let second = run(input);
    assert!(first.1.is_ok() && second.1.is_ok());
    assert_eq!(first.0, second.0);
    assert_eq!(first.0.concat().matches('\n').count(), 4);
}

#[test]
fn stream_pulls_one_element_at_a_time() {
    let input = b" [ {\"a\": 1} , 2 ]";
    let mut stream = ArrayStream::new(input);
    assert!(!stream.is_finished());
    match stream.next_element() {
        Ok(Some(v)) => assert_eq!(v, serde_json::from_str::<serde_json::Value>("{\"a\":1}").unwrap()),
        _ => panic!("expected the first element"),
    }
    match stream.next_line() {
        Ok(Some(l)) => assert_eq!(l, "2\n"),
        _ => panic!("expected the second element"),
    }
    assert!(!stream.is_finished());
    assert!(matches!(stream.next_element(), Ok(None)));
    assert!(stream.is_finished());
    assert!(matches!(stream.next_line(), Ok(None)));
}

#[test]
fn stream_stays_finished_after_an_error() {
    let mut stream = ArrayStream::new(b"[1 x]");
    assert!(matches!(stream.next_element(), Ok(Some(_))));
    assert!(matches!(stream.next_element(), Err(_)));
    assert!(stream.is_finished());
    assert!(matches!(stream.next_element(), Ok(None)));
}
