use toolmind::codec::parse;
use toolmind::stream::{Shown, Stream};

fn shown(list: Vec<Shown>) -> Vec<String> {
    list.into_iter()
        .map(|s| match s {
            Shown::StopSpinner => "stop".to_string(),
            Shown::ThoughtHeading => "heading".to_string(),
            Shown::ThoughtSign(s) => format!("sign:{s}"),
            Shown::Thought(s) => format!("thought:{s}"),
            Shown::Answer(s) => format!("answer:{s}"),
        })
        .collect()
}

fn event(delta: &str) -> String {
    format!("data: {{\"choices\":[{{\"delta\":{delta}}}]}}\n\n")
}

#[test]
fn pieces_make_the_answer() {
    let mut s = Stream::new();
    let chunk = event(r#"{"content":"Ol"}"#) + &event(r#"{"content":"á"}"#);
    assert_eq!(shown(s.take_chunk(chunk.as_bytes())), ["stop", "answer:Ol", "answer:á"]);
    assert_eq!(s.answer, "Olá");
    assert_eq!(shown(s.take_chunk(event(r#"{"content":"!"}"#).as_bytes())), ["answer:!"]);
    assert_eq!(s.answer, "Olá!");
    assert!(s.delivered && !s.headed);
}

#[test]
fn thoughts_are_shown_and_not_kept() {
    let mut s = Stream::new();
    let chunk = event(r#"{"reasoning_content":"penso"}"#)
        + &event(r#"{"reasoning":"{\"tool\"","content":"x"}"#)
        + &event(r#"{"reasoning_content":"","reasoning":"não"}"#)
        + &event(r#"{"content":""}"#);
    assert_eq!(
        shown(s.take_text(&chunk)),
        ["stop", "heading", "thought:penso", "sign:⎿ ", "thought:{\"tool\"", "answer:x"]
    );
    assert_eq!(s.answer, "x");
}

#[test]
fn lines_that_are_no_pieces_are_skipped() {
    let mut s = Stream::new();
    for line in [
        ": ping",
        "event: x",
        "data:sem espaço",
        "data: {quebrado",
        "data: {}",
        "data: {\"choices\":[]}",
        "data: {\"choices\":{\"0\":1}}",
        "data: {\"choices\":[{}]}",
        "data: {\"choices\":[{\"delta\":{\"content\":7}}]}",
    ] {
        assert_eq!(shown(s.take_text(line)), Vec::<String>::new(), "{line}");
    }
    assert_eq!(s.answer, "");
    assert!(!s.delivered);
}

#[test]
fn the_end_stops_a_chunk_but_not_the_next_one() {
    let mut s = Stream::new();
    let chunk = event(r#"{"content":"a"}"#) + "data: [DONE] \n" + &event(r#"{"content":"b"}"#);
    assert_eq!(shown(s.take_text(&chunk)), ["stop", "answer:a"]);
    assert_eq!(shown(s.take_text(&event(r#"{"content":"c"}"#))), ["answer:c"]);
    assert_eq!(s.answer, "ac");
}

#[test]
fn an_event_is_taken_by_itself() {
    let mut s = Stream::new();
    let e = parse(r#"{"choices":[{"delta":{"content":"z"}}]}"#).unwrap();
    assert_eq!(shown(s.take_event(&e)), ["stop", "answer:z"]);
    assert_eq!(s.answer, "z");
}

#[test]
fn broken_bytes_become_replacement_characters() {
    let mut s = Stream::new();
    let mut chunk = b"data: {\"choices\":[{\"delta\":{\"content\":\"a".to_vec();
    chunk.push(0xff);
    chunk.extend_from_slice(b"b\"}}]}\n");
    assert_eq!(shown(s.take_chunk(&chunk)), ["stop", "answer:a\u{fffd}b"]);
}
