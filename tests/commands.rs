use redis_pp::command::{
    export_outcome, finish, option_actions, option_of_upper, parse_options, parse_request,
    prepare, Action, Fetched, PPCommands, PPOptions,
};
use redis_pp::json::{colored_reply, JsonPalette, TermColor};
use redis_pp::shape::{PPError, ReplyItem, ValueKind};

fn strings(items: &[&str]) -> Vec<String> {
    items.iter().map(|s| s.to_string()).collect()
}

fn texts(items: &[&str]) -> Vec<ReplyItem> {
    items.iter().map(|s| ReplyItem::Text(s.to_string())).collect()
}

#[test]
fn arity_is_checked() {
    assert!(matches!(parse_request(&strings(&["pp.j"])), Err(PPError::WrongArity)));
    assert!(matches!(
        parse_request(&strings(&["pp.j", "k", "pb", "pb"])),
        Err(PPError::WrongArity)
    ));
    assert!(matches!(parse_request(&Vec::new()), Err(PPError::WrongArity)));
}

#[test]
fn key_and_option_are_read() {
    let q = parse_request(&strings(&["pp.t", "mykey", "pb"])).ok().expect("well formed");
    assert_eq!(q.key, "mykey");
    assert_eq!(q.options, vec![PPOptions::PBCopy]);
    let q = parse_request(&strings(&["pp.t", "mykey"])).ok().expect("well formed");
    assert!(q.options.is_empty());
}

#[test]
fn options_are_case_insensitive_and_stop_at_unknown() {
    assert_eq!(parse_options(&strings(&["Pb", "PB"])), vec![PPOptions::PBCopy]);
    assert_eq!(parse_options(&strings(&["nope", "pb"])), Vec::<PPOptions>::new());
    assert_eq!(option_of_upper("PB"), Some(PPOptions::PBCopy));
    assert_eq!(option_of_upper("pb"), None);
}

#[test]
fn copy_option_exports_the_rendered_text() {
    let actions = option_actions(&vec![PPOptions::PBCopy], &"text".to_string());
    assert_eq!(actions.len(), 1);
    match &actions[0] {
        Action::CopyToSink(t) => assert_eq!(t, "text"),
    }
    assert!(option_actions(&Vec::new(), &"text".to_string()).is_empty());
}

#[test]
fn failed_fetch_is_key_not_found() {
    let r = prepare(PPCommands::PPT, ValueKind::Sequence, Fetched::Failed, &Vec::new());
    assert!(matches!(r, Err(PPError::KeyNotFound)));
}

#[test]
fn non_array_reply_is_null() {
    for cmd in [PPCommands::PPJ, PPCommands::PPT, PPCommands::PPC, PPCommands::PPH] {
        let r = prepare(cmd, ValueKind::Mapping, Fetched::NotArray, &Vec::new());
        assert!(matches!(r, Ok(None)));
    }
}

#[test]
fn prepare_renders_and_plans_export() {
    let r = prepare(
        PPCommands::PPC,
        ValueKind::Collection,
        Fetched::Array(texts(&["x", "y"])),
        &vec![PPOptions::PBCopy],
    );
    let p = r.ok().flatten().expect("rendered");
    assert_eq!(p.text, "x,y\n");
    assert_eq!(p.actions.len(), 1);
    match &p.actions[0] {
        Action::CopyToSink(t) => assert_eq!(t, "x,y\n"),
    }
}

#[test]
fn prepare_refuses_odd_mapping() {
    let r = prepare(
        PPCommands::PPH,
        ValueKind::Mapping,
        Fetched::Array(texts(&["k"])),
        &Vec::new(),
    );
    assert!(matches!(r, Err(PPError::MalformedReply)));
}

#[test]
fn finish_keeps_non_json_text() {
    assert_eq!(finish(PPCommands::PPH, "<ol/>".to_string(), &JsonPalette::standard()), Ok("<ol/>".to_string()));
    assert_eq!(finish(PPCommands::PPC, "a\n".to_string(), &JsonPalette::standard()), Ok("a\n".to_string()));
}

#[test]
fn finish_colours_json() {
    let r = finish(PPCommands::PPJ, "[\n  \"a\"\n]".to_string(), &JsonPalette::standard()).expect("valid JSON");
    assert!(r.contains('a'));
    assert!(matches!(finish(PPCommands::PPJ, "not json".to_string(), &JsonPalette::standard()), Err(PPError::EncodeFailed)));
}

#[test]
fn colouring_outcome_decides_reply() {
    assert_eq!(colored_reply(Some("c".to_string())), Ok("c".to_string()));
    assert_eq!(colored_reply(None), Err(PPError::EncodeFailed));
}

#[test]
fn sink_failure_is_fatal() {
    assert_eq!(export_outcome(true), Ok(()));
    assert_eq!(export_outcome(false), Err(PPError::SinkUnavailable));
}

#[test]
fn standard_palette_colours() {
    let p = JsonPalette::standard();
    assert_eq!(p.null, TermColor::Cyan);
    assert_eq!(p.boolean, TermColor::Yellow);
    assert_eq!(p.number, TermColor::Magenta);
    assert_eq!(p.string, TermColor::Green);
    assert_eq!(p.key, TermColor::Blue);
}

#[test]
fn plain_palette_leaves_text_uncoloured() {
    let plain = JsonPalette {
        null: TermColor::Plain,
        boolean: TermColor::Plain,
        number: TermColor::Plain,
        string: TermColor::Plain,
        key: TermColor::Plain,
    };
    let r = finish(PPCommands::PPJ, "[\n  \"a\"\n]".to_string(), &plain).expect("valid JSON");
    assert!(r.contains("a"));
}
