use rab_browser::{decode_reply, eval_result, JsonMember};

#[test]
fn decodes_webview_evaluation_results() {
    assert_eq!(
        eval_result(r#"{"ok":true,"value":"hello"}"#),
        Ok("hello".to_owned())
    );
    assert_eq!(
        eval_result(r#"{"ok":true,"value":"ERR:element not found"}"#),
        Ok("ERR:element not found".to_owned())
    );
    assert_eq!(
        eval_result(r#"{"ok":true,"value":42}"#),
        Ok("42".to_owned())
    );
    assert_eq!(
        eval_result(r#"{"ok":false,"error":"element not found"}"#),
        Err("element not found".to_owned())
    );
}

#[test]
fn reports_unreadable_replies() {
    assert!(eval_result("not json").unwrap_err().starts_with("invalid evaluation result: "));
    assert_eq!(
        eval_result("[1]"),
        Err("invalid evaluation result: expected an object".to_owned())
    );
    assert_eq!(
        eval_result(r#"{"value":1}"#),
        Err("invalid evaluation result: missing `ok`".to_owned())
    );
    assert_eq!(
        eval_result(r#"{"ok":false}"#),
        Err("evaluation failed without an error message".to_owned())
    );
    assert_eq!(eval_result(r#"{"ok":true}"#), Ok("null".to_owned()));
    assert_eq!(eval_result(r#"{"ok":true,"value":false}"#), Ok("false".to_owned()));
    assert_eq!(
        eval_result(r#"{"ok":true,"value":{"a":[1,2]}}"#),
        Ok(r#"{"a":[1,2]}"#.to_owned())
    );
}

#[test]
fn decodes_already_parsed_replies() {
    let members = |pairs: Vec<(&str, JsonMember)>| -> Result<Option<Vec<(String, JsonMember)>>, String> {
        Ok(Some(pairs.into_iter().map(|(key, value)| (key.to_owned(), value)).collect()))
    };
    assert_eq!(
        decode_reply(&members(vec![
            ("ok", JsonMember::Bool(true)),
            ("value", JsonMember::Text("hi".to_owned())),
        ])),
        Ok("hi".to_owned())
    );
    assert_eq!(
        decode_reply(&members(vec![
            ("value", JsonMember::Other("7".to_owned())),
            ("ok", JsonMember::Bool(true)),
            ("value", JsonMember::Other("8".to_owned())),
        ])),
        Ok("7".to_owned())
    );
    assert_eq!(
        decode_reply(&members(vec![
            ("ok", JsonMember::Bool(false)),
            ("error", JsonMember::Other("1".to_owned())),
        ])),
        Err("evaluation failed without an error message".to_owned())
    );
    assert_eq!(
        decode_reply(&members(vec![("ok", JsonMember::Text("true".to_owned()))])),
        Err("invalid evaluation result: missing `ok`".to_owned())
    );
    assert_eq!(
        decode_reply(&Ok(None)),
        Err("invalid evaluation result: expected an object".to_owned())
    );
    assert_eq!(
        decode_reply(&Err("EOF while parsing".to_owned())),
        Err("invalid evaluation result: EOF while parsing".to_owned())
    );
}
