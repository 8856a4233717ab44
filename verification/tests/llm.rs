use vibe_lights::llm::{
    from_openai_reply, openai_messages, ChatMessage, ContentBlock, MessageContent, OaiChoice, OaiMessage,
    OaiReplyCall, OaiReplyMessage, ReplyBlock,
};

fn block(kind: Option<&str>) -> ContentBlock {
    ContentBlock {
        kind: kind.map(str::to_string),
        text: None,
        id: None,
        name: None,
        tool_use_id: None,
        content: None,
        input_json: "null".to_string(),
    }
}

fn text_block(t: &str) -> ContentBlock {
    ContentBlock { text: Some(t.to_string()), ..block(Some("text")) }
}

fn msg(role: Option<&str>, content: MessageContent) -> ChatMessage {
    ChatMessage { role: role.map(str::to_string), content }
}

fn user_text(m: &OaiMessage) -> Option<&str> {
    match m {
        OaiMessage::User { content } => Some(content.as_str()),
        _ => None,
    }
}

#[test]
fn system_prompt_comes_first() {
    let out = openai_messages("be brief", &[]);
    assert_eq!(out.len(), 1);
    assert!(matches!(&out[0], OaiMessage::System { content } if content == "be brief"));
}

#[test]
fn user_string_and_missing_role() {
    let out = openai_messages("s", &[
        msg(Some("user"), MessageContent::Text("hi".to_string())),
        msg(None, MessageContent::Text("no role".to_string())),
        msg(Some("system"), MessageContent::Text("dropped".to_string())),
    ]);
    assert_eq!(out.len(), 3);
    assert_eq!(user_text(&out[1]), Some("hi"));
    assert_eq!(user_text(&out[2]), Some("no role"));
}

#[test]
fn user_blocks_join_texts() {
    let out = openai_messages("s", &[msg(
        Some("user"),
        MessageContent::Blocks(vec![text_block("a"), block(Some("image")), text_block("b")]),
    )]);
    assert_eq!(out.len(), 2);
    assert_eq!(user_text(&out[1]), Some("a\nb"));
}

#[test]
fn user_blocks_without_text_give_nothing() {
    let out = openai_messages("s", &[msg(Some("user"), MessageContent::Blocks(vec![block(Some("image"))]))]);
    assert_eq!(out.len(), 1);
}

#[test]
fn tool_results_become_tool_messages() {
    let r1 = ContentBlock {
        tool_use_id: Some("call_1".to_string()),
        content: Some("42".to_string()),
        ..block(Some("tool_result"))
    };
    let r2 = block(Some("tool_result"));
    let out = openai_messages("s", &[msg(
        Some("user"),
        MessageContent::Blocks(vec![r1, text_block("ignored"), r2]),
    )]);
    assert_eq!(out.len(), 3);
    assert!(matches!(&out[1], OaiMessage::Tool { tool_call_id, content } if tool_call_id == "call_1" && content == "42"));
    assert!(matches!(&out[2], OaiMessage::Tool { tool_call_id, content } if tool_call_id.is_empty() && content.is_empty()));
}

#[test]
fn assistant_blocks_become_one_message() {
    let call = ContentBlock {
        id: Some("t1".to_string()),
        name: Some("set_color".to_string()),
        input_json: "{\"r\":1}".to_string(),
        ..block(Some("tool_use"))
    };
    let out = openai_messages("s", &[msg(
        Some("assistant"),
        MessageContent::Blocks(vec![text_block("one"), call, text_block("two")]),
    )]);
    assert_eq!(out.len(), 2);
    match &out[1] {
        OaiMessage::Assistant { content, tool_calls } => {
            assert_eq!(content.as_deref(), Some("one\ntwo"));
            assert_eq!(tool_calls.len(), 1);
            assert_eq!(tool_calls[0].id, "t1");
            assert_eq!(tool_calls[0].name, "set_color");
            assert_eq!(tool_calls[0].arguments, "{\"r\":1}");
        },
        other => panic!("unexpected {other:?}"),
    }
}

#[test]
fn assistant_without_text_has_no_content() {
    let out = openai_messages("s", &[
        msg(Some("assistant"), MessageContent::Blocks(vec![])),
        msg(Some("assistant"), MessageContent::Text(String::new())),
        msg(Some("assistant"), MessageContent::Other),
    ]);
    assert_eq!(out.len(), 3);
    assert!(matches!(&out[1], OaiMessage::Assistant { content: None, tool_calls } if tool_calls.is_empty()));
    assert!(matches!(&out[2], OaiMessage::Assistant { content: Some(c), .. } if c.is_empty()));
}

#[test]
fn reply_without_choice_or_message_fails() {
    assert_eq!(from_openai_reply(None).unwrap_err(), "No choices in OpenAI response");
    let c = OaiChoice { finish_reason: None, message: None };
    assert_eq!(from_openai_reply(Some(&c)).unwrap_err(), "No message in OpenAI choice");
}

#[test]
fn reply_text_and_tool_calls() {
    let c = OaiChoice {
        finish_reason: Some("tool_calls".to_string()),
        message: Some(OaiReplyMessage {
            content: Some("thinking".to_string()),
            tool_calls: vec![
                OaiReplyCall { id: Some("c1".to_string()), name: Some("f".to_string()), arguments: Some("{\"a\":2}".to_string()) },
                OaiReplyCall { id: None, name: None, arguments: None },
            ],
        }),
    };
    let (blocks, stop) = from_openai_reply(Some(&c)).unwrap();
    assert_eq!(stop, "tool_use");
    assert_eq!(blocks.len(), 3);
    assert!(matches!(&blocks[0], ReplyBlock::Text(t) if t == "thinking"));
    assert!(matches!(&blocks[1], ReplyBlock::ToolUse { id, name, input_json } if id == "c1" && name == "f" && input_json == "{\"a\":2}"));
    assert!(matches!(&blocks[2], ReplyBlock::ToolUse { id, name, input_json } if id.is_empty() && name.is_empty() && input_json == "{}"));
}

#[test]
fn reply_stop_reasons() {
    let reason = |f: Option<&str>| {
        let c = OaiChoice {
            finish_reason: f.map(str::to_string),
            message: Some(OaiReplyMessage { content: Some(String::new()), tool_calls: vec![] }),
        };
        let (blocks, stop) = from_openai_reply(Some(&c)).unwrap();
        assert!(blocks.is_empty());
        stop
    };
    assert_eq!(reason(Some("stop")), "end_turn");
    assert_eq!(reason(None), "end_turn");
    assert_eq!(reason(Some("length")), "max_tokens");
    assert_eq!(reason(Some("content_filter")), "content_filter");
}
