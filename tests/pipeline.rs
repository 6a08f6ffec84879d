use yozuk_chat::normalize::{exceeds_size_cap, should_respond, strip_mentions, user_name};
use yozuk_chat::pipeline::{
    admission, classify_incoming, convert_outputs, execution_result, not_understood_notice, reply, resolution,
    stream_for, tokens_for, too_large_notice, undecryptable_notice, Admission, Incoming, Resolution, INLINE_LIMIT,
    MAX_ATTACHMENT_BYTES,
};
use yozuk_chat::render::{
    combine, render, render_block, render_units, ContentBlock, ExecutionResult, OutputGroup, Unit,
};
use yozuk_sdk::prelude::{block, CommandArgs, Output};

fn comment(text: &str) -> ContentBlock {
    ContentBlock::Comment(text.to_string())
}

fn data(bytes: Vec<u8>, media_type: &str, file_name: &str) -> ContentBlock {
    ContentBlock::Data {
        data: bytes,
        media_type: media_type.to_string(),
        file_name: file_name.to_string(),
    }
}

fn group(blocks: Vec<ContentBlock>) -> OutputGroup {
    OutputGroup { blocks }
}

#[test]
fn mention_is_stripped() {
    assert_eq!(strip_mentions("hello <@123>"), "hello ");
}

#[test]
fn every_mention_is_stripped_and_the_rest_kept() {
    assert_eq!(strip_mentions("<@1>a<@22> b <@333>"), "a b ");
    assert_eq!(strip_mentions("<@> <@x1> <@12 @3>"), "<@> <@x1> <@12 @3>");
    assert_eq!(strip_mentions("<<@1>@2>"), "<@2>");
    assert_eq!(strip_mentions(""), "");
    assert_eq!(strip_mentions("日本 <@9>語"), "日本 語");
}

#[test]
fn normalizing_twice_gives_the_same_text_and_tokens() {
    let (a, ta) = tokens_for("<@5> calc 1 + 2");
    let (b, tb) = tokens_for("<@5> calc 1 + 2");
    assert_eq!(a, b);
    assert_eq!(a, " calc 1 + 2");
    assert_eq!(ta, tb);
    assert_eq!(ta.len(), 4);
}

#[test]
fn size_cap_boundaries() {
    assert!(!exceeds_size_cap(&vec![], 10));
    assert!(!exceeds_size_cap(&vec![4, 6], 10));
    assert!(exceeds_size_cap(&vec![4, 7], 10));
    assert!(exceeds_size_cap(&vec![u64::MAX, u64::MAX], u64::MAX));
    assert!(!exceeds_size_cap(&vec![MAX_ATTACHMENT_BYTES], MAX_ATTACHMENT_BYTES));
}

#[test]
fn responds_to_direct_messages_and_mentions_only() {
    assert!(should_respond(1, 2, true, &vec![]));
    assert!(should_respond(1, 2, false, &vec![3, 2]));
    assert!(!should_respond(1, 2, false, &vec![3]));
    assert!(!should_respond(2, 2, true, &vec![2]));
}

#[test]
fn user_name_is_dropped_when_it_is_the_address() {
    assert_eq!(user_name("a@b.org", "a@b.org"), None);
    assert_eq!(user_name("a@b.org", "Alice"), Some("Alice".to_string()));
}

#[test]
fn oversized_attachments_get_the_notice() {
    let r = admission(1, 2, true, &vec![], &vec![MAX_ATTACHMENT_BYTES, 1], MAX_ATTACHMENT_BYTES);
    assert!(matches!(r, Admission::TooLarge));
    assert_eq!(too_large_notice(), "Too large file input (10MiB max.)");
}

#[test]
fn admission_ignores_and_proceeds() {
    let r = admission(2, 2, true, &vec![], &vec![], 10);
    assert!(matches!(r, Admission::Ignore));
    let r = admission(1, 2, false, &vec![7], &vec![100], 10);
    assert!(matches!(r, Admission::Ignore));
    let r = admission(1, 2, false, &vec![2], &vec![10], 10);
    assert!(matches!(r, Admission::Proceed));
    let (text, _) = tokens_for("hi <@2>");
    assert_eq!(text, "hi ");
}

#[test]
fn no_candidates_is_not_understood() {
    match resolution(&vec![]) {
        Resolution::NotUnderstood(n) => assert_eq!(n, "Sorry, I can't understand your request."),
        Resolution::Execute => panic!("expected the notice"),
    }
    assert!(matches!(resolution(&vec![CommandArgs::new()]), Resolution::Execute));
    assert_eq!(not_understood_notice(), "Sorry, I can't understand your request.");
}

#[test]
fn failure_renders_like_success() {
    let ok = ExecutionResult::Success(vec![group(vec![comment("Sorry, that failed")])]);
    let err = ExecutionResult::Failure(vec![group(vec![comment("Sorry, that failed")])]);
    let a = render(&ok, INLINE_LIMIT);
    let b = render(&err, INLINE_LIMIT);
    assert_eq!(a.text, "Sorry, that failed");
    assert_eq!(a.text, b.text);
    assert!(a.files.is_empty() && b.files.is_empty());
}

#[test]
fn nameless_png_is_data_png() {
    let r = render_block(&data(vec![0x89, 0x50, 0x4e, 0x47, 0xff, 0xfe], "image/png", ""), INLINE_LIMIT);
    match r {
        Unit::File(a) => {
            assert_eq!(a.name, "data.png");
            assert_eq!(a.media_type, "image/png");
            assert_eq!(a.data, vec![0x89, 0x50, 0x4e, 0x47, 0xff, 0xfe]);
        }
        Unit::Text(_) => panic!("expected an attachment"),
    }
}

#[test]
fn consecutive_comments_are_joined() {
    let r = reply(&ExecutionResult::Success(vec![group(vec![comment("Result:"), comment("42")])]));
    assert_eq!(r.text, "Result:\n42");
    assert!(r.files.is_empty());
}

#[test]
fn inline_threshold_boundary() {
    let at = "a".repeat(INLINE_LIMIT);
    match render_block(&data(at.clone().into_bytes(), "text/plain", "a.txt"), INLINE_LIMIT) {
        Unit::Text(t) => assert_eq!(t, format!("```\n{}\n```", at)),
        Unit::File(_) => panic!("expected inline text"),
    }
    let over = "a".repeat(INLINE_LIMIT + 1);
    match render_block(&data(over.clone().into_bytes(), "text/plain", "a.txt"), INLINE_LIMIT) {
        Unit::File(a) => {
            assert_eq!(a.name, "a.txt");
            assert_eq!(a.data, over.into_bytes());
        }
        Unit::Text(_) => panic!("expected an attachment"),
    }
}

#[test]
fn inline_threshold_counts_characters() {
    let text = "é".repeat(3);
    match render_block(&data(text.clone().into_bytes(), "text/plain", ""), 3) {
        Unit::Text(t) => assert_eq!(t, "```\né\u{e9}é\n```"),
        Unit::File(_) => panic!("expected inline text"),
    }
}

#[test]
fn unsupported_block_has_a_placeholder() {
    match render_block(&ContentBlock::Unsupported, INLINE_LIMIT) {
        Unit::Text(t) => assert_eq!(t, "[unimplemented]"),
        Unit::File(_) => panic!("expected text"),
    }
}

#[test]
fn rendering_keeps_emission_order() {
    let result = ExecutionResult::Success(vec![
        group(vec![comment("first"), data(vec![0xff], "application/octet-stream", "one.bin")]),
        group(vec![data(b"x = 1".to_vec(), "text/plain", ""), data(vec![0xfe], "image/png", "two.png")]),
        group(vec![comment("last")]),
    ]);
    let units = render_units(result.outputs(), INLINE_LIMIT);
    assert_eq!(units.len(), 5);
    assert!(matches!(&units[0], Unit::Text(t) if t == "first"));
    assert!(matches!(&units[1], Unit::File(a) if a.name == "one.bin"));
    assert!(matches!(&units[2], Unit::Text(t) if t == "```\nx = 1\n```"));
    assert!(matches!(&units[3], Unit::File(a) if a.name == "two.png"));
    assert!(matches!(&units[4], Unit::Text(t) if t == "last"));
    let combined = combine(units);
    assert_eq!(combined.text, "first\n```\nx = 1\n```\nlast");
    let names: Vec<&str> = combined.files.iter().map(|a| a.name.as_str()).collect();
    assert_eq!(names, vec!["one.bin", "two.png"]);
}

#[test]
fn empty_result_renders_nothing() {
    let r = reply(&ExecutionResult::Failure(vec![]));
    assert_eq!(r.text, "");
    assert!(r.files.is_empty());
}

#[test]
fn stream_media_type_falls_back_to_octet_stream() {
    let s = stream_for(vec![1, 2], Some("image/png".to_string()));
    assert_eq!(s.media_type().to_string(), "image/png");
    let s = stream_for(vec![1, 2], Some("not a type".to_string()));
    assert_eq!(s.media_type().to_string(), "application/octet-stream");
    let s = stream_for(vec![1, 2], None);
    assert_eq!(s.media_type().to_string(), "application/octet-stream");
}

#[test]
fn engine_outputs_are_converted_in_order() {
    let out = Output::new()
        .add_block(block::Comment::new().set_text("hi"))
        .add_block(block::Data::new().set_data(vec![0xffu8]).set_file_name("f.bin"));
    let groups = convert_outputs(vec![out.clone(), Output::new()]);
    assert_eq!(groups.len(), 2);
    assert!(groups[1].blocks.is_empty());
    assert_eq!(groups[0].blocks.len(), 2);
    assert!(matches!(&groups[0].blocks[0], ContentBlock::Comment(t) if t == "hi"));
    assert!(matches!(&groups[0].blocks[1], ContentBlock::Data { data, file_name, .. } if data == &vec![0xffu8] && file_name == "f.bin"));
    assert!(matches!(execution_result(Ok(vec![out.clone()])), ExecutionResult::Success(_)));
    assert!(matches!(execution_result(Err(vec![out])), ExecutionResult::Failure(_)));
}

#[test]
fn undecryptable_messages_get_a_notice() {
    let t = "hi\n[This message was encrypted for another setup.]";
    assert!(matches!(classify_incoming(Some(t), false), Incoming::Undecryptable));
    assert!(matches!(classify_incoming(Some(t), true), Incoming::Undecryptable));
    assert!(matches!(classify_incoming(Some("calc 1+1"), true), Incoming::Ignore));
    assert!(matches!(classify_incoming(Some("calc 1+1"), false), Incoming::Request));
    assert!(matches!(classify_incoming(None, false), Incoming::Ignore));
    assert!(matches!(classify_incoming(Some(""), false), Incoming::Request));
    assert_eq!(
        undecryptable_notice(),
        "Sorry, I can't decrypt your message. Please send the message again."
    );
}
