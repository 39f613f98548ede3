use secretfop::config::Snowflake;
use secretfop::sources::source::{ForeignMedia, ForeignPost};
use secretfop::telegram::{
    interpret_reply, ProtectedString, SendOutcome, TelegramClient, TelegramMediaType,
    TelegramReply,
};

fn sample_post() -> ForeignPost {
    ForeignPost {
        id: Snowflake::Number(3),
        source_id: Snowflake::Number(1),
        text: "hi & bye".to_string(),
        media: vec![
            ForeignMedia::Photo("http://a".to_string()),
            ForeignMedia::Video("http://b".to_string()),
        ],
        source: "s<1>".to_string(),
        url: "http://u".to_string(),
    }
}

#[test]
fn escaped_entities() {
    assert_eq!(ProtectedString("a&b<c>d").escaped(), "a&amp;b&lt;c&gt;d".to_string());
    assert_eq!(ProtectedString("").escaped(), String::new());
    assert_eq!(ProtectedString("plain").escaped(), "plain".to_string());
}

#[test]
fn by_foreign_builds_caption_and_media() {
    let client = TelegramClient::new("tok".to_string(), Snowflake::Number(77));
    let msg = client.send_message().by_foreign(&sample_post());
    assert_eq!(msg.text, "hi &amp; bye\n\nsrc: <a href=\"http://u\">s&lt;1&gt;</a>".to_string());
    assert_eq!(msg.media.len(), 2);
    assert_eq!(msg.media[0].kind, TelegramMediaType::Photo);
    assert_eq!(msg.media[0].media, "http://a".to_string());
    assert!(msg.media[0].caption.is_none());
    assert_eq!(msg.media[1].kind, TelegramMediaType::Video);
    assert_eq!(msg.media[1].media, "http://b".to_string());
}

#[test]
fn prepare_moves_caption_to_first_media() {
    let client = TelegramClient::new("tok".to_string(), Snowflake::Number(77));
    let msg = client.send_message().by_foreign(&sample_post());
    let expected_text = msg.text.clone();
    let (token, channel, media) = msg.prepare();
    assert_eq!(token, "tok".to_string());
    assert!(channel == Snowflake::Number(77));
    assert_eq!(media.len(), 2);
    assert_eq!(media[0].caption, Some(expected_text));
    assert_eq!(media[0].parse_mode, Some("HTML".to_string()));
    assert_eq!(media[0].media, "http://a".to_string());
    assert!(media[1].caption.is_none());
    assert!(media[1].parse_mode.is_none());
}

#[test]
fn interpret_reply_success_takes_first_id() {
    let r = interpret_reply(TelegramReply::Success { message_ids: vec![41, 42] });
    assert_eq!(r, SendOutcome::Delivered { message_id: 41 });
}

#[test]
fn interpret_reply_rate_limited() {
    let r = interpret_reply(TelegramReply::Failure {
        error_code: 429,
        description: "Too Many Requests".to_string(),
        retry_after: Some(2),
    });
    assert_eq!(r, SendOutcome::RateLimited { retry_secs: 2 });
}

#[test]
fn interpret_reply_429_without_window_rejects() {
    let r = interpret_reply(TelegramReply::Failure {
        error_code: 429,
        description: "Too Many Requests".to_string(),
        retry_after: None,
    });
    assert_eq!(
        r,
        SendOutcome::Rejected { error_code: 429, description: "Too Many Requests".to_string() }
    );
}

#[test]
fn interpret_reply_other_error_rejects() {
    let r = interpret_reply(TelegramReply::Failure {
        error_code: 400,
        description: "Bad Request".to_string(),
        retry_after: Some(5),
    });
    assert_eq!(
        r,
        SendOutcome::Rejected { error_code: 400, description: "Bad Request".to_string() }
    );
}

#[test]
fn send_message_starts_empty() {
    let client = TelegramClient::new("tok".to_string(), Snowflake::Number(77));
    let msg = client.send_message();
    assert!(msg.text.is_empty());
    assert!(msg.media.is_empty());
    assert_eq!(msg.token, "tok".to_string());
}
