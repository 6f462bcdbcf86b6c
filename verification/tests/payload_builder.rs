use omnihook::{
    DiscordPayloadBuilder, GenericWebhookPayloadBuilder, JsonValue, SlackPayloadBuilder,
    TelegramPayloadBuilder, WebhookPayloadBuilder,
};

fn string(s: &str) -> JsonValue {
    JsonValue::String(s.to_string())
}

fn object(members: Vec<(&str, JsonValue)>) -> JsonValue {
    JsonValue::Object(members.into_iter().map(|(k, v)| (k.to_string(), v)).collect())
}

#[test]
fn test_slack_payload_builder() {
    let payload = SlackPayloadBuilder.build_payload("Test Title", "Test Message");
    assert_eq!(
        payload,
        object(vec![(
            "blocks",
            JsonValue::Array(vec![object(vec![
                ("type", string("section")),
                (
                    "text",
                    object(vec![
                        ("type", string("mrkdwn")),
                        ("text", string("*Test Title*\n\nTest Message")),
                    ])
                ),
            ])])
        )])
    );
}

#[test]
fn test_discord_payload_builder() {
    let payload = DiscordPayloadBuilder.build_payload("Test Title", "Test Message");
    assert_eq!(payload, object(vec![("content", string("*Test Title*\n\nTest Message"))]));
}

#[test]
fn test_telegram_payload_builder() {
    let builder = TelegramPayloadBuilder {
        chat_id: "12345".to_string(),
        disable_web_preview: true,
    };
    let payload = builder.build_payload("Test Title", "Test Message");
    assert_eq!(
        payload,
        object(vec![
            ("chat_id", string("12345")),
            ("text", string("*Test Title* \n\nTest Message")),
            ("parse_mode", string("MarkdownV2")),
            ("disable_web_page_preview", JsonValue::Bool(true)),
        ])
    );
}

#[test]
fn test_generic_webhook_payload_builder() {
    let payload = GenericWebhookPayloadBuilder.build_payload("Test Title", "Test Message");
    assert_eq!(
        payload,
        object(vec![("title", string("Test Title")), ("body", string("Test Message"))])
    );
}

#[test]
fn test_escape_markdown_v2() {
    assert_eq!(
        TelegramPayloadBuilder::escape_markdown_v2(
            "*Transaction Alert*\n*Network:* Base Sepolia\n*From:* 0x00001\n*To:* 0x00002\n*Transaction:* [View on Blockscout](https://base-sepolia.blockscout.com/tx/0x00003)"
        ),
        "*Transaction Alert*\n*Network:* Base Sepolia\n*From:* 0x00001\n*To:* 0x00002\n*Transaction:* [View on Blockscout](https://base\\-sepolia\\.blockscout\\.com/tx/0x00003)"
    );
    assert_eq!(
        TelegramPayloadBuilder::escape_markdown_v2("Hello *world*!"),
        "Hello *world*\\!"
    );
    assert_eq!(
        TelegramPayloadBuilder::escape_markdown_v2("(test) [test] {test} <test>"),
        "\\(test\\) \\[test\\] \\{test\\} <test\\>"
    );
    assert_eq!(
        TelegramPayloadBuilder::escape_markdown_v2("```code block```"),
        "```code block```"
    );
    assert_eq!(
        TelegramPayloadBuilder::escape_markdown_v2("`inline code`"),
        "`inline code`"
    );
    assert_eq!(
        TelegramPayloadBuilder::escape_markdown_v2("*bold text*"),
        "*bold text*"
    );
    assert_eq!(
        TelegramPayloadBuilder::escape_markdown_v2("_italic text_"),
        "_italic text_"
    );
    assert_eq!(
        TelegramPayloadBuilder::escape_markdown_v2("~strikethrough~"),
        "~strikethrough~"
    );
    assert_eq!(
        TelegramPayloadBuilder::escape_markdown_v2("[link](https://example.com/test.html)"),
        "[link](https://example\\.com/test\\.html)"
    );
    assert_eq!(
        TelegramPayloadBuilder::escape_markdown_v2("[test!*_]{link}](https://test.com/path[1])"),
        "\\[test\\!\\*\\_\\]\\{link\\}\\]\\(https://test\\.com/path\\[1\\]\\)"
    );
    assert_eq!(
        TelegramPayloadBuilder::escape_markdown_v2(
            "Hello *bold* and [link](http://test.com) and `code`"
        ),
        "Hello *bold* and [link](http://test\\.com) and `code`"
    );
    assert_eq!(
        TelegramPayloadBuilder::escape_markdown_v2("test\\test"),
        "test\\\\test"
    );
    assert_eq!(
        TelegramPayloadBuilder::escape_markdown_v2("_*[]()~`>#+-=|{}.!\\"),
        "\\_\\*\\[\\]\\(\\)\\~\\`\\>\\#\\+\\-\\=\\|\\{\\}\\.\\!\\\\",
    );
    assert_eq!(
        TelegramPayloadBuilder::escape_markdown_v2("*bold with [link](http://test.com)*"),
        "*bold with [link](http://test.com)*"
    );
    assert_eq!(TelegramPayloadBuilder::escape_markdown_v2(""), "");
    assert_eq!(TelegramPayloadBuilder::escape_markdown_v2("***"), "**\\*");
}
