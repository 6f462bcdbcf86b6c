//! Builders of the channel-specific JSON payloads for Slack, Discord,
//! Telegram and generic webhooks.

use vstd::prelude::*;
use vstd::utf8::*;
use crate::json::{Json, JsonValue, lemma_json_items, lemma_json_members};
use crate::markdown::{
    escape_chars, escape_every_special, escape_with_entities, find_entities, lemma_unescape_escape,
    markdown_v2_escaped, matches_fit, regex_capture_spans, unescape_chars,
    MARKDOWN_V2_ENTITY_PATTERN,
};
use crate::text::owned;

verus! {

/// Builds a webhook payload from a title and a rendered body.
pub trait WebhookPayloadBuilder: Send + Sync {
    /// The payload for `title` and `body`.
    fn build_payload(&self, title: &str, body: &str) -> JsonValue;
}

/// A member `name: value` of a JSON object.
fn member(name: &str, value: JsonValue) -> (res: (String, JsonValue))
    ensures
        res.0@ == name@,
        res.1 == value,
{
    (owned(name), value)
}

/// A JSON string holding `s`.
fn string_value(s: &str) -> (res: JsonValue)
    ensures
        res.json() == Json::Str(s@),
{
    JsonValue::String(owned(s))
}

/// An object with the single member `name: value`.
fn object1(name: &str, value: JsonValue) -> (res: JsonValue)
    ensures
        res.json() == Json::Obj(seq![(name@, value.json())]),
{
    let ghost doc = value.json();
    let mut members: Vec<(String, JsonValue)> = Vec::new();
    members.push(member(name, value));
    proof {
        lemma_json_members(members@, 1);
        assert(JsonValue::json_members(members@, 1) =~~= seq![(name@, doc)]);
    }
    JsonValue::Object(members)
}

/// An object with the members `name1: value1` and `name2: value2`.
fn object2(name1: &str, value1: JsonValue, name2: &str, value2: JsonValue) -> (res: JsonValue)
    ensures
        res.json() == Json::Obj(seq![(name1@, value1.json()), (name2@, value2.json())]),
{
    let ghost doc1 = value1.json();
    let ghost doc2 = value2.json();
    let mut members: Vec<(String, JsonValue)> = Vec::new();
    members.push(member(name1, value1));
    members.push(member(name2, value2));
    proof {
        lemma_json_members(members@, 2);
        assert(JsonValue::json_members(members@, 2) =~~= seq![(name1@, doc1), (name2@, doc2)]);
    }
    JsonValue::Object(members)
}

/// An object with four members, in the order given.
fn object4(
    name1: &str,
    value1: JsonValue,
    name2: &str,
    value2: JsonValue,
    name3: &str,
    value3: JsonValue,
    name4: &str,
    value4: JsonValue,
) -> (res: JsonValue)
    ensures
        res.json() == Json::Obj(
            seq![
                (name1@, value1.json()),
                (name2@, value2.json()),
                (name3@, value3.json()),
                (name4@, value4.json()),
            ],
        ),
{
    let ghost docs = seq![value1.json(), value2.json(), value3.json(), value4.json()];
    let mut members: Vec<(String, JsonValue)> = Vec::new();
    members.push(member(name1, value1));
    members.push(member(name2, value2));
    members.push(member(name3, value3));
    members.push(member(name4, value4));
    proof {
        lemma_json_members(members@, 4);
        assert(JsonValue::json_members(members@, 4) =~~= seq![
            (name1@, docs[0]),
            (name2@, docs[1]),
            (name3@, docs[2]),
            (name4@, docs[3]),
        ]);
    }
    JsonValue::Object(members)
}

/// An array with the single item `item`.
fn array1(item: JsonValue) -> (res: JsonValue)
    ensures
        res.json() == Json::Arr(seq![item.json()]),
{
    let ghost doc = item.json();
    let mut items: Vec<JsonValue> = Vec::new();
    items.push(item);
    proof {
        lemma_json_items(items@, 1);
        assert(JsonValue::json_items(items@, 1) =~~= seq![doc]);
    }
    JsonValue::Array(items)
}

/// The mrkdwn / markdown text `*title*` followed by a blank line and `body`.
pub open spec fn bold_title_message(title: Seq<char>, body: Seq<char>) -> Seq<char> {
    "*"@ + title + "*\n\n"@ + body
}

/// The Slack payload: one `section` block whose `mrkdwn` text is
/// [`bold_title_message`].
pub open spec fn slack_payload(title: Seq<char>, body: Seq<char>) -> Json {
    Json::Obj(
        seq![
            ("blocks"@, Json::Arr(seq![
                Json::Obj(seq![
                    ("type"@, Json::Str("section"@)),
                    ("text"@, Json::Obj(seq![
                        ("type"@, Json::Str("mrkdwn"@)),
                        ("text"@, Json::Str(bold_title_message(title, body))),
                    ])),
                ]),
            ])),
        ],
    )
}

/// The Discord payload: a `content` field holding [`bold_title_message`].
pub open spec fn discord_payload(title: Seq<char>, body: Seq<char>) -> Json {
    Json::Obj(seq![("content"@, Json::Str(bold_title_message(title, body)))])
}

/// The Telegram message text: the escaped title in bold, a space, a blank
/// line, then the escaped body.
pub open spec fn telegram_message(title: Seq<char>, body: Seq<char>) -> Seq<char> {
    "*"@ + markdown_v2_escaped(title) + "* \n\n"@ + markdown_v2_escaped(body)
}

/// The Telegram payload for `chat_id`, sent with MarkdownV2 parsing.
pub open spec fn telegram_payload(
    chat_id: Seq<char>,
    disable_web_preview: bool,
    title: Seq<char>,
    body: Seq<char>,
) -> Json {
    Json::Obj(
        seq![
            ("chat_id"@, Json::Str(chat_id)),
            ("text"@, Json::Str(telegram_message(title, body))),
            ("parse_mode"@, Json::Str("MarkdownV2"@)),
            ("disable_web_page_preview"@, Json::Bool(disable_web_preview)),
        ],
    )
}

/// The generic payload `{ "title": title, "body": body }`.
pub open spec fn generic_payload(title: Seq<char>, body: Seq<char>) -> Json {
    Json::Obj(seq![("title"@, Json::Str(title)), ("body"@, Json::Str(body))])
}

/// `*title*`, a blank line, then `body`.
fn bold_title(title: &str, body: &str) -> (res: String)
    ensures
        res@ == bold_title_message(title@, body@),
{
    let mut text = String::new();
    text.append("*");
    text.append(title);
    text.append("*\n\n");
    text.append(body);
    proof {
        assert(text@ =~= bold_title_message(title@, body@));
    }
    text
}

/// A payload builder for Slack: a `blocks`-based section with mrkdwn text.
///
/// ```json
/// { "blocks": [ { "type": "section",
///                 "text": { "type": "mrkdwn", "text": "*Title*\n\nBody message" } } ] }
/// ```
#[derive(Default)]
pub struct SlackPayloadBuilder;

impl WebhookPayloadBuilder for SlackPayloadBuilder {
    fn build_payload(&self, title: &str, body: &str) -> (res: JsonValue)
        ensures
            res.json() == slack_payload(title@, body@),
    {
        let text = object2("type", string_value("mrkdwn"), "text", string_value(&bold_title(title, body)));
        let section = object2("type", string_value("section"), "text", text);
        let res = object1("blocks", array1(section));
        assert(res.json() =~~= slack_payload(title@, body@));
        res
    }
}

/// A payload builder for Discord: a `content` field with markdown text.
///
/// ```json
/// { "content": "*Title*\n\nBody message" }
/// ```
#[derive(Default)]
pub struct DiscordPayloadBuilder;

impl WebhookPayloadBuilder for DiscordPayloadBuilder {
    fn build_payload(&self, title: &str, body: &str) -> (res: JsonValue)
        ensures
            res.json() == discord_payload(title@, body@),
    {
        object1("content", string_value(&bold_title(title, body)))
    }
}

/// A payload builder for Telegram, using MarkdownV2.
///
/// Special characters are escaped, while bold, italic, strikethrough, code
/// and link entities already in the text are preserved.
///
/// ```json
/// { "chat_id": "12345678", "text": "*Title* \n\nBody message",
///   "parse_mode": "MarkdownV2", "disable_web_page_preview": true }
/// ```
pub struct TelegramPayloadBuilder {
    /// The chat to send the message to.
    pub chat_id: String,
    /// Whether to disable web page previews in the message.
    pub disable_web_preview: bool,
}

impl TelegramPayloadBuilder {
    /// Escapes `text` for Telegram's MarkdownV2: entities (bold, italic,
    /// strikethrough, code, links) are preserved, link labels and targets are
    /// escaped, and special characters outside entities are escaped.
    pub fn escape_markdown_v2(text: &str) -> (res: String)
        ensures
            res@ == markdown_v2_escaped(text@),
    {
        match find_entities(text) {
            Some(found) => {
                if matches_fit(text, found.as_slice()) {
                    escape_with_entities(text, found.as_slice())
                } else {
                    escape_every_special(text)
                }
            },
            None => escape_every_special(text),
        }
    }

    /// The Telegram message text for `title` and `body`.
    fn message(title: &str, body: &str) -> (res: String)
        ensures
            res@ == telegram_message(title@, body@),
    {
        let escaped_title = Self::escape_markdown_v2(title);
        let escaped_body = Self::escape_markdown_v2(body);
        let mut text = String::new();
        text.append("*");
        text.append(escaped_title.as_str());
        text.append("* \n\n");
        text.append(escaped_body.as_str());
        proof {
            assert(text@ =~= telegram_message(title@, body@));
        }
        text
    }
}

impl WebhookPayloadBuilder for TelegramPayloadBuilder {
    fn build_payload(&self, title: &str, body: &str) -> (res: JsonValue)
        ensures
            res.json() == telegram_payload(self.chat_id@, self.disable_web_preview, title@, body@),
    {
        let res = object4(
            "chat_id",
            string_value(self.chat_id.as_str()),
            "text",
            string_value(&Self::message(title, body)),
            "parse_mode",
            string_value("MarkdownV2"),
            "disable_web_page_preview",
            JsonValue::Bool(self.disable_web_preview),
        );
        assert(res.json() =~~= telegram_payload(
            self.chat_id@,
            self.disable_web_preview,
            title@,
            body@,
        ));
        res
    }
}

/// A payload builder for generic webhooks: a `{title, body}` object.
///
/// ```json
/// { "title": "Title", "body": "Body message" }
/// ```
#[derive(Default)]
pub struct GenericWebhookPayloadBuilder;

impl WebhookPayloadBuilder for GenericWebhookPayloadBuilder {
    fn build_payload(&self, title: &str, body: &str) -> (res: JsonValue)
        ensures
            res.json() == generic_payload(title@, body@),
    {
        object2("title", string_value(title), "body", string_value(body))
    }
}


/// Whether the MarkdownV2 entity pattern finds no entity in `text`.
pub open spec fn entity_free(text: Seq<char>) -> bool {
    match regex_capture_spans(MARKDOWN_V2_ENTITY_PATTERN@, text) {
        Some(ms) => ms.len() == 0,
        None => true,
    }
}

/// Slack: the payload is one `section` block whose `mrkdwn` text is the
/// title between asterisks, a blank line, and the body copied character for
/// character.
pub proof fn lemma_slack_text(builder: &SlackPayloadBuilder, title: &str, body: &str, res: JsonValue)
    requires
        call_ensures(<SlackPayloadBuilder as WebhookPayloadBuilder>::build_payload, (builder, title, body), res),
    ensures
        res.json() == Json::Obj(
            seq![
                ("blocks"@, Json::Arr(seq![
                    Json::Obj(seq![
                        ("type"@, Json::Str("section"@)),
                        ("text"@, Json::Obj(seq![
                            ("type"@, Json::Str("mrkdwn"@)),
                            ("text"@, Json::Str("*"@ + title@ + "*\n\n"@ + body@)),
                        ])),
                    ]),
                ])),
            ],
        ),
{
}

/// Discord: the payload's only member is `content`, the title between
/// asterisks, a blank line, and the body copied character for character.
pub proof fn lemma_discord_text(builder: &DiscordPayloadBuilder, title: &str, body: &str, res: JsonValue)
    requires
        call_ensures(<DiscordPayloadBuilder as WebhookPayloadBuilder>::build_payload, (builder, title, body), res),
    ensures
        res.json() == Json::Obj(seq![("content"@, Json::Str("*"@ + title@ + "*\n\n"@ + body@))]),
{
}

/// Generic webhooks: the payload is `{ "title": title, "body": body }`,
/// both copied character for character.
pub proof fn lemma_generic_payload(
    builder: &GenericWebhookPayloadBuilder,
    title: &str,
    body: &str,
    res: JsonValue,
)
    requires
        call_ensures(<GenericWebhookPayloadBuilder as WebhookPayloadBuilder>::build_payload, (builder, title, body), res),
    ensures
        res.json() == Json::Obj(seq![("title"@, Json::Str(title@)), ("body"@, Json::Str(body@))]),
{
}

/// Telegram: the payload names the builder's chat, asks for MarkdownV2 and
/// carries the preview setting; its text is the MarkdownV2-escaped title in
/// bold, a space, a blank line, and the MarkdownV2-escaped body.
pub proof fn lemma_telegram_text(builder: &TelegramPayloadBuilder, title: &str, body: &str, res: JsonValue)
    requires
        call_ensures(<TelegramPayloadBuilder as WebhookPayloadBuilder>::build_payload, (builder, title, body), res),
    ensures
        res.json() == Json::Obj(
            seq![
                ("chat_id"@, Json::Str(builder.chat_id@)),
                ("text"@, Json::Str(
                    "*"@ + markdown_v2_escaped(title@) + "* \n\n"@ + markdown_v2_escaped(body@),
                )),
                ("parse_mode"@, Json::Str("MarkdownV2"@)),
                ("disable_web_page_preview"@, Json::Bool(builder.disable_web_preview)),
            ],
        ),
{
}

/// Text in which no entity is found is escaped character by character:
/// every special character gets a backslash in front of it, and a
/// MarkdownV2 reader sees the text unchanged.
pub proof fn lemma_escape_markdown_v2_plain(text: &str, res: String)
    requires
        call_ensures(TelegramPayloadBuilder::escape_markdown_v2, (text,), res),
        entity_free(text@),
    ensures
        res@ == escape_chars(text@),
        unescape_chars(res@) == text@,
{
    lemma_markdown_v2_plain(text@);
    lemma_unescape_escape(text@);
}

/// Telegram, for a body in which no entity is found: after the bold title
/// the text holds the body with every special character escaped, which a
/// MarkdownV2 reader shows as the body itself.
pub proof fn lemma_telegram_plain_body(builder: &TelegramPayloadBuilder, title: &str, body: &str, res: JsonValue)
    requires
        call_ensures(<TelegramPayloadBuilder as WebhookPayloadBuilder>::build_payload, (builder, title, body), res),
        entity_free(body@),
    ensures
        ({
            let head = "*"@ + markdown_v2_escaped(title@) + "* \n\n"@;
            let text = head + escape_chars(body@);
            &&& res.json() == Json::Obj(
                seq![
                    ("chat_id"@, Json::Str(builder.chat_id@)),
                    ("text"@, Json::Str(text)),
                    ("parse_mode"@, Json::Str("MarkdownV2"@)),
                    ("disable_web_page_preview"@, Json::Bool(builder.disable_web_preview)),
                ],
            )
            &&& unescape_chars(text.skip(head.len() as int)) == body@
        }),
{
    lemma_telegram_text(builder, title, body, res);
    lemma_markdown_v2_plain(body@);
    lemma_unescape_escape(body@);
    let head = "*"@ + markdown_v2_escaped(title@) + "* \n\n"@;
    assert((head + escape_chars(body@)).skip(head.len() as int) =~= escape_chars(body@));
}

/// The MarkdownV2 form of text in which no entity is found is the text with
/// every character escaped.
pub proof fn lemma_markdown_v2_plain(text: Seq<char>)
    requires
        entity_free(text),
    ensures
        markdown_v2_escaped(text) == escape_chars(text),
{
    broadcast use vstd::utf8::group_utf8_lib;
    let bytes = encode_utf8(text);
    if let Some(ms) = regex_capture_spans(MARKDOWN_V2_ENTITY_PATTERN@, text) {
        assert(bytes.subrange(0, bytes.len() as int) =~= bytes);
        assert(decode_utf8(encode_utf8(text)) == text);
    }
}

} // verus!
