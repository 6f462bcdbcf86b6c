//! Webhook notifications for Slack, Discord, Telegram and generic endpoints,
//! with HMAC-SHA256 signing of the delivered payload.

pub mod client;
pub mod error;
pub mod error_body;
pub mod headers;
pub mod json;
pub mod markdown;
pub mod method;
pub mod outside;
pub mod payload_builder;
pub mod string_map;
pub mod text;

pub use client::{WebhookClient, WebhookConfig};
pub use error::OmnihookError;
pub use json::JsonValue;
pub use method::HttpMethod;
pub use payload_builder::{
    DiscordPayloadBuilder, GenericWebhookPayloadBuilder, SlackPayloadBuilder,
    TelegramPayloadBuilder, WebhookPayloadBuilder,
};
