//! Verified core of a small Telegram console: the console's state and every
//! change the interface makes to it, the Bot API requests, how a
//! `getUpdates` reply becomes chat messages and the next offset, and the
//! decisions of the background poll.

pub mod console;
pub mod json;
pub mod polling;
pub mod telegram;
pub mod text;

pub use console::{
    is_sendable, keyboard_action, log_preview_exec, mask_token, ChatMessage, ChatMessageView,
    Console, KeyboardAction, LogEntry, LogEntryView, OutgoingMessage, Tab, ACTIVITY_LOG_LIMIT,
    CHAT_HISTORY_LIMIT, PREVIEW_BYTES,
};
pub use json::{send_body_from_literals_exec, send_message_json_body};
pub use polling::{
    FetchOutcome, Platform, Poller, RoundEnd, RoundStart, NATIVE_LONG_POLL_SECS,
    NATIVE_RETRY_SECS, NO_TOKEN_WAIT_SECS, WEB_ROUND_SECS,
};
pub use telegram::{
    collect_updates, get_updates_request, get_updates_web_request, send_message_request,
    send_message_web_request, GetUpdatesRequest, GetUpdatesResponse, IncomingMessage,
    IncomingMessageView, SendMessageRequest, TgMessage, TgUser, Update,
};
pub use text::{char_is_white_space, i64_to_decimal, is_blank, u64_to_decimal};
