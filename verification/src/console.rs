//! The console's own state: what the user typed, what was sent and
//! received, the activity log and the navigation, with every change the
//! interface makes to it.

use vstd::prelude::*;
use vstd::string::StringSliceAdditionalSpecFns;
use vstd::utf8::{decode_utf8, encode_utf8, is_ascii_chars, is_char_boundary};

use crate::telegram::{IncomingMessage, IncomingMessageView, incoming_views};
use crate::text::{blank, is_blank};

verus! {

/// How many entries the activity log keeps, newest first.
pub const ACTIVITY_LOG_LIMIT: usize = 30;

/// How many chat messages are kept once received messages arrive.
pub const CHAT_HISTORY_LIMIT: usize = 200;

/// How many bytes of a sent message the activity log shows before "...".
pub const PREVIEW_BYTES: usize = 50;

/// The two pages of the console.
#[derive(PartialEq, Eq, Structural, Clone, Copy, Debug)]
pub enum Tab {
    Dashboard,
    Settings,
}

impl Tab {
    pub open spec fn spec_icon(self) -> Seq<char> {
        match self {
            Tab::Dashboard => "◆"@,
            Tab::Settings => "●"@,
        }
    }

    /// The icon shown before the page's name in the side bar.
    pub fn icon(self) -> (s: &'static str)
        ensures
            s@ == self.spec_icon(),
    {
        match self {
            Tab::Dashboard => "◆",
            Tab::Settings => "●",
        }
    }

    /// The side bar caption: two spaces, the icon, two spaces, the label.
    pub fn nav_caption(self, label: &str) -> (s: String)
        ensures
            s@ == "  "@ + self.spec_icon() + "  "@ + label@,
    {
        let mut s = String::from_str("  ");
        s.append(self.icon());
        s.append("  ");
        s.append(label);
        s
    }
}

/// A line of the activity log.
pub struct LogEntry {
    pub text: String,
    pub success: bool,
}

/// What a [`LogEntry`] holds, as plain values.
pub struct LogEntryView {
    pub text: Seq<char>,
    pub success: bool,
}

impl View for LogEntry {
    type V = LogEntryView;

    open spec fn view(&self) -> LogEntryView {
        LogEntryView { text: self.text@, success: self.success }
    }
}

impl LogEntry {
    /// The mark shown beside the entry: a tick for a success, a cross otherwise.
    pub fn status_icon(&self) -> (s: &'static str)
        ensures
            s@ == (if self.success {
                "✓"@
            } else {
                "✗"@
            }),
    {
        if self.success {
            "✓"
        } else {
            "✗"
        }
    }
}

/// A chat message displayed in the UI — either sent by us or received.
pub struct ChatMessage {
    pub from_name: String,
    pub text: String,
    pub is_ours: bool,
}

/// What a [`ChatMessage`] holds, as plain values.
pub struct ChatMessageView {
    pub from_name: Seq<char>,
    pub text: Seq<char>,
    pub is_ours: bool,
}

impl View for ChatMessage {
    type V = ChatMessageView;

    open spec fn view(&self) -> ChatMessageView {
        ChatMessageView { from_name: self.from_name@, text: self.text@, is_ours: self.is_ours }
    }
}

impl ChatMessage {
    /// The name above a chat bubble: "You" for our own messages, the
    /// sender's name otherwise.
    pub fn author_label(&self) -> (s: &str)
        ensures
            s@ == (if self.is_ours {
                "You"@
            } else {
                self.from_name@
            }),
    {
        if self.is_ours {
            "You"
        } else {
            self.from_name.as_str()
        }
    }
}

/// A message on its way out: who sends it, to which chat, and the text.
pub struct OutgoingMessage {
    pub token: String,
    pub chat_id: String,
    pub text: String,
}

pub open spec fn log_views(v: Seq<LogEntry>) -> Seq<LogEntryView> {
    v.map_values(|e: LogEntry| e@)
}

pub open spec fn chat_views(v: Seq<ChatMessage>) -> Seq<ChatMessageView> {
    v.map_values(|m: ChatMessage| m@)
}

/// A received message as the chat shows it.
pub open spec fn received_chat(m: IncomingMessageView) -> ChatMessageView {
    ChatMessageView { from_name: m.from_name, text: m.text, is_ours: false }
}

/// The first `limit` items of `s`.
pub open spec fn keep_first<T>(s: Seq<T>, limit: nat) -> Seq<T> {
    if s.len() > limit {
        s.take(limit as int)
    } else {
        s
    }
}

/// The last `limit` items of `s`.
pub open spec fn keep_last<T>(s: Seq<T>, limit: nat) -> Seq<T> {
    if s.len() > limit {
        s.skip(s.len() - limit)
    } else {
        s
    }
}

/// The activity-log text of a sent message: the message, or its first
/// [`PREVIEW_BYTES`] bytes of UTF-8 and "..." when it is longer.
pub open spec fn log_preview(msg: Seq<char>) -> Seq<char> {
    let bytes = encode_utf8(msg);
    if bytes.len() > PREVIEW_BYTES {
        decode_utf8(bytes.take(PREVIEW_BYTES as int)) + "..."@
    } else {
        msg
    }
}

/// The preview of `msg` can be cut: it is short, or its byte
/// [`PREVIEW_BYTES`] starts a character.
pub open spec fn preview_cuttable(msg: Seq<char>) -> bool {
    encode_utf8(msg).len() > PREVIEW_BYTES ==> is_char_boundary(
        encode_utf8(msg),
        PREVIEW_BYTES as int,
    )
}

/// How a bot token is shown: its first six and last four bytes around
/// "...", or "Not configured" for ten bytes or fewer.
pub open spec fn masked_token(bytes: Seq<u8>) -> Seq<char> {
    if bytes.len() > 10 {
        decode_utf8(bytes.take(6)) + "..."@ + decode_utf8(bytes.skip(bytes.len() - 4))
    } else {
        "Not configured"@
    }
}

/// The token can be masked: it is short, or bytes 6 and `len - 4` start
/// characters.
pub open spec fn mask_cuttable(bytes: Seq<u8>) -> bool {
    bytes.len() > 10 ==> is_char_boundary(bytes, 6) && is_char_boundary(bytes, bytes.len() - 4)
}

/// Mask a bot token for display.
pub fn mask_token(token: &str) -> (m: String)
    requires
        mask_cuttable(token.spec_bytes()),
    ensures
        m@ == masked_token(token.spec_bytes()),
{
    let n = token.as_bytes().len();
    if n > 10 {
        let (head, _) = token.split_at(6);
        let (_, tail) = token.split_at(n - 4);
        proof {
            vstd::utf8::encode_utf8_decode_utf8(head@);
            vstd::utf8::encode_utf8_decode_utf8(tail@);
            assert(head.spec_bytes() == token.spec_bytes().take(6));
            assert(tail.spec_bytes() == token.spec_bytes().skip(n - 4));
        }
        let mut m = String::from_str(head);
        m.append("...");
        m.append(tail);
        m
    } else {
        String::from_str("Not configured")
    }
}

/// The text the activity log shows for a sent message.
pub fn log_preview_exec(msg: &str) -> (s: String)
    requires
        preview_cuttable(msg@),
    ensures
        s@ == log_preview(msg@),
{
    if msg.as_bytes().len() > PREVIEW_BYTES {
        let (head, _) = msg.split_at(PREVIEW_BYTES);
        proof {
            vstd::utf8::encode_utf8_decode_utf8(head@);
            assert(head.spec_bytes() == msg.spec_bytes().take(PREVIEW_BYTES as int));
        }
        let mut s = String::from_str(head);
        s.append("...");
        s
    } else {
        String::from_str(msg)
    }
}

/// Whether a message may be sent: it holds something besides white space.
pub fn is_sendable(message: &str) -> (b: bool)
    ensures
        b == !blank(message@),
{
    !is_blank(message)
}

/// What the soft keyboard should do this frame.
#[derive(PartialEq, Eq, Structural, Clone, Copy, Debug)]
pub enum KeyboardAction {
    Show,
    Hide,
    Keep,
}

/// Show the keyboard when the text field has focus and it is down, hide it
/// when the field has no focus and it is up, and otherwise leave it alone.
pub open spec fn keyboard_decision(focused: bool, shown: bool) -> KeyboardAction {
    if focused && !shown {
        KeyboardAction::Show
    } else if !focused && shown {
        KeyboardAction::Hide
    } else {
        KeyboardAction::Keep
    }
}

/// What the soft keyboard should do, given the text field's focus and
/// whether the keyboard is up.
pub fn keyboard_action(focused: bool, shown: bool) -> (a: KeyboardAction)
    ensures
        a == keyboard_decision(focused, shown),
{
    if focused && !shown {
        KeyboardAction::Show
    } else if !focused && shown {
        KeyboardAction::Hide
    } else {
        KeyboardAction::Keep
    }
}

/// Whether the keyboard is up after `action`.
pub open spec fn shown_after(action: KeyboardAction, shown: bool) -> bool {
    match action {
        KeyboardAction::Show => true,
        KeyboardAction::Hide => false,
        KeyboardAction::Keep => shown,
    }
}

/// Law: once the keyboard has acted, it is up exactly when the text field
/// has focus.
pub proof fn lemma_keyboard_follows_focus(focused: bool, shown: bool)
    ensures
        shown_after(keyboard_decision(focused, shown), shown) == focused,
{
}

/// How many messages of a chat were received rather than sent by us.
pub open spec fn count_received(chat: Seq<ChatMessageView>) -> nat
    decreases chat.len(),
{
    if chat.len() == 0 {
        0
    } else {
        count_received(chat.drop_last()) + if chat.last().is_ours {
            0nat
        } else {
            1nat
        }
    }
}

/// The effect of sending what was typed in `pre`, giving `post` and `out`:
/// the field is cleared, the counter goes up, the chat shows the message as
/// ours, the activity log gains its preview first (keeping
/// [`ACTIVITY_LOG_LIMIT`] entries), the rest is kept, and `out` holds the
/// token, the chat id and the text.
pub open spec fn sent(pre: Console, post: Console, out: OutgoingMessage) -> bool {
    &&& out.token@ == pre.token@
    &&& out.chat_id@ == pre.chat_id@
    &&& out.text@ == pre.message@
    &&& post.message@ == Seq::<char>::empty()
    &&& post.messages_sent == pre.messages_sent + 1
    &&& chat_views(post.chat_messages@) == chat_views(pre.chat_messages@).push(
        ChatMessageView { from_name: "You"@, text: pre.message@, is_ours: true },
    )
    &&& log_views(post.activity_log@) == keep_first(
        seq![LogEntryView { text: log_preview(pre.message@), success: true }] + log_views(
            pre.activity_log@,
        ),
        ACTIVITY_LOG_LIMIT as nat,
    )
    &&& post.token == pre.token
    &&& post.chat_id == pre.chat_id
    &&& post.text_field_focused == pre.text_field_focused
    &&& post.text_changed_externally == pre.text_changed_externally
    &&& post.selected_tab == pre.selected_tab
    &&& post.polling_started == pre.polling_started
}

/// The state behind the console's screens.
pub struct Console {
    pub message: String,
    pub token: String,
    pub chat_id: String,
    pub text_field_focused: bool,
    pub text_changed_externally: bool,
    pub selected_tab: Tab,
    pub messages_sent: u32,
    pub activity_log: Vec<LogEntry>,
    pub chat_messages: Vec<ChatMessage>,
    pub polling_started: bool,
}

impl Console {
    /// The activity log never holds more than [`ACTIVITY_LOG_LIMIT`] entries.
    pub open spec fn wf(&self) -> bool {
        self.activity_log@.len() <= ACTIVITY_LOG_LIMIT
    }

    /// A fresh console for the bot `token` and the chat `chat_id` (as read
    /// at startup): nothing typed, sent or received, on the dashboard, not
    /// yet polling.
    pub fn new(token: String, chat_id: String) -> (c: Console)
        ensures
            c.wf(),
            c.message@ == Seq::<char>::empty(),
            c.token@ == token@,
            c.chat_id@ == chat_id@,
            !c.text_field_focused,
            !c.text_changed_externally,
            c.selected_tab == Tab::Dashboard,
            c.messages_sent == 0,
            c.activity_log@.len() == 0,
            c.chat_messages@.len() == 0,
            !c.polling_started,
    {
        Console {
            message: String::new(),
            token,
            chat_id,
            text_field_focused: false,
            text_changed_externally: false,
            selected_tab: Tab::Dashboard,
            messages_sent: 0,
            activity_log: Vec::new(),
            chat_messages: Vec::new(),
            polling_started: false,
        }
    }

    /// Sends what was typed: clears the field, counts the message, shows
    /// it in the chat as ours, logs its preview first in the activity log
    /// (keeping [`ACTIVITY_LOG_LIMIT`] entries), and hands back what to send.
    pub fn record_send(&mut self) -> (out: OutgoingMessage)
        requires
            old(self).messages_sent < u32::MAX,
            preview_cuttable(old(self).message@),
        ensures
            sent(*old(self), *final(self), out),
            final(self).wf(),
    {
        let msg = self.message.clone();
        let token = self.token.clone();
        let chat = self.chat_id.clone();

        self.message = String::new();
        self.messages_sent = self.messages_sent + 1;

        let ghost old_chat = self.chat_messages@;
        self.chat_messages.push(
            ChatMessage { from_name: String::from_str("You"), text: msg.clone(), is_ours: true },
        );
        assert(chat_views(self.chat_messages@) =~= chat_views(old_chat).push(
            ChatMessageView { from_name: "You"@, text: msg@, is_ours: true },
        ));

        let display = log_preview_exec(msg.as_str());
        let ghost old_log = self.activity_log@;
        self.activity_log.insert(0, LogEntry { text: display, success: true });
        assert(log_views(self.activity_log@) =~= seq![
            LogEntryView { text: log_preview(msg@), success: true },
        ] + log_views(old_log));
        let ghost full = self.activity_log@;
        if self.activity_log.len() > ACTIVITY_LOG_LIMIT {
            self.activity_log.truncate(ACTIVITY_LOG_LIMIT);
            assert(log_views(self.activity_log@) =~= log_views(full).take(
                ACTIVITY_LOG_LIMIT as int,
            ));
        }
        OutgoingMessage { token, chat_id: chat, text: msg }
    }

    /// Sends what was typed if it is more than white space; otherwise
    /// changes nothing and sends nothing.
    pub fn try_send(&mut self) -> (out: Option<OutgoingMessage>)
        requires
            !blank(old(self).message@) ==> old(self).messages_sent < u32::MAX && preview_cuttable(
                old(self).message@,
            ),
        ensures
            blank(old(self).message@) ==> out is None && *final(self) == *old(self),
            !blank(old(self).message@) ==> (out matches Some(o) && sent(*old(self), *final(self), o)),
    {
        if is_sendable(self.message.as_str()) {
            Some(self.record_send())
        } else {
            None
        }
    }

    /// Appends received messages to the chat, not ours, in order, then keeps
    /// only the last [`CHAT_HISTORY_LIMIT`] chat messages.
    pub fn receive(&mut self, incoming: Vec<IncomingMessage>)
        ensures
            chat_views(final(self).chat_messages@) == keep_last(
                chat_views(old(self).chat_messages@) + incoming_views(incoming@).map_values(
                    |m: IncomingMessageView| received_chat(m),
                ),
                CHAT_HISTORY_LIMIT as nat,
            ),
            final(self).message == old(self).message,
            final(self).token == old(self).token,
            final(self).chat_id == old(self).chat_id,
            final(self).text_field_focused == old(self).text_field_focused,
            final(self).text_changed_externally == old(self).text_changed_externally,
            final(self).selected_tab == old(self).selected_tab,
            final(self).messages_sent == old(self).messages_sent,
            final(self).activity_log == old(self).activity_log,
            final(self).polling_started == old(self).polling_started,
    {
        let mut chat: Vec<ChatMessage> = Vec::new();
        std::mem::swap(&mut chat, &mut self.chat_messages);
        let ghost old_chat = chat_views(chat@);
        let ghost arrived = incoming_views(incoming@).map_values(
            |m: IncomingMessageView| received_chat(m),
        );
        let mut rest = incoming;
        let n = rest.len();
        let mut i: usize = 0;
        while i < n
            invariant
                n == incoming@.len(),
                i <= n,
                rest@ == incoming@.skip(i as int),
                chat_views(chat@) == old_chat + arrived.take(i as int),
                arrived.len() == n,
                forall|j: int| 0 <= j < n ==> #[trigger] arrived[j] == received_chat(incoming@[j]@),
            decreases n - i,
        {
            let m = rest.remove(0);
            assert(m == incoming@[i as int]);
            let ghost before = chat@;
            chat.push(ChatMessage { from_name: m.from_name, text: m.text, is_ours: false });
            assert(chat_views(chat@) =~= chat_views(before).push(arrived[i as int]));
            assert(arrived.take(i + 1) =~= arrived.take(i as int).push(arrived[i as int]));
            i = i + 1;
        }
        assert(arrived.take(n as int) =~= arrived);
        let len = chat.len();
        if len > CHAT_HISTORY_LIMIT {
            let ghost all = chat@;
            let kept = chat.split_off(len - CHAT_HISTORY_LIMIT);
            chat = kept;
            assert(chat_views(chat@) =~= chat_views(all).skip((len - CHAT_HISTORY_LIMIT) as int));
        }
        self.chat_messages = chat;
    }

    /// How many chat messages were received rather than sent by us.
    pub fn received_count(&self) -> (n: usize)
        ensures
            n == count_received(chat_views(self.chat_messages@)),
    {
        let mut count: usize = 0;
        let mut i: usize = 0;
        while i < self.chat_messages.len()
            invariant
                i <= self.chat_messages@.len(),
                count == count_received(chat_views(self.chat_messages@.take(i as int))),
                count <= i,
            decreases self.chat_messages@.len() - i,
        {
            proof {
                let s = self.chat_messages@.take(i + 1);
                assert(chat_views(s).drop_last() =~= chat_views(self.chat_messages@.take(i as int)));
            }
            if !self.chat_messages[i].is_ours {
                count = count + 1;
            }
            i = i + 1;
        }
        assert(self.chat_messages@.take(i as int) =~= self.chat_messages@);
        count
    }

    /// Switches to `tab`.
    pub fn select_tab(&mut self, tab: Tab)
        ensures
            final(self).selected_tab == tab,
            final(self).message == old(self).message,
            final(self).token == old(self).token,
            final(self).chat_id == old(self).chat_id,
            final(self).messages_sent == old(self).messages_sent,
            final(self).activity_log == old(self).activity_log,
            final(self).chat_messages == old(self).chat_messages,
            final(self).polling_started == old(self).polling_started,
            final(self).text_field_focused == old(self).text_field_focused,
            final(self).text_changed_externally == old(self).text_changed_externally,
    {
        self.selected_tab = tab;
    }

    /// Whether `tab` is the page on show.
    pub fn is_active(&self, tab: Tab) -> (b: bool)
        ensures
            b == (self.selected_tab == tab),
    {
        self.selected_tab == tab
    }

    /// Marks polling as started; true only the first time, when the caller
    /// must start the background poll.
    pub fn begin_polling(&mut self) -> (start: bool)
        ensures
            start == !old(self).polling_started,
            final(self).polling_started,
            final(self).message == old(self).message,
            final(self).token == old(self).token,
            final(self).chat_id == old(self).chat_id,
            final(self).messages_sent == old(self).messages_sent,
            final(self).activity_log == old(self).activity_log,
            final(self).chat_messages == old(self).chat_messages,
            final(self).selected_tab == old(self).selected_tab,
            final(self).text_field_focused == old(self).text_field_focused,
            final(self).text_changed_externally == old(self).text_changed_externally,
    {
        if self.polling_started {
            false
        } else {
            self.polling_started = true;
            true
        }
    }

    /// Takes text typed on a soft keyboard: when it differs from the field,
    /// it replaces it and the cursor is to be moved to its end.
    pub fn sync_external_text(&mut self, text: String)
        ensures
            final(self).message@ == text@,
            text@ != old(self).message@ ==> final(self).text_changed_externally,
            text@ == old(self).message@ ==> final(self).text_changed_externally
                == old(self).text_changed_externally && final(self).message == old(self).message,
            final(self).token == old(self).token,
            final(self).chat_id == old(self).chat_id,
            final(self).messages_sent == old(self).messages_sent,
            final(self).activity_log == old(self).activity_log,
            final(self).chat_messages == old(self).chat_messages,
            final(self).selected_tab == old(self).selected_tab,
            final(self).polling_started == old(self).polling_started,
            final(self).text_field_focused == old(self).text_field_focused,
    {
        if text != self.message {
            self.message = text;
            self.text_changed_externally = true;
        }
    }
}

/// Law: a send puts its preview first in the activity log, moves the older
/// entries down by one, and never lets the log grow past
/// [`ACTIVITY_LOG_LIMIT`].
pub proof fn lemma_send_logs_newest_first(pre: Console, post: Console, out: OutgoingMessage)
    requires
        sent(pre, post, out),
    ensures
        post.wf(),
        post.activity_log@.len() == if pre.activity_log@.len() < ACTIVITY_LOG_LIMIT {
            pre.activity_log@.len() + 1
        } else {
            ACTIVITY_LOG_LIMIT as nat
        },
        log_views(post.activity_log@)[0] == (LogEntryView {
            text: log_preview(out.text@),
            success: true,
        }),
        forall|i: int|
            0 <= i < post.activity_log@.len() - 1 ==> #[trigger] log_views(post.activity_log@)[i
                + 1] == log_views(pre.activity_log@)[i],
{
    let full = seq![LogEntryView { text: log_preview(pre.message@), success: true }] + log_views(
        pre.activity_log@,
    );
    assert(log_views(post.activity_log@).len() == post.activity_log@.len());
    assert forall|i: int| 0 <= i < post.activity_log@.len() - 1 implies #[trigger] log_views(
        post.activity_log@,
    )[i + 1] == log_views(pre.activity_log@)[i] by {
        assert(full[i + 1] == log_views(pre.activity_log@)[i]);
    }
}

/// Law: receiving leaves at most [`CHAT_HISTORY_LIMIT`] chat messages, keeps
/// everything when that many fit, and always keeps the newest arrivals last.
pub proof fn lemma_receive_keeps_newest(before: Seq<ChatMessageView>, arrived: Seq<ChatMessageView>)
    ensures
        keep_last(before + arrived, CHAT_HISTORY_LIMIT as nat).len() <= CHAT_HISTORY_LIMIT,
        before.len() + arrived.len() <= CHAT_HISTORY_LIMIT ==> keep_last(
            before + arrived,
            CHAT_HISTORY_LIMIT as nat,
        ) == before + arrived,
        arrived.len() <= CHAT_HISTORY_LIMIT ==> ({
            let kept = keep_last(before + arrived, CHAT_HISTORY_LIMIT as nat);
            kept.subrange(kept.len() - arrived.len(), kept.len() as int) == arrived
        }),
{
    let all = before + arrived;
    let kept = keep_last(all, CHAT_HISTORY_LIMIT as nat);
    if arrived.len() <= CHAT_HISTORY_LIMIT {
        assert(kept.subrange(kept.len() - arrived.len(), kept.len() as int) =~= arrived);
    }
}

proof fn lemma_count_received_append(a: Seq<ChatMessageView>, b: Seq<ChatMessageView>)
    ensures
        count_received(a + b) == count_received(a) + count_received(b),
    decreases b.len(),
{
    if b.len() > 0 {
        lemma_count_received_append(a, b.drop_last());
        assert((a + b).drop_last() =~= a + b.drop_last());
    } else {
        assert(a + b =~= a);
    }
}

/// Law: sending leaves the number of received messages unchanged.
pub proof fn lemma_send_keeps_received_count(pre: Console, post: Console, out: OutgoingMessage)
    requires
        sent(pre, post, out),
    ensures
        count_received(chat_views(post.chat_messages@)) == count_received(
            chat_views(pre.chat_messages@),
        ),
{
    let v = chat_views(post.chat_messages@);
    assert(v.drop_last() =~= chat_views(pre.chat_messages@));
}

/// Law: receiving messages, while the history limit is not reached, raises
/// the number of received messages by exactly their number.
pub proof fn lemma_receive_counts_arrivals(before: Seq<ChatMessageView>, incoming: Seq<IncomingMessageView>)
    requires
        before.len() + incoming.len() <= CHAT_HISTORY_LIMIT,
    ensures
        count_received(
            keep_last(
                before + incoming.map_values(|m: IncomingMessageView| received_chat(m)),
                CHAT_HISTORY_LIMIT as nat,
            ),
        ) == count_received(before) + incoming.len(),
    decreases incoming.len(),
{
    let arrived = incoming.map_values(|m: IncomingMessageView| received_chat(m));
    lemma_count_received_append(before, arrived);
    lemma_count_received_all_arrivals(incoming);
}

proof fn lemma_count_received_all_arrivals(incoming: Seq<IncomingMessageView>)
    ensures
        count_received(incoming.map_values(|m: IncomingMessageView| received_chat(m)))
            == incoming.len(),
    decreases incoming.len(),
{
    if incoming.len() > 0 {
        lemma_count_received_all_arrivals(incoming.drop_last());
        assert(incoming.map_values(|m: IncomingMessageView| received_chat(m)).drop_last()
            =~= incoming.drop_last().map_values(|m: IncomingMessageView| received_chat(m)));
    }
}

proof fn lemma_ascii_encoding_slices(text: Seq<char>, lo: int, hi: int)
    requires
        is_ascii_chars(text),
        0 <= lo <= hi <= text.len(),
    ensures
        encode_utf8(text).len() == text.len(),
        decode_utf8(encode_utf8(text).subrange(lo, hi)) == text.subrange(lo, hi),
{
    let part = text.subrange(lo, hi);
    vstd::utf8::is_ascii_chars_encode_utf8(text);
    assert(is_ascii_chars(part));
    vstd::utf8::is_ascii_chars_encode_utf8(part);
    assert(encode_utf8(part) =~= encode_utf8(text).subrange(lo, hi)) by {
        assert forall|i: int| 0 <= i < hi - lo implies encode_utf8(part)[i] == encode_utf8(
            text,
        )[lo + i] by {
            assert(part[i] == text[lo + i]);
        }
    }
    vstd::utf8::encode_utf8_decode_utf8(part);
}

proof fn lemma_ascii_boundary(text: Seq<char>, k: int)
    requires
        is_ascii_chars(text),
        0 <= k < text.len(),
    ensures
        is_char_boundary(encode_utf8(text), k),
{
    vstd::utf8::is_ascii_chars_encode_utf8(text);
    vstd::utf8::encode_utf8_valid_utf8(text);
    vstd::utf8::is_char_boundary_iff_not_is_continuation_byte(encode_utf8(text), k);
    let c = text[k];
    assert('\0' <= c <= '\u{7f}');
    assert(encode_utf8(text)[k] == c as u8);
    vstd::utf8::char_is_scalar(c);
    assert((c as u32) < 0x80);
    assert((c as u8) < 0x80) by {
        vstd::utf8::char_u32_cast(c, c as u32);
    }
}

/// Law: an ASCII token longer than ten characters can always be masked, and
/// shows its first six and last four characters around "...".
pub proof fn lemma_mask_ascii(token: Seq<char>)
    requires
        is_ascii_chars(token),
        10 < token.len(),
    ensures
        mask_cuttable(encode_utf8(token)),
        masked_token(encode_utf8(token)) == token.take(6) + "..."@ + token.skip(token.len() - 4),
{
    let b = encode_utf8(token);
    lemma_ascii_encoding_slices(token, 0, 6);
    lemma_ascii_encoding_slices(token, token.len() - 4, token.len() as int);
    lemma_ascii_boundary(token, 6);
    lemma_ascii_boundary(token, token.len() - 4);
    assert(b.take(6) == b.subrange(0, 6));
    assert(token.take(6) == token.subrange(0, 6));
    assert(b.skip(b.len() - 4) == b.subrange(b.len() - 4, b.len() as int));
    assert(token.skip(token.len() - 4) == token.subrange(token.len() - 4, token.len() as int));
}

/// Law: an ASCII message can always be previewed; beyond
/// [`PREVIEW_BYTES`] characters the preview is its first [`PREVIEW_BYTES`]
/// characters and "...".
pub proof fn lemma_preview_ascii(msg: Seq<char>)
    requires
        is_ascii_chars(msg),
    ensures
        preview_cuttable(msg),
        msg.len() > PREVIEW_BYTES ==> log_preview(msg) == msg.take(PREVIEW_BYTES as int) + "..."@,
        msg.len() <= PREVIEW_BYTES ==> log_preview(msg) == msg,
{
    lemma_ascii_encoding_slices(msg, 0, 0);
    if msg.len() > PREVIEW_BYTES {
        lemma_ascii_encoding_slices(msg, 0, PREVIEW_BYTES as int);
        lemma_ascii_boundary(msg, PREVIEW_BYTES as int);
        assert(encode_utf8(msg).take(PREVIEW_BYTES as int) == encode_utf8(msg).subrange(
            0,
            PREVIEW_BYTES as int,
        ));
        assert(msg.take(PREVIEW_BYTES as int) == msg.subrange(0, PREVIEW_BYTES as int));
    }
}

/// Law: receiving keeps every arrival, in order, with exactly its sender's
/// name and text and marked as not ours, as the last messages of the chat
/// (when no more arrive at once than the history holds); and when everything
/// fits, the earlier messages stay in front, unchanged.
pub proof fn lemma_receive_keeps_arrivals(before: Seq<ChatMessageView>, incoming: Seq<IncomingMessageView>)
    requires
        incoming.len() <= CHAT_HISTORY_LIMIT,
    ensures
        ({
            let kept = keep_last(
                before + incoming.map_values(|m: IncomingMessageView| received_chat(m)),
                CHAT_HISTORY_LIMIT as nat,
            );
            &&& kept.len() >= incoming.len()
            &&& forall|j: int|
                0 <= j < incoming.len() ==> #[trigger] kept[kept.len() - incoming.len() + j]
                    == (ChatMessageView {
                    from_name: incoming[j].from_name,
                    text: incoming[j].text,
                    is_ours: false,
                })
            &&& before.len() + incoming.len() <= CHAT_HISTORY_LIMIT ==> forall|i: int|
                0 <= i < before.len() ==> #[trigger] kept[i] == before[i]
        }),
{
    let arrived = incoming.map_values(|m: IncomingMessageView| received_chat(m));
    let all = before + arrived;
    let kept = keep_last(all, CHAT_HISTORY_LIMIT as nat);
    assert forall|j: int| 0 <= j < incoming.len() implies #[trigger] kept[kept.len()
        - incoming.len() + j] == (ChatMessageView {
        from_name: incoming[j].from_name,
        text: incoming[j].text,
        is_ours: false,
    }) by {
        assert(all[before.len() + j] == arrived[j]);
        if all.len() > CHAT_HISTORY_LIMIT {
            assert(kept[kept.len() - incoming.len() + j] == all[all.len() - CHAT_HISTORY_LIMIT + (
            kept.len() - incoming.len() + j)]);
        }
    }
}

proof fn lemma_boundary_prefix(msg: Seq<char>, cut: int) -> (k: int)
    requires
        0 <= cut <= encode_utf8(msg).len(),
        is_char_boundary(encode_utf8(msg), cut),
    ensures
        0 <= k <= msg.len(),
        decode_utf8(encode_utf8(msg).take(cut)) == msg.take(k),
        decode_utf8(encode_utf8(msg).skip(cut)) == msg.skip(k),
        encode_utf8(msg.take(k)) == encode_utf8(msg).take(cut),
        encode_utf8(msg.take(k)).len() == cut,
{
    let b = encode_utf8(msg);
    vstd::utf8::encode_utf8_valid_utf8(msg);
    vstd::utf8::encode_utf8_decode_utf8(msg);
    vstd::utf8::decode_utf8_split(b, cut);
    vstd::utf8::valid_utf8_split(b, cut);
    assert(b.take(cut) == b.subrange(0, cut));
    assert(b.skip(cut) == b.subrange(cut, b.len() as int));
    let head = decode_utf8(b.take(cut));
    let tail = decode_utf8(b.skip(cut));
    assert(msg == head + tail);
    let k = head.len() as int;
    assert(msg.take(k) =~= head);
    assert(msg.skip(k) =~= tail);
    vstd::utf8::decode_utf8_encode_utf8(b.take(cut));
    k
}

/// Law: a message of at most [`PREVIEW_BYTES`] bytes is logged whole; a
/// longer one is logged as a prefix of its characters that takes exactly
/// [`PREVIEW_BYTES`] bytes, followed by "...", whatever its alphabet.
pub proof fn lemma_preview_is_prefix(msg: Seq<char>)
    requires
        preview_cuttable(msg),
    ensures
        encode_utf8(msg).len() <= PREVIEW_BYTES ==> log_preview(msg) == msg,
        encode_utf8(msg).len() > PREVIEW_BYTES ==> exists|k: int|
            #![trigger msg.take(k)]
            0 <= k < msg.len() && encode_utf8(msg.take(k)).len() == PREVIEW_BYTES
                && log_preview(msg) == msg.take(k) + "..."@,
{
    if encode_utf8(msg).len() > PREVIEW_BYTES {
        let k = lemma_boundary_prefix(msg, PREVIEW_BYTES as int);
        if k == msg.len() {
            assert(msg.take(k) =~= msg);
        }
        assert(log_preview(msg) == msg.take(k) + "..."@);
    }
}

/// Law: a token of more than ten bytes is shown as a prefix of its
/// characters taking exactly six bytes, "...", and a suffix of its
/// characters taking exactly four bytes; a shorter one is "Not configured".
pub proof fn lemma_mask_is_prefix_and_suffix(token: Seq<char>)
    requires
        mask_cuttable(encode_utf8(token)),
    ensures
        encode_utf8(token).len() <= 10 ==> masked_token(encode_utf8(token)) == "Not configured"@,
        encode_utf8(token).len() > 10 ==> exists|k: int, m: int|
            #![trigger token.take(k), token.skip(m)]
            0 <= k <= m <= token.len() && encode_utf8(token.take(k)).len() == 6
                && encode_utf8(token.skip(m)).len() == 4 && masked_token(encode_utf8(token))
                == token.take(k) + "..."@ + token.skip(m),
{
    let b = encode_utf8(token);
    if b.len() > 10 {
        let k = lemma_boundary_prefix(token, 6);
        let m = lemma_boundary_prefix(token, b.len() - 4);
        vstd::utf8::encode_utf8_decode_utf8(token);
        assert(token.skip(m) =~= decode_utf8(b.skip(b.len() - 4)));
        assert(encode_utf8(token.take(m)).len() == b.len() - 4);
        lemma_encode_split(token, m);
        assert(k <= m) by {
            if k > m {
                lemma_encode_prefix_monotone(token, m, k);
            }
        }
    }
}

proof fn lemma_encode_split(s: Seq<char>, m: int)
    requires
        0 <= m <= s.len(),
    ensures
        encode_utf8(s) == encode_utf8(s.take(m)) + encode_utf8(s.skip(m)),
    decreases m,
{
    if m == 0 {
        assert(s.take(0) =~= Seq::<char>::empty());
        assert(s.skip(0) =~= s);
        assert(encode_utf8(Seq::<char>::empty()) =~= Seq::<u8>::empty());
        assert(encode_utf8(s) =~= Seq::<u8>::empty() + encode_utf8(s));
    } else {
        let t = s.drop_first();
        lemma_encode_split(t, m - 1);
        assert(s.take(m).drop_first() =~= t.take(m - 1));
        assert(s.take(m)[0] == s[0]);
        assert(s.skip(m) =~= t.skip(m - 1));
        assert(encode_utf8(s.take(m)) == vstd::utf8::encode_scalar(s[0] as u32) + encode_utf8(
            t.take(m - 1),
        ));
        assert(encode_utf8(s) =~= encode_utf8(s.take(m)) + encode_utf8(s.skip(m)));
    }
}

proof fn lemma_encode_prefix_monotone(s: Seq<char>, a: int, b: int)
    requires
        0 <= a < b <= s.len(),
    ensures
        encode_utf8(s.take(a)).len() < encode_utf8(s.take(b)).len(),
{
    let sb = s.take(b);
    lemma_encode_split(sb, a);
    assert(sb.take(a) =~= s.take(a));
    let rest = sb.skip(a);
    assert(rest.len() > 0);
    assert(encode_utf8(rest) == vstd::utf8::encode_scalar(rest[0] as u32) + encode_utf8(
        rest.drop_first(),
    ));
    assert(vstd::utf8::encode_scalar(rest[0] as u32).len() > 0);
}

/// Law: a send hands out the typed text with the console's token and chat
/// id, empties the field, counts one more message, and adds the text as our
/// own message ("You") after the chat's earlier messages, which stay as they
/// were.
pub proof fn lemma_send_shows_message(pre: Console, post: Console, out: OutgoingMessage)
    requires
        sent(pre, post, out),
    ensures
        out.text@ == pre.message@,
        out.token@ == pre.token@,
        out.chat_id@ == pre.chat_id@,
        post.message@.len() == 0,
        post.messages_sent == pre.messages_sent + 1,
        post.chat_messages@.len() == pre.chat_messages@.len() + 1,
        post.chat_messages@.last()@ == (ChatMessageView {
            from_name: "You"@,
            text: pre.message@,
            is_ours: true,
        }),
        forall|i: int|
            0 <= i < pre.chat_messages@.len() ==> #[trigger] post.chat_messages@[i]@
                == pre.chat_messages@[i]@,
        post.token == pre.token,
        post.chat_id == pre.chat_id,
{
    let v = chat_views(post.chat_messages@);
    assert(v.len() == post.chat_messages@.len());
    assert(v[v.len() - 1] == post.chat_messages@.last()@);
    assert forall|i: int| 0 <= i < pre.chat_messages@.len() implies #[trigger] post.chat_messages@[i]@
        == pre.chat_messages@[i]@ by {
        assert(v[i] == post.chat_messages@[i]@);
        assert(chat_views(pre.chat_messages@)[i] == pre.chat_messages@[i]@);
    }
}

} // verus!
