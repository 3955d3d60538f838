//! The Telegram Bot API side: the shapes of a `getUpdates` reply, how a
//! reply becomes chat messages and the next offset, and the requests sent.

use vstd::prelude::*;

use crate::json::{json_quoted, send_body_from_literals, send_message_json_body};
use crate::text::{
    decimal_digits, decimal_int, i64_to_decimal, lemma_decimal_int_read_back, parse_signed,
    u64_to_decimal,
};

verus! {

/// A message received from the Telegram `getUpdates` API.
pub struct IncomingMessage {
    pub from_name: String,
    pub text: String,
    pub date: i64,
}

/// What an [`IncomingMessage`] holds, as plain values.
pub struct IncomingMessageView {
    pub from_name: Seq<char>,
    pub text: Seq<char>,
    pub date: i64,
}

impl View for IncomingMessage {
    type V = IncomingMessageView;

    open spec fn view(&self) -> IncomingMessageView {
        IncomingMessageView { from_name: self.from_name@, text: self.text@, date: self.date }
    }
}

/// The sender of a Telegram message.
pub struct TgUser {
    pub first_name: Option<String>,
    pub last_name: Option<String>,
    pub username: Option<String>,
}

/// A Telegram message inside an update.
pub struct TgMessage {
    pub text: Option<String>,
    pub from: Option<TgUser>,
    pub date: Option<i64>,
}

/// One entry of a `getUpdates` reply.
pub struct Update {
    pub update_id: i64,
    pub message: Option<TgMessage>,
}

/// A `getUpdates` reply: `ok` and the list of updates (empty when absent).
pub struct GetUpdatesResponse {
    pub ok: bool,
    pub result: Vec<Update>,
}

/// The view of an optional string.
pub open spec fn opt_text(o: Option<String>) -> Option<Seq<char>> {
    match o {
        Some(s) => Some(s@),
        None => None,
    }
}

/// How a sender is named: "first last", "first", "@username" when there is
/// neither name, and "Unknown" otherwise.
pub open spec fn display_name_of(
    first: Option<Seq<char>>,
    last: Option<Seq<char>>,
    username: Option<Seq<char>>,
) -> Seq<char> {
    match (first, last, username) {
        (Some(f), Some(l), _) => f + " "@ + l,
        (Some(f), None, _) => f,
        (None, None, Some(u)) => "@"@ + u,
        _ => "Unknown"@,
    }
}

impl TgUser {
    pub open spec fn spec_display_name(&self) -> Seq<char> {
        display_name_of(opt_text(self.first_name), opt_text(self.last_name), opt_text(self.username))
    }

    /// The name shown for this sender.
    pub fn display_name(&self) -> (name: String)
        ensures
            name@ == self.spec_display_name(),
    {
        match (&self.first_name, &self.last_name, &self.username) {
            (Some(f), Some(l), _) => {
                let mut s = f.clone();
                s.append(" ");
                s.append(l.as_str());
                s
            },
            (Some(f), None, _) => f.clone(),
            (None, None, Some(u)) => {
                let mut s = String::from_str("@");
                s.append(u.as_str());
                s
            },
            _ => String::from_str("Unknown"),
        }
    }
}

/// The chat message an update carries, if it carries a text message:
/// the sender's display name ("Unknown" without a sender), the text, and the
/// date (0 when absent).
pub open spec fn incoming_of(u: Update) -> Option<IncomingMessageView> {
    match u.message {
        Some(m) => match m.text {
            Some(t) => Some(
                IncomingMessageView {
                    from_name: match m.from {
                        Some(user) => user.spec_display_name(),
                        None => "Unknown"@,
                    },
                    text: t@,
                    date: match m.date {
                        Some(d) => d,
                        None => 0,
                    },
                },
            ),
            None => None,
        },
        None => None,
    }
}

/// The chat messages of a list of updates, in order.
pub open spec fn incoming_messages(updates: Seq<Update>) -> Seq<IncomingMessageView>
    decreases updates.len(),
{
    if updates.len() == 0 {
        Seq::empty()
    } else {
        let before = incoming_messages(updates.drop_last());
        match incoming_of(updates.last()) {
            Some(m) => before.push(m),
            None => before,
        }
    }
}

/// The offset after reading `updates` from `offset`: each update whose id is
/// at least the offset so far moves it to one past that id.
pub open spec fn next_offset_after(updates: Seq<Update>, offset: int) -> int
    decreases updates.len(),
{
    if updates.len() == 0 {
        offset
    } else {
        let before = next_offset_after(updates.drop_last(), offset);
        let id = updates.last().update_id;
        if id >= before {
            id + 1
        } else {
            before
        }
    }
}

/// No update id is `i64::MAX`, so one past each id is an `i64`.
pub open spec fn ids_below_max(updates: Seq<Update>) -> bool {
    forall|i: int| 0 <= i < updates.len() ==> #[trigger] updates[i].update_id < i64::MAX
}

/// The views of a list of incoming messages.
pub open spec fn incoming_views(v: Seq<IncomingMessage>) -> Seq<IncomingMessageView> {
    v.map_values(|m: IncomingMessage| m@)
}

proof fn lemma_next_offset_bounds(updates: Seq<Update>, offset: int)
    requires
        ids_below_max(updates),
        offset <= i64::MAX,
    ensures
        offset <= next_offset_after(updates, offset) <= i64::MAX,
    decreases updates.len(),
{
    if updates.len() > 0 {
        lemma_next_offset_bounds(updates.drop_last(), offset);
        assert(updates.last() == updates[updates.len() - 1]);
    }
}

fn incoming_from_update(u: &Update) -> (r: Option<IncomingMessage>)
    ensures
        match r {
            Some(m) => incoming_of(*u) == Some(m@),
            None => incoming_of(*u) is None,
        },
{
    match &u.message {
        Some(msg) => match &msg.text {
            Some(text) => {
                let from_name = match &msg.from {
                    Some(user) => user.display_name(),
                    None => String::from_str("Unknown"),
                };
                let date = match msg.date {
                    Some(d) => d,
                    None => 0,
                };
                Some(IncomingMessage { from_name, text: text.clone(), date })
            },
            None => None,
        },
        None => None,
    }
}

/// Turns a `getUpdates` reply into the chat messages it carries and the
/// offset for the next call. A reply that is not `ok` yields nothing and
/// keeps the offset.
pub fn collect_updates(resp: &GetUpdatesResponse, offset: i64) -> (r: (Vec<IncomingMessage>, i64))
    requires
        resp.ok ==> ids_below_max(resp.result@),
    ensures
        resp.ok ==> incoming_views(r.0@) == incoming_messages(resp.result@),
        resp.ok ==> r.1 == next_offset_after(resp.result@, offset as int),
        !resp.ok ==> r.0@.len() == 0 && r.1 == offset,
{
    let mut messages: Vec<IncomingMessage> = Vec::new();
    let mut next_offset = offset;
    if resp.ok {
        let n = resp.result.len();
        let mut i: usize = 0;
        while i < n
            invariant
                n == resp.result@.len(),
                i <= n,
                ids_below_max(resp.result@),
                incoming_views(messages@) == incoming_messages(resp.result@.take(i as int)),
                next_offset == next_offset_after(resp.result@.take(i as int), offset as int),
            decreases n - i,
        {
            let update = &resp.result[i];
            proof {
                assert(resp.result@.take(i + 1).drop_last() == resp.result@.take(i as int));
                assert(resp.result@.take(i + 1).last() == resp.result@[i as int]);
                lemma_next_offset_bounds(resp.result@.take(i as int), offset as int);
            }
            if update.update_id >= next_offset {
                next_offset = update.update_id + 1;
            }
            match incoming_from_update(update) {
                Some(m) => {
                    messages.push(m);
                    assert(incoming_views(messages@) == incoming_views(messages@.drop_last()).push(
                        messages@.last()@,
                    ));
                },
                None => {},
            }
            i = i + 1;
        }
        assert(resp.result@.take(n as int) == resp.result@);
    }
    (messages, next_offset)
}

/// Law: the offset returned for a reply acknowledges every update in it:
/// it is at least the offset asked with, and above every update id.
pub proof fn lemma_offset_acknowledges_all(updates: Seq<Update>, offset: int)
    ensures
        offset <= next_offset_after(updates, offset),
        forall|i: int|
            0 <= i < updates.len() ==> #[trigger] updates[i].update_id < next_offset_after(
                updates,
                offset,
            ),
    decreases updates.len(),
{
    if updates.len() > 0 {
        let init = updates.drop_last();
        lemma_offset_acknowledges_all(init, offset);
        assert forall|i: int| 0 <= i < updates.len() implies #[trigger] updates[i].update_id
            < next_offset_after(updates, offset) by {
            if i < updates.len() - 1 {
                assert(updates[i] == init[i]);
            }
        }
    }
}

/// Law: the offset moves no further than needed: it stays where it was, or
/// lands one past the id of some update of the reply.
pub proof fn lemma_offset_is_least(updates: Seq<Update>, offset: int)
    ensures
        next_offset_after(updates, offset) == offset || exists|i: int|
            0 <= i < updates.len() && next_offset_after(updates, offset) == #[trigger] updates[i].update_id
                + 1,
    decreases updates.len(),
{
    if updates.len() > 0 {
        let init = updates.drop_last();
        lemma_offset_is_least(init, offset);
        if next_offset_after(init, offset) != offset && next_offset_after(updates, offset)
            == next_offset_after(init, offset) {
            let i = choose|i: int|
                0 <= i < init.len() && next_offset_after(init, offset) == #[trigger] init[i].update_id
                    + 1;
            assert(updates[i] == init[i]);
        }
        if next_offset_after(updates, offset) != next_offset_after(init, offset) {
            assert(next_offset_after(updates, offset) == updates[updates.len() - 1].update_id + 1);
        }
    }
}

/// Law: reading the same reply again from the returned offset leaves the
/// offset where it is, so no update is taken twice.
pub proof fn lemma_offset_rereading_is_stable(updates: Seq<Update>, offset: int)
    ensures
        next_offset_after(updates, next_offset_after(updates, offset)) == next_offset_after(
            updates,
            offset,
        ),
{
    lemma_offset_acknowledges_all(updates, offset);
    lemma_offset_unchanged_when_acknowledged(updates, next_offset_after(updates, offset));
}

proof fn lemma_offset_unchanged_when_acknowledged(updates: Seq<Update>, offset: int)
    requires
        forall|i: int| 0 <= i < updates.len() ==> #[trigger] updates[i].update_id < offset,
    ensures
        next_offset_after(updates, offset) == offset,
    decreases updates.len(),
{
    if updates.len() > 0 {
        let init = updates.drop_last();
        assert forall|i: int| 0 <= i < init.len() implies #[trigger] init[i].update_id < offset by {
            assert(init[i] == updates[i]);
        }
        lemma_offset_unchanged_when_acknowledged(init, offset);
        assert(updates.last() == updates[updates.len() - 1]);
    }
}

/// Law: a reply yields at most one chat message per update, and exactly the
/// updates that carry a text message.
pub proof fn lemma_messages_at_most_updates(updates: Seq<Update>)
    ensures
        incoming_messages(updates).len() <= updates.len(),
        (forall|i: int| 0 <= i < updates.len() ==> #[trigger] incoming_of(updates[i]) is None)
            ==> incoming_messages(updates).len() == 0,
    decreases updates.len(),
{
    if updates.len() > 0 {
        let init = updates.drop_last();
        lemma_messages_at_most_updates(init);
        if forall|i: int| 0 <= i < updates.len() ==> #[trigger] incoming_of(updates[i]) is None {
            assert forall|i: int| 0 <= i < init.len() implies #[trigger] incoming_of(init[i]) is None by {
                assert(init[i] == updates[i]);
            }
            assert(incoming_of(updates[updates.len() - 1]) is None);
        }
    }
}

/// The endpoint `https://api.telegram.org/bot<token>/sendMessage`.
pub open spec fn send_message_url(token: Seq<char>) -> Seq<char> {
    "https://api.telegram.org/bot"@ + token + "/sendMessage"@
}

/// The endpoint `https://api.telegram.org/bot<token>/getUpdates`.
pub open spec fn get_updates_url(token: Seq<char>) -> Seq<char> {
    "https://api.telegram.org/bot"@ + token + "/getUpdates"@
}

/// The browser's `getUpdates` URL, with the query in the URL itself and a
/// zero long-poll timeout.
pub open spec fn get_updates_web_url(token: Seq<char>, offset: int) -> Seq<char> {
    get_updates_url(token) + "?offset="@ + decimal_int(offset)
        + "&timeout=0&allowed_updates=%5B%22message%22%5D"@
}

/// A `sendMessage` call posted as a form.
pub struct SendMessageRequest {
    pub url: String,
    pub form: Vec<(String, String)>,
}

/// A `getUpdates` call with its query and the client timeout in seconds.
pub struct GetUpdatesRequest {
    pub url: String,
    pub query: Vec<(String, String)>,
    pub timeout_secs: u64,
}

fn pair(key: &str, value: &str) -> (p: (String, String))
    ensures
        p.0@ == key@,
        p.1@ == value@,
{
    (String::from_str(key), String::from_str(value))
}

/// The request that sends `text` to `chat_id` through the bot `token`: the
/// `sendMessage` endpoint and the form `chat_id`, `text`.
pub fn send_message_request(token: &str, chat_id: &str, text: &str) -> (r: SendMessageRequest)
    ensures
        r.url@ == send_message_url(token@),
        r.form@.len() == 2,
        r.form@[0].0@ == "chat_id"@,
        r.form@[0].1@ == chat_id@,
        r.form@[1].0@ == "text"@,
        r.form@[1].1@ == text@,
{
    let mut url = String::from_str("https://api.telegram.org/bot");
    url.append(token);
    url.append("/sendMessage");
    let mut form: Vec<(String, String)> = Vec::new();
    form.push(pair("chat_id", chat_id));
    form.push(pair("text", text));
    SendMessageRequest { url, form }
}

/// The browser's form of the same call: the endpoint and a JSON body
/// `{"chat_id":..,"text":..}`.
pub fn send_message_web_request(token: &str, chat_id: &str, text: &str) -> (r: (String, String))
    ensures
        r.0@ == send_message_url(token@),
        r.1@ == send_body_from_literals(json_quoted(chat_id@), json_quoted(text@)),
{
    let mut url = String::from_str("https://api.telegram.org/bot");
    url.append(token);
    url.append("/sendMessage");
    (url, send_message_json_body(chat_id, text))
}

/// The long-polling `getUpdates` call from `offset`: the endpoint, the query
/// `offset`, `timeout`, `allowed_updates=["message"]`, and a client timeout
/// five seconds above the long-poll timeout.
pub fn get_updates_request(token: &str, offset: i64, timeout: u64) -> (r: GetUpdatesRequest)
    requires
        timeout <= u64::MAX - 5,
    ensures
        r.url@ == get_updates_url(token@),
        r.query@.len() == 3,
        r.query@[0].0@ == "offset"@,
        r.query@[0].1@ == decimal_int(offset as int),
        r.query@[1].0@ == "timeout"@,
        r.query@[1].1@ == decimal_digits(timeout as nat),
        r.query@[2].0@ == "allowed_updates"@,
        r.query@[2].1@ == "[\"message\"]"@,
        r.timeout_secs == timeout + 5,
{
    let mut url = String::from_str("https://api.telegram.org/bot");
    url.append(token);
    url.append("/getUpdates");
    let mut query: Vec<(String, String)> = Vec::new();
    query.push((String::from_str("offset"), i64_to_decimal(offset)));
    query.push((String::from_str("timeout"), u64_to_decimal(timeout)));
    query.push(pair("allowed_updates", "[\"message\"]"));
    GetUpdatesRequest { url, query, timeout_secs: timeout + 5 }
}

/// The browser's `getUpdates` URL from `offset`.
pub fn get_updates_web_request(token: &str, offset: i64) -> (url: String)
    ensures
        url@ == get_updates_web_url(token@, offset as int),
{
    let mut url = String::from_str("https://api.telegram.org/bot");
    url.append(token);
    url.append("/getUpdates");
    url.append("?offset=");
    let off = i64_to_decimal(offset);
    url.append(off.as_str());
    url.append("&timeout=0&allowed_updates=%5B%22message%22%5D");
    url
}

/// Law: how a sender is named, from its fields alone. With a first and a
/// last name it is "first last", whatever the username; with a first name
/// only, the first name; with no name but a username, "@username"; with no
/// first name otherwise, "Unknown". A first name, when present, always
/// starts the displayed name.
pub proof fn lemma_display_name_cases(user: TgUser)
    ensures
        user.first_name is Some && user.last_name is Some ==> user.spec_display_name()
            == user.first_name.unwrap()@ + " "@ + user.last_name.unwrap()@,
        user.first_name is Some && user.last_name is None ==> user.spec_display_name()
            == user.first_name.unwrap()@,
        user.first_name is None && user.last_name is None && user.username is Some
            ==> user.spec_display_name() == "@"@ + user.username.unwrap()@,
        user.first_name is None && (user.last_name is Some || user.username is None)
            ==> user.spec_display_name() == "Unknown"@,
        user.first_name is Some ==> user.first_name.unwrap()@.is_prefix_of(
            user.spec_display_name(),
        ),
{
    if user.first_name is Some {
        let f = user.first_name.unwrap()@;
        let d = user.spec_display_name();
        if user.last_name is Some {
            assert(d.subrange(0, f.len() as int) =~= f);
        } else {
            assert(d.subrange(0, f.len() as int) =~= f);
        }
    }
}

/// Law: an update that carries a text message becomes exactly one chat
/// message with that text unchanged, the sender's displayed name ("Unknown"
/// without a sender) and the message's date (0 without one); an update
/// without a text message becomes none.
pub proof fn lemma_incoming_carries_text(u: Update)
    ensures
        (u.message matches Some(m) && m.text is Some) ==> ({
            let m = u.message.unwrap();
            &&& incoming_of(u) is Some
            &&& incoming_of(u).unwrap().text == m.text.unwrap()@
            &&& incoming_of(u).unwrap().from_name == (if m.from is Some {
                m.from.unwrap().spec_display_name()
            } else {
                "Unknown"@
            })
            &&& incoming_of(u).unwrap().date == (if m.date is Some {
                m.date.unwrap()
            } else {
                0
            })
        }),
        !(u.message matches Some(m) && m.text is Some) ==> incoming_of(u) is None,
{
}

/// Law: the browser's `getUpdates` URL is the endpoint, `?offset=`, a signed
/// decimal text that reads back as the offset itself (negative offsets keep
/// their sign), and the fixed rest of the query.
pub proof fn lemma_web_url_carries_offset(token: Seq<char>, offset: int)
    ensures
        exists|v: Seq<char>|
            #![trigger parse_signed(v)]
            get_updates_web_url(token, offset) == get_updates_url(token) + "?offset="@ + v
                + "&timeout=0&allowed_updates=%5B%22message%22%5D"@ && parse_signed(v) == offset,
{
    lemma_decimal_int_read_back(offset);
    let v = decimal_int(offset);
    assert(parse_signed(v) == offset);
}

/// Law: the native `getUpdates` query's offset and timeout values read back
/// as the offset and the timeout asked for.
pub proof fn lemma_native_query_carries_numbers(offset: int, timeout: nat)
    ensures
        parse_signed(decimal_int(offset)) == offset,
        crate::text::parse_digits(decimal_digits(timeout)) == timeout,
{
    lemma_decimal_int_read_back(offset);
    crate::text::lemma_decimal_digits_read_back(timeout);
}

/// Law: messages come out in the order of their updates: the messages of
/// two replies read one after the other are those of the first followed by
/// those of the second, and a single update gives its own message or none.
pub proof fn lemma_messages_in_update_order(a: Seq<Update>, b: Seq<Update>)
    ensures
        incoming_messages(a + b) == incoming_messages(a) + incoming_messages(b),
        b.len() == 1 ==> incoming_messages(b) == (match incoming_of(b[0]) {
            Some(m) => seq![m],
            None => Seq::<IncomingMessageView>::empty(),
        }),
    decreases b.len(),
{
    if b.len() == 0 {
        assert(a + b =~= a);
        assert(incoming_messages(a) + incoming_messages(b) =~= incoming_messages(a));
    } else {
        lemma_messages_in_update_order(a, b.drop_last());
        assert((a + b).drop_last() =~= a + b.drop_last());
        assert((a + b).last() == b.last());
        if b.len() == 1 {
            assert(b.drop_last() =~= Seq::<Update>::empty());
            assert(b.last() == b[0]);
        }
        match incoming_of(b.last()) {
            Some(m) => {
                assert(incoming_messages(a) + incoming_messages(b) =~= (incoming_messages(a)
                    + incoming_messages(b.drop_last())).push(m));
            },
            None => {},
        }
    }
}

/// Law: reading two replies in turn moves the offset as reading them as one
/// reply does.
pub proof fn lemma_offset_over_two_replies(a: Seq<Update>, b: Seq<Update>, offset: int)
    ensures
        next_offset_after(a + b, offset) == next_offset_after(b, next_offset_after(a, offset)),
    decreases b.len(),
{
    if b.len() == 0 {
        assert(a + b =~= a);
    } else {
        lemma_offset_over_two_replies(a, b.drop_last(), offset);
        assert((a + b).drop_last() =~= a + b.drop_last());
        assert((a + b).last() == b.last());
    }
}

} // verus!
