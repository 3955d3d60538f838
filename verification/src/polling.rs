//! The decisions of the background poll for incoming messages. The loop
//! itself, the waiting and the network call belong to the caller: each round
//! it asks [`Poller::begin_round`] what to do, performs it, and reports the
//! outcome to [`Poller::finish_round`].

use vstd::prelude::*;

use crate::telegram::{IncomingMessage, incoming_views};

verus! {

/// Where the console runs: natively it long-polls for ten seconds; in a
/// browser it asks without waiting and pauses between rounds.
#[derive(PartialEq, Eq, Structural, Clone, Copy, Debug)]
pub enum Platform {
    Native,
    Web,
}

/// What to do at the start of a round.
#[derive(PartialEq, Eq, Structural, Clone, Copy, Debug)]
pub enum RoundStart {
    /// No token is configured: wait this long, then start a new round.
    Wait { seconds: u64 },
    /// Call `getUpdates` from `offset` with this long-poll timeout.
    Fetch { offset: i64, timeout: u64 },
}

/// How the `getUpdates` call of a round ended.
pub enum FetchOutcome {
    Received { messages: Vec<IncomingMessage>, next_offset: i64 },
    Failed,
}

/// What to do at the end of a round.
pub struct RoundEnd {
    /// Messages to hand to the console, present only when there are some.
    pub deliver: Option<Vec<IncomingMessage>>,
    /// Whether the failure is to be reported in the log.
    pub report_error: bool,
    /// How long to pause before the next round (0 for none).
    pub pause_seconds: u64,
}

/// The state the poll keeps between rounds.
pub struct Poller {
    pub platform: Platform,
    pub offset: i64,
}

/// Seconds to wait while no token is configured.
pub const NO_TOKEN_WAIT_SECS: u64 = 3;

/// Seconds to wait after a failed native call.
pub const NATIVE_RETRY_SECS: u64 = 5;

/// Seconds between browser rounds.
pub const WEB_ROUND_SECS: u64 = 3;

/// Long-poll timeout of the native `getUpdates` call.
pub const NATIVE_LONG_POLL_SECS: u64 = 10;

/// The start of a round for a poll at `offset` with this token.
pub open spec fn round_start(platform: Platform, offset: i64, token: Seq<char>) -> RoundStart {
    if token.len() == 0 {
        RoundStart::Wait { seconds: NO_TOKEN_WAIT_SECS }
    } else {
        RoundStart::Fetch {
            offset,
            timeout: match platform {
                Platform::Native => NATIVE_LONG_POLL_SECS,
                Platform::Web => 0,
            },
        }
    }
}

impl Poller {
    /// A poll that has seen nothing yet (offset 0).
    pub fn new(platform: Platform) -> (p: Poller)
        ensures
            p.platform == platform,
            p.offset == 0,
    {
        Poller { platform, offset: 0 }
    }

    /// Decides the start of a round: wait while the token is empty, else
    /// fetch from the current offset.
    pub fn begin_round(&self, token: &str) -> (r: RoundStart)
        ensures
            r == round_start(self.platform, self.offset, token@),
    {
        if token.is_empty() {
            RoundStart::Wait { seconds: NO_TOKEN_WAIT_SECS }
        } else {
            let timeout = match self.platform {
                Platform::Native => NATIVE_LONG_POLL_SECS,
                Platform::Web => 0,
            };
            RoundStart::Fetch { offset: self.offset, timeout }
        }
    }

    /// Takes the outcome of a round's call. On success the offset becomes the
    /// one the reply gave and any messages are delivered; on failure the
    /// offset stays. Natively a failure is reported and retried after
    /// [`NATIVE_RETRY_SECS`]; in a browser every round ends with a
    /// [`WEB_ROUND_SECS`] pause and failures pass silently.
    pub fn finish_round(&mut self, outcome: FetchOutcome) -> (r: RoundEnd)
        ensures
            final(self).platform == old(self).platform,
            match outcome {
                FetchOutcome::Received { messages, next_offset } => {
                    &&& final(self).offset == next_offset
                    &&& !r.report_error
                    &&& messages@.len() == 0 ==> r.deliver is None
                    &&& messages@.len() > 0 ==> (r.deliver matches Some(d) && incoming_views(d@)
                        == incoming_views(messages@))
                    &&& r.pause_seconds == match old(self).platform {
                        Platform::Native => 0,
                        Platform::Web => WEB_ROUND_SECS,
                    }
                },
                FetchOutcome::Failed => {
                    &&& final(self).offset == old(self).offset
                    &&& r.deliver is None
                    &&& r.report_error == (old(self).platform == Platform::Native)
                    &&& r.pause_seconds == match old(self).platform {
                        Platform::Native => NATIVE_RETRY_SECS,
                        Platform::Web => WEB_ROUND_SECS,
                    }
                },
            },
    {
        let web = match self.platform {
            Platform::Native => false,
            Platform::Web => true,
        };
        match outcome {
            FetchOutcome::Received { messages, next_offset } => {
                self.offset = next_offset;
                let deliver = if messages.len() == 0 {
                    None
                } else {
                    Some(messages)
                };
                RoundEnd {
                    deliver,
                    report_error: false,
                    pause_seconds: if web {
                        WEB_ROUND_SECS
                    } else {
                        0
                    },
                }
            },
            FetchOutcome::Failed => {
                if web {
                    RoundEnd { deliver: None, report_error: false, pause_seconds: WEB_ROUND_SECS }
                } else {
                    RoundEnd { deliver: None, report_error: true, pause_seconds: NATIVE_RETRY_SECS }
                }
            },
        }
    }
}

/// Law: a round waits exactly when the token is empty; otherwise it fetches
/// from the poll's current offset, on every platform, with a long-poll of
/// [`NATIVE_LONG_POLL_SECS`] natively and none in a browser.
pub proof fn lemma_round_fetches_from_offset(platform: Platform, offset: i64, token: Seq<char>)
    ensures
        token.len() == 0 <==> round_start(platform, offset, token) is Wait,
        token.len() == 0 ==> round_start(platform, offset, token) == (RoundStart::Wait {
            seconds: NO_TOKEN_WAIT_SECS,
        }),
        token.len() > 0 ==> (round_start(platform, offset, token) matches RoundStart::Fetch {
            offset: o,
            timeout: t,
        } && o == offset && (platform == Platform::Native ==> t == NATIVE_LONG_POLL_SECS) && (
        platform == Platform::Web ==> t == 0)),
{
}

} // verus!
