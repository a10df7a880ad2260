//! Streaming replies: accumulation of the streamed text and the hybrid
//! throttling rule that decides when the message in the room is updated.

use vstd::prelude::*;

use crate::text::push_str;

verus! {

/// Accumulated text of a streamed reply.
#[derive(Debug)]
pub struct StreamingState {
    /// Everything received so far.
    pub accumulated: String,
}

impl Default for StreamingState {
    fn default() -> (r: Self)
        ensures
            r.accumulated@ == Seq::<char>::empty(),
    {
        StreamingState { accumulated: String::new() }
    }
}

/// What a chunk of the completion stream leads to.
#[derive(Debug, Clone, Copy, PartialEq, Eq, Structural)]
pub enum ChunkOutcome {
    /// The chunk carried text, which was appended and is passed on.
    Delta,
    /// The stream finished: the accumulated reply is saved to the history.
    Finished,
    /// Nothing to do.
    Skip,
}

impl StreamingState {
    /// An empty state.
    pub fn new() -> (r: Self)
        ensures
            r.accumulated@ == Seq::<char>::empty(),
    {
        StreamingState { accumulated: String::new() }
    }

    /// Appends a piece of text.
    pub fn append(&mut self, delta: &str)
        ensures
            final(self).accumulated@ == old(self).accumulated@ + delta@,
    {
        push_str(&mut self.accumulated, delta);
    }

    /// The text accumulated so far.
    pub fn content(&self) -> (r: &str)
        ensures
            r@ == self.accumulated@,
    {
        self.accumulated.as_str()
    }

    /// Handles one chunk of the completion stream: text is appended and
    /// passed on; a chunk without text that carries a finish reason ends
    /// the reply; anything else is skipped.
    pub fn apply_chunk(&mut self, delta: Option<&str>, finished: bool) -> (r: ChunkOutcome)
        ensures
            delta matches Some(d) ==> r == ChunkOutcome::Delta && final(self).accumulated@
                == old(self).accumulated@ + d@,
            delta is None ==> final(self).accumulated@ == old(self).accumulated@ && r == (if finished {
                ChunkOutcome::Finished
            } else {
                ChunkOutcome::Skip
            }),
    {
        match delta {
            Some(d) => {
                self.append(d);
                ChunkOutcome::Delta
            },
            None => {
                if finished {
                    ChunkOutcome::Finished
                } else {
                    ChunkOutcome::Skip
                }
            },
        }
    }
}

/// What the streaming loop does after receiving a piece of text.
#[derive(Debug, Clone, Copy, PartialEq, Eq, Structural)]
pub enum StreamStep {
    /// Keep accumulating.
    Wait,
    /// Send the accumulated text as a new message.
    Send,
    /// Replace the message already sent with the accumulated text.
    Edit,
}

/// Progress of one streamed reply in the room.
#[derive(Debug, Clone, Copy)]
pub struct StreamProgress {
    /// Whether a message exists in the room that later updates replace.
    pub has_message: bool,
    /// Characters received since the last update.
    pub chars_since_update: usize,
}

/// Throttling settings of streamed replies: the room message is updated
/// when either enough time has passed or enough characters arrived.
#[derive(Debug, Clone, Copy)]
pub struct StreamingHandler {
    /// Minimum time between updates, in milliseconds.
    pub min_interval_ms: u64,
    /// Minimum number of characters between updates.
    pub min_chars: usize,
}

/// Characters still waiting for an update after `delta` more arrived,
/// `elapsed` milliseconds after the last update: none when an update is
/// due, all of them otherwise.
pub open spec fn pending_after(h: StreamingHandler, pending: nat, delta: nat, elapsed: u64) -> nat {
    if elapsed >= h.min_interval_ms || pending + delta >= h.min_chars {
        0
    } else {
        pending + delta
    }
}

/// The text shown when the stream fails.
pub open spec fn stream_error_text(content: Seq<char>, err: Seq<char>) -> Seq<char> {
    if content.len() > 0 {
        content + "\n\n[错误: "@ + err + "]"@
    } else {
        "AI 服务暂时不可用: "@ + err
    }
}

impl StreamingHandler {
    /// Creates the handler from the interval (milliseconds) and character threshold.
    pub fn new(min_interval_ms: u64, min_chars: usize) -> (r: Self)
        ensures
            r.min_interval_ms == min_interval_ms,
            r.min_chars == min_chars,
    {
        StreamingHandler { min_interval_ms, min_chars }
    }

    /// Progress at the start of a reply; `has_initial_message` is set when
    /// an initial message (such as "analysing the image...") is edited.
    pub fn start(&self, has_initial_message: bool) -> (r: StreamProgress)
        ensures
            r.has_message == has_initial_message,
            r.chars_since_update == 0,
    {
        StreamProgress { has_message: has_initial_message, chars_since_update: 0 }
    }

    /// Records `delta_chars` new characters, `elapsed_ms` milliseconds after
    /// the last update, and decides whether to update the room message now.
    pub fn on_delta(&self, p: &mut StreamProgress, delta_chars: usize, elapsed_ms: u64) -> (r: StreamStep)
        requires
            old(p).chars_since_update + delta_chars <= usize::MAX,
        ensures
            ({
                let total = old(p).chars_since_update + delta_chars;
                let due = elapsed_ms >= self.min_interval_ms || total >= self.min_chars;
                &&& due ==> final(p).chars_since_update == 0 && final(p).has_message && r == (if old(
                    p,
                ).has_message {
                    StreamStep::Edit
                } else {
                    StreamStep::Send
                })
                &&& !due ==> r == StreamStep::Wait && final(p).chars_since_update == total
                    && final(p).has_message == old(p).has_message
            }),
            final(p).chars_since_update == pending_after(
                *self,
                old(p).chars_since_update as nat,
                delta_chars as nat,
                elapsed_ms,
            ),
    {
        p.chars_since_update = p.chars_since_update + delta_chars;
        if elapsed_ms >= self.min_interval_ms || p.chars_since_update >= self.min_chars {
            p.chars_since_update = 0;
            if p.has_message {
                StreamStep::Edit
            } else {
                p.has_message = true;
                StreamStep::Send
            }
        } else {
            StreamStep::Wait
        }
    }

    /// At the end of the stream the message is replaced by the final text
    /// when there is text and a message to replace.
    pub fn finish(&self, p: &StreamProgress, content: &str) -> (r: bool)
        ensures
            r == (content@.len() > 0 && p.has_message),
    {
        !content.is_empty() && p.has_message
    }

    /// The text shown when the stream fails: the partial reply followed by
    /// the error, or a service-unavailable notice when nothing arrived.
    /// It replaces the existing message (`true`) when text has arrived and
    /// a message was sent; the notice of a stream that gave nothing is a new
    /// message.
    pub fn error_reply(&self, p: &StreamProgress, content: &str, err: &str) -> (r: (String, bool))
        ensures
            r.0@ == stream_error_text(content@, err@),
            r.1 == (content@.len() > 0 && p.has_message),
    {
        let mut out = String::new();
        if !content.is_empty() {
            push_str(&mut out, content);
            push_str(&mut out, "\n\n[错误: ");
            push_str(&mut out, err);
            push_str(&mut out, "]");
        } else {
            push_str(&mut out, "AI 服务暂时不可用: ");
            push_str(&mut out, err);
        }
        (out, !content.is_empty() && p.has_message)
    }
}

/// Fewer than `min_chars` characters ever wait for an update, and once
/// `min_interval_ms` has passed nothing waits: the room message never lags
/// further behind the stream than either threshold allows.
pub proof fn law_throttle_bounds_lag(h: StreamingHandler, pending: nat, delta: nat, elapsed: u64)
    ensures
        pending_after(h, pending, delta, elapsed) == 0 || pending_after(h, pending, delta, elapsed) < h.min_chars,
        elapsed >= h.min_interval_ms ==> pending_after(h, pending, delta, elapsed) == 0,
        pending + delta >= h.min_chars ==> pending_after(h, pending, delta, elapsed) == 0,
{
}

} // verus!
