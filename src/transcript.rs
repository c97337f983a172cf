//! Reduction of the speech-to-text service's message stream to one
//! transcript with usage metadata.
use vstd::prelude::*;
use crate::text::{
    is_blank, is_blank_seq, join, joined_by, opt_string_view, trim, trimmed, views_of,
};

verus! {

/// A transcript fragment as the service sent it.
pub struct TranscriptChunk {
    pub text: String,
    pub is_final: bool,
}

/// The `metadata` object of an inbound message, durations in milliseconds.
pub struct MetadataFields {
    pub duration_ms: u64,
    pub request_id: String,
}

/// The fields of one decoded inbound message: the first alternative's
/// transcript, the finality flag, the top-level duration (0 when absent) and
/// the metadata object if present.
pub struct MessageFields {
    pub transcript: String,
    pub is_final: bool,
    pub duration_ms: u64,
    pub metadata: Option<MetadataFields>,
}

/// One inbound message as the aggregate consumes it.
pub struct ParsedMessage {
    pub chunk: TranscriptChunk,
    pub duration_ms: u64,
    pub request_id: Option<String>,
}

/// Speech-to-text usage of one session.
pub struct SttUsage {
    pub duration_ms: u64,
    pub request_id: Option<String>,
}

/// The reduced outcome of a stream.
pub struct SttResult {
    pub transcript: String,
    pub usage: Option<SttUsage>,
}

/// Notifications the streaming client emits.
pub enum SttEvent {
    Connected,
    AudioStreamEnded,
    FinalTranscript(String),
    Error(String),
}

/// A message in mathematical terms.
pub struct MessageView {
    pub text: Seq<char>,
    pub is_final: bool,
    pub duration_ms: u64,
    pub request_id: Option<Seq<char>>,
}

impl View for ParsedMessage {
    type V = MessageView;

    open spec fn view(&self) -> MessageView {
        MessageView {
            text: self.chunk.text@,
            is_final: self.chunk.is_final,
            duration_ms: self.duration_ms,
            request_id: opt_string_view(self.request_id),
        }
    }
}

/// The duration a message reports: the metadata's when it is present and
/// non-zero, else the top-level one.
pub open spec fn effective_duration(top: u64, meta: Option<MetadataFields>) -> u64 {
    match meta {
        Some(m) => if m.duration_ms > 0 {
            m.duration_ms
        } else {
            top
        },
        None => top,
    }
}

/// The request id a message reports: the metadata's, when non-empty.
pub open spec fn effective_request_id(meta: Option<MetadataFields>) -> Option<Seq<char>> {
    match meta {
        Some(m) => if m.request_id@.len() > 0 {
            Some(m.request_id@)
        } else {
            None
        },
        None => None,
    }
}

/// The message that decoded fields amount to.
pub open spec fn interpreted(f: MessageFields) -> MessageView {
    MessageView {
        text: f.transcript@,
        is_final: f.is_final,
        duration_ms: effective_duration(f.duration_ms, f.metadata),
        request_id: effective_request_id(f.metadata),
    }
}

/// Resolves the decoded fields of a message: the metadata's duration takes
/// precedence over the top-level one when non-zero, and an empty request id
/// counts as absent.
pub fn interpret_message(fields: MessageFields) -> (r: ParsedMessage)
    ensures
        r@ == interpreted(fields),
{
    let ghost g = fields;
    let MessageFields { transcript, is_final, duration_ms, metadata } = fields;
    let (duration, request_id) = match metadata {
        Some(m) => {
            let d = if m.duration_ms > 0 {
                m.duration_ms
            } else {
                duration_ms
            };
            let id = if m.request_id.as_str().is_empty() {
                None
            } else {
                Some(m.request_id)
            };
            (d, id)
        },
        None => (duration_ms, None),
    };
    ParsedMessage { chunk: TranscriptChunk { text: transcript, is_final }, duration_ms: duration, request_id }
}

/// The aggregate in mathematical terms.
pub struct AggregateView {
    pub finals: Seq<Seq<char>>,
    pub partial: Seq<char>,
    pub duration_ms: u64,
    pub request_id: Option<Seq<char>>,
}

/// The aggregate before any message.
pub open spec fn empty_aggregate() -> AggregateView {
    AggregateView { finals: seq![], partial: seq![], duration_ms: 0, request_id: None }
}

/// The aggregate after one more message: metadata is kept whenever present
/// (a duration only when non-zero), a blank text changes nothing else, a
/// final text is appended and clears the partial, a non-final one replaces
/// the partial.
pub open spec fn step(a: AggregateView, m: MessageView) -> AggregateView {
    let duration_ms = if m.duration_ms > 0 {
        m.duration_ms
    } else {
        a.duration_ms
    };
    let request_id = if m.request_id is Some {
        m.request_id
    } else {
        a.request_id
    };
    if is_blank_seq(m.text) {
        AggregateView { duration_ms, request_id, ..a }
    } else if m.is_final {
        AggregateView { finals: a.finals.push(m.text), partial: seq![], duration_ms, request_id }
    } else {
        AggregateView { partial: m.text, duration_ms, request_id, ..a }
    }
}

/// The aggregate after a whole sequence of messages.
pub open spec fn fold_messages(ms: Seq<MessageView>) -> AggregateView
    decreases ms.len(),
{
    if ms.len() == 0 {
        empty_aggregate()
    } else {
        step(fold_messages(ms.drop_last()), ms.last())
    }
}

/// Segments joined by single spaces.
pub open spec fn joined(segs: Seq<Seq<char>>) -> Seq<char> {
    joined_by(segs, seq![' '])
}

/// The joined segments with a non-blank partial appended after a space.
pub open spec fn with_partial(j: Seq<char>, p: Seq<char>) -> Seq<char> {
    if is_blank_seq(p) {
        j
    } else if j.len() == 0 {
        p
    } else {
        j + seq![' '] + p
    }
}

/// The best available transcript of an aggregate.
pub open spec fn reduced_text(a: AggregateView) -> Seq<char> {
    trimmed(with_partial(joined(a.finals), a.partial))
}

/// Accumulated transcript state of one stream.
pub struct TranscriptAggregate {
    final_segments: Vec<String>,
    partial: String,
    last_duration_ms: u64,
    last_request_id: Option<String>,
}

impl View for TranscriptAggregate {
    type V = AggregateView;

    closed spec fn view(&self) -> AggregateView {
        AggregateView {
            finals: self.final_segments@.map_values(|s: String| s@),
            partial: self.partial@,
            duration_ms: self.last_duration_ms,
            request_id: opt_string_view(self.last_request_id),
        }
    }
}

impl TranscriptAggregate {
    /// An aggregate that has seen no message.
    pub fn new() -> (r: Self)
        ensures
            r@ == empty_aggregate(),
    {
        let r = TranscriptAggregate {
            final_segments: Vec::new(),
            partial: String::new(),
            last_duration_ms: 0,
            last_request_id: None,
        };
        proof {
            assert(r@.finals =~= Seq::<Seq<char>>::empty());
        }
        r
    }

    /// Takes in one message; returns the final-segment event when the
    /// message is a non-blank final one.
    pub fn apply(&mut self, msg: ParsedMessage) -> (event: Option<SttEvent>)
        ensures
            final(self)@ == step(old(self)@, msg@),
            event == (if msg@.is_final && !is_blank_seq(msg@.text) {
                Some(SttEvent::FinalTranscript(msg.chunk.text))
            } else {
                None
            }),
    {
        let ghost m = msg@;
        let ParsedMessage { chunk, duration_ms, request_id } = msg;
        if duration_ms > 0 {
            self.last_duration_ms = duration_ms;
        }
        if request_id.is_some() {
            self.last_request_id = request_id;
        }
        if is_blank(chunk.text.as_str()) {
            return None;
        }
        if chunk.is_final {
            let event_text = chunk.text.clone();
            let ghost before = self.final_segments@;
            self.final_segments.push(chunk.text);
            self.partial = String::new();
            proof {
                assert(self.final_segments@.map_values(|s: String| s@) =~= before.map_values(
                    |s: String| s@,
                ).push(m.text));
            }
            Some(SttEvent::FinalTranscript(event_text))
        } else {
            self.partial = chunk.text;
            None
        }
    }

    /// The finalized segments joined by single spaces.
    fn joined_finals(&self) -> (r: String)
        ensures
            r@ == joined(self@.finals),
    {
        let sep = " ";
        proof {
            reveal_strlit(" ");
            assert(sep@ =~= seq![' ']);
            assert(views_of(self.final_segments@) == self@.finals);
        }
        join(&self.final_segments, sep)
    }

    /// Reduces the aggregate: finalized segments joined by single spaces, a
    /// remaining non-blank partial appended after a space, the whole
    /// trimmed; usage when a non-zero duration was seen (the last one, never
    /// a sum).
    pub fn reduce(&self) -> (r: SttResult)
        ensures
            r.transcript@ == reduced_text(self@),
            self@.duration_ms > 0 <==> r.usage is Some,
            r.usage matches Some(u) ==> u.duration_ms == self@.duration_ms && opt_string_view(
                u.request_id,
            ) == self@.request_id,
    {
        let mut all = self.joined_finals();
        let ghost j = all@;
        if !is_blank(self.partial.as_str()) {
            if !all.as_str().is_empty() {
                proof {
                    reveal_strlit(" ");
                }
                all.append(" ");
                all.append(self.partial.as_str());
                proof {
                    assert(all@ =~= j + seq![' '] + self@.partial);
                }
            } else {
                all.append(self.partial.as_str());
                proof {
                    assert(all@ =~= self@.partial);
                }
            }
        }
        assert(all@ == with_partial(joined(self@.finals), self@.partial));
        let usage = if self.last_duration_ms > 0 {
            Some(SttUsage { duration_ms: self.last_duration_ms, request_id: self.last_request_id.clone() })
        } else {
            None
        };
        SttResult { transcript: trim(all.as_str()), usage }
    }
}

/// The texts of the non-blank final messages, in order.
pub open spec fn final_texts(ms: Seq<MessageView>) -> Seq<Seq<char>>
    decreases ms.len(),
{
    if ms.len() == 0 {
        seq![]
    } else {
        let m = ms.last();
        let r = final_texts(ms.drop_last());
        if m.is_final && !is_blank_seq(m.text) {
            r.push(m.text)
        } else {
            r
        }
    }
}

/// The text of the last non-blank message, if it is not final and no
/// non-blank final message follows it; else empty.
pub open spec fn trailing_partial(ms: Seq<MessageView>) -> Seq<char>
    decreases ms.len(),
{
    if ms.len() == 0 {
        seq![]
    } else {
        let m = ms.last();
        if is_blank_seq(m.text) {
            trailing_partial(ms.drop_last())
        } else if m.is_final {
            seq![]
        } else {
            m.text
        }
    }
}

proof fn lemma_fold_parts(ms: Seq<MessageView>)
    ensures
        fold_messages(ms).finals == final_texts(ms),
        fold_messages(ms).partial == trailing_partial(ms),
    decreases ms.len(),
{
    if ms.len() > 0 {
        lemma_fold_parts(ms.drop_last());
    }
}

/// For any sequence of messages, the reduced transcript is the finalized
/// segments joined by single spaces, followed by the trailing non-final
/// partial if any, the whole trimmed.
pub proof fn reduction_joins_finals_then_partial(ms: Seq<MessageView>)
    ensures
        reduced_text(fold_messages(ms)) == trimmed(
            with_partial(joined(final_texts(ms)), trailing_partial(ms)),
        ),
{
    lemma_fold_parts(ms);
}

/// A message whose metadata reports a non-zero duration leaves that
/// duration in the aggregate, whatever the top-level duration says.
pub proof fn metadata_duration_prevails(a: AggregateView, fields: MessageFields)
    requires
        fields.metadata matches Some(m) && m.duration_ms > 0,
    ensures
        step(a, interpreted(fields)).duration_ms == fields.metadata.unwrap().duration_ms,
{
}

} // verus!
