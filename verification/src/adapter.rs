//! Byte-stream view of a WebSocket: what a read returns, given the data left
//! over from earlier messages and the next message received.
use vstd::prelude::*;
use vstd::utf8::encode_utf8;
use crate::protocol::WsMessage;
use crate::text::str_eq;

verus! {

/// The result of one read.
#[derive(Debug)]
pub enum ReadOutcome {
    /// These bytes were read.
    Data(Vec<u8>),
    /// The stream has ended.
    Eof,
    /// Nothing to return for this message; read the next one.
    Retry,
}

/// Bytes received but not yet read: the part of a message that did not fit
/// in the caller's buffer.
pub struct ReadBuffer {
    read_buffer: Vec<u8>,
    read_pos: usize,
}

/// A WebSocket stream `ws` read as a byte stream.
pub struct WebSocketAdapter<S> {
    ws: S,
    buffer: ReadBuffer,
}

/// The number of bytes one read returns from `avail` bytes into a buffer of
/// `cap` bytes.
pub open spec fn read_len(avail: nat, cap: nat) -> nat {
    if avail < cap {
        avail
    } else {
        cap
    }
}

/// The bytes a message carries into the byte stream, if any.
pub open spec fn payload(m: WsMessage) -> Option<Seq<u8>> {
    match m {
        WsMessage::Binary(d) => Some(d@),
        WsMessage::Text(t) => if t@ == "CONNECTED"@ {
            None
        } else {
            Some(encode_utf8(t@))
        },
        _ => None,
    }
}

/// The bytes returned by successive reads of sizes `caps` from `avail`.
pub open spec fn chunks_read(avail: Seq<u8>, caps: Seq<nat>) -> Seq<u8>
    decreases caps.len(),
{
    if caps.len() == 0 {
        seq![]
    } else {
        let n = read_len(avail.len(), caps[0]) as int;
        avail.take(n) + chunks_read(avail.skip(n), caps.drop_first())
    }
}

/// What is left of `avail` after successive reads of sizes `caps`.
pub open spec fn left_after(avail: Seq<u8>, caps: Seq<nat>) -> Seq<u8>
    decreases caps.len(),
{
    if caps.len() == 0 {
        avail
    } else {
        let n = read_len(avail.len(), caps[0]) as int;
        left_after(avail.skip(n), caps.drop_first())
    }
}

/// Reads lose and repeat nothing: the bytes returned by any series of reads,
/// followed by what is left, are the bytes that were available.
pub proof fn lemma_reads_reassemble(avail: Seq<u8>, caps: Seq<nat>)
    ensures
        chunks_read(avail, caps) + left_after(avail, caps) == avail,
    decreases caps.len(),
{
    if caps.len() > 0 {
        let n = read_len(avail.len(), caps[0]) as int;
        lemma_reads_reassemble(avail.skip(n), caps.drop_first());
        assert(avail.take(n) + avail.skip(n) =~= avail);
        assert(avail.take(n) + chunks_read(avail.skip(n), caps.drop_first()) + left_after(
            avail.skip(n),
            caps.drop_first(),
        ) =~= avail);
    }
}

/// The bytes a read outcome returns (none for an end of stream or a retry).
pub open spec fn outcome_bytes(r: ReadOutcome) -> Seq<u8> {
    match r {
        ReadOutcome::Data(v) => v@,
        _ => Seq::<u8>::empty(),
    }
}

/// A read of `cap` bytes from the waiting bytes `pending`: what it returns
/// and what is left waiting.
pub open spec fn buffered_step(pending: Seq<u8>, cap: nat) -> (Seq<u8>, Seq<u8>) {
    let n = read_len(pending.len(), cap) as int;
    (pending.take(n), pending.skip(n))
}

/// A read of `cap` bytes from a newly received message `msg`: what it
/// returns and what is left waiting.
pub open spec fn message_step(msg: WsMessage, cap: nat) -> (Seq<u8>, Seq<u8>) {
    match payload(msg) {
        Some(d) => buffered_step(d, cap),
        None => (Seq::<u8>::empty(), Seq::<u8>::empty()),
    }
}

/// The bytes that the message `m` carries into the byte stream (none for a
/// message without payload).
pub open spec fn message_bytes(m: WsMessage) -> Seq<u8> {
    match payload(m) {
        Some(d) => d,
        None => Seq::<u8>::empty(),
    }
}

/// The bytes that the messages `msgs` carry into the byte stream, in order.
pub open spec fn stream_bytes(msgs: Seq<WsMessage>) -> Seq<u8>
    decreases msgs.len(),
{
    if msgs.len() == 0 {
        seq![]
    } else {
        message_bytes(msgs[0]) + stream_bytes(msgs.drop_first())
    }
}

/// Successive reads of sizes `caps`, with `pending` waiting and the messages
/// `msgs` still to come: each read is served from the waiting bytes when
/// there are any, else from the next message. The result is what the reads
/// return in all, what is left waiting, and the messages not yet received.
pub open spec fn reads(pending: Seq<u8>, msgs: Seq<WsMessage>, caps: Seq<nat>) -> (
    Seq<u8>,
    Seq<u8>,
    Seq<WsMessage>,
)
    decreases caps.len(),
{
    if caps.len() == 0 {
        (seq![], pending, msgs)
    } else if pending.len() > 0 {
        let step = buffered_step(pending, caps[0]);
        let rest = reads(step.1, msgs, caps.drop_first());
        (step.0 + rest.0, rest.1, rest.2)
    } else if msgs.len() == 0 {
        (seq![], pending, msgs)
    } else {
        let step = message_step(msgs[0], caps[0]);
        let rest = reads(step.1, msgs.drop_first(), caps.drop_first());
        (step.0 + rest.0, rest.1, rest.2)
    }
}

/// The adapter neither loses, repeats nor reorders bytes across reads and
/// messages: whatever reads are made, the bytes they return, then the bytes
/// left waiting, then those of the messages not yet received, are the bytes
/// waiting at the start followed by those of all the messages, in order.
/// So what the reads return is a prefix of that stream.
pub proof fn law_reads_keep_stream_order(pending: Seq<u8>, msgs: Seq<WsMessage>, caps: Seq<nat>)
    ensures
        ({
            let r = reads(pending, msgs, caps);
            r.0 + r.1 + stream_bytes(r.2) == pending + stream_bytes(msgs)
        }),
        reads(pending, msgs, caps).0.is_prefix_of(pending + stream_bytes(msgs)),
    decreases caps.len(),
{
    let r = reads(pending, msgs, caps);
    if caps.len() == 0 {
        assert(r.0 + r.1 + stream_bytes(r.2) =~= pending + stream_bytes(msgs));
    } else if pending.len() > 0 {
        let step = buffered_step(pending, caps[0]);
        law_reads_keep_stream_order(step.1, msgs, caps.drop_first());
        let rest = reads(step.1, msgs, caps.drop_first());
        assert(step.0 + step.1 =~= pending);
        assert(r.0 + r.1 + stream_bytes(r.2) =~= step.0 + (rest.0 + rest.1 + stream_bytes(rest.2)));
        assert(r.0 + r.1 + stream_bytes(r.2) =~= pending + stream_bytes(msgs));
    } else if msgs.len() == 0 {
        assert(r.0 + r.1 + stream_bytes(r.2) =~= pending + stream_bytes(msgs));
    } else {
        let step = message_step(msgs[0], caps[0]);
        law_reads_keep_stream_order(step.1, msgs.drop_first(), caps.drop_first());
        let rest = reads(step.1, msgs.drop_first(), caps.drop_first());
        let head = message_bytes(msgs[0]);
        assert(step.0 + step.1 =~= head);
        assert(pending =~= Seq::<u8>::empty());
        assert(r.0 + r.1 + stream_bytes(r.2) =~= step.0 + (rest.0 + rest.1 + stream_bytes(rest.2)));
        assert(pending + stream_bytes(msgs) =~= head + stream_bytes(msgs.drop_first()));
        assert(r.0 + r.1 + stream_bytes(r.2) =~= pending + stream_bytes(msgs));
    }
    let total = pending + stream_bytes(msgs);
    assert(total.take(r.0.len() as int) =~= r.0) by {
        assert(total =~= r.0 + (r.1 + stream_bytes(r.2)));
    }
}

impl ReadBuffer {
    #[verifier::type_invariant]
    spec fn buffer_consistent(self) -> bool {
        ||| self.read_pos < self.read_buffer@.len()
        ||| (self.read_pos == 0 && self.read_buffer@.len() == 0)
    }

    /// The bytes received but not yet read.
    pub closed spec fn pending(self) -> Seq<u8> {
        self.read_buffer@.skip(self.read_pos as int)
    }

    /// An empty buffer.
    pub fn new() -> (b: Self)
        ensures
            b.pending() == Seq::<u8>::empty(),
    {
        let b = ReadBuffer { read_buffer: Vec::new(), read_pos: 0 };
        assert(b.read_buffer@.skip(0) =~= Seq::<u8>::empty());
        b
    }

    /// Whether bytes from an earlier message are waiting.
    pub fn has_buffered(&self) -> (b: bool)
        ensures
            b == (self.pending().len() > 0),
    {
        proof {
            use_type_invariant(self);
        }
        self.read_pos < self.read_buffer.len()
    }

    /// A read served from the waiting bytes: as many as fit in `cap`.
    pub fn read_buffered(&mut self, cap: usize) -> (out: Vec<u8>)
        requires
            old(self).pending().len() > 0,
        ensures
            out@ == old(self).pending().take(read_len(old(self).pending().len(), cap as nat) as int),
            final(self).pending() == old(self).pending().skip(
                read_len(old(self).pending().len(), cap as nat) as int,
            ),
    {
        proof {
            use_type_invariant(&*self);
        }
        let pos = self.read_pos;
        let total = self.read_buffer.len();
        let remaining = total - pos;
        let to_copy = if remaining < cap {
            remaining
        } else {
            cap
        };
        let ghost before = self.pending();
        let mut out: Vec<u8> = Vec::new();
        let mut i: usize = 0;
        while i < to_copy
            invariant
                i <= to_copy,
                pos + to_copy <= total,
                total == self.read_buffer@.len(),
                pos == self.read_pos,
                before == self.read_buffer@.skip(pos as int),
                out@ == before.take(i as int),
            decreases to_copy - i,
        {
            out.push(self.read_buffer[pos + i]);
            i = i + 1;
            assert(out@ =~= before.take(i as int));
        }
        let new_pos = self.read_pos + to_copy;
        if new_pos >= self.read_buffer.len() {
            self.read_pos = 0;
            self.read_buffer = Vec::new();
            assert(self.read_buffer@.skip(0) =~= before.skip(to_copy as int));
        } else {
            self.read_pos = new_pos;
            assert(self.read_buffer@.skip(new_pos as int) =~= before.skip(to_copy as int));
        }
        out
    }

    /// A read served from a newly received message, with nothing waiting:
    /// binary and text data (but the text `CONNECTED`) are returned as far as
    /// they fit in `cap` and the rest is kept; a close ends the stream; other
    /// messages give nothing and the next one is read.
    pub fn read_message(&mut self, msg: WsMessage, cap: usize) -> (r: ReadOutcome)
        requires
            old(self).pending().len() == 0,
        ensures
            payload(msg) matches Some(d) ==> {
                let n = read_len(d.len(), cap as nat) as int;
                &&& r matches ReadOutcome::Data(out) && out@ == d.take(n)
                &&& final(self).pending() == d.skip(n)
            },
            payload(msg) is None ==> final(self).pending() == Seq::<u8>::empty(),
            payload(msg) is None && msg is Close ==> r is Eof,
            payload(msg) is None && !(msg is Close) ==> r is Retry,
    {
        proof {
            use_type_invariant(&*self);
        }
        assert(self.read_buffer@.len() == 0) by {
            if self.read_pos < self.read_buffer@.len() {
                assert(self.pending().len() > 0);
            }
        }
        match msg {
            WsMessage::Binary(data) => self.take_payload(data.as_slice(), cap),
            WsMessage::Text(text) => {
                if str_eq(text.as_str(), "CONNECTED") {
                    ReadOutcome::Retry
                } else {
                    self.take_payload(text.as_str().as_bytes(), cap)
                }
            },
            WsMessage::Close => ReadOutcome::Eof,
            _ => ReadOutcome::Retry,
        }
    }

    fn take_payload(&mut self, data: &[u8], cap: usize) -> (r: ReadOutcome)
        requires
            old(self).read_buffer@.len() == 0,
            old(self).read_pos == 0,
        ensures
            ({
                let n = read_len(data@.len(), cap as nat) as int;
                &&& r matches ReadOutcome::Data(out) && out@ == data@.take(n)
                &&& final(self).pending() == data@.skip(n)
            }),
    {
        let len = if data.len() < cap {
            data.len()
        } else {
            cap
        };
        let mut out: Vec<u8> = Vec::new();
        let mut i: usize = 0;
        while i < len
            invariant
                i <= len <= data@.len(),
                out@ == data@.take(i as int),
            decreases len - i,
        {
            out.push(data[i]);
            i = i + 1;
            assert(out@ =~= data@.take(i as int));
        }
        if data.len() > len {
            let mut rest: Vec<u8> = Vec::new();
            let mut j: usize = len;
            while j < data.len()
                invariant
                    len <= j <= data@.len(),
                    rest@ == data@.subrange(len as int, j as int),
                decreases data@.len() - j,
            {
                rest.push(data[j]);
                j = j + 1;
                assert(rest@ =~= data@.subrange(len as int, j as int));
            }
            self.read_buffer = rest;
            self.read_pos = 0;
            assert(self.read_buffer@.skip(0) =~= data@.skip(len as int));
        } else {
            assert(self.read_buffer@.skip(0) =~= data@.skip(len as int));
        }
        ReadOutcome::Data(out)
    }
}


impl<S> WebSocketAdapter<S> {
    /// The bytes received but not yet read.
    pub closed spec fn pending(self) -> Seq<u8> {
        self.buffer.pending()
    }

    /// The stream read through the adapter.
    pub closed spec fn stream(self) -> S {
        self.ws
    }

    /// An adapter over `ws` with nothing buffered.
    pub fn new(ws: S) -> (a: Self)
        ensures
            a.pending() == Seq::<u8>::empty(),
            a.stream() == ws,
    {
        WebSocketAdapter { ws, buffer: ReadBuffer::new() }
    }

    /// The stream read through the adapter.
    pub fn ws_mut(&mut self) -> (s: &mut S)
        ensures
            *s == old(self).stream(),
            final(self).pending() == old(self).pending(),
            final(self).stream() == *final(s),
    {
        &mut self.ws
    }

    /// Whether bytes from an earlier message are waiting.
    pub fn has_buffered(&self) -> (b: bool)
        ensures
            b == (self.pending().len() > 0),
    {
        self.buffer.has_buffered()
    }

    /// A read served from the waiting bytes: as many as fit in `cap`.
    pub fn read_buffered(&mut self, cap: usize) -> (out: Vec<u8>)
        requires
            old(self).pending().len() > 0,
        ensures
            out@ == old(self).pending().take(read_len(old(self).pending().len(), cap as nat) as int),
            final(self).pending() == old(self).pending().skip(
                read_len(old(self).pending().len(), cap as nat) as int,
            ),
            final(self).stream() == old(self).stream(),
            (out@, final(self).pending()) == buffered_step(old(self).pending(), cap as nat),
    {
        self.buffer.read_buffered(cap)
    }

    /// A read served from a newly received message, with nothing waiting:
    /// binary and text data (but the text `CONNECTED`) are returned as far as
    /// they fit in `cap` and the rest is kept; a close ends the stream; other
    /// messages give nothing and the next one is read.
    pub fn read_message(&mut self, msg: WsMessage, cap: usize) -> (r: ReadOutcome)
        requires
            old(self).pending().len() == 0,
        ensures
            final(self).stream() == old(self).stream(),
            payload(msg) matches Some(d) ==> {
                let n = read_len(d.len(), cap as nat) as int;
                &&& r matches ReadOutcome::Data(out) && out@ == d.take(n)
                &&& final(self).pending() == d.skip(n)
            },
            payload(msg) is None ==> final(self).pending() == Seq::<u8>::empty(),
            payload(msg) is None && msg is Close ==> r is Eof,
            payload(msg) is None && !(msg is Close) ==> r is Retry,
            (outcome_bytes(r), final(self).pending()) == message_step(msg, cap as nat),
    {
        self.buffer.read_message(msg, cap)
    }
}

} // verus!
