//! Length-prefixed binary framing for the message bus: the encoders of the
//! outbound opcodes and a resumable parser for inbound messages that never
//! reports a message before all of its bytes have arrived.

use vstd::prelude::*;
use vstd::bytes::{spec_u32_from_le_bytes, spec_u32_to_le_bytes, lemma_auto_spec_u32_to_from_le_bytes};
use byteorder::{ByteOrder, LittleEndian, WriteBytesExt};

verus! {

/// Opcode byte that starts a publish request.
pub const PUBLISH_OPCODE: u8 = 0x70;

/// Opcode byte that starts a subscribe request.
pub const SUBSCRIBE_OPCODE: u8 = 0x73;

/// An application message: two independent byte blobs.
#[derive(Clone, Debug)]
pub struct BinaryMessage {
    pub event: Vec<u8>,
    pub data: Vec<u8>,
}

/// What a `BinaryMessage` holds.
pub struct MessageView {
    pub event: Seq<u8>,
    pub data: Seq<u8>,
}

impl View for BinaryMessage {
    type V = MessageView;

    open spec fn view(&self) -> MessageView {
        MessageView { event: self.event@, data: self.data@ }
    }
}

/// Errors of the framing layer.
#[derive(Clone, Copy, Debug, PartialEq, Eq, Structural)]
pub enum WireError {
    /// A blob is longer than a `u32` length prefix can describe.
    FieldTooLong,
    /// The bytes end before the field they describe.
    Truncated,
    /// A text field is not UTF-8.
    InvalidUtf8,
}

/// The little-endian `u32` stored at `at` in `s`.
pub open spec fn le32(s: Seq<u8>, at: int) -> int {
    spec_u32_from_le_bytes(s.subrange(at, at + 4)) as int
}

/// A length prefix followed by the blob it describes.
pub open spec fn prefixed(blob: Seq<u8>) -> Seq<u8> {
    spec_u32_to_le_bytes(blob.len() as u32) + blob
}

/// The wire form of a message: event length, event, data length, data.
pub open spec fn frame_bytes(m: MessageView) -> Seq<u8> {
    prefixed(m.event) + prefixed(m.data)
}

/// A blob fits behind a `u32` length prefix.
pub open spec fn encodable(blob: Seq<u8>) -> bool {
    blob.len() <= u32::MAX
}

/// `s` starts with one whole frame: both prefixes and both bodies.
pub open spec fn frame_complete(s: Seq<u8>) -> bool {
    &&& s.len() >= 4
    &&& s.len() >= 8 + le32(s, 0)
    &&& s.len() >= 8 + le32(s, 0) + le32(s, 4 + le32(s, 0))
}

/// The number of bytes of the frame at the start of `s`.
pub open spec fn frame_len(s: Seq<u8>) -> int {
    8 + le32(s, 0) + le32(s, 4 + le32(s, 0))
}

/// The message of the frame at the start of `s`.
pub open spec fn first_message(s: Seq<u8>) -> MessageView {
    let el = le32(s, 0);
    MessageView {
        event: s.subrange(4, 4 + el),
        data: s.subrange(8 + el, frame_len(s)),
    }
}

/// Splits a byte stream into the messages of its whole frames, in order, and
/// the bytes of the incomplete frame that follows them.
pub open spec fn parse_frames(s: Seq<u8>) -> (Seq<MessageView>, Seq<u8>)
    decreases s.len(),
{
    if frame_complete(s) {
        let rest = parse_frames(s.skip(frame_len(s)));
        (seq![first_message(s)] + rest.0, rest.1)
    } else {
        (Seq::empty(), s)
    }
}

/// The bytes of a publish request.
pub open spec fn publish_bytes(event: Seq<u8>, data: Seq<u8>) -> Seq<u8> {
    seq![PUBLISH_OPCODE] + frame_bytes(MessageView { event, data })
}

/// The bytes of a subscribe request.
pub open spec fn subscribe_bytes(topic: Seq<u8>) -> Seq<u8> {
    seq![SUBSCRIBE_OPCODE] + prefixed(topic)
}

/// The subscribe requests for `topics`, in order.
pub open spec fn subscriptions_bytes(topics: Seq<Seq<u8>>) -> Seq<u8>
    decreases topics.len(),
{
    if topics.len() == 0 {
        Seq::empty()
    } else {
        subscriptions_bytes(topics.drop_last()) + subscribe_bytes(topics.last())
    }
}

/// Relies on byteorder's `LittleEndian::read_u32`: the little-endian value of
/// the four bytes it is given.
#[verifier::external_body]
fn read_u32_le(buf: &[u8], at: usize) -> (r: u32)
    requires
        at + 4 <= buf@.len(),
    ensures
        r == spec_u32_from_le_bytes(buf@.subrange(at as int, at + 4)),
{
    LittleEndian::read_u32(&buf[at..at + 4])
}

/// Relies on byteorder's `WriteBytesExt::write_u32::<LittleEndian>`: appends
/// the four little-endian bytes of `n`. Writing into a `Vec` cannot fail.
#[verifier::external_body]
fn write_u32_le(out: &mut Vec<u8>, n: u32)
    ensures
        final(out)@ == old(out)@ + spec_u32_to_le_bytes(n),
{
    let _ = out.write_u32::<LittleEndian>(n);
}

fn append(out: &mut Vec<u8>, bytes: &[u8])
    ensures
        final(out)@ == old(out)@ + bytes@,
{
    let mut i: usize = 0;
    while i < bytes.len()
        invariant
            i <= bytes@.len(),
            out@ == old(out)@ + bytes@.subrange(0, i as int),
        decreases bytes@.len() - i,
    {
        out.push(bytes[i]);
        i = i + 1;
        assert(out@ =~= old(out)@ + bytes@.subrange(0, i as int));
    }
    assert(bytes@.subrange(0, i as int) =~= bytes@);
}

fn copy_range(v: &Vec<u8>, start: usize, end: usize) -> (r: Vec<u8>)
    requires
        start <= end <= v@.len(),
    ensures
        r@ == v@.subrange(start as int, end as int),
{
    let mut r: Vec<u8> = Vec::new();
    let mut i: usize = start;
    while i < end
        invariant
            start <= i <= end <= v@.len(),
            r@ == v@.subrange(start as int, i as int),
        decreases end - i,
    {
        r.push(v[i]);
        i = i + 1;
        assert(r@ =~= v@.subrange(start as int, i as int));
    }
    r
}

/// Appends `buf` behind its `u32` length prefix.
fn write_length_prefixed(out: &mut Vec<u8>, buf: &[u8])
    requires
        encodable(buf@),
    ensures
        final(out)@ == old(out)@ + prefixed(buf@),
{
    write_u32_le(out, buf.len() as u32);
    append(out, buf);
    assert(out@ =~= old(out)@ + prefixed(buf@));
}

impl BinaryMessage {
    /// The wire form of the message, or `FieldTooLong` when a blob does not
    /// fit a `u32` length prefix.
    pub fn encode(&self) -> (r: Result<Vec<u8>, WireError>)
        ensures
            encodable(self.event@) && encodable(self.data@) ==> (r matches Ok(b) && b@
                == frame_bytes(self@)),
            !(encodable(self.event@) && encodable(self.data@)) ==> r == Err::<Vec<u8>, WireError>(
                WireError::FieldTooLong,
            ),
    {
        if self.event.len() > u32::MAX as usize || self.data.len() > u32::MAX as usize {
            return Err(WireError::FieldTooLong);
        }
        let mut out: Vec<u8> = Vec::new();
        write_length_prefixed(&mut out, self.event.as_slice());
        write_length_prefixed(&mut out, self.data.as_slice());
        assert(out@ =~= frame_bytes(self@));
        Ok(out)
    }
}

/// The text that bytes decode to as UTF-8; `None` when they are not UTF-8.
pub uninterp spec fn utf8_text(b: Seq<u8>) -> Option<Seq<char>>;

/// Relies on `String::from_utf8`: the text of the bytes when they are
/// UTF-8, an error otherwise.
#[verifier::external_body]
fn decode_utf8(bytes: Vec<u8>) -> (r: Option<String>)
    ensures
        r matches Some(s) ==> utf8_text(bytes@) == Some(s@),
        r is None ==> utf8_text(bytes@) is None,
{
    String::from_utf8(bytes).ok()
}

/// Reads a length-prefixed UTF-8 string from the start of `bytes`; on
/// success also the number of bytes it took.
pub fn read_length_prefixed_utf8(bytes: &[u8]) -> (r: Result<(String, usize), WireError>)
    ensures
        bytes@.len() < 4 ==> r == Err::<(String, usize), WireError>(WireError::Truncated),
        bytes@.len() >= 4 && bytes@.len() < 4 + le32(bytes@, 0) ==> r == Err::<
            (String, usize),
            WireError,
        >(WireError::Truncated),
        bytes@.len() >= 4 + le32(bytes@, 0) ==> ({
            let text = utf8_text(bytes@.subrange(4, 4 + le32(bytes@, 0)));
            &&& text is None ==> r == Err::<(String, usize), WireError>(WireError::InvalidUtf8)
            &&& text matches Some(t) ==> (r matches Ok(p) && p.0@ == t && p.1 == 4 + le32(
                bytes@,
                0,
            ))
        }),
{
    if bytes.len() < 4 {
        return Err(WireError::Truncated);
    }
    let len = read_u32_le(bytes, 0);
    if ((bytes.len() - 4) as u64) < len as u64 {
        return Err(WireError::Truncated);
    }
    let end = 4 + len as usize;
    let mut blob: Vec<u8> = Vec::new();
    append(&mut blob, vstd::slice::slice_subrange(bytes, 4, end));
    match decode_utf8(blob) {
        Some(s) => Ok((s, end)),
        None => Err(WireError::InvalidUtf8),
    }
}

/// Which field of the current frame the parser waits for; the lengths read
/// so far ride along.
#[derive(Clone, Copy, Debug, PartialEq, Eq, Structural)]
pub enum Stage {
    AwaitingEventLength,
    AwaitingEventBody { event_len: u32 },
    AwaitingDataLength { event_len: u32 },
    AwaitingDataBody { event_len: u32, data_len: u32 },
}

/// The stage agrees with the bytes received: every length it carries is the
/// one stored in them, and the fields before the awaited one are all there.
pub open spec fn stage_agrees(stage: Stage, s: Seq<u8>) -> bool {
    match stage {
        Stage::AwaitingEventLength => true,
        Stage::AwaitingEventBody { event_len } => s.len() >= 4 && event_len == le32(s, 0),
        Stage::AwaitingDataLength { event_len } => s.len() >= 4 + event_len && event_len == le32(
            s,
            0,
        ),
        Stage::AwaitingDataBody { event_len, data_len } => {
            &&& s.len() >= 8 + event_len
            &&& event_len == le32(s, 0)
            &&& data_len == le32(s, 4 + event_len)
        },
    }
}

/// A resumable parser of inbound frames. Bytes are fed as they arrive, in
/// pieces of any size; a message comes out only once all of it is there.
pub struct FrameParser {
    pending: Vec<u8>,
    stage: Stage,
}

impl View for FrameParser {
    type V = Seq<u8>;

    /// The bytes received that no returned message has consumed yet.
    closed spec fn view(&self) -> Seq<u8> {
        self.pending@
    }
}

impl FrameParser {
    pub closed spec fn wf(&self) -> bool {
        stage_agrees(self.stage, self.pending@)
    }

    pub fn new() -> (r: FrameParser)
        ensures
            r.wf(),
            r@ == Seq::<u8>::empty(),
    {
        FrameParser { pending: Vec::new(), stage: Stage::AwaitingEventLength }
    }

    /// Where the parser stands in the current frame.
    pub fn stage(&self) -> (r: Stage)
        requires
            self.wf(),
        ensures
            stage_agrees(r, self@),
    {
        self.stage
    }

    /// Appends bytes that arrived; nothing is parsed yet.
    pub fn feed(&mut self, bytes: &[u8])
        requires
            old(self).wf(),
        ensures
            final(self).wf(),
            final(self)@ == old(self)@ + bytes@,
    {
        let ghost before = self.pending@;
        append(&mut self.pending, bytes);
        proof {
            lemma_stage_agrees_extend(self.stage, before, bytes@);
        }
    }

    /// The message of the first whole frame, which is then dropped from the
    /// pending bytes; `None`, with nothing changed, while that frame is
    /// incomplete.
    pub fn next_message(&mut self) -> (r: Option<BinaryMessage>)
        requires
            old(self).wf(),
        ensures
            final(self).wf(),
            r is Some <==> frame_complete(old(self)@),
            r matches Some(m) ==> (m@ == first_message(old(self)@) && final(self)@ == old(
                self,
            )@.skip(frame_len(old(self)@))),
            r is None ==> final(self)@ == old(self)@,
    {
        let len = self.pending.len();
        if let Stage::AwaitingEventLength = self.stage {
            if len >= 4 {
                let event_len = read_u32_le(self.pending.as_slice(), 0);
                self.stage = Stage::AwaitingEventBody { event_len };
            }
        }
        if let Stage::AwaitingEventBody { event_len } = self.stage {
            if len as u64 >= 4 + event_len as u64 {
                self.stage = Stage::AwaitingDataLength { event_len };
            }
        }
        if let Stage::AwaitingDataLength { event_len } = self.stage {
            if len as u64 >= 8 + event_len as u64 {
                let at = 4 + event_len as usize;
                let data_len = read_u32_le(self.pending.as_slice(), at);
                self.stage = Stage::AwaitingDataBody { event_len, data_len };
            }
        }
        if let Stage::AwaitingDataBody { event_len, data_len } = self.stage {
            if len as u64 >= 8 + event_len as u64 + data_len as u64 {
                let event_end = 4 + event_len as usize;
                let frame_end = event_end + 4 + data_len as usize;
                let event = copy_range(&self.pending, 4, event_end);
                let data = copy_range(&self.pending, event_end + 4, frame_end);
                let rest = copy_range(&self.pending, frame_end, len);
                self.pending = rest;
                self.stage = Stage::AwaitingEventLength;
                return Some(BinaryMessage { event, data });
            }
        }
        None
    }
}

/// The protocol side of a message bus connection: the bytes queued for the
/// socket and the parser of the bytes read from it. The socket itself and
/// its readiness polling belong to the caller.
pub struct BinaryClient {
    incoming: FrameParser,
    out_buf: Vec<u8>,
}

impl BinaryClient {
    pub closed spec fn wf(&self) -> bool {
        self.incoming.wf()
    }

    /// Bytes queued for the socket and not yet written.
    pub closed spec fn outgoing_bytes(&self) -> Seq<u8> {
        self.out_buf@
    }

    /// Bytes read from the socket that no returned message has consumed.
    pub closed spec fn incoming_bytes(&self) -> Seq<u8> {
        self.incoming@
    }

    /// A connection that subscribes to `subs`, in order: its first bytes are
    /// the subscribe requests. `FieldTooLong` when a topic does not fit a
    /// `u32` length prefix.
    pub fn new(subs: &[Vec<u8>]) -> (r: Result<BinaryClient, WireError>)
        ensures
            (forall|i: int| 0 <= i < subs@.len() ==> encodable(#[trigger] subs@[i]@)) ==> (r matches Ok(
                c,
            ) && c.wf() && c.outgoing_bytes() == subscriptions_bytes(subs@.map_values(|t: Vec<u8>| t@))
                && c.incoming_bytes() == Seq::<u8>::empty()),
            !(forall|i: int| 0 <= i < subs@.len() ==> encodable(#[trigger] subs@[i]@)) ==> r
                == Err::<BinaryClient, WireError>(WireError::FieldTooLong),
    {
        let ghost topics = subs@.map_values(|t: Vec<u8>| t@);
        let mut out_buf: Vec<u8> = Vec::new();
        let mut i: usize = 0;
        while i < subs.len()
            invariant
                i <= subs@.len(),
                topics == subs@.map_values(|t: Vec<u8>| t@),
                forall|j: int| 0 <= j < i ==> encodable(#[trigger] subs@[j]@),
                out_buf@ == subscriptions_bytes(topics.take(i as int)),
            decreases subs@.len() - i,
        {
            let topic = &subs[i];
            if topic.len() > u32::MAX as usize {
                return Err(WireError::FieldTooLong);
            }
            out_buf.push(SUBSCRIBE_OPCODE);
            write_length_prefixed(&mut out_buf, topic.as_slice());
            proof {
                let t = topics.take(i + 1);
                assert(t.drop_last() =~= topics.take(i as int));
                assert(t.last() == subs@[i as int]@);
            }
            i = i + 1;
            assert(out_buf@ =~= subscriptions_bytes(topics.take(i as int)));
        }
        assert(topics.take(i as int) =~= topics);
        Ok(BinaryClient { incoming: FrameParser::new(), out_buf })
    }

    /// Queues a publish of `data` under `ev`; `FieldTooLong`, with nothing
    /// queued, when either does not fit a `u32` length prefix.
    pub fn publish(&mut self, ev: &[u8], data: &[u8]) -> (r: Result<(), WireError>)
        requires
            old(self).wf(),
        ensures
            final(self).wf(),
            final(self).incoming_bytes() == old(self).incoming_bytes(),
            encodable(ev@) && encodable(data@) ==> r is Ok && final(self).outgoing_bytes() == old(
                self,
            ).outgoing_bytes() + publish_bytes(ev@, data@),
            !(encodable(ev@) && encodable(data@)) ==> r == Err::<(), WireError>(
                WireError::FieldTooLong,
            ) && final(self).outgoing_bytes() == old(self).outgoing_bytes(),
    {
        if ev.len() > u32::MAX as usize || data.len() > u32::MAX as usize {
            return Err(WireError::FieldTooLong);
        }
        self.out_buf.push(PUBLISH_OPCODE);
        write_length_prefixed(&mut self.out_buf, ev);
        write_length_prefixed(&mut self.out_buf, data);
        assert(self.out_buf@ =~= old(self).out_buf@ + publish_bytes(ev@, data@));
        Ok(())
    }

    /// The queued bytes, oldest first, for one write to the socket.
    pub fn outgoing(&self) -> (r: &[u8])
        ensures
            r@ == self.outgoing_bytes(),
    {
        self.out_buf.as_slice()
    }

    /// Drops the first `written` queued bytes, which the socket accepted.
    pub fn consume_outgoing(&mut self, written: usize)
        requires
            old(self).wf(),
            written <= old(self).outgoing_bytes().len(),
        ensures
            final(self).wf(),
            final(self).incoming_bytes() == old(self).incoming_bytes(),
            final(self).outgoing_bytes() == old(self).outgoing_bytes().skip(written as int),
    {
        let len = self.out_buf.len();
        self.out_buf = copy_range(&self.out_buf, written, len);
    }

    /// Takes in bytes read from the socket.
    pub fn receive(&mut self, bytes: &[u8])
        requires
            old(self).wf(),
        ensures
            final(self).wf(),
            final(self).outgoing_bytes() == old(self).outgoing_bytes(),
            final(self).incoming_bytes() == old(self).incoming_bytes() + bytes@,
    {
        self.incoming.feed(bytes);
    }

    /// The next whole inbound message, if all of it has arrived.
    pub fn pop_incoming_message(&mut self) -> (r: Option<BinaryMessage>)
        requires
            old(self).wf(),
        ensures
            final(self).wf(),
            final(self).outgoing_bytes() == old(self).outgoing_bytes(),
            r is Some <==> frame_complete(old(self).incoming_bytes()),
            r matches Some(m) ==> (m@ == first_message(old(self).incoming_bytes())
                && final(self).incoming_bytes() == old(self).incoming_bytes().skip(
                frame_len(old(self).incoming_bytes()),
            )),
            r is None ==> final(self).incoming_bytes() == old(self).incoming_bytes(),
    {
        self.incoming.next_message()
    }
}

proof fn lemma_le32_extend(a: Seq<u8>, b: Seq<u8>, at: int)
    requires
        0 <= at,
        at + 4 <= a.len(),
    ensures
        le32(a + b, at) == le32(a, at),
{
    assert((a + b).subrange(at, at + 4) =~= a.subrange(at, at + 4));
}

proof fn lemma_stage_agrees_extend(stage: Stage, a: Seq<u8>, b: Seq<u8>)
    requires
        stage_agrees(stage, a),
    ensures
        stage_agrees(stage, a + b),
{
    match stage {
        Stage::AwaitingEventLength => {},
        Stage::AwaitingEventBody { event_len } => {
            lemma_le32_extend(a, b, 0);
        },
        Stage::AwaitingDataLength { event_len } => {
            lemma_le32_extend(a, b, 0);
        },
        Stage::AwaitingDataBody { event_len, data_len } => {
            lemma_le32_extend(a, b, 0);
            lemma_le32_extend(a, b, 4 + event_len);
        },
    }
}

/// Extending a stream behind a whole frame changes neither that frame nor
/// what follows it but by the extension.
proof fn lemma_frame_extend(a: Seq<u8>, b: Seq<u8>)
    requires
        frame_complete(a),
    ensures
        frame_complete(a + b),
        frame_len(a + b) == frame_len(a),
        first_message(a + b) == first_message(a),
        (a + b).skip(frame_len(a)) == a.skip(frame_len(a)) + b,
{
    lemma_le32_extend(a, b, 0);
    lemma_le32_extend(a, b, 4 + le32(a, 0));
    let fl = frame_len(a);
    let el = le32(a, 0);
    assert((a + b).subrange(4, 4 + el) =~= a.subrange(4, 4 + el));
    assert((a + b).subrange(8 + el, fl) =~= a.subrange(8 + el, fl));
    assert((a + b).skip(fl) =~= a.skip(fl) + b);
}

/// Chunking does not matter: parsing a stream in two pieces, the second
/// behind what the first left incomplete, gives the messages and the
/// remainder of parsing it whole.
pub proof fn lemma_parse_incremental(a: Seq<u8>, b: Seq<u8>)
    ensures
        ({
            let first = parse_frames(a);
            let second = parse_frames(first.1 + b);
            parse_frames(a + b) == (first.0 + second.0, second.1)
        }),
    decreases a.len(),
{
    if frame_complete(a) {
        lemma_frame_extend(a, b);
        let fl = frame_len(a);
        lemma_parse_incremental(a.skip(fl), b);
        let first = parse_frames(a);
        let second = parse_frames(first.1 + b);
        let inner = parse_frames(a.skip(fl));
        assert(first.0 == seq![first_message(a)] + inner.0);
        assert(first.0 + second.0 =~= seq![first_message(a)] + (inner.0 + second.0));
    } else {
        let first = parse_frames(a);
        assert(first.0 + parse_frames(a + b).0 =~= parse_frames(a + b).0);
    }
}

proof fn lemma_prefixed_le32(blob: Seq<u8>, rest: Seq<u8>)
    requires
        encodable(blob),
    ensures
        prefixed(blob).len() == 4 + blob.len(),
        le32(prefixed(blob) + rest, 0) == blob.len(),
        (prefixed(blob) + rest).subrange(4, 4 + blob.len() as int) == blob,
{
    lemma_auto_spec_u32_to_from_le_bytes();
    let s = prefixed(blob) + rest;
    assert(s.subrange(0, 4) =~= spec_u32_to_le_bytes(blob.len() as u32));
    assert(s.subrange(4, 4 + blob.len() as int) =~= blob);
}

/// Framing round trip: the wire form of a message is one whole frame that
/// parses back to the message, and no shorter prefix of it holds a frame, so
/// nothing is reported before its last byte.
pub proof fn lemma_frame_round_trip(m: MessageView)
    requires
        encodable(m.event),
        encodable(m.data),
    ensures
        frame_complete(frame_bytes(m)),
        frame_len(frame_bytes(m)) == frame_bytes(m).len(),
        first_message(frame_bytes(m)) == m,
        parse_frames(frame_bytes(m)) == (seq![m], Seq::<u8>::empty()),
        forall|k: int|
            0 <= k < frame_bytes(m).len() ==> !#[trigger] frame_complete(frame_bytes(m).take(k)),
{
    lemma_auto_spec_u32_to_from_le_bytes();
    let s = frame_bytes(m);
    let el = m.event.len() as int;
    let dl = m.data.len() as int;
    lemma_prefixed_le32(m.event, prefixed(m.data));
    assert(s =~= prefixed(m.event) + prefixed(m.data));
    let tail = s.skip(4 + el);
    assert(tail =~= prefixed(m.data) + Seq::<u8>::empty());
    lemma_prefixed_le32(m.data, Seq::<u8>::empty());
    assert(s.subrange(4 + el, 8 + el) =~= tail.subrange(0, 4));
    assert(le32(s, 4 + el) == dl);
    assert(s.subrange(8 + el, 8 + el + dl) =~= m.data);
    assert(first_message(s) == m);
    assert(s.skip(frame_len(s)) =~= Seq::<u8>::empty());
    assert(parse_frames(Seq::<u8>::empty()) == (Seq::<MessageView>::empty(), Seq::<u8>::empty()));
    assert(parse_frames(s).0 =~= seq![m]);
    assert forall|k: int| 0 <= k < s.len() implies !#[trigger] frame_complete(s.take(k)) by {
        let p = s.take(k);
        if k >= 4 {
            assert(p.subrange(0, 4) =~= s.subrange(0, 4));
            if k >= 8 + el {
                assert(p.subrange(4 + el, 8 + el) =~= s.subrange(4 + el, 8 + el));
            }
        }
    }
}

} // verus!
