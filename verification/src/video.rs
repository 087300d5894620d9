//! Reassembly of H.264 NAL units from an arbitrarily-chunked byte stream.
//!
//! A NAL unit begins at a start-code marker (the byte sequence `00 00 01`) and
//! runs up to, but not including, the next marker. [`NalParser`] buffers
//! incoming chunks and emits each unit exactly once, in stream order, no
//! matter how the stream was sliced into chunks.

use vstd::prelude::*;

verus! {

/// What one call to [`NalParser::get_packet`] accomplished.
#[derive(Debug, PartialEq, Eq)]
pub enum StreamAction {
    /// Internal state advanced (a marker was found); call again without
    /// appending, a closing marker may already be buffered.
    CallNext,
    /// Nothing further can be produced from the buffered bytes.
    ReadMore,
    /// A complete NAL unit, from its start code up to the next marker.
    ProcessPacket(Vec<u8>),
}

/// Mathematical state of a [`NalParser`]: the buffered bytes, the scan
/// cursor, and the position of the pending (not yet closed) marker.
pub struct ParserModel {
    /// Bytes buffered and not yet emitted as part of a packet.
    pub buf: Seq<u8>,
    /// Earliest position that still requires scanning for a marker.
    pub cursor: int,
    /// Position of the most recently found, not-yet-closed marker.
    pub pending: Option<int>,
}

/// Abstract counterpart of [`StreamAction`].
pub enum ParseStep {
    /// A marker was recorded; another packet may already be complete.
    CallNext,
    /// No packet can be produced from the current buffer.
    ReadMore,
    /// The bytes of a completed packet.
    Packet(Seq<u8>),
}

/// A start-code marker `00 00 01` begins at position `i` of `s`.
pub open spec fn is_mark_at(s: Seq<u8>, i: int) -> bool {
    &&& 0 <= i
    &&& i + 3 <= s.len()
    &&& s[i] == 0u8
    &&& s[i + 1] == 0u8
    &&& s[i + 2] == 1u8
}

/// Position of the first marker of `s` at or after position `i`, if any.
pub open spec fn first_mark_from(s: Seq<u8>, i: int) -> Option<int>
    decreases s.len() - i,
{
    if i + 3 > s.len() {
        None
    } else if is_mark_at(s, i) {
        Some(i)
    } else {
        first_mark_from(s, i + 1)
    }
}

/// Well-formedness of a parser state: the cursor sits just past the pending
/// marker, and a pending position really carries a marker.
pub open spec fn parser_wf(m: ParserModel) -> bool {
    match m.pending {
        None => m.cursor == 0,
        Some(p) => is_mark_at(m.buf, p) && m.cursor == p + 2,
    }
}

/// State of a freshly constructed parser.
pub open spec fn initial_model() -> ParserModel {
    ParserModel { buf: Seq::empty(), cursor: 0, pending: None }
}

/// The state `m` with `e` appended to its buffer, as `read_stream` leaves it.
pub open spec fn after_append(m: ParserModel, e: Seq<u8>) -> ParserModel {
    ParserModel { buf: m.buf + e, cursor: m.cursor, pending: m.pending }
}

/// The action one extraction step reports from state `m`.
pub open spec fn step_action(m: ParserModel) -> ParseStep {
    match first_mark_from(m.buf, m.cursor) {
        None => ParseStep::ReadMore,
        Some(idx) => match m.pending {
            None => ParseStep::CallNext,
            Some(p) => ParseStep::Packet(m.buf.subrange(p, idx)),
        },
    }
}

/// The state one extraction step leaves behind from state `m`.
pub open spec fn step_state(m: ParserModel) -> ParserModel {
    match first_mark_from(m.buf, m.cursor) {
        None => m,
        Some(idx) => match m.pending {
            None => ParserModel { buf: m.buf, cursor: idx + 2, pending: Some(idx) },
            Some(p) => ParserModel { buf: m.buf.skip(idx), cursor: 2, pending: Some(0) },
        },
    }
}

/// The exec action `r` reports the abstract step `a`.
pub open spec fn action_matches(r: StreamAction, a: ParseStep) -> bool {
    match r {
        StreamAction::CallNext => a is CallNext,
        StreamAction::ReadMore => a is ReadMore,
        StreamAction::ProcessPacket(v) => a matches ParseStep::Packet(p) && v@ == p,
    }
}

/// A found first marker lies at or after the scan start, is a marker, and no
/// marker precedes it in the scanned range.
pub proof fn lemma_first_mark_some(s: Seq<u8>, c: int, idx: int)
    requires
        first_mark_from(s, c) == Some(idx),
    ensures
        c <= idx,
        is_mark_at(s, idx),
        forall|j: int| c <= j < idx ==> !is_mark_at(s, j),
    decreases s.len() - c,
{
    if c + 3 > s.len() {
        assert(false);
    } else if is_mark_at(s, c) {
    } else {
        lemma_first_mark_some(s, c + 1, idx);
    }
}

/// Appending bytes never changes an already-found first marker.
pub proof fn lemma_first_mark_append(s: Seq<u8>, e: Seq<u8>, c: int, idx: int)
    requires
        first_mark_from(s, c) == Some(idx),
    ensures
        first_mark_from(s + e, c) == Some(idx),
    decreases s.len() - c,
{
    if c + 3 > s.len() {
        assert(false);
    } else if is_mark_at(s, c) {
        assert(is_mark_at(s + e, c));
    } else {
        assert(!is_mark_at(s + e, c));
        lemma_first_mark_append(s, e, c + 1, idx);
    }
}

/// One extraction step preserves well-formedness.
pub proof fn lemma_step_preserves_wf(m: ParserModel)
    requires
        parser_wf(m),
    ensures
        parser_wf(step_state(m)),
{
    match first_mark_from(m.buf, m.cursor) {
        None => {}
        Some(idx) => {
            lemma_first_mark_some(m.buf, m.cursor, idx);
            match m.pending {
                None => {}
                Some(p) => {
                    assert(is_mark_at(m.buf.skip(idx), 0));
                }
            }
        }
    }
}

/// Appending bytes preserves well-formedness.
pub proof fn lemma_append_preserves_wf(m: ParserModel, e: Seq<u8>)
    requires
        parser_wf(m),
    ensures
        parser_wf(after_append(m, e)),
{
    match m.pending {
        None => {}
        Some(p) => {
            assert(is_mark_at(m.buf + e, p));
        }
    }
}

/// Rank used to show extraction terminates: finding a first marker (pending
/// goes from `None` to `Some`) can happen at most once before a packet is
/// emitted, and emitting a packet shrinks the buffer.
pub open spec fn pending_rank(m: ParserModel) -> int {
    if m.pending is None {
        1
    } else {
        0
    }
}

/// All packets obtainable from state `m` by repeated extraction, paired with
/// the starved state left behind once extraction reports `ReadMore`.
pub open spec fn drain(m: ParserModel) -> (Seq<Seq<u8>>, ParserModel)
    decreases m.buf.len(), pending_rank(m),
    when parser_wf(m)
{
    match step_action(m) {
        ParseStep::ReadMore => (Seq::empty(), m),
        ParseStep::CallNext => drain(step_state(m)),
        ParseStep::Packet(p) => {
            proof {
                match first_mark_from(m.buf, m.cursor) {
                    Some(idx) => lemma_first_mark_some(m.buf, m.cursor, idx),
                    None => {}
                }
            }
            let r = drain(step_state(m));
            (seq![p] + r.0, r.1)
        },
    }
}

/// The packets repeated extraction produces from state `m`.
pub open spec fn drain_packets(m: ParserModel) -> Seq<Seq<u8>> {
    drain(m).0
}

/// The starved state repeated extraction leaves behind from state `m`.
pub open spec fn drained_state(m: ParserModel) -> ParserModel {
    drain(m).1
}

/// Starvation is idempotent: when no packet can be produced, the step reports
/// `ReadMore` and leaves the state untouched, so every further call without
/// new input reports `ReadMore` again on the same state.
pub proof fn lemma_starvation_idempotent(m: ParserModel)
    requires
        step_action(m) is ReadMore,
    ensures
        step_state(m) == m,
        step_action(step_state(m)) is ReadMore,
{
}

/// Repeated extraction preserves well-formedness and truly starves the
/// parser: the state it leaves behind yields no further packet.
pub proof fn lemma_drain_starves(m: ParserModel)
    requires
        parser_wf(m),
    ensures
        parser_wf(drained_state(m)),
        step_action(drained_state(m)) is ReadMore,
    decreases m.buf.len(), pending_rank(m),
{
    match step_action(m) {
        ParseStep::ReadMore => {}
        ParseStep::CallNext => {
            lemma_step_preserves_wf(m);
            lemma_drain_starves(step_state(m));
        }
        ParseStep::Packet(p) => {
            match first_mark_from(m.buf, m.cursor) {
                Some(idx) => lemma_first_mark_some(m.buf, m.cursor, idx),
                None => {}
            }
            lemma_step_preserves_wf(m);
            lemma_drain_starves(step_state(m));
        }
    }
}

/// One extraction step commutes with appending more bytes: the step taken
/// before an append reports the same action, and stepping then appending
/// leaves the same state as appending then stepping.
pub proof fn lemma_step_append(m: ParserModel, e: Seq<u8>)
    requires
        parser_wf(m),
        !(step_action(m) is ReadMore),
    ensures
        step_action(after_append(m, e)) == step_action(m),
        step_state(after_append(m, e)) == after_append(step_state(m), e),
{
    match first_mark_from(m.buf, m.cursor) {
        Some(idx) => {
            lemma_first_mark_some(m.buf, m.cursor, idx);
            lemma_first_mark_append(m.buf, e, m.cursor, idx);
            match m.pending {
                None => {}
                Some(p) => {
                    assert((m.buf + e).subrange(p, idx) =~= m.buf.subrange(p, idx));
                    assert((m.buf + e).skip(idx) =~= m.buf.skip(idx) + e);
                }
            }
        }
        None => {}
    }
}

/// Chunk-boundary invariance, one append at a time: draining a state, then
/// appending `e` and draining again, produces the same packet sequence and
/// final state as appending `e` up front and draining once. Sliced input is
/// therefore parsed exactly as the unsliced stream would be.
pub proof fn lemma_chunk_invariance(m: ParserModel, e: Seq<u8>)
    requires
        parser_wf(m),
    ensures
        drain_packets(after_append(m, e)) == drain_packets(m) + drain_packets(
            after_append(drained_state(m), e),
        ),
        drained_state(after_append(m, e)) == drained_state(after_append(drained_state(m), e)),
    decreases m.buf.len(), pending_rank(m),
{
    lemma_append_preserves_wf(m, e);
    match step_action(m) {
        ParseStep::ReadMore => {
            assert(drain_packets(m) =~= Seq::<Seq<u8>>::empty());
            assert(drained_state(m) == m);
            assert(drain_packets(m) + drain_packets(after_append(m, e)) =~= drain_packets(
                after_append(m, e),
            ));
        }
        ParseStep::CallNext => {
            lemma_step_append(m, e);
            lemma_step_preserves_wf(m);
            lemma_chunk_invariance(step_state(m), e);
        }
        ParseStep::Packet(p) => {
            match first_mark_from(m.buf, m.cursor) {
                Some(idx) => lemma_first_mark_some(m.buf, m.cursor, idx),
                None => {}
            }
            lemma_step_append(m, e);
            lemma_step_preserves_wf(m);
            lemma_chunk_invariance(step_state(m), e);
            assert(seq![p] + (drain_packets(step_state(m)) + drain_packets(
                after_append(drained_state(step_state(m)), e),
            )) =~= (seq![p] + drain_packets(step_state(m))) + drain_packets(
                after_append(drained_state(step_state(m)), e),
            ));
        }
    }
}

/// The chunks of a sliced byte stream, joined back together.
pub open spec fn concat_chunks(chunks: Seq<Seq<u8>>) -> Seq<u8>
    decreases chunks.len(),
{
    if chunks.len() == 0 {
        Seq::empty()
    } else {
        concat_chunks(chunks.drop_last()) + chunks.last()
    }
}

/// Packets and final state after feeding the chunks one at a time into state
/// `m`, extracting to exhaustion after each chunk.
pub open spec fn feed_chunks(m: ParserModel, chunks: Seq<Seq<u8>>) -> (Seq<Seq<u8>>, ParserModel)
    decreases chunks.len(),
{
    if chunks.len() == 0 {
        (Seq::empty(), m)
    } else {
        let prev = feed_chunks(m, chunks.drop_last());
        let last = drain(after_append(prev.1, chunks.last()));
        (prev.0 + last.0, last.1)
    }
}

/// Chunk-boundary invariance in full: however a byte stream is sliced into
/// chunks, feeding the chunks one at a time — extracting to exhaustion after
/// each — produces exactly the packet sequence and final state that feeding
/// the unsliced stream produces. Any two slicings of one stream therefore
/// agree packet for packet.
pub proof fn lemma_slicing_invariance(chunks: Seq<Seq<u8>>)
    ensures
        feed_chunks(initial_model(), chunks) == drain(
            after_append(initial_model(), concat_chunks(chunks)),
        ),
    decreases chunks.len(),
{
    if chunks.len() == 0 {
        assert(after_append(initial_model(), concat_chunks(chunks)).buf =~= Seq::<u8>::empty());
        assert(after_append(initial_model(), concat_chunks(chunks)) == initial_model());
        assert(first_mark_from(Seq::empty(), 0) is None);
        assert(feed_chunks(initial_model(), chunks) =~= drain(initial_model()));
    } else {
        let body = chunks.drop_last();
        let tail = chunks.last();
        lemma_slicing_invariance(body);
        let grown = after_append(initial_model(), concat_chunks(body));
        assert(parser_wf(grown));
        lemma_chunk_invariance(grown, tail);
        assert(after_append(grown, tail).buf =~= after_append(
            initial_model(),
            concat_chunks(chunks),
        ).buf);
        assert(after_append(grown, tail) == after_append(initial_model(), concat_chunks(chunks)));
        lemma_drain_starves(grown);
        assert(drain(grown).0 + (drain(after_append(drain(grown).1, tail)).0) =~= drain(
            after_append(initial_model(), concat_chunks(chunks)),
        ).0);
    }
}

/// Incremental byte-stream parser that locates NAL start-code markers and
/// emits complete NAL units as they become fully bounded.
pub struct NalParser {
    leftover_buffer: Vec<u8>,
    curr_offset: usize,
    last_nal: Option<usize>,
}

impl View for NalParser {
    type V = ParserModel;

    closed spec fn view(&self) -> ParserModel {
        ParserModel {
            buf: self.leftover_buffer@,
            cursor: self.curr_offset as int,
            pending: match self.last_nal {
                None => None,
                Some(p) => Some(p as int),
            },
        }
    }
}

/// Copies `v[from..to]` into a fresh vector.
fn copy_range(v: &Vec<u8>, from: usize, to: usize) -> (r: Vec<u8>)
    requires
        from <= to <= v@.len(),
    ensures
        r@ == v@.subrange(from as int, to as int),
{
    let mut r: Vec<u8> = Vec::new();
    let mut i: usize = from;
    while i < to
        invariant
            from <= i <= to <= v@.len(),
            r@ == v@.subrange(from as int, i as int),
        decreases to - i,
    {
        r.push(v[i]);
        proof {
            assert(r@ =~= v@.subrange(from as int, i + 1 as int));
        }
        i = i + 1;
    }
    r
}

impl NalParser {
    /// A parser with an empty accumulator and no pending marker.
    pub fn new() -> (p: Self)
        ensures
            p@ == initial_model(),
            parser_wf(p@),
    {
        let p = NalParser { leftover_buffer: Vec::new(), curr_offset: 0, last_nal: None };
        proof {
            assert(p@ =~= initial_model());
        }
        p
    }

    /// Appends a chunk to the accumulator, draining `buffer`. Pure buffering:
    /// no parsing happens and no parsing state changes.
    pub fn read_stream(&mut self, buffer: &mut Vec<u8>)
        ensures
            final(self)@ == after_append(old(self)@, old(buffer)@),
            final(buffer)@ == Seq::<u8>::empty(),
            parser_wf(old(self)@) ==> parser_wf(final(self)@),
    {
        self.leftover_buffer.append(buffer);
        proof {
            assert(final(self)@ =~= after_append(old(self)@, old(buffer)@));
            if parser_wf(old(self)@) {
                lemma_append_preserves_wf(old(self)@, old(buffer)@);
            }
        }
    }

    /// Position of the pending, not-yet-closed start-code marker, if any.
    pub fn last_nal(&self) -> (r: Option<usize>)
        ensures
            match r {
                Some(i) => self@.pending == Some(i as int),
                None => self@.pending is None,
            },
    {
        self.last_nal
    }

    /// Scans from the cursor for the next start-code marker.
    pub fn get_nal_mark(&self) -> (r: Option<usize>)
        ensures
            match r {
                Some(i) => first_mark_from(self@.buf, self@.cursor) == Some(i as int),
                None => first_mark_from(self@.buf, self@.cursor) is None,
            },
    {
        let len = self.leftover_buffer.len();
        if len < 3 {
            return None;
        }
        let mut i: usize = self.curr_offset;
        while i < len - 2
            invariant
                3 <= len == self@.buf.len(),
                first_mark_from(self@.buf, self@.cursor) == first_mark_from(self@.buf, i as int),
            decreases len - i,
        {
            if self.leftover_buffer[i] == 0 && self.leftover_buffer[i + 1] == 0
                && self.leftover_buffer[i + 2] == 1 {
                assert(is_mark_at(self@.buf, i as int));
                return Some(i);
            }
            assert(!is_mark_at(self@.buf, i as int));
            i = i + 1;
        }
        None
    }

    /// One extraction step: scan for a marker; when a second marker closes the
    /// pending packet, truncate the accumulator and hand the packet out.
    pub fn get_packet(&mut self) -> (r: StreamAction)
        requires
            parser_wf(old(self)@),
        ensures
            parser_wf(final(self)@),
            final(self)@ == step_state(old(self)@),
            action_matches(r, step_action(old(self)@)),
    {
        proof {
            lemma_step_preserves_wf(old(self)@);
        }
        if self.leftover_buffer.len() == 0 {
            return StreamAction::ReadMore;
        }

        match self.get_nal_mark() {
            Some(idx) => {
                proof {
                    lemma_first_mark_some(self@.buf, self@.cursor, idx as int);
                }
                match self.last_nal {
                    Some(last_offset) => {
                        // Both ends of a packet are known: emit and truncate.
                        let packet = copy_range(&self.leftover_buffer, last_offset, idx);
                        let rest = copy_range(&self.leftover_buffer, idx, self.leftover_buffer.len());
                        proof {
                            assert(rest@ =~= old(self)@.buf.skip(idx as int));
                        }
                        self.leftover_buffer = rest;
                        self.last_nal = Some(0);
                        self.curr_offset = 2;
                        StreamAction::ProcessPacket(packet)
                    }
                    None => {
                        // First marker since the last emission: defer until a
                        // closing marker is known.
                        self.curr_offset = idx + 2;
                        self.last_nal = Some(idx);
                        StreamAction::CallNext
                    }
                }
            }
            None => StreamAction::ReadMore,
        }
    }

    /// Extracts packets until the parser starves, returning them in stream
    /// order: exactly the packets the drain model assigns to the current
    /// state, leaving the parser in the starved state the model assigns.
    pub fn collect_packets(&mut self) -> (r: Vec<Vec<u8>>)
        requires
            parser_wf(old(self)@),
        ensures
            parser_wf(final(self)@),
            final(self)@ == drained_state(old(self)@),
            r@.map_values(|v: Vec<u8>| v@) == drain_packets(old(self)@),
    {
        let mut r: Vec<Vec<u8>> = Vec::new();
        loop
            invariant
                parser_wf(self@),
                drain_packets(old(self)@) == r@.map_values(|v: Vec<u8>| v@) + drain_packets(
                    self@,
                ),
                drained_state(old(self)@) == drained_state(self@),
            ensures
                parser_wf(self@),
                drain_packets(old(self)@) == r@.map_values(|v: Vec<u8>| v@),
                drained_state(old(self)@) == self@,
            decreases self@.buf.len(), pending_rank(self@),
        {
            proof {
                assert(drain_packets(old(self)@) == r@.map_values(|v: Vec<u8>| v@)
                    + drain_packets(self@));
                lemma_step_preserves_wf(self@);
                match first_mark_from(self@.buf, self@.cursor) {
                    Some(idx) => lemma_first_mark_some(self@.buf, self@.cursor, idx),
                    None => {}
                }
            }
            let ghost pre = self@;
            let ghost r_pre = r@;
            match self.get_packet() {
                StreamAction::CallNext => {
                    proof {
                        assert(drain_packets(pre) == drain_packets(self@));
                        assert(drained_state(pre) == drained_state(self@));
                    }
                }
                StreamAction::ReadMore => {
                    proof {
                        assert(drain_packets(pre) =~= Seq::<Seq<u8>>::empty());
                        assert(r_pre.map_values(|v: Vec<u8>| v@) + drain_packets(pre)
                            =~= r_pre.map_values(|v: Vec<u8>| v@));
                        assert(drained_state(pre) == pre);
                    }
                    break;
                }
                StreamAction::ProcessPacket(p) => {
                    proof {
                        assert(step_action(pre) matches ParseStep::Packet(q) && p@ == q);
                        assert(drain_packets(pre) == seq![p@] + drain_packets(self@));
                    }
                    r.push(p);
                    proof {
                        assert(r@.map_values(|v: Vec<u8>| v@) =~= r_pre.map_values(
                            |v: Vec<u8>| v@,
                        ) + seq![p@]);
                        assert(r_pre.map_values(|v: Vec<u8>| v@) + (seq![p@] + drain_packets(
                            self@,
                        )) =~= (r_pre.map_values(|v: Vec<u8>| v@) + seq![p@]) + drain_packets(
                            self@,
                        ));
                    }
                }
            }
        }
        r
    }
}

/// Declares openh264's decoder so it can be held in a field; the value is
/// opaque and only touched through the trusted wrappers below.
#[verifier::external_type_specification]
#[verifier::external_body]
pub struct ExDecoder(openh264::decoder::Decoder);

/// Relies on openh264's `Decoder::new`: a decoder with default settings, or
/// `None` when the underlying codec library fails to initialise.
#[verifier::external_body]
fn new_decoder() -> (r: Option<openh264::decoder::Decoder>) {
    openh264::decoder::Decoder::new().ok()
}

/// Outcome of handing one NAL packet to the codec.
pub enum DecodeStep {
    /// A picture was produced, already converted to interleaved RGB.
    Frame(Vec<u8>),
    /// The packet was accepted but no picture is available yet (the codec may
    /// need several packets, such as parameter sets, before producing pixels).
    NoFrame,
    /// The codec rejected the packet.
    Failed,
}

/// Relies on openh264's `Decoder::decode`, which turns one NAL packet into at
/// most one picture (`Err` on a corrupted bitstream, `Ok(None)` when more
/// packets are needed first), and on `DecodedYUV::rgb8_len` and `write_rgb8`,
/// which convert the picture's planes into exactly `width * height * 3`
/// interleaved RGB bytes. The outcome depends on the decoder's internal
/// state, so nothing is promised of the result.
#[verifier::external_body]
fn decode_step(decoder: &mut openh264::decoder::Decoder, packet: &Vec<u8>) -> (r: DecodeStep) {
    match decoder.decode(packet.as_slice()) {
        Ok(Some(yuv)) => {
            let mut rgb = vec![0u8; openh264::formats::YUVSource::rgb8_len(&yuv)];
            yuv.write_rgb8(&mut rgb);
            DecodeStep::Frame(rgb)
        }
        Ok(None) => DecodeStep::NoFrame,
        Err(_) => DecodeStep::Failed,
    }
}

/// Frame `k` (counted from `0` over successfully produced frames) is written
/// to the frame buffer exactly when the decimation policy keeps it: a
/// `skip` of `0` renders every frame, a positive `skip` every `skip`-th.
pub open spec fn frame_rendered(k: nat, skip: nat) -> bool {
    skip == 0 || k % skip == 0
}

/// How many of the first `n` produced frames the decimation policy renders.
pub open spec fn rendered_count(n: nat, skip: nat) -> nat
    decreases n,
{
    if n == 0 {
        0
    } else {
        rendered_count((n - 1) as nat, skip) + if frame_rendered((n - 1) as nat, skip) {
            1nat
        } else {
            0nat
        }
    }
}

/// Decimation correctness: with a positive `skip`, of `n` successfully
/// produced frames exactly `ceil(n / skip)` are rendered — those at produced
/// -frame indices `0, skip, 2 * skip, ...`.
pub proof fn lemma_decimation_count(n: nat, skip: nat)
    requires
        skip > 0,
    ensures
        rendered_count(n, skip) == (n + skip - 1) / (skip as int),
    decreases n,
{
    if n == 0 {
        vstd::arithmetic::div_mod::lemma_div_multiples_vanish_fancy(0, skip - 1, skip as int);
    } else {
        let m = (n - 1) as nat;
        lemma_decimation_count(m, skip);
        let d = skip as int;
        let q = m as int / d;
        let r = m as int % d;
        vstd::arithmetic::div_mod::lemma_fundamental_div_mod(m as int, d);
        vstd::arithmetic::div_mod::lemma_mod_division_less_than_divisor(m as int, d);
        if r == 0 {
            assert(m + d == d * (q + 1) + 0) by (nonlinear_arith)
                requires m == d * q + r && r == 0;
            assert(m + d - 1 == d * q + (d - 1)) by (nonlinear_arith)
                requires m == d * q + r && r == 0;
            vstd::arithmetic::div_mod::lemma_div_multiples_vanish_fancy(q + 1, 0, d);
            vstd::arithmetic::div_mod::lemma_div_multiples_vanish_fancy(q, d - 1, d);
        } else {
            assert(m + d == d * (q + 1) + r) by (nonlinear_arith)
                requires m == d * q + r;
            assert(m + d - 1 == d * (q + 1) + (r - 1)) by (nonlinear_arith)
                requires m == d * q + r;
            vstd::arithmetic::div_mod::lemma_div_multiples_vanish_fancy(q + 1, r, d);
            vstd::arithmetic::div_mod::lemma_div_multiples_vanish_fancy(q + 1, r - 1, d);
        }
    }
}

/// Mathematical state of a [`VideoStreamDecoder`]: the monotonic counters,
/// the decimation factor, and the owned parser's state. The codec itself is
/// opaque and has no model.
pub struct DecoderModel {
    /// Render every `skip_frames`-th produced frame; `0` renders all.
    pub skip_frames: nat,
    /// Successfully produced frames so far, rendered or skipped.
    pub frame_no: nat,
    /// Packets handed to the codec so far.
    pub packet_no: nat,
    /// Packets the codec accepted so far.
    pub packet_decode_ok: nat,
    /// State of the owned boundary parser.
    pub parser: ParserModel,
}

/// What handing one packet to the codec may do to the orchestrator and to the
/// frame buffer (`t0` before, `t1` after): the codec either rejects the
/// packet, accepts it without producing a picture, or produces a picture,
/// which reaches the buffer exactly when the decimation policy keeps it.
pub open spec fn decode_outcome(
    pre: DecoderModel,
    post: DecoderModel,
    t0: Seq<u8>,
    t1: Seq<u8>,
) -> bool {
    &&& post.skip_frames == pre.skip_frames
    &&& {
        ||| (post.packet_decode_ok == pre.packet_decode_ok && post.frame_no == pre.frame_no && t1
            == t0)
        ||| (post.packet_decode_ok == pre.packet_decode_ok + 1 && post.frame_no == pre.frame_no
            && t1 == t0)
        ||| (post.packet_decode_ok == pre.packet_decode_ok + 1 && post.frame_no == pre.frame_no + 1
            && if frame_rendered(pre.frame_no, pre.skip_frames) {
                t1.len() == t0.len()
            } else {
                t1 == t0
            })
    }
}

struct VideoStreamDecoderProps {
    skip_frames: usize,
    frame_no: usize,
    packet_no: usize,
    packet_decode_ok: usize,
}

/// Publishes a decoded frame into the fixed-size frame buffer; a frame whose
/// size does not match the buffer leaves it untouched.
pub fn write_frame(rgb: &Vec<u8>, target_image: &mut Vec<u8>)
    ensures
        rgb@.len() == old(target_image)@.len() ==> final(target_image)@ == rgb@,
        rgb@.len() != old(target_image)@.len() ==> final(target_image)@ == old(target_image)@,
{
    if rgb.len() == target_image.len() {
        let mut i: usize = 0;
        while i < rgb.len()
            invariant
                i <= rgb@.len(),
                target_image@.len() == rgb@.len(),
                forall|j: int| 0 <= j < i ==> target_image@[j] == rgb@[j],
            decreases rgb@.len() - i,
        {
            let b = rgb[i];
            target_image.set(i, b);
            i = i + 1;
        }
        proof {
            assert(target_image@ =~= rgb@);
        }
    }
}

/// Decode orchestrator: pulls packets from one [`NalParser`], hands each to
/// the external codec, applies frame-skip decimation, and publishes decoded
/// pixels into a caller-owned frame buffer.
pub struct VideoStreamDecoder {
    decoder: openh264::decoder::Decoder,
    props: VideoStreamDecoderProps,
    np: NalParser,
}

impl View for VideoStreamDecoder {
    type V = DecoderModel;

    closed spec fn view(&self) -> DecoderModel {
        DecoderModel {
            skip_frames: self.props.skip_frames as nat,
            frame_no: self.props.frame_no as nat,
            packet_no: self.props.packet_no as nat,
            packet_decode_ok: self.props.packet_decode_ok as nat,
            parser: self.np@,
        }
    }
}

impl VideoStreamDecoder {
    /// An orchestrator that renders every `skip_frames`-th successfully
    /// produced frame (`0` renders every frame), with zeroed counters and an
    /// empty parser; `None` when the codec cannot be created.
    pub fn new(skip_frames: usize) -> (r: Option<VideoStreamDecoder>)
        ensures
            r matches Some(vd) ==> vd@ == (DecoderModel {
                skip_frames: skip_frames as nat,
                frame_no: 0,
                packet_no: 0,
                packet_decode_ok: 0,
                parser: initial_model(),
            }),
    {
        match new_decoder() {
            Some(decoder) => {
                let vd = VideoStreamDecoder {
                    decoder,
                    props: VideoStreamDecoderProps {
                        skip_frames,
                        frame_no: 0,
                        packet_no: 0,
                        packet_decode_ok: 0,
                    },
                    np: NalParser::new(),
                };
                Some(vd)
            }
            None => None,
        }
    }

    /// Forwards a chunk to the owned parser's accumulator, draining `buffer`.
    /// No decode side effect.
    pub fn send_stream(&mut self, buffer: &mut Vec<u8>)
        ensures
            final(self)@.parser == after_append(old(self)@.parser, old(buffer)@),
            final(self)@.skip_frames == old(self)@.skip_frames,
            final(self)@.frame_no == old(self)@.frame_no,
            final(self)@.packet_no == old(self)@.packet_no,
            final(self)@.packet_decode_ok == old(self)@.packet_decode_ok,
            final(buffer)@ == Seq::<u8>::empty(),
            parser_wf(old(self)@.parser) ==> parser_wf(final(self)@.parser),
    {
        self.np.read_stream(buffer);
    }

    /// Records the outcome of one decoded packet: counts an accepted packet,
    /// counts a produced frame whether rendered or skipped, and writes a
    /// rendered frame into the frame buffer. Exact for every outcome value.
    pub fn process_decoded(&mut self, step: DecodeStep, target_image: &mut Vec<u8>)
        requires
            old(self)@.packet_decode_ok < usize::MAX,
            old(self)@.frame_no < usize::MAX,
        ensures
            final(self)@.parser == old(self)@.parser,
            final(self)@.skip_frames == old(self)@.skip_frames,
            final(self)@.packet_no == old(self)@.packet_no,
            match step {
                DecodeStep::Failed => {
                    &&& final(self)@ == old(self)@
                    &&& final(target_image)@ == old(target_image)@
                },
                DecodeStep::NoFrame => {
                    &&& final(self)@.packet_decode_ok == old(self)@.packet_decode_ok + 1
                    &&& final(self)@.frame_no == old(self)@.frame_no
                    &&& final(target_image)@ == old(target_image)@
                },
                DecodeStep::Frame(rgb) => {
                    &&& final(self)@.packet_decode_ok == old(self)@.packet_decode_ok + 1
                    &&& final(self)@.frame_no == old(self)@.frame_no + 1
                    &&& if frame_rendered(old(self)@.frame_no, old(self)@.skip_frames) {
                        if rgb@.len() == old(target_image)@.len() {
                            final(target_image)@ == rgb@
                        } else {
                            final(target_image)@ == old(target_image)@
                        }
                    } else {
                        final(target_image)@ == old(target_image)@
                    }
                },
            },
    {
        match step {
            DecodeStep::Failed => {}
            DecodeStep::NoFrame => {
                self.props.packet_decode_ok = self.props.packet_decode_ok + 1;
            }
            DecodeStep::Frame(rgb) => {
                self.props.packet_decode_ok = self.props.packet_decode_ok + 1;
                let skip_frame = self.props.skip_frames != 0 && self.props.frame_no
                    % self.props.skip_frames != 0;
                if !skip_frame {
                    write_frame(&rgb, target_image);
                }
                self.props.frame_no = self.props.frame_no + 1;
            }
        }
    }

    /// One pump of the pipeline: extract a packet if one is bounded, hand it
    /// to the codec, record the outcome. A `ProcessPacket` from the parser is
    /// masked as `CallNext` so the driving loop keeps pumping; the parser's
    /// other actions pass through unchanged.
    pub fn decode_images(&mut self, target_image: &mut Vec<u8>) -> (r: StreamAction)
        requires
            parser_wf(old(self)@.parser),
            old(self)@.packet_no < usize::MAX,
            old(self)@.packet_decode_ok < usize::MAX,
            old(self)@.frame_no < usize::MAX,
        ensures
            parser_wf(final(self)@.parser),
            final(self)@.parser == step_state(old(self)@.parser),
            final(self)@.skip_frames == old(self)@.skip_frames,
            match step_action(old(self)@.parser) {
                ParseStep::ReadMore => {
                    &&& r is ReadMore
                    &&& final(self)@ == old(self)@
                    &&& final(target_image)@ == old(target_image)@
                },
                ParseStep::CallNext => {
                    &&& r is CallNext
                    &&& final(self)@.frame_no == old(self)@.frame_no
                    &&& final(self)@.packet_no == old(self)@.packet_no
                    &&& final(self)@.packet_decode_ok == old(self)@.packet_decode_ok
                    &&& final(target_image)@ == old(target_image)@
                },
                ParseStep::Packet(p) => {
                    &&& r is CallNext
                    &&& final(self)@.packet_no == old(self)@.packet_no + 1
                    &&& decode_outcome(old(self)@, final(self)@, old(target_image)@, final(target_image)@)
                },
            },
    {
        let r = self.np.get_packet();
        match r {
            StreamAction::ProcessPacket(img) => {
                self.props.packet_no = self.props.packet_no + 1;
                let step = decode_step(&mut self.decoder, &img);
                self.process_decoded(step, target_image);
                StreamAction::CallNext
            }
            _ => r,
        }
    }

    /// Packets handed to the codec so far.
    pub fn packet_no(&self) -> (r: usize)
        ensures
            r == self@.packet_no,
    {
        self.props.packet_no
    }

    /// Successfully produced frames so far, rendered or skipped.
    pub fn frame_no(&self) -> (r: usize)
        ensures
            r == self@.frame_no,
    {
        self.props.frame_no
    }

    /// Packets the codec accepted so far.
    pub fn packet_decode_ok(&self) -> (r: usize)
        ensures
            r == self@.packet_decode_ok,
    {
        self.props.packet_decode_ok
    }

    /// The decimation factor this orchestrator was constructed with.
    pub fn skip_frames(&self) -> (r: usize)
        ensures
            r == self@.skip_frames,
    {
        self.props.skip_frames
    }
}

} // verus!
