use vstd::prelude::*;

use crate::limb::Error;

verus! {

/// The byte by which the receiver accepts a packet.
pub const ACKNOWLEDGE: u8 = 0x06;

/// The byte by which the receiver asks for a packet again, or for the transfer to start.
pub const NEGATIVE_ACKNOWLEDGE: u8 = 0x15;

/// The first byte of each data packet.
pub const START_OF_HEADER: u8 = 0x01;

/// The single byte sent after the last data packet.
pub const END_OF_TRANSMISSION: u8 = 0x04;

/// The byte that fills the rest of the last payload.
pub const PADDING: u8 = 0x1A;

/// The payload of each data packet, in bytes.
pub const PAYLOAD_SIZE: usize = 128;

/// How many times one packet is written before the transfer is given up.
pub const MAX_ATTEMPTS: usize = 10;

/// How long to wait for a response, in milliseconds.
pub const TIMEOUT_MS: u64 = 10_000;

/// The pause between two reads while waiting for a response, in milliseconds.
pub const DELAY_MS: u64 = 500;

/// What a byte from the receiver means: `Some(true)` for an acknowledgement,
/// `Some(false)` for a negative acknowledgement, and nothing for any other byte
/// (line noise) or for no byte at all.
pub open spec fn spec_response_of(byte: Option<u8>) -> Option<bool> {
    match byte {
        Some(b) => if b == ACKNOWLEDGE {
            Some(true)
        } else if b == NEGATIVE_ACKNOWLEDGE {
            Some(false)
        } else {
            None
        },
        None => None,
    }
}

/// The sum of the bytes, modulo 256.
pub open spec fn checksum(bytes: Seq<u8>) -> u8
    decreases bytes.len(),
{
    if bytes.len() == 0 {
        0
    } else {
        ((checksum(bytes.drop_last()) + bytes.last()) % 256) as u8
    }
}

/// A chunk of at most a payload's size, filled up with padding to a payload's size.
pub open spec fn padded(chunk: Seq<u8>) -> Seq<u8> {
    chunk + Seq::new((PAYLOAD_SIZE - chunk.len()) as nat, |i: int| PADDING)
}

/// The data packet that carries `chunk` under the sequence number `sequence`: the header
/// byte, the number and its complement, the padded payload and its checksum.
pub open spec fn spec_frame(sequence: u8, chunk: Seq<u8>) -> Seq<u8> {
    seq![START_OF_HEADER, sequence, (255 - sequence) as u8] + padded(chunk) + seq![checksum(padded(chunk))]
}

/// The sequence number that follows `sequence`, wrapping from 255 to 0.
pub open spec fn next_sequence(sequence: u8) -> u8 {
    ((sequence + 1) % 256) as u8
}

/// One packet of a transfer, as the bytes written to the line.
pub struct Packet {
    data: Vec<u8>,
}

impl View for Packet {
    type V = Seq<u8>;

    closed spec fn view(&self) -> Seq<u8> {
        self.data@
    }
}

impl Packet {
    /// The data packet that carries `chunk` under the sequence number `sequence`.
    pub fn new(sequence: u8, chunk: &[u8]) -> (r: Packet)
        requires
            chunk@.len() <= PAYLOAD_SIZE,
        ensures
            r@ == spec_frame(sequence, chunk@),
    {
        let mut payload: Vec<u8> = Vec::new();
        let mut sum: u8 = 0;
        let mut i: usize = 0;
        while i < PAYLOAD_SIZE
            invariant
                i <= PAYLOAD_SIZE,
                chunk@.len() <= PAYLOAD_SIZE,
                payload@ == padded(chunk@).take(i as int),
                sum == checksum(payload@),
            decreases PAYLOAD_SIZE - i,
        {
            let b = if i < chunk.len() {
                chunk[i]
            } else {
                PADDING
            };
            proof {
                assert(padded(chunk@)[i as int] == b);
                assert(padded(chunk@).take(i + 1) =~= payload@.push(b));
                assert(payload@.push(b).drop_last() =~= payload@);
            }
            sum = ((sum as u16 + b as u16) % 256) as u8;
            payload.push(b);
            i += 1;
        }
        proof {
            assert(padded(chunk@).take(PAYLOAD_SIZE as int) =~= padded(chunk@));
        }
        let mut data: Vec<u8> = Vec::new();
        data.push(START_OF_HEADER);
        data.push(sequence);
        data.push(255 - sequence);
        data.append(&mut payload);
        data.push(sum);
        proof {
            assert(data@ =~= spec_frame(sequence, chunk@));
        }
        Packet { data }
    }

    /// The packet that ends a transfer.
    pub fn end_of_transmission() -> (r: Packet)
        ensures
            r@ == seq![END_OF_TRANSMISSION],
    {
        let mut data: Vec<u8> = Vec::new();
        data.push(END_OF_TRANSMISSION);
        proof {
            assert(data@ =~= seq![END_OF_TRANSMISSION]);
        }
        Packet { data }
    }

    /// The bytes to write.
    pub fn data(&self) -> (r: &[u8])
        ensures
            r@ == self@,
    {
        self.data.as_slice()
    }
}

/// What a byte read from the receiver means (see [`spec_response_of`]).
pub fn response_of(byte: Option<u8>) -> (r: Option<bool>)
    ensures
        r == spec_response_of(byte),
{
    match byte {
        Some(ACKNOWLEDGE) => Some(true),
        Some(NEGATIVE_ACKNOWLEDGE) => Some(false),
        _ => None,
    }
}

/// Where a transfer stands.
pub enum Stage {
    /// Waiting for the receiver's negative acknowledgement, which starts the transfer.
    AwaitingStart,
    /// Waiting for the next chunk of the source.
    AwaitingChunk,
    /// Waiting for the current packet to be written.
    Writing,
    /// Waiting for the receiver to acknowledge the current packet.
    AwaitingResponse,
    /// Done, with the outcome of the transfer.
    Finished(Result<(), Error>),
}

/// What happened since the last step of a transfer.
pub enum TransferEvent {
    /// A short read of the line returned this byte, or none (nothing came in time).
    Received(Option<u8>),
    /// A read of the line failed.
    LineFailed,
    /// The pause between two reads is over; `now` is the time in milliseconds.
    Waited(u64),
    /// The next bytes of the source, at most a payload's size: none at its end.
    Chunk(Vec<u8>),
    /// Reading the source failed.
    SourceFailed,
    /// The current packet was written whole (`true`) or not; the second field is the time
    /// in milliseconds after the write.
    Written(bool, u64),
}

/// The mathematical value of a [`TransferEvent`].
pub enum EventView {
    Received(Option<u8>),
    LineFailed,
    Waited(u64),
    Chunk(Seq<u8>),
    SourceFailed,
    Written(bool, u64),
}

impl View for TransferEvent {
    type V = EventView;

    open spec fn view(&self) -> EventView {
        match self {
            TransferEvent::Received(b) => EventView::Received(*b),
            TransferEvent::LineFailed => EventView::LineFailed,
            TransferEvent::Waited(now) => EventView::Waited(*now),
            TransferEvent::Chunk(c) => EventView::Chunk(c@),
            TransferEvent::SourceFailed => EventView::SourceFailed,
            TransferEvent::Written(ok, now) => EventView::Written(*ok, *now),
        }
    }
}

/// What the driver of a transfer does next.
pub enum TransferAction {
    /// Read the line once, briefly, and report `Received`.
    Read,
    /// Pause this many milliseconds, then report `Waited`.
    Pause(u64),
    /// Read the next chunk of the source and report `Chunk` or `SourceFailed`.
    ReadChunk,
    /// Write these bytes to the line and report `Written`.
    Write(Vec<u8>),
    /// Stop: the transfer is over, with this outcome.
    Finish(Result<(), Error>),
}

/// The mathematical value of a [`TransferAction`].
pub enum ActionView {
    Read,
    Pause(u64),
    ReadChunk,
    Write(Seq<u8>),
    Finish(Result<(), Error>),
}

impl View for TransferAction {
    type V = ActionView;

    open spec fn view(&self) -> ActionView {
        match self {
            TransferAction::Read => ActionView::Read,
            TransferAction::Pause(ms) => ActionView::Pause(*ms),
            TransferAction::ReadChunk => ActionView::ReadChunk,
            TransferAction::Write(bytes) => ActionView::Write(bytes@),
            TransferAction::Finish(r) => ActionView::Finish(*r),
        }
    }
}

/// The state of one transfer, as a value.
pub struct SessionView {
    pub stage: Stage,
    /// The sequence number of the current data packet.
    pub sequence: u8,
    /// How many times the current packet has been written.
    pub attempts: usize,
    /// The bytes of the current packet.
    pub packet: Seq<u8>,
    /// Whether the current packet is the end of transmission.
    pub last: bool,
    /// When the current wait for a response began, in milliseconds.
    pub wait_start: u64,
}

/// The time passed since `start`, none where the clock reads earlier.
pub open spec fn elapsed(start: u64, now: u64) -> int {
    if now >= start { now - start } else { 0 }
}

/// The session that has ended with `result`.
pub open spec fn finished(s: SessionView, result: Result<(), Error>) -> (SessionView, ActionView) {
    (SessionView { stage: Stage::Finished(result), ..s }, ActionView::Finish(result))
}

/// A pause is over at `now`: read again, or give up the wait once it has lasted the timeout.
pub open spec fn after_pause(s: SessionView, now: u64) -> (SessionView, ActionView) {
    if elapsed(s.wait_start, now) < TIMEOUT_MS {
        (s, ActionView::Read)
    } else {
        finished(s, Err(Error::Timeout))
    }
}

/// One step of a transfer: the next state and action after `e`. While waiting for the
/// start, a failed read of the line ends the transfer; while waiting for a packet's
/// response, it counts as no byte, as line noise does.
pub open spec fn spec_step(s: SessionView, e: EventView) -> (SessionView, ActionView) {
    match s.stage {
        Stage::Finished(result) => (s, ActionView::Finish(result)),
        Stage::AwaitingStart => match e {
            EventView::Received(byte) => match spec_response_of(byte) {
                Some(false) => (SessionView { stage: Stage::AwaitingChunk, ..s }, ActionView::ReadChunk),
                Some(true) => finished(s, Err(Error::ReadFailed)),
                None => (s, ActionView::Pause(DELAY_MS)),
            },
            EventView::LineFailed => finished(s, Err(Error::ReadFailed)),
            EventView::Waited(now) => after_pause(s, now),
            _ => finished(s, Err(Error::InvalidOperation)),
        },
        Stage::AwaitingChunk => match e {
            EventView::Chunk(c) => if c.len() == 0 {
                let p = seq![END_OF_TRANSMISSION];
                (SessionView { stage: Stage::Writing, attempts: 0, packet: p, last: true, ..s }, ActionView::Write(p))
            } else if c.len() <= PAYLOAD_SIZE {
                let p = spec_frame(s.sequence, c);
                (SessionView { stage: Stage::Writing, attempts: 0, packet: p, last: false, ..s }, ActionView::Write(p))
            } else {
                finished(s, Err(Error::InvalidOperation))
            },
            EventView::SourceFailed => finished(s, Err(Error::ReadFailed)),
            _ => finished(s, Err(Error::InvalidOperation)),
        },
        Stage::Writing => match e {
            EventView::Written(ok, now) => if ok {
                (
                    SessionView {
                        stage: Stage::AwaitingResponse,
                        attempts: (s.attempts + 1) as usize,
                        wait_start: now,
                        ..s
                    },
                    ActionView::Read,
                )
            } else {
                finished(s, Err(Error::WriteFailed))
            },
            _ => finished(s, Err(Error::InvalidOperation)),
        },
        Stage::AwaitingResponse => match e {
            EventView::Received(byte) => match spec_response_of(byte) {
                Some(true) => if s.last {
                    finished(s, Ok(()))
                } else {
                    (
                        SessionView { stage: Stage::AwaitingChunk, sequence: next_sequence(s.sequence), ..s },
                        ActionView::ReadChunk,
                    )
                },
                Some(false) => if s.attempts < MAX_ATTEMPTS {
                    (SessionView { stage: Stage::Writing, ..s }, ActionView::Write(s.packet))
                } else {
                    finished(s, Err(Error::BrokenLimb))
                },
                None => (s, ActionView::Pause(DELAY_MS)),
            },
            EventView::LineFailed => (s, ActionView::Pause(DELAY_MS)),
            EventView::Waited(now) => after_pause(s, now),
            _ => finished(s, Err(Error::InvalidOperation)),
        },
    }
}

/// The state of one transfer of a file over a serial line. A driver performs each
/// action that [`TransferSession::step`] returns and reports what happened, until
/// the action is `Finish`.
pub struct TransferSession {
    stage: Stage,
    sequence: u8,
    attempts: usize,
    packet: Vec<u8>,
    last: bool,
    wait_start: u64,
}

impl View for TransferSession {
    type V = SessionView;

    closed spec fn view(&self) -> SessionView {
        SessionView {
            stage: self.stage,
            sequence: self.sequence,
            attempts: self.attempts,
            packet: self.packet@,
            last: self.last,
            wait_start: self.wait_start,
        }
    }
}

/// A packet is never written more than the maximum number of attempts.
pub open spec fn attempts_bounded(s: SessionView) -> bool {
    &&& s.attempts <= MAX_ATTEMPTS
    &&& s.stage is Writing ==> s.attempts < MAX_ATTEMPTS
}

impl TransferSession {
    #[verifier::type_invariant]
    closed spec fn bounded(&self) -> bool {
        attempts_bounded(self@)
    }

    /// A transfer that begins at `now` (in milliseconds) by waiting for the receiver to
    /// ask for the first packet; the first action is to read the line.
    pub fn new(now: u64) -> (r: (TransferSession, TransferAction))
        ensures
            r.0@ == (SessionView {
                stage: Stage::AwaitingStart,
                sequence: 1,
                attempts: 0,
                packet: Seq::empty(),
                last: false,
                wait_start: now,
            }),
            r.1@ == ActionView::Read,
    {
        let s = TransferSession {
            stage: Stage::AwaitingStart,
            sequence: 1,
            attempts: 0,
            packet: Vec::new(),
            last: false,
            wait_start: now,
        };
        (s, TransferAction::Read)
    }

    /// Whether the transfer is over.
    pub fn is_finished(&self) -> (r: bool)
        ensures
            r == (self@.stage is Finished),
    {
        match self.stage {
            Stage::Finished(_) => true,
            _ => false,
        }
    }

    fn finish(self, result: Result<(), Error>) -> (r: (TransferSession, TransferAction))
        ensures
            (r.0@, r.1@) == finished(self@, result),
    {
        proof {
            use_type_invariant(&self);
        }
        let s = TransferSession { stage: Stage::Finished(result), ..self };
        (s, TransferAction::Finish(result))
    }

    fn pause_over(self, now: u64) -> (r: (TransferSession, TransferAction))
        ensures
            (r.0@, r.1@) == after_pause(self@, now),
    {
        let waited: u64 = if now >= self.wait_start {
            now - self.wait_start
        } else {
            0
        };
        if waited < TIMEOUT_MS {
            (self, TransferAction::Read)
        } else {
            self.finish(Err(Error::Timeout))
        }
    }

    /// The next state and action of the transfer after `event`.
    pub fn step(self, event: TransferEvent) -> (r: (TransferSession, TransferAction))
        ensures
            (r.0@, r.1@) == spec_step(self@, event@),
    {
        proof {
            use_type_invariant(&self);
        }
        match self.stage {
            Stage::Finished(result) => (self, TransferAction::Finish(result)),
            Stage::AwaitingStart => match event {
                TransferEvent::Received(byte) => match response_of(byte) {
                    Some(false) => (TransferSession { stage: Stage::AwaitingChunk, ..self }, TransferAction::ReadChunk),
                    Some(true) => self.finish(Err(Error::ReadFailed)),
                    None => (self, TransferAction::Pause(DELAY_MS)),
                },
                TransferEvent::LineFailed => self.finish(Err(Error::ReadFailed)),
                TransferEvent::Waited(now) => self.pause_over(now),
                _ => self.finish(Err(Error::InvalidOperation)),
            },
            Stage::AwaitingChunk => match event {
                TransferEvent::Chunk(c) => if c.len() == 0 {
                    let p = Packet::end_of_transmission();
                    let bytes = p.data.clone();
                    proof {
                        assert(bytes@ == p.data@);
                    }
                    let s = TransferSession { stage: Stage::Writing, attempts: 0, packet: p.data, last: true, ..self };
                    (s, TransferAction::Write(bytes))
                } else if c.len() <= PAYLOAD_SIZE {
                    let p = Packet::new(self.sequence, c.as_slice());
                    let bytes = p.data.clone();
                    proof {
                        assert(bytes@ == p.data@);
                    }
                    let s = TransferSession { stage: Stage::Writing, attempts: 0, packet: p.data, last: false, ..self };
                    (s, TransferAction::Write(bytes))
                } else {
                    self.finish(Err(Error::InvalidOperation))
                },
                TransferEvent::SourceFailed => self.finish(Err(Error::ReadFailed)),
                _ => self.finish(Err(Error::InvalidOperation)),
            },
            Stage::Writing => match event {
                TransferEvent::Written(ok, now) => if ok {
                    let attempts = self.attempts + 1;
                    (
                        TransferSession { stage: Stage::AwaitingResponse, attempts, wait_start: now, ..self },
                        TransferAction::Read,
                    )
                } else {
                    self.finish(Err(Error::WriteFailed))
                },
                _ => self.finish(Err(Error::InvalidOperation)),
            },
            Stage::AwaitingResponse => match event {
                TransferEvent::Received(byte) => match response_of(byte) {
                    Some(true) => if self.last {
                        self.finish(Ok(()))
                    } else {
                        let sequence: u8 = if self.sequence == 255 {
                            0
                        } else {
                            self.sequence + 1
                        };
                        (TransferSession { stage: Stage::AwaitingChunk, sequence, ..self }, TransferAction::ReadChunk)
                    },
                    Some(false) => if self.attempts < MAX_ATTEMPTS {
                        let bytes = self.packet.clone();
                        proof {
                            assert(bytes@ == self.packet@);
                        }
                        (TransferSession { stage: Stage::Writing, ..self }, TransferAction::Write(bytes))
                    } else {
                        self.finish(Err(Error::BrokenLimb))
                    },
                    None => (self, TransferAction::Pause(DELAY_MS)),
                },
                TransferEvent::LineFailed => (self, TransferAction::Pause(DELAY_MS)),
                TransferEvent::Waited(now) => self.pause_over(now),
                _ => self.finish(Err(Error::InvalidOperation)),
            },
        }
    }
}

/// The outcome that a file-transfer limb keeps from its last transfer, until it is read.
pub struct XModem {
    last_status: Option<bool>,
}

impl View for XModem {
    type V = Option<bool>;

    /// Whether the last transfer succeeded, if one ended and was not read since.
    closed spec fn view(&self) -> Option<bool> {
        self.last_status
    }
}

impl XModem {
    pub fn new() -> (r: XModem)
        ensures
            r@ is None,
    {
        XModem { last_status: None }
    }

    /// Keeps the outcome of a transfer that has ended.
    pub fn record(&mut self, result: Result<(), Error>)
        ensures
            final(self)@ == Some(result is Ok),
    {
        self.last_status = Some(result.is_ok());
    }

    /// The outcome of the last transfer, "Success" or "Failure", which is then forgotten;
    /// an invalid operation where there is none.
    pub fn get(&mut self) -> (r: Result<String, Error>)
        ensures
            final(self)@ is None,
            match old(self)@ {
                Some(true) => r is Ok && r->Ok_0@ == "Success"@,
                Some(false) => r is Ok && r->Ok_0@ == "Failure"@,
                None => r == Err::<String, Error>(Error::InvalidOperation),
            },
    {
        let status = self.last_status;
        self.last_status = None;
        match status {
            Some(true) => Ok("Success".to_owned()),
            Some(false) => Ok("Failure".to_owned()),
            None => Err(Error::InvalidOperation),
        }
    }

    pub fn kind_name(&self) -> (r: &'static str)
        ensures
            r@ == "xmodem"@,
    {
        "xmodem"
    }
}

/// The state and the actions of a transfer after `events`, one step each.
pub open spec fn run(s: SessionView, events: Seq<EventView>) -> (SessionView, Seq<ActionView>)
    decreases events.len(),
{
    if events.len() == 0 {
        (s, Seq::empty())
    } else {
        let (before, actions) = run(s, events.drop_last());
        let (after, a) = spec_step(before, events.last());
        (after, actions.push(a))
    }
}

/// `n` rounds in which the current packet is written whole, at `now`, and the receiver
/// answers with `reply`.
pub open spec fn exchanges(n: nat, reply: u8, now: u64) -> Seq<EventView>
    decreases n,
{
    if n == 0 {
        Seq::empty()
    } else {
        exchanges((n - 1) as nat, reply, now) + seq![EventView::Written(true, now), EventView::Received(Some(reply))]
    }
}

/// The actions of `n` rounds in which a packet is refused and written again.
pub open spec fn rewrites(n: nat, packet: Seq<u8>) -> Seq<ActionView>
    decreases n,
{
    if n == 0 {
        Seq::empty()
    } else {
        rewrites((n - 1) as nat, packet) + seq![ActionView::Read, ActionView::Write(packet)]
    }
}

/// The session `s` waiting for the write of its packet, written `k` times so far.
pub open spec fn writing_again(s: SessionView, k: nat, now: u64) -> SessionView {
    SessionView {
        stage: Stage::Writing,
        attempts: k as usize,
        wait_start: if k == 0 { s.wait_start } else { now },
        ..s
    }
}

proof fn lemma_run_two(s: SessionView, events: Seq<EventView>, a: EventView, b: EventView)
    ensures
        ({
            let (mid, acts) = run(s, events);
            let (s1, x) = spec_step(mid, a);
            let (s2, y) = spec_step(s1, b);
            run(s, events + seq![a, b]) == (s2, acts + seq![x, y])
        }),
{
    let all = events + seq![a, b];
    let one = events + seq![a];
    assert(all.drop_last() =~= one);
    assert(one.drop_last() =~= events);
    let (mid, acts) = run(s, events);
    let (s1, x) = spec_step(mid, a);
    let (s2, y) = spec_step(s1, b);
    assert(run(s, one) == (s1, acts.push(x)));
    assert(run(s, all) == (s2, acts.push(x).push(y)));
    assert(acts.push(x).push(y) =~= acts + seq![x, y]);
}

proof fn lemma_refusals(s: SessionView, k: nat, now: u64)
    requires
        s.stage is Writing,
        s.attempts == 0,
        k < MAX_ATTEMPTS,
    ensures
        run(s, exchanges(k, NEGATIVE_ACKNOWLEDGE, now)) == (writing_again(s, k, now), rewrites(k, s.packet)),
    decreases k,
{
    if k == 0 {
        assert(writing_again(s, 0, now) == s);
    } else {
        lemma_refusals(s, (k - 1) as nat, now);
        lemma_run_two(
            s,
            exchanges((k - 1) as nat, NEGATIVE_ACKNOWLEDGE, now),
            EventView::Written(true, now),
            EventView::Received(Some(NEGATIVE_ACKNOWLEDGE)),
        );
    }
}

/// A data packet that the receiver refuses `n - 1` times and then accepts, with `n` at most
/// the maximum number of attempts, is written again after each refusal, always with the
/// same bytes, and the transfer goes on to the next packet with the next sequence number.
pub proof fn lemma_retry_then_accept(s: SessionView, n: nat, now: u64)
    requires
        s.stage is Writing,
        s.attempts == 0,
        !s.last,
        1 <= n <= MAX_ATTEMPTS,
    ensures
        ({
            let (after, actions) = run(
                s,
                exchanges((n - 1) as nat, NEGATIVE_ACKNOWLEDGE, now) + exchanges(1, ACKNOWLEDGE, now),
            );
            &&& after.stage is AwaitingChunk
            &&& after.sequence == next_sequence(s.sequence)
            &&& actions == rewrites((n - 1) as nat, s.packet) + seq![ActionView::Read, ActionView::ReadChunk]
        }),
{
    lemma_refusals(s, (n - 1) as nat, now);
    assert(exchanges(0, ACKNOWLEDGE, now) == Seq::<EventView>::empty());
    assert(exchanges(1, ACKNOWLEDGE, now) =~= seq![
        EventView::Written(true, now),
        EventView::Received(Some(ACKNOWLEDGE)),
    ]);
    lemma_run_two(
        s,
        exchanges((n - 1) as nat, NEGATIVE_ACKNOWLEDGE, now),
        EventView::Written(true, now),
        EventView::Received(Some(ACKNOWLEDGE)),
    );
}

/// A packet that the receiver refuses at every one of the maximum number of attempts ends
/// the transfer as a broken limb.
pub proof fn lemma_refused_packet_fails(s: SessionView, now: u64)
    requires
        s.stage is Writing,
        s.attempts == 0,
    ensures
        ({
            let (after, actions) = run(s, exchanges(MAX_ATTEMPTS as nat, NEGATIVE_ACKNOWLEDGE, now));
            &&& after.stage == Stage::Finished(Err(Error::BrokenLimb))
            &&& actions == rewrites((MAX_ATTEMPTS - 1) as nat, s.packet) + seq![
                ActionView::Read,
                ActionView::Finish(Err(Error::BrokenLimb)),
            ]
        }),
{
    lemma_refusals(s, (MAX_ATTEMPTS - 1) as nat, now);
    lemma_run_two(
        s,
        exchanges((MAX_ATTEMPTS - 1) as nat, NEGATIVE_ACKNOWLEDGE, now),
        EventView::Written(true, now),
        EventView::Received(Some(NEGATIVE_ACKNOWLEDGE)),
    );
}

/// A transfer that has ended stays ended: whatever happens next, it writes nothing more
/// and only reports its outcome.
pub proof fn lemma_finished_is_final(s: SessionView, events: Seq<EventView>)
    requires
        s.stage is Finished,
    ensures
        run(s, events).0 == s,
        run(s, events).1.len() == events.len(),
        forall|i: int| 0 <= i < events.len() ==> run(s, events).1[i] == ActionView::Finish(s.stage->Finished_0),
    decreases events.len(),
{
    if events.len() > 0 {
        lemma_finished_is_final(s, events.drop_last());
    }
}

/// Rounds in which a read of the line brings nothing and the pause after it ends at the
/// given times.
pub open spec fn silent_rounds(times: Seq<u64>) -> Seq<EventView>
    decreases times.len(),
{
    if times.len() == 0 {
        Seq::empty()
    } else {
        silent_rounds(times.drop_last()) + seq![EventView::Received(None), EventView::Waited(times.last())]
    }
}

proof fn lemma_silence(s: SessionView, times: Seq<u64>)
    requires
        s.stage is AwaitingStart || s.stage is AwaitingResponse,
    ensures
        run(s, silent_rounds(times)).0 == s || run(s, silent_rounds(times)).0 == finished(s, Err(Error::Timeout)).0,
        times.len() > 0 && times.last() >= s.wait_start + TIMEOUT_MS
            ==> run(s, silent_rounds(times)).0 == finished(s, Err(Error::Timeout)).0,
    decreases times.len(),
{
    if times.len() > 0 {
        let rest = times.drop_last();
        lemma_silence(s, rest);
        lemma_run_two(s, silent_rounds(rest), EventView::Received(None), EventView::Waited(times.last()));
    }
}

proof fn lemma_pauses_add_up(start: u64, times: Seq<u64>, k: int)
    requires
        0 <= k < times.len(),
        times[0] >= start + DELAY_MS,
        forall|i: int| 0 <= i < times.len() - 1 ==> #[trigger] times[i + 1] >= times[i] + DELAY_MS,
    ensures
        times[k] >= start + (k + 1) * DELAY_MS,
    decreases k,
{
    if k > 0 {
        lemma_pauses_add_up(start, times, k - 1);
        assert(times[k] >= times[k - 1] + DELAY_MS);
    }
}

/// A receiver that never answers ends a wait with a timeout: after as many pauses of at
/// least the delay as fit in the timeout, the transfer has ended with `Timeout`.
pub proof fn lemma_silent_receiver_times_out(s: SessionView, times: Seq<u64>)
    requires
        s.stage is AwaitingStart || s.stage is AwaitingResponse,
        times.len() == TIMEOUT_MS / DELAY_MS,
        times[0] >= s.wait_start + DELAY_MS,
        forall|i: int| 0 <= i < times.len() - 1 ==> #[trigger] times[i + 1] >= times[i] + DELAY_MS,
    ensures
        run(s, silent_rounds(times)).0.stage == Stage::Finished(Err(Error::Timeout)),
{
    lemma_pauses_add_up(s.wait_start, times, times.len() - 1);
    lemma_silence(s, times);
}

} // verus!
