//! An RFCOMM channel to a printer: opening it, reading from it, writing to it
//! and closing it.
//!
//! The channel itself belongs to the system. What is decided here is what to
//! ask of the system next, and what its answers come to. Times are nanoseconds
//! on a clock that never runs backwards.

use vstd::prelude::*;
use std::collections::VecDeque;

use crate::error::{outcome, ErrorModel, PtouchError};
use crate::pairing::bt;
use crate::text::{hex_code, hex_value, law_hex_codes_are_read_back, push_hex_code};

verus! {

/// Most bytes that wait to be read.
pub const RECEIVE_LIMIT: usize = 65536;

/// Most bytes in one write.
pub const WRITE_LIMIT: usize = 1024;

/// The service class of a serial port.
pub const SERIAL_PORT: u16 = 0x1101;

/// Time for the service discovery: 8 s.
pub const DISCOVERY_TIMEOUT: u64 = 8_000_000_000;

/// Time for the channel to open: 15 s.
pub const OPEN_TIMEOUT: u64 = 15_000_000_000;

/// Time for the notification that the channel is closed: 1 s.
pub const CLOSE_TIMEOUT: u64 = 1_000_000_000;

/// Time to let a closed connection settle: 250 ms.
pub const SETTLE_TIME: u64 = 250_000_000;

/// The Bluetooth error with a message and a result code of the system.
pub open spec fn coded(message: Seq<char>, code: i32) -> ErrorModel {
    ErrorModel::Bluetooth(message + hex_code(code as u32))
}

/// A Bluetooth error with a message and a result code of the system.
pub fn bt_code(message: &str, code: i32) -> (r: PtouchError)
    ensures
        r@ == coded(message@, code),
{
    let mut text: String = message.to_string();
    push_hex_code(&mut text, code as u32);
    PtouchError::Bluetooth(text)
}

// ---------------------------------------------------------------------
// Waiting
// ---------------------------------------------------------------------

/// What to do about something awaited.
#[derive(Debug, Clone, Copy, PartialEq, Eq, Structural)]
pub enum WaitTurn {
    /// It has come.
    Ready,
    /// Time is up.
    Expired,
    /// Let the system deliver its events, then look again.
    Pump,
}

/// Decide what to do about something awaited until `until`. What has come counts
/// even when time is up.
pub fn wait_turn(ready: bool, until: u64, now: u64) -> (r: WaitTurn)
    ensures
        r == if ready {
            WaitTurn::Ready
        } else if now >= until {
            WaitTurn::Expired
        } else {
            WaitTurn::Pump
        },
{
    if ready {
        WaitTurn::Ready
    } else if now >= until {
        WaitTurn::Expired
    } else {
        WaitTurn::Pump
    }
}

// ---------------------------------------------------------------------
// The state of a channel
// ---------------------------------------------------------------------

/// What is known of a channel from the notifications of the system.
pub struct Channel {
    overflow: bool,
    opened: Option<i32>,
    disconnected: bool,
    closed: bool,
    rx: VecDeque<u8>,
}

/// The value of a [`Channel`].
pub struct ChannelModel {
    /// More has arrived than may wait to be read.
    pub overflow: bool,
    /// The result code of opening, once there is one.
    pub opened: Option<i32>,
    /// The system has reported the channel closed.
    pub disconnected: bool,
    /// The channel was shut down from this side.
    pub closed: bool,
    /// The bytes that wait to be read.
    pub rx: Seq<u8>,
}

impl View for Channel {
    type V = ChannelModel;

    closed spec fn view(&self) -> ChannelModel {
        ChannelModel {
            overflow: self.overflow,
            opened: self.opened,
            disconnected: self.disconnected,
            closed: self.closed,
            rx: self.rx@,
        }
    }
}

impl ChannelModel {
    /// What holds of every channel.
    pub open spec fn wf(self) -> bool {
        self.rx.len() <= RECEIVE_LIMIT
    }

    /// The channel once `bytes` have arrived. What does not fit is dropped as a
    /// whole, and the overflow is remembered.
    pub open spec fn arrived(self, bytes: Seq<u8>) -> ChannelModel {
        if self.rx.len() + bytes.len() > RECEIVE_LIMIT {
            ChannelModel { overflow: true, ..self }
        } else {
            ChannelModel { rx: self.rx + bytes, ..self }
        }
    }

    /// Whether nothing more can be sent or received.
    pub open spec fn dead(self) -> bool {
        self.closed || self.disconnected
    }

    /// Whether a read has something to go by.
    pub open spec fn readable(self) -> bool {
        self.rx.len() > 0 || self.disconnected || self.overflow
    }

    /// How a read of up to `capacity` bytes starts.
    pub open spec fn reading(self, capacity: usize) -> ReadModel {
        if capacity == 0 {
            ReadModel::Taken(Seq::empty())
        } else if self.dead() {
            ReadModel::Failed {
                error: ErrorModel::Bluetooth("RFCOMM disconnected while reading"@),
                shut_down: false,
            }
        } else {
            ReadModel::Await
        }
    }

    /// How many bytes a read of up to `capacity` takes.
    pub open spec fn takes(self, capacity: usize) -> nat {
        if self.rx.len() < capacity {
            self.rx.len()
        } else {
            capacity as nat
        }
    }

    /// The channel and the result once a read is no longer awaited.
    pub open spec fn awaited(self, ready: bool, capacity: usize) -> (ChannelModel, ReadModel) {
        if !ready {
            (self, ReadModel::Failed { error: ErrorModel::Timeout, shut_down: false })
        } else if self.overflow {
            (
                self,
                ReadModel::Failed {
                    error: ErrorModel::Bluetooth("Bluetooth receive buffer exceeded its limit"@),
                    shut_down: true,
                },
            )
        } else if self.rx.len() == 0 && self.disconnected {
            (
                self,
                ReadModel::Failed {
                    error: ErrorModel::Bluetooth("RFCOMM disconnected while reading"@),
                    shut_down: false,
                },
            )
        } else {
            let n = self.takes(capacity) as int;
            (
                ChannelModel { rx: self.rx.skip(n), ..self },
                ReadModel::Taken(self.rx.take(n)),
            )
        }
    }
}

/// How a read goes on, or its result.
pub enum ReadStep {
    /// Wait until the channel is readable or time is up.
    Await,
    /// The bytes that were read.
    Taken(Vec<u8>),
    /// The read failed; the channel has to be shut down where that is said.
    Failed { error: PtouchError, shut_down: bool },
}

/// The value of a [`ReadStep`].
pub enum ReadModel {
    Await,
    Taken(Seq<u8>),
    Failed { error: ErrorModel, shut_down: bool },
}

impl View for ReadStep {
    type V = ReadModel;

    open spec fn view(&self) -> ReadModel {
        match self {
            ReadStep::Await => ReadModel::Await,
            ReadStep::Taken(bytes) => ReadModel::Taken(bytes@),
            ReadStep::Failed { error, shut_down } => ReadModel::Failed {
                error: error@,
                shut_down: *shut_down,
            },
        }
    }
}

impl Channel {
    /// What holds of every channel.
    #[verifier::type_invariant]
    spec fn within_limit(&self) -> bool {
        self.rx@.len() <= RECEIVE_LIMIT
    }

    /// A channel of which nothing has been heard yet.
    pub fn new() -> (r: Self)
        ensures
            r@ == (ChannelModel {
                overflow: false,
                opened: None,
                disconnected: false,
                closed: false,
                rx: Seq::empty(),
            }),
    {
        Channel {
            overflow: false,
            opened: None,
            disconnected: false,
            closed: false,
            rx: VecDeque::new(),
        }
    }

    /// The system reports what opening the channel came to.
    pub fn on_opened(&mut self, status: i32)
        ensures
            final(self)@ == (ChannelModel { opened: Some(status), ..old(self)@ }),
    {
        proof {
            use_type_invariant(&*self);
        }
        self.opened = Some(status);
    }

    /// The system reports the channel closed.
    pub fn on_closed(&mut self)
        ensures
            final(self)@ == (ChannelModel { disconnected: true, ..old(self)@ }),
    {
        proof {
            use_type_invariant(&*self);
        }
        self.disconnected = true;
    }

    /// Bytes have arrived.
    pub fn on_data(&mut self, bytes: &[u8])
        ensures
            final(self)@ == old(self)@.arrived(bytes@),
    {
        proof {
            use_type_invariant(&*self);
        }
        if bytes.len() > RECEIVE_LIMIT - self.rx.len() {
            self.overflow = true;
            return;
        }
        let mut rx: VecDeque<u8> = VecDeque::new();
        std::mem::swap(&mut rx, &mut self.rx);
        let ghost before = rx@;
        let mut i: usize = 0;
        while i < bytes.len()
            invariant
                i <= bytes@.len(),
                rx@ == before + bytes@.take(i as int),
            decreases bytes@.len() - i,
        {
            rx.push_back(bytes[i]);
            i = i + 1;
            assert(rx@ =~= before + bytes@.take(i as int));
        }
        assert(bytes@.take(i as int) =~= bytes@);
        self.rx = rx;
    }

    /// The result code of opening, once there is one.
    pub fn opened(&self) -> (r: Option<i32>)
        ensures
            r == self@.opened,
    {
        self.opened
    }

    /// Whether the system has reported the channel closed.
    pub fn is_disconnected(&self) -> (r: bool)
        ensures
            r == self@.disconnected,
    {
        self.disconnected
    }

    /// Whether nothing more can be sent or received.
    pub fn is_dead(&self) -> (r: bool)
        ensures
            r == self@.dead(),
    {
        self.closed || self.disconnected
    }

    /// Whether a read has something to go by.
    pub fn is_readable(&self) -> (r: bool)
        ensures
            r == self@.readable(),
    {
        self.rx.len() > 0 || self.disconnected || self.overflow
    }

    /// Start a read of up to `capacity` bytes.
    pub fn begin_read(&self, capacity: usize) -> (r: ReadStep)
        ensures
            r@ == self@.reading(capacity),
    {
        if capacity == 0 {
            let none: Vec<u8> = Vec::new();
            assert(none@ =~= Seq::empty());
            return ReadStep::Taken(none);
        }
        if self.is_dead() {
            return ReadStep::Failed {
                error: bt("RFCOMM disconnected while reading"),
                shut_down: false,
            };
        }
        ReadStep::Await
    }

    /// Finish a read that was awaited: `ready` says whether the channel became
    /// readable in time.
    pub fn finish_read(&mut self, ready: bool, capacity: usize) -> (r: ReadStep)
        ensures
            (final(self)@, r@) == old(self)@.awaited(ready, capacity),
    {
        proof {
            use_type_invariant(&*self);
        }
        if !ready {
            return ReadStep::Failed { error: PtouchError::Timeout, shut_down: false };
        }
        if self.overflow {
            return ReadStep::Failed {
                error: bt("Bluetooth receive buffer exceeded its limit"),
                shut_down: true,
            };
        }
        if self.rx.len() == 0 && self.disconnected {
            return ReadStep::Failed {
                error: bt("RFCOMM disconnected while reading"),
                shut_down: false,
            };
        }
        let count: usize = if self.rx.len() < capacity {
            self.rx.len()
        } else {
            capacity
        };
        let mut rx: VecDeque<u8> = VecDeque::new();
        std::mem::swap(&mut rx, &mut self.rx);
        let ghost before = rx@;
        let mut bytes: Vec<u8> = Vec::new();
        assert(before.skip(0) =~= before);
        while bytes.len() < count
            invariant
                bytes@.len() <= count <= before.len() <= RECEIVE_LIMIT,
                bytes@ == before.take(bytes@.len() as int),
                rx@ == before.skip(bytes@.len() as int),
            decreases count - bytes@.len(),
        {
            let ghost n = bytes@.len() as int;
            if let Some(byte) = rx.pop_front() {
                bytes.push(byte);
                assert(bytes@ =~= before.take(n + 1));
                assert(rx@ =~= before.skip(n + 1));
            }
        }
        self.rx = rx;
        ReadStep::Taken(bytes)
    }

    /// Start to shut the channel down. Says whether there is anything to do: a
    /// channel is shut down once.
    pub fn begin_shutdown(&mut self) -> (r: bool)
        ensures
            r == !old(self)@.closed,
            final(self)@ == (ChannelModel { closed: true, ..old(self)@ }),
    {
        proof {
            use_type_invariant(&*self);
        }
        if self.closed {
            return false;
        }
        self.closed = true;
        true
    }
}

// ---------------------------------------------------------------------
// Writing
// ---------------------------------------------------------------------

/// The size of a write on a channel that takes up to `mtu` bytes at once.
pub open spec fn write_size(mtu: u16) -> nat {
    if mtu < 1 {
        1
    } else if mtu > WRITE_LIMIT {
        WRITE_LIMIT as nat
    } else {
        mtu as nat
    }
}

/// Bytes on their way, piece by piece.
pub struct Writing {
    bytes: Vec<u8>,
    offset: usize,
    size: usize,
    deadline: u64,
}

/// The value of a [`Writing`].
pub struct WritingModel {
    /// What has not been written yet.
    pub rest: Seq<u8>,
    /// The size of a write.
    pub size: nat,
    pub deadline: u64,
}

impl View for Writing {
    type V = WritingModel;

    closed spec fn view(&self) -> WritingModel {
        WritingModel {
            rest: self.bytes@.skip(self.offset as int),
            size: self.size as nat,
            deadline: self.deadline,
        }
    }
}

/// What a write asks for next, or its result. The channel has to be shut down
/// after every failure.
pub enum WriteStep {
    /// Hand over a piece.
    Write { writing: Writing, piece: Vec<u8> },
    /// Wait until the piece is reported written, or the channel closed, or time
    /// is up.
    Await { writing: Writing, timeout: u64 },
    /// The write is over.
    Done(Result<(), PtouchError>),
}

/// The value of a [`WriteStep`].
pub enum WriteModel {
    Write { writing: WritingModel, piece: Seq<u8> },
    Await { writing: WritingModel, timeout: u64 },
    Done(Result<(), ErrorModel>),
}

impl View for WriteStep {
    type V = WriteModel;

    open spec fn view(&self) -> WriteModel {
        match self {
            WriteStep::Write { writing, piece } => WriteModel::Write {
                writing: writing@,
                piece: piece@,
            },
            WriteStep::Await { writing, timeout } => WriteModel::Await {
                writing: writing@,
                timeout: *timeout,
            },
            WriteStep::Done(Ok(())) => WriteModel::Done(Ok(())),
            WriteStep::Done(Err(e)) => WriteModel::Done(Err(e@)),
        }
    }
}

impl WriteModel {
    /// Whether everything has been written.
    pub open spec fn is_success(self) -> bool {
        self matches WriteModel::Done(r) && r is Ok
    }
}

impl WritingModel {
    /// What holds of every write under way.
    pub open spec fn wf(self) -> bool {
        1 <= self.size <= WRITE_LIMIT
    }

    /// The piece that comes next.
    pub open spec fn piece(self) -> Seq<u8> {
        if self.rest.len() < self.size {
            self.rest
        } else {
            self.rest.take(self.size as int)
        }
    }

    /// The write once the next piece is through.
    pub open spec fn advanced(self) -> WritingModel {
        WritingModel { rest: self.rest.skip(self.piece().len() as int), ..self }
    }

    /// How the write goes on at `now`.
    pub open spec fn next(self, now: u64) -> WriteModel {
        if self.rest.len() == 0 {
            WriteModel::Done(Ok(()))
        } else if now >= self.deadline {
            WriteModel::Done(Err(ErrorModel::Timeout))
        } else {
            WriteModel::Write { writing: self, piece: self.piece() }
        }
    }

    /// How the write goes on once the system has accepted the piece, or not.
    pub open spec fn started(self, code: i32, now: u64) -> WriteModel {
        if code != 0 {
            WriteModel::Done(Err(coded("RFCOMM write rejected: "@, code)))
        } else {
            WriteModel::Await {
                writing: self,
                timeout: if now < self.deadline {
                    (self.deadline - now) as u64
                } else {
                    0
                },
            }
        }
    }

    /// How the write goes on once the piece is no longer awaited: `result` is
    /// the code it was reported written with.
    pub open spec fn finished(self, ready: bool, result: Option<i32>, now: u64) -> WriteModel {
        match result {
            Some(code) => if !ready {
                WriteModel::Done(Err(write_lost()))
            } else if code != 0 {
                WriteModel::Done(Err(coded("RFCOMM write failed: "@, code)))
            } else {
                self.advanced().next(now)
            },
            None => WriteModel::Done(Err(write_lost())),
        }
    }
}

/// The error of a piece whose fate is unknown.
pub open spec fn write_lost() -> ErrorModel {
    ErrorModel::Bluetooth("RFCOMM write timed out or disconnected (buffer retained)"@)
}

/// How a write of `bytes` starts.
pub open spec fn writing(
    channel: ChannelModel,
    bytes: Seq<u8>,
    mtu: u16,
    timeout: u64,
    now: u64,
) -> WriteModel {
    if channel.dead() {
        WriteModel::Done(Err(ErrorModel::Bluetooth("RFCOMM channel is closed"@)))
    } else {
        (WritingModel { rest: bytes, size: write_size(mtu), deadline: (now + timeout) as u64 }).next(
            now,
        )
    }
}

/// Whether a piece need not be awaited any longer: it was reported written, or
/// the channel closed.
pub fn write_settled(result: Option<i32>, channel: &Channel) -> (r: bool)
    ensures
        r == (result is Some || channel@.disconnected),
{
    result.is_some() || channel.disconnected
}

impl Channel {
    /// Start to write `bytes` on a channel that takes up to `mtu` at once.
    pub fn begin_write(&self, bytes: Vec<u8>, mtu: u16, timeout: u64, now: u64) -> (r: WriteStep)
        requires
            now + timeout <= u64::MAX,
        ensures
            r@ == writing(self@, bytes@, mtu, timeout, now),
    {
        if self.is_dead() {
            return WriteStep::Done(Err(bt("RFCOMM channel is closed")));
        }
        let size: usize = if mtu < 1 {
            1
        } else if mtu as usize > WRITE_LIMIT {
            WRITE_LIMIT
        } else {
            mtu as usize
        };
        let writing: Writing = Writing { bytes, offset: 0, size, deadline: now + timeout };
        assert(writing@.rest =~= bytes@);
        writing.next(now)
    }
}

impl Writing {
    #[verifier::type_invariant]
    spec fn sound(&self) -> bool {
        self.offset <= self.bytes@.len() && 1 <= self.size <= WRITE_LIMIT
    }

    fn next(self, now: u64) -> (r: WriteStep)
        ensures
            r@ == self@.next(now),
    {
        proof {
            use_type_invariant(&self);
        }
        if self.offset >= self.bytes.len() {
            return WriteStep::Done(Ok(()));
        }
        if now >= self.deadline {
            return WriteStep::Done(Err(PtouchError::Timeout));
        }
        let left: usize = self.bytes.len() - self.offset;
        let count: usize = if left < self.size {
            left
        } else {
            self.size
        };
        let mut piece: Vec<u8> = Vec::new();
        let ghost rest = self@.rest;
        while piece.len() < count
            invariant
                piece@.len() <= count,
                self.offset + count <= self.bytes.len(),
                rest == self.bytes@.skip(self.offset as int),
                piece@ == rest.take(piece@.len() as int),
            decreases count - piece@.len(),
        {
            let ghost n = piece@.len() as int;
            piece.push(self.bytes[self.offset + piece.len()]);
            assert(piece@ =~= rest.take(n + 1));
        }
        assert(rest.len() < self.size ==> rest.take(count as int) =~= rest);
        WriteStep::Write { writing: self, piece }
    }

    /// Go on once the system has accepted the piece, or not.
    pub fn started(self, code: i32, now: u64) -> (r: WriteStep)
        ensures
            r@ == self@.started(code, now),
    {
        if code != 0 {
            return WriteStep::Done(Err(bt_code("RFCOMM write rejected: ", code)));
        }
        let timeout: u64 = if now < self.deadline {
            self.deadline - now
        } else {
            0
        };
        WriteStep::Await { writing: self, timeout }
    }

    /// Go on once the piece is no longer awaited: `ready` says whether it was
    /// settled in time, and `result` is the code it was reported written with.
    pub fn finished(self, ready: bool, result: Option<i32>, now: u64) -> (r: WriteStep)
        ensures
            r@ == self@.finished(ready, result, now),
    {
        proof {
            use_type_invariant(&self);
        }
        match result {
            Some(code) if ready => {
                if code != 0 {
                    return WriteStep::Done(Err(bt_code("RFCOMM write failed: ", code)));
                }
                let left: usize = self.bytes.len() - self.offset;
                let count: usize = if left < self.size {
                    left
                } else {
                    self.size
                };
                let ghost before = self@;
                let advanced: Writing = Writing { offset: self.offset + count, ..self };
                assert(advanced@.rest =~= before.rest.skip(before.piece().len() as int));
                advanced.next(now)
            },
            _ => WriteStep::Done(
                Err(bt("RFCOMM write timed out or disconnected (buffer retained)")),
            ),
        }
    }
}

/// The pieces in which bytes are written.
pub open spec fn pieces(bytes: Seq<u8>, size: nat) -> Seq<Seq<u8>>
    decreases bytes.len(),
{
    if bytes.len() == 0 || size == 0 {
        Seq::empty()
    } else if bytes.len() < size {
        seq![bytes]
    } else {
        seq![bytes.take(size as int)] + pieces(bytes.skip(size as int), size)
    }
}

/// What becomes of a piece that is handed over.
pub struct Fate {
    /// The code with which the system accepts it, or not.
    pub code: i32,
    /// When it is accepted.
    pub accepted: u64,
    /// Whether it is settled in time.
    pub ready: bool,
    /// The code it is reported written with.
    pub result: Option<i32>,
    /// When it is no longer awaited.
    pub settled: u64,
}

impl Fate {
    /// Whether the piece gets through.
    pub open spec fn good(self) -> bool {
        self.code == 0 && self.ready && self.result == Some(0i32)
    }

    /// How a write goes on once this has become of its piece.
    pub open spec fn applied(self, w: WritingModel) -> WriteModel {
        match w.started(self.code, self.accepted) {
            WriteModel::Await { writing, timeout } => writing.finished(
                self.ready,
                self.result,
                self.settled,
            ),
            step => step,
        }
    }
}

/// The pieces that a write hands over, given what becomes of each.
pub open spec fn handed(step: WriteModel, fates: Seq<Fate>) -> Seq<Seq<u8>>
    decreases fates.len(),
{
    match step {
        WriteModel::Write { writing, piece } => if fates.len() == 0 {
            seq![piece]
        } else {
            seq![piece] + handed(fates[0].applied(writing), fates.drop_first())
        },
        _ => Seq::empty(),
    }
}

/// The step that a write comes to, given what becomes of each piece.
pub open spec fn write_end(step: WriteModel, fates: Seq<Fate>) -> WriteModel
    decreases fates.len(),
{
    match step {
        WriteModel::Write { writing, piece } => if fates.len() == 0 {
            step
        } else {
            write_end(fates[0].applied(writing), fates.drop_first())
        },
        _ => step,
    }
}

/// The pieces of a write make up the bytes, in order, and each holds at least
/// one byte and no more than a write may.
pub proof fn law_pieces_make_up_bytes(bytes: Seq<u8>, size: nat)
    requires
        1 <= size <= WRITE_LIMIT,
    ensures
        pieces(bytes, size).flatten() == bytes,
        forall|i: int|
            0 <= i < pieces(bytes, size).len() ==> 1 <= (#[trigger] pieces(bytes, size)[i]).len()
                <= size,
    decreases bytes.len(),
{
    if bytes.len() == 0 {
        assert(pieces(bytes, size).flatten() =~= bytes);
    } else if bytes.len() < size {
        seq![bytes].lemma_flatten_one_element();
        assert(pieces(bytes, size)[0] == bytes);
    } else {
        let first = bytes.take(size as int);
        let rest = bytes.skip(size as int);
        law_pieces_make_up_bytes(rest, size);
        let all = pieces(bytes, size);
        assert(all == seq![first] + pieces(rest, size));
        assert(all.drop_first() =~= pieces(rest, size));
        assert(all.first() == first);
        assert(all.flatten() == first + pieces(rest, size).flatten());
        assert(first + rest =~= bytes);
        assert forall|i: int| 0 <= i < all.len() implies 1 <= (#[trigger] all[i]).len()
            <= size by {
            if i > 0 {
                assert(all[i] == pieces(rest, size)[i - 1]);
            }
        }
    }
}

/// A write all of whose pieces get through, all but the last before the
/// deadline, hands over exactly its pieces and succeeds.
pub proof fn law_write_hands_over_pieces(w: WritingModel, now: u64, fates: Seq<Fate>)
    requires
        w.wf(),
        now < w.deadline,
        forall|i: int| 0 <= i < fates.len() ==> (#[trigger] fates[i]).good(),
        forall|i: int|
            0 <= i < pieces(w.rest, w.size).len() - 1 ==> (#[trigger] fates[i]).settled
                < w.deadline,
        fates.len() >= pieces(w.rest, w.size).len(),
    ensures
        handed(w.next(now), fates) == pieces(w.rest, w.size),
        write_end(w.next(now), fates).is_success(),
    decreases w.rest.len(),
{
    let all = pieces(w.rest, w.size);
    if w.rest.len() > 0 {
        let after = w.advanced();
        let later = fates.drop_first();
        assert(fates[0].good());
        assert(fates[0].applied(w) == after.next(fates[0].settled));
        if after.rest.len() == 0 {
            assert(pieces(after.rest, w.size) =~= Seq::empty());
            assert(all =~= seq![w.piece()]) by {
                if w.rest.len() >= w.size {
                    assert(all =~= seq![w.piece()] + pieces(after.rest, w.size));
                }
            }
            assert(handed(after.next(fates[0].settled), later) =~= Seq::empty());
            assert(handed(w.next(now), fates) =~= all);
        } else {
            assert(all == seq![w.piece()] + pieces(after.rest, w.size));
            assert(pieces(after.rest, w.size).len() >= 1);
            assert forall|i: int| 0 <= i < later.len() implies (#[trigger] later[i]).good() by {
                assert(later[i] == fates[i + 1]);
            }
            assert forall|i: int|
                0 <= i < pieces(after.rest, after.size).len() - 1 implies (
            #[trigger] later[i]).settled < after.deadline by {
                assert(later[i] == fates[i + 1]);
            }
            assert(fates[0].settled < w.deadline);
            law_write_hands_over_pieces(after, fates[0].settled, later);
            assert(handed(w.next(now), fates) =~= all);
        }
    }
}

proof fn lemma_write_hands_over_prefix(w: WritingModel, now: u64, fates: Seq<Fate>)
    requires
        w.wf(),
    ensures
        handed(w.next(now), fates).is_prefix_of(pieces(w.rest, w.size)),
        write_end(w.next(now), fates).is_success() ==> handed(w.next(now), fates) == pieces(
            w.rest,
            w.size,
        ),
    decreases w.rest.len(),
{
    let all = pieces(w.rest, w.size);
    let step = w.next(now);
    if w.rest.len() == 0 {
        assert(handed(step, fates) =~= all);
    } else if now < w.deadline {
        let after = w.advanced();
        assert(all =~= seq![w.piece()] + pieces(after.rest, w.size)) by {
            if w.rest.len() < w.size {
                assert(after.rest =~= Seq::empty());
            }
        }
        if fates.len() > 0 {
            let later = fates.drop_first();
            let next = fates[0].applied(w);
            if next is Write || next.is_success() {
                assert(next == after.next(fates[0].settled));
            }
            lemma_write_hands_over_prefix(after, fates[0].settled, later);
            let tail = handed(next, later);
            assert(tail.is_prefix_of(pieces(after.rest, w.size)));
            assert((seq![w.piece()] + tail) =~= all.subrange(0, 1 + tail.len() as int));
            assert(write_end(step, fates) == write_end(next, later));
            if write_end(next, later).is_success() {
                assert(next is Write || next.is_success());
                assert(tail == pieces(after.rest, w.size));
                assert(handed(step, fates) =~= all);
            }
        } else {
            assert(handed(step, fates) =~= all.subrange(0, 1));
        }
    }
}

proof fn lemma_flatten_prefix(a: Seq<Seq<u8>>, b: Seq<Seq<u8>>)
    requires
        a.is_prefix_of(b),
    ensures
        a.flatten().is_prefix_of(b.flatten()),
{
    let rest = b.skip(a.len() as int);
    assert(b =~= a + rest);
    vstd::seq_lib::lemma_flatten_concat(a, rest);
    assert(a.flatten() =~= b.flatten().subrange(0, a.flatten().len() as int));
}

/// Whatever becomes of its pieces, a write hands over a prefix of them, and with
/// it a prefix of the bytes, in order and nothing twice. It succeeds only if all
/// of them were handed over. On a dead channel it hands over nothing.
pub proof fn law_write_hands_over_prefix(
    channel: ChannelModel,
    bytes: Seq<u8>,
    mtu: u16,
    timeout: u64,
    now: u64,
    fates: Seq<Fate>,
)
    ensures
        ({
            let step = writing(channel, bytes, mtu, timeout, now);
            let over = handed(step, fates);
            &&& over.is_prefix_of(pieces(bytes, write_size(mtu)))
            &&& over.flatten().is_prefix_of(bytes)
            &&& write_end(step, fates).is_success() ==> {
                &&& over == pieces(bytes, write_size(mtu))
                &&& over.flatten() == bytes
            }
            &&& channel.dead() ==> over == Seq::<Seq<u8>>::empty()
        }),
{
    let step = writing(channel, bytes, mtu, timeout, now);
    let size = write_size(mtu);
    law_pieces_make_up_bytes(bytes, size);
    if channel.dead() {
        assert(handed(step, fates) =~= pieces(bytes, size).subrange(0, 0));
    } else {
        let w = WritingModel { rest: bytes, size, deadline: (now + timeout) as u64 };
        lemma_write_hands_over_prefix(w, now, fates);
    }
    lemma_flatten_prefix(handed(step, fates), pieces(bytes, size));
}

// ---------------------------------------------------------------------
// Closing
// ---------------------------------------------------------------------

/// What shutting down comes to: `channel` is the result code of closing the
/// channel, and `baseband` that of closing the connection below it.
pub open spec fn shut_down(channel: i32, baseband: i32) -> Result<(), ErrorModel> {
    if baseband != 0 {
        Err(coded("Baseband close failed: "@, baseband))
    } else if channel != 0 {
        Err(coded("RFCOMM close failed: "@, channel))
    } else {
        Ok(())
    }
}

/// What shutting down comes to. Closing the channel alone leaves the next
/// connection without an open notification, so the connection below it is
/// closed as well, and its failure counts first.
pub fn shutdown_outcome(channel: i32, baseband: i32) -> (r: Result<(), PtouchError>)
    ensures
        outcome(r) == shut_down(channel, baseband),
{
    if baseband != 0 {
        return Err(bt_code("Baseband close failed: ", baseband));
    }
    if channel != 0 {
        return Err(bt_code("RFCOMM close failed: ", channel));
    }
    Ok(())
}

/// Whether a closed connection is given time to settle.
pub fn settles(baseband: i32) -> (r: bool)
    ensures
        r == (baseband == 0),
{
    baseband == 0
}

// ---------------------------------------------------------------------
// What holds of a channel
// ---------------------------------------------------------------------

/// No more than the limit ever waits to be read.
pub proof fn law_receive_queue_is_bounded(
    channel: ChannelModel,
    bytes: Seq<u8>,
    ready: bool,
    capacity: usize,
)
    requires
        channel.wf(),
    ensures
        channel.arrived(bytes).wf(),
        channel.awaited(ready, capacity).0.wf(),
{
}

/// Something that happens to the bytes of a channel.
pub enum Traffic {
    /// Bytes arrive.
    Arrive(Seq<u8>),
    /// A read of up to so many bytes is finished.
    Read { ready: bool, capacity: usize },
}

/// The channel once everything has happened.
pub open spec fn after(channel: ChannelModel, traffic: Seq<Traffic>) -> ChannelModel
    decreases traffic.len(),
{
    if traffic.len() == 0 {
        channel
    } else {
        match traffic[0] {
            Traffic::Arrive(bytes) => after(channel.arrived(bytes), traffic.drop_first()),
            Traffic::Read { ready, capacity } => after(
                channel.awaited(ready, capacity).0,
                traffic.drop_first(),
            ),
        }
    }
}

/// Everything that was read meanwhile.
pub open spec fn delivered(channel: ChannelModel, traffic: Seq<Traffic>) -> Seq<u8>
    decreases traffic.len(),
{
    if traffic.len() == 0 {
        Seq::empty()
    } else {
        match traffic[0] {
            Traffic::Arrive(bytes) => delivered(channel.arrived(bytes), traffic.drop_first()),
            Traffic::Read { ready, capacity } => {
                let (next, step) = channel.awaited(ready, capacity);
                match step {
                    ReadModel::Taken(bytes) => bytes + delivered(next, traffic.drop_first()),
                    _ => delivered(next, traffic.drop_first()),
                }
            },
        }
    }
}

/// Everything that arrived meanwhile.
pub open spec fn arrivals(traffic: Seq<Traffic>) -> Seq<u8>
    decreases traffic.len(),
{
    if traffic.len() == 0 {
        Seq::empty()
    } else {
        match traffic[0] {
            Traffic::Arrive(bytes) => bytes + arrivals(traffic.drop_first()),
            Traffic::Read { ready, capacity } => arrivals(traffic.drop_first()),
        }
    }
}

proof fn lemma_overflow_stays(channel: ChannelModel, traffic: Seq<Traffic>)
    requires
        channel.overflow,
    ensures
        after(channel, traffic).overflow,
    decreases traffic.len(),
{
    if traffic.len() > 0 {
        match traffic[0] {
            Traffic::Arrive(bytes) => lemma_overflow_stays(
                channel.arrived(bytes),
                traffic.drop_first(),
            ),
            Traffic::Read { ready, capacity } => lemma_overflow_stays(
                channel.awaited(ready, capacity).0,
                traffic.drop_first(),
            ),
        }
    }
}

/// Unless the receive queue overflows, no byte is lost, repeated or reordered:
/// what was read and what still waits is what waited before and what arrived.
pub proof fn law_bytes_are_read_as_they_arrive(channel: ChannelModel, traffic: Seq<Traffic>)
    requires
        !after(channel, traffic).overflow,
    ensures
        delivered(channel, traffic) + after(channel, traffic).rx == channel.rx + arrivals(traffic),
    decreases traffic.len(),
{
    if channel.overflow {
        lemma_overflow_stays(channel, traffic);
    }
    if traffic.len() == 0 {
        assert(delivered(channel, traffic) + channel.rx =~= channel.rx + arrivals(traffic));
    } else {
        let rest = traffic.drop_first();
        match traffic[0] {
            Traffic::Arrive(bytes) => {
                let next = channel.arrived(bytes);
                law_bytes_are_read_as_they_arrive(next, rest);
                if next.overflow {
                    lemma_overflow_stays(next, rest);
                }
                assert(channel.rx + (bytes + arrivals(rest)) =~= next.rx + arrivals(rest));
            },
            Traffic::Read { ready, capacity } => {
                let (next, step) = channel.awaited(ready, capacity);
                law_bytes_are_read_as_they_arrive(next, rest);
                if let ReadModel::Taken(bytes) = step {
                    assert(bytes + next.rx =~= channel.rx);
                    assert((bytes + delivered(next, rest)) + after(next, rest).rx =~= bytes + (
                    delivered(next, rest) + after(next, rest).rx));
                    assert(bytes + (next.rx + arrivals(rest)) =~= channel.rx + arrivals(rest));
                }
            },
        }
    }
}

/// Bytes that arrive are put behind those that wait, as long as no more than
/// 65536 wait then. Else none of them is, and the overflow is remembered. Nothing
/// else of the channel changes.
pub proof fn law_arrivals(channel: ChannelModel, bytes: Seq<u8>)
    ensures
        ({
            let next = channel.arrived(bytes);
            let fits = channel.rx.len() + bytes.len() <= 65536;
            &&& next.rx == if fits {
                channel.rx + bytes
            } else {
                channel.rx
            }
            &&& next.overflow <==> channel.overflow || !fits
            &&& next.opened == channel.opened
            &&& next.disconnected == channel.disconnected
            &&& next.closed == channel.closed
        }),
{
}

/// A read of nothing succeeds at once. Any other one fails on a dead channel and
/// is awaited on a live one, until there are bytes, an overflow, or an end.
pub proof fn law_reads_begin(channel: ChannelModel, capacity: usize)
    ensures
        match channel.reading(capacity) {
            ReadModel::Taken(bytes) => capacity == 0 && bytes.len() == 0,
            ReadModel::Failed { error, shut_down } => {
                &&& capacity > 0
                &&& channel.closed || channel.disconnected
                &&& !shut_down
                &&& error == ErrorModel::Bluetooth("RFCOMM disconnected while reading"@)
            },
            ReadModel::Await => capacity > 0 && !channel.closed && !channel.disconnected,
        },
        channel.readable() <==> channel.rx != Seq::<u8>::empty() || channel.disconnected
            || channel.overflow,
{
    if channel.rx.len() == 0 {
        assert(channel.rx =~= Seq::empty());
    }
}

/// A read that became ready takes as many of the bytes that wait as it has room
/// for, the first of them, and leaves the others. It fails only after an overflow,
/// which shuts the channel down, or if the channel is closed with nothing left to
/// read. One that did not become ready has run out of time.
pub proof fn law_reads_end(channel: ChannelModel, ready: bool, capacity: usize)
    ensures
        ({
            let (next, step) = channel.awaited(ready, capacity);
            &&& next.overflow == channel.overflow
            &&& next.opened == channel.opened
            &&& next.disconnected == channel.disconnected
            &&& next.closed == channel.closed
            &&& match step {
                ReadModel::Taken(bytes) => {
                    &&& ready
                    &&& !channel.overflow
                    &&& channel.rx.len() > 0 || !channel.disconnected
                    &&& bytes + next.rx == channel.rx
                    &&& bytes.len() == capacity || (bytes.len() < capacity && next.rx.len() == 0)
                },
                ReadModel::Failed { error, shut_down } => {
                    &&& next == channel
                    &&& !ready <==> error is Timeout
                    &&& shut_down <==> ready && channel.overflow
                    &&& ready && !channel.overflow ==> channel.disconnected && channel.rx.len() == 0
                    &&& ready ==> error == ErrorModel::Bluetooth(
                        if channel.overflow {
                            "Bluetooth receive buffer exceeded its limit"@
                        } else {
                            "RFCOMM disconnected while reading"@
                        },
                    )
                },
                ReadModel::Await => false,
            }
        }),
{
    let (next, step) = channel.awaited(ready, capacity);
    if let ReadModel::Taken(bytes) = step {
        assert(bytes + next.rx =~= channel.rx);
    }
}

/// A write takes as many bytes at once as the channel does, but at least one and
/// at most 1024.
pub proof fn law_write_size(mtu: u16)
    ensures
        1 <= write_size(mtu) <= 1024,
        1 <= mtu <= 1024 ==> write_size(mtu) == mtu,
        mtu == 0 ==> write_size(mtu) == 1,
        mtu > 1024 ==> write_size(mtu) == 1024,
{
}

/// A write is over as soon as nothing is left of it, whatever the time. With
/// bytes left it fails at its deadline and not before, and until then it hands
/// over the next ones: as many as go at once, or all that are left.
pub proof fn law_writes_go_on(w: WritingModel, now: u64)
    ensures
        match w.next(now) {
            WriteModel::Done(r) => match r {
                Ok(u) => w.rest.len() == 0,
                Err(e) => w.rest.len() > 0 && now >= w.deadline && e is Timeout,
            },
            WriteModel::Write { writing, piece } => {
                &&& w.rest.len() > 0
                &&& now < w.deadline
                &&& writing == w
                &&& piece.is_prefix_of(w.rest)
                &&& piece.len() == w.size || (piece.len() < w.size && piece == w.rest)
            },
            _ => false,
        },
{
    if let WriteModel::Write { writing, piece } = w.next(now) {
        assert(piece =~= w.rest.subrange(0, piece.len() as int));
    }
}

/// A write begins on a live channel only, with all of its bytes, and is given its
/// time from the beginning on.
pub proof fn law_writes_begin(
    channel: ChannelModel,
    bytes: Seq<u8>,
    mtu: u16,
    timeout: u64,
    now: u64,
)
    requires
        now + timeout <= u64::MAX,
    ensures
        ({
            let step = writing(channel, bytes, mtu, timeout, now);
            if channel.closed || channel.disconnected {
                step == WriteModel::Done(
                    Err(ErrorModel::Bluetooth("RFCOMM channel is closed"@)),
                )
            } else if bytes.len() == 0 {
                step.is_success()
            } else if timeout == 0 {
                step == WriteModel::Done(Err(ErrorModel::Timeout))
            } else {
                &&& step matches WriteModel::Write { writing: w, piece } && w.rest == bytes
                    && w.deadline == now + timeout && w.size == write_size(mtu)
            }
        }),
{
}

/// A piece gets through only if the system accepts it and reports it written in
/// time, both without an error. Then the write goes on behind it, else it fails
/// with what went wrong. It is awaited for what is left of the time.
pub proof fn law_pieces_settle(w: WritingModel, fate: Fate)
    ensures
        ({
            let next = fate.applied(w);
            if fate.code != 0 {
                next == WriteModel::Done(Err(coded("RFCOMM write rejected: "@, fate.code)))
            } else if !fate.ready || fate.result is None {
                next == WriteModel::Done(
                    Err(
                        ErrorModel::Bluetooth(
                            "RFCOMM write timed out or disconnected (buffer retained)"@,
                        ),
                    ),
                )
            } else if fate.result != Some(0i32) {
                next == WriteModel::Done(
                    Err(coded("RFCOMM write failed: "@, fate.result->Some_0)),
                )
            } else {
                next == (WritingModel {
                    rest: if w.rest.len() <= w.size {
                        Seq::empty()
                    } else {
                        w.rest.skip(w.size as int)
                    },
                    size: w.size,
                    deadline: w.deadline,
                }).next(fate.settled)
            }
        }),
        w.started(0, fate.accepted) matches WriteModel::Await { writing, timeout } && writing == w
            && timeout == if w.deadline > fate.accepted {
            w.deadline - fate.accepted
        } else {
            0
        },
{
    if fate.good() {
        assert(w.advanced().rest =~= if w.rest.len() <= w.size {
            Seq::empty()
        } else {
            w.rest.skip(w.size as int)
        });
    }
}

/// A result code of the system is shown behind the message as `0x` and its 32
/// bits, a negative one as its two's complement.
pub proof fn law_codes_are_shown(message: Seq<char>, code: i32)
    ensures
        coded(message, code) matches ErrorModel::Bluetooth(text) && {
            &&& text.take(message.len() as int) == message
            &&& text.subrange(message.len() as int, message.len() as int + 2) == seq!['0', 'x']
            &&& hex_value(text.skip(message.len() as int + 2)) == if code >= 0 {
                code as int
            } else {
                code + 0x1_0000_0000
            }
        },
{
    assert(code >= 0 ==> code as u32 as i64 == code as i64) by (bit_vector);
    assert(code < 0 ==> code as u32 as i64 == code as i64 + 0x1_0000_0000i64) by (bit_vector);
    let text = coded(message, code)->Bluetooth_0;
    let shown = hex_code(code as u32);
    law_hex_codes_are_read_back(code as u32, 0);
    assert(shown.take(2).len() == 2);
    assert(text.take(message.len() as int) =~= message);
    assert(text.subrange(message.len() as int, message.len() as int + 2) =~= shown.take(2));
    assert(text.skip(message.len() as int + 2) =~= shown.skip(2));
}

/// Shutting down succeeds only if both the channel and the connection below it
/// are closed without an error, and the connection's error is told first.
pub proof fn law_shutting_down(channel: i32, baseband: i32)
    ensures
        shut_down(channel, baseband) is Ok <==> channel == 0 && baseband == 0,
        baseband != 0 ==> shut_down(channel, baseband) == Err::<(), ErrorModel>(
            coded("Baseband close failed: "@, baseband),
        ),
        baseband == 0 && channel != 0 ==> shut_down(channel, baseband) == Err::<(), ErrorModel>(
            coded("RFCOMM close failed: "@, channel),
        ),
{
}

/// The times and limits of a channel.
pub proof fn law_channel_times()
    ensures
        RECEIVE_LIMIT == 65536,
        WRITE_LIMIT == 1024,
        SERIAL_PORT == 0x1101,
        DISCOVERY_TIMEOUT == 8_000_000_000,
        OPEN_TIMEOUT == 15_000_000_000,
        CLOSE_TIMEOUT == 1_000_000_000,
        SETTLE_TIME == 250_000_000,
{
}

} // verus!
