//! A printer on the USB bus.

use vstd::prelude::*;

use crate::device::{
    admitted, eligible, first_printer, select_device, DeviceFlags, DeviceInfo,
};
use crate::error::{outcome, ErrorModel, PtouchError, UsbFault};
use crate::link::{Action, ActionModel, Reply, ReplyModel, TRANSFER_TIMEOUT};
use crate::model::{usb_profile, Dialect, ModelProfile};
use crate::protocol::{contents, PrintQuality};
use crate::session::{
    requesting, AfterFlushModel, Goal, Operation, PrinterSession, SessionModel, Step,
};
use crate::status::PrinterStatus;
use crate::text::{decimal, push_decimal};

verus! {

/// The interface of a printer.
pub const USB_INTERFACE: u8 = 0;

// ---------------------------------------------------------------------
// Transfers
// ---------------------------------------------------------------------

/// The error of a failed transfer: running out of time has one of its own.
pub open spec fn transfer_error(fault: UsbFault) -> ErrorModel {
    if fault == UsbFault::Timeout {
        ErrorModel::Timeout
    } else {
        ErrorModel::UsbError(fault)
    }
}

fn transfer_fault(fault: UsbFault) -> (r: PtouchError)
    ensures
        r@ == transfer_error(fault),
{
    if fault == UsbFault::Timeout {
        PtouchError::Timeout
    } else {
        PtouchError::UsbError(fault)
    }
}

/// The error of a transfer that took `written` of `expected` bytes.
pub open spec fn short_write(expected: nat, written: nat) -> ErrorModel {
    ErrorModel::SendFailed(
        "Expected to write "@ + decimal(expected) + " bytes, wrote "@ + decimal(written),
    )
}

/// What sending `expected` bytes comes to.
pub open spec fn written_all(written: Result<usize, UsbFault>, expected: usize) -> Result<
    (),
    ErrorModel,
> {
    match written {
        Err(fault) => Err(transfer_error(fault)),
        Ok(n) => if n == expected {
            Ok(())
        } else {
            Err(short_write(expected as nat, n as nat))
        },
    }
}

/// What sending `expected` bytes comes to, given how many the USB stack wrote.
/// Anything but all of them is a failure.
pub fn send_outcome(written: Result<usize, UsbFault>, expected: usize) -> (r: Result<
    (),
    PtouchError,
>)
    ensures
        outcome(r) == written_all(written, expected),
        r is Ok <==> written == Ok::<usize, UsbFault>(expected),
{
    match written {
        Err(fault) => Err(transfer_fault(fault)),
        Ok(n) => {
            if n != expected {
                let mut text: String = "Expected to write ".to_string();
                push_decimal(&mut text, expected as u64);
                text.append(" bytes, wrote ");
                push_decimal(&mut text, n as u64);
                return Err(PtouchError::SendFailed(text));
            }
            Ok(())
        },
    }
}

/// The reply to a send of `expected` bytes.
pub fn send_reply(written: Result<usize, UsbFault>, expected: usize) -> (r: Reply)
    ensures
        r@ == match written_all(written, expected) {
            Ok(u) => ReplyModel::Sent,
            Err(e) => ReplyModel::Failed(e),
        },
{
    match send_outcome(written, expected) {
        Ok(()) => Reply::Sent,
        Err(error) => Reply::Failed(error),
    }
}

/// What a read comes to, given how many bytes the USB stack read.
pub fn receive_outcome(read: Result<usize, UsbFault>) -> (r: Result<usize, PtouchError>)
    ensures
        outcome(r) == match read {
            Ok(n) => Ok(n),
            Err(fault) => Err(transfer_error(fault)),
        },
{
    match read {
        Ok(n) => Ok(n),
        Err(fault) => Err(transfer_fault(fault)),
    }
}

/// The reply to a read, with the receive buffer as it was left.
pub fn receive_reply(read: Result<usize, UsbFault>, buffer: Vec<u8>) -> (r: Reply)
    ensures
        r@ == match read {
            Ok(count) => ReplyModel::Received { count, buffer: buffer@ },
            Err(fault) => ReplyModel::Failed(transfer_error(fault)),
        },
{
    match receive_outcome(read) {
        Ok(count) => Reply::Received { count, buffer },
        Err(error) => Reply::Failed(error),
    }
}

// ---------------------------------------------------------------------
// Endpoints
// ---------------------------------------------------------------------

/// Which way an endpoint carries data.
#[derive(Debug, Clone, Copy, PartialEq, Eq, Structural)]
pub enum Direction {
    In,
    Out,
}

/// An endpoint of the active configuration.
#[derive(Debug, Clone, Copy, PartialEq, Eq, Structural)]
pub struct Endpoint {
    /// The number of the interface it belongs to.
    pub interface: u8,
    /// Whether it carries bulk transfers.
    pub bulk: bool,
    pub direction: Direction,
    pub address: u8,
}

impl Endpoint {
    /// Whether print data or reports can go through the endpoint.
    pub open spec fn serves(self, direction: Direction) -> bool {
        self.interface == USB_INTERFACE && self.bulk && self.direction == direction
    }
}

/// The address of the last endpoint that serves a direction.
pub open spec fn last_serving(endpoints: Seq<Endpoint>, direction: Direction) -> Option<u8>
    decreases endpoints.len(),
{
    if endpoints.len() == 0 {
        None
    } else if endpoints.last().serves(direction) {
        Some(endpoints.last().address)
    } else {
        last_serving(endpoints.drop_last(), direction)
    }
}

/// The endpoints to use, first the one to write to, then the one to read from.
pub open spec fn bulk_endpoints(endpoints: Seq<Endpoint>) -> Result<(u8, u8), ErrorModel> {
    match (last_serving(endpoints, Direction::Out), last_serving(endpoints, Direction::In)) {
        (Some(out), Some(inp)) => Ok((out, inp)),
        _ => Err(ErrorModel::DeviceNotFound),
    }
}

/// Find the bulk OUT and IN endpoints of the printer interface.
pub fn find_bulk_endpoints(endpoints: &[Endpoint]) -> (r: Result<(u8, u8), PtouchError>)
    ensures
        outcome(r) == bulk_endpoints(endpoints@),
{
    let mut ep_out: Option<u8> = None;
    let mut ep_in: Option<u8> = None;
    let mut i: usize = 0;
    while i < endpoints.len()
        invariant
            i <= endpoints@.len(),
            ep_out == last_serving(endpoints@.take(i as int), Direction::Out),
            ep_in == last_serving(endpoints@.take(i as int), Direction::In),
        decreases endpoints@.len() - i,
    {
        let endpoint: Endpoint = endpoints[i];
        assert(endpoints@.take(i + 1).drop_last() =~= endpoints@.take(i as int));
        if endpoint.interface == USB_INTERFACE && endpoint.bulk {
            match endpoint.direction {
                Direction::Out => {
                    ep_out = Some(endpoint.address);
                },
                Direction::In => {
                    ep_in = Some(endpoint.address);
                },
            }
        }
        i = i + 1;
    }
    assert(endpoints@.take(i as int) =~= endpoints@);
    match (ep_out, ep_in) {
        (Some(out), Some(inp)) => Ok((out, inp)),
        _ => Err(PtouchError::DeviceNotFound),
    }
}

/// A printer whose endpoints are found is written to and read from through bulk
/// endpoints of its own interface.
pub proof fn law_endpoints_serve_printer(endpoints: Seq<Endpoint>)
    ensures
        bulk_endpoints(endpoints) matches Ok((out, inp)) ==> {
            &&& exists|i: int|
                0 <= i < endpoints.len() && (#[trigger] endpoints[i]).serves(Direction::Out)
                    && endpoints[i].address == out
            &&& exists|i: int|
                0 <= i < endpoints.len() && (#[trigger] endpoints[i]).serves(Direction::In)
                    && endpoints[i].address == inp
        },
{
    lemma_last_serving(endpoints, Direction::Out);
    lemma_last_serving(endpoints, Direction::In);
}

proof fn lemma_last_serving(endpoints: Seq<Endpoint>, direction: Direction)
    ensures
        last_serving(endpoints, direction) matches Some(address) ==> exists|i: int|
            0 <= i < endpoints.len() && (#[trigger] endpoints[i]).serves(direction)
                && endpoints[i].address == address,
    decreases endpoints.len(),
{
    if endpoints.len() > 0 {
        let shorter = endpoints.drop_last();
        if endpoints.last().serves(direction) {
            assert(endpoints[endpoints.len() - 1].serves(direction));
        } else {
            lemma_last_serving(shorter, direction);
            if let Some(address) = last_serving(shorter, direction) {
                let i = choose|i: int|
                    0 <= i < shorter.len() && (#[trigger] shorter[i]).serves(direction)
                        && shorter[i].address == address;
                assert(endpoints[i] == shorter[i]);
            }
        }
    }
}

// ---------------------------------------------------------------------
// The printer
// ---------------------------------------------------------------------

/// A Brother P-Touch printer on the USB bus.
pub struct PtouchDevice {
    session: PrinterSession,
    dev_info: DeviceInfo,
}

/// The value of a [`PtouchDevice`].
pub struct DeviceModel {
    pub session: SessionModel,
    pub info: DeviceInfo,
}

impl View for PtouchDevice {
    type V = DeviceModel;

    closed spec fn view(&self) -> DeviceModel {
        DeviceModel { session: self.session@, info: self.dev_info }
    }
}

/// A printer of the given model of which nothing is known yet.
pub open spec fn fresh(info: DeviceInfo) -> DeviceModel {
    DeviceModel {
        session: SessionModel {
            profile: usb_profile(info),
            status: None,
            tape_width_px: None,
            initialized: false,
        },
        info,
    }
}

impl PtouchDevice {
    /// Open a printer by its USB identifiers.
    ///
    /// Fails with [`PtouchError::DeviceNotFound`] for a model that is not in
    /// `table`, with [`PtouchError::PLiteMode`] for one in PLite mode, and with
    /// [`PtouchError::UnsupportedRaster`] for one that takes no raster data.
    pub fn open(table: &[DeviceInfo], vid: u16, pid: u16) -> (r: Result<Self, PtouchError>)
        ensures
            match r {
                Ok(device) => admitted(table@, vid, pid) is Ok && device@ == fresh(
                    admitted(table@, vid, pid)->Ok_0,
                ),
                Err(e) => admitted(table@, vid, pid) is Err && e@ == admitted(
                    table@,
                    vid,
                    pid,
                )->Err_0,
            },
    {
        match select_device(table, vid, pid) {
            Err(error) => Err(error),
            Ok(info) => {
                let profile: ModelProfile = ModelProfile::from(&info);
                Ok(PtouchDevice { session: PrinterSession::new(profile), dev_info: info })
            },
        }
    }

    /// Open the first printer on the bus that takes print jobs, where `bus`
    /// lists the vendor and product identifiers in bus order.
    pub fn open_first(table: &[DeviceInfo], bus: &[(u16, u16)]) -> (r: Result<Self, PtouchError>)
        ensures
            match r {
                Ok(device) => exists|i: int|
                    {
                        &&& 0 <= i < bus@.len()
                        &&& eligible(table@, (#[trigger] bus@[i]).0, bus@[i].1)
                        &&& forall|j: int|
                            0 <= j < i ==> !eligible(table@, (#[trigger] bus@[j]).0, bus@[j].1)
                        &&& device@ == fresh(admitted(table@, bus@[i].0, bus@[i].1)->Ok_0)
                    },
                Err(e) => {
                    &&& forall|j: int|
                        0 <= j < bus@.len() ==> !eligible(
                            table@,
                            (#[trigger] bus@[j]).0,
                            bus@[j].1,
                        )
                    &&& e@ == ErrorModel::DeviceNotFound
                },
            },
    {
        match first_printer(table, bus) {
            None => Err(PtouchError::DeviceNotFound),
            Some(i) => {
                let (vid, pid): (u16, u16) = bus[i];
                proof {
                    crate::device::law_eligible_printer_is_admitted(table@, vid, pid);
                    assert(eligible(table@, bus@[i as int].0, bus@[i as int].1));
                }
                Self::open(table, vid, pid)
            },
        }
    }

    /// The model of the printer.
    pub fn device_info(&self) -> (r: &DeviceInfo)
        ensures
            *r == self@.info,
    {
        &self.dev_info
    }

    /// The flags of the printer.
    pub fn flags(&self) -> (r: DeviceFlags)
        ensures
            r == self@.session.profile.flags,
    {
        self.session.flags()
    }

    /// The last report, if there is one.
    pub fn status(&self) -> (r: Option<&PrinterStatus>)
        ensures
            match self@.session.status {
                Some(status) => r is Some && *r->Some_0 == status,
                None => r is None,
            },
    {
        self.session.status()
    }

    /// Printable dots on the loaded tape, if known.
    pub fn tape_width_px(&self) -> (r: Option<u16>)
        ensures
            r == self@.session.tape_width_px,
    {
        self.session.tape_width_px()
    }

    /// The dots of the print head.
    pub fn max_px(&self) -> (r: u16)
        ensures
            r == self@.session.profile.raster_width_px,
    {
        self.session.raster_width_px()
    }

    /// Whether the printer has been initialized.
    pub fn is_initialized(&self) -> (r: bool)
        ensures
            r == self@.session.initialized,
    {
        self.session.is_initialized()
    }

    /// Send raw bytes through the OUT endpoint.
    pub fn send(&self, data: &[u8]) -> (r: Action)
        ensures
            r@ == (ActionModel::Send { bytes: data@, timeout: TRANSFER_TIMEOUT }),
    {
        self.session.send(data)
    }

    /// Receive raw bytes from the IN endpoint.
    pub fn receive(&self, capacity: usize) -> (r: Action)
        ensures
            r@ == (ActionModel::Receive { capacity, timeout: TRANSFER_TIMEOUT }),
    {
        self.session.receive(capacity)
    }

    /// Initialize the printer and query its status.
    pub fn init(&self, now: u64) -> (r: Step)
        ensures
            r@ == self@.session.flushing(now, AfterFlushModel::Reset, now),
            r.wf(),
    {
        self.session.init(now)
    }

    /// Query the status without resetting the printer.
    pub fn query_status(&self, now: u64) -> (r: Step)
        ensures
            r@ == self@.session.flushing(now, AfterFlushModel::Query, now),
            r.wf(),
    {
        self.session.query_status(now)
    }

    /// Request and read the status.
    pub fn get_status(&self) -> (r: Step)
        ensures
            r@ == requesting(Goal::Report),
            r.wf(),
    {
        self.session.get_status()
    }

    /// Print raster lines.
    pub fn print_raster(
        &mut self,
        lines: &[Vec<u8>],
        chain_print: bool,
        precut: bool,
        quality: PrintQuality,
        now: u64,
    ) -> (r: Step)
        ensures
            (final(self)@.session, r@) == old(self)@.session.printing(
                contents(lines@),
                chain_print,
                precut,
                quality,
                now,
            ),
            final(self)@.info == old(self)@.info,
            r.wf(),
    {
        self.session.print_raster(lines, chain_print, precut, quality, now)
    }

    /// Feed the tape forward and cut it.
    pub fn feed_and_cut(&mut self, now: u64) -> (r: Step)
        ensures
            (final(self)@.session, r@) == old(self)@.session.feeding(now),
            final(self)@.info == old(self)@.info,
            r.wf(),
    {
        self.session.feed_and_cut(now)
    }

    /// Go on with an operation once the reply to its last action is there.
    pub fn resume(&mut self, operation: Operation, reply: Reply, now: u64) -> (r: Step)
        requires
            operation.wf(),
            operation@.accepts(reply@),
        ensures
            (final(self)@.session, r@) == old(self)@.session.resumed(operation@, reply@, now),
            final(self)@.info == old(self)@.info,
            r.wf(),
    {
        self.session.resume(operation, reply, now)
    }
}

/// Bytes count as sent only if all of them were written, and running out of time
/// is told apart from every other failure of the USB stack.
pub proof fn law_only_whole_writes_are_sent(written: Result<usize, UsbFault>, expected: usize)
    ensures
        match written_all(written, expected) {
            Ok(u) => written == Ok::<usize, UsbFault>(expected),
            Err(ErrorModel::Timeout) => written == Err::<usize, UsbFault>(UsbFault::Timeout),
            Err(ErrorModel::UsbError(fault)) => written == Err::<usize, UsbFault>(fault) && fault
                != UsbFault::Timeout,
            Err(ErrorModel::SendFailed(text)) => written matches Ok(n) && n != expected && text
                == "Expected to write "@ + decimal(expected as nat) + " bytes, wrote "@ + decimal(
                n as nat,
            ),
            _ => false,
        },
{
}

/// The printer is written to and read from through the last bulk endpoints of
/// interface 0, one for each direction. It is not found if a direction has none.
pub proof fn law_endpoints_are_the_last(endpoints: Seq<Endpoint>, i: int, j: int)
    requires
        -1 <= i < endpoints.len(),
        -1 <= j < endpoints.len(),
        i >= 0 ==> prints_through(endpoints[i], Direction::Out),
        j >= 0 ==> prints_through(endpoints[j], Direction::In),
        forall|k: int|
            i < k < endpoints.len() ==> !prints_through(#[trigger] endpoints[k], Direction::Out),
        forall|k: int|
            j < k < endpoints.len() ==> !prints_through(#[trigger] endpoints[k], Direction::In),
    ensures
        bulk_endpoints(endpoints) == if i >= 0 && j >= 0 {
            Ok::<(u8, u8), ErrorModel>((endpoints[i].address, endpoints[j].address))
        } else {
            Err::<(u8, u8), ErrorModel>(ErrorModel::DeviceNotFound)
        },
{
    lemma_last_is_last(endpoints, Direction::Out, i);
    lemma_last_is_last(endpoints, Direction::In, j);
}

/// Whether an endpoint is a bulk one of interface 0 with the given direction.
pub open spec fn prints_through(endpoint: Endpoint, direction: Direction) -> bool {
    &&& endpoint.interface == 0
    &&& endpoint.bulk
    &&& endpoint.direction == direction
}

proof fn lemma_last_is_last(endpoints: Seq<Endpoint>, direction: Direction, i: int)
    requires
        -1 <= i < endpoints.len(),
        i >= 0 ==> prints_through(endpoints[i], direction),
        forall|k: int|
            i < k < endpoints.len() ==> !prints_through(#[trigger] endpoints[k], direction),
    ensures
        last_serving(endpoints, direction) == if i >= 0 {
            Some(endpoints[i].address)
        } else {
            None
        },
    decreases endpoints.len(),
{
    if endpoints.len() > 0 && i < endpoints.len() - 1 {
        let shorter = endpoints.drop_last();
        assert(!prints_through(endpoints[endpoints.len() - 1], direction));
        assert forall|k: int| i < k < shorter.len() implies !prints_through(
            #[trigger] shorter[k],
            direction,
        ) by {
            assert(shorter[k] == endpoints[k]);
        }
        lemma_last_is_last(shorter, direction, i);
    }
}

/// A printer that was just opened is known by its entry in the table alone: no
/// report, no tape, and not initialized, so that every label is refused.
pub proof fn law_fresh_printer(info: DeviceInfo)
    ensures
        ({
            let device = fresh(info);
            &&& device.info == info
            &&& device.session.profile.dialect == Dialect::Usb
            &&& device.session.profile.name == info.name
            &&& device.session.profile.raster_width_px == info.max_px
            &&& device.session.profile.dpi == info.dpi
            &&& device.session.profile.flags == info.flags
            &&& device.session.status is None
            &&& device.session.tape_width_px is None
            &&& !device.session.initialized
        }),
{
}

} // verus!
