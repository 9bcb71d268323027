//! The background worker of a user interface: what it is told, what it does,
//! and what it reports.

use vstd::prelude::*;

use crate::device::DeviceFlags;
use crate::error::PtouchError;
use crate::protocol::{contents, PrintQuality};
use crate::status::PrinterStatus;
use crate::text::{
    characters, content_end, find_from, joined_by, law_split_is_undone_by_joining,
    law_split_once_is_at_first_separator, lines, number, read_number, split, split_once,
    split_parts, text_between, text_lines, texts, trimmed_end,
};
use crate::transport::{DeviceModel, PtouchDevice};

verus! {

/// How long the worker waits for a command before it polls by itself: 3 s.
pub const POLL_INTERVAL: u64 = 3_000_000_000;

// ---------------------------------------------------------------------
// Printers
// ---------------------------------------------------------------------

/// The printer that a command is for.
#[derive(Debug, Clone, PartialEq, Eq)]
pub enum PrinterTarget {
    /// The first printer on the USB bus.
    Usb,
    /// A paired Bluetooth printer.
    Bluetooth { name: String, address: String },
}

/// The value of a [`PrinterTarget`].
pub enum TargetModel {
    Usb,
    Bluetooth { name: Seq<char>, address: Seq<char> },
}

impl View for PrinterTarget {
    type V = TargetModel;

    open spec fn view(&self) -> TargetModel {
        match self {
            PrinterTarget::Usb => TargetModel::Usb,
            PrinterTarget::Bluetooth { name, address } => TargetModel::Bluetooth {
                name: name@,
                address: address@,
            },
        }
    }
}

impl PrinterTarget {
    /// Whether the printer is reached over Bluetooth.
    pub fn is_bluetooth(&self) -> (r: bool)
        ensures
            r == self@ is Bluetooth,
    {
        matches!(self, PrinterTarget::Bluetooth { .. })
    }

    /// The same printer once more.
    pub fn duplicate(&self) -> (r: PrinterTarget)
        ensures
            r@ == self@,
    {
        match self {
            PrinterTarget::Usb => PrinterTarget::Usb,
            PrinterTarget::Bluetooth { name, address } => PrinterTarget::Bluetooth {
                name: name.clone(),
                address: address.clone(),
            },
        }
    }
}

/// The values of a list of printers.
pub open spec fn targets(list: Seq<PrinterTarget>) -> Seq<TargetModel> {
    list.map_values(|t: PrinterTarget| t@)
}

// ---------------------------------------------------------------------
// Commands
// ---------------------------------------------------------------------

/// What the worker is told.
#[derive(Debug, PartialEq, Eq)]
pub enum PrinterCommand {
    /// Look for paired Bluetooth printers.
    DiscoverBluetooth,
    /// Look whether the printer is there and what is loaded.
    Poll(PrinterTarget),
    /// Print a label.
    Print {
        raster_lines: Vec<Vec<u8>>,
        chain_print: bool,
        auto_cut: bool,
        quality: PrintQuality,
        target: PrinterTarget,
    },
    /// Feed the tape forward and cut it.
    FeedAndCut(PrinterTarget),
}

/// What the worker hears.
#[derive(Debug, PartialEq, Eq)]
pub enum WorkerInput {
    /// A command has come.
    Command(PrinterCommand),
    /// No command has come for [`POLL_INTERVAL`].
    Silence,
    /// No command will come any more.
    HungUp,
}

/// What the worker does.
#[derive(Debug, PartialEq, Eq)]
pub enum WorkerTask {
    Discover,
    Poll(PrinterTarget),
    Print {
        raster_lines: Vec<Vec<u8>>,
        chain_print: bool,
        auto_cut: bool,
        quality: PrintQuality,
        target: PrinterTarget,
    },
    FeedAndCut(PrinterTarget),
    /// Nothing, for the time being.
    Rest,
    /// End.
    Stop,
}

/// The value of a [`WorkerInput`].
pub enum InputModel {
    DiscoverBluetooth,
    Poll(TargetModel),
    Print {
        raster_lines: Seq<Seq<u8>>,
        chain_print: bool,
        auto_cut: bool,
        quality: PrintQuality,
        target: TargetModel,
    },
    FeedAndCut(TargetModel),
    Silence,
    HungUp,
}

/// The value of a [`WorkerTask`].
pub enum TaskModel {
    Discover,
    Poll(TargetModel),
    Print {
        raster_lines: Seq<Seq<u8>>,
        chain_print: bool,
        auto_cut: bool,
        quality: PrintQuality,
        target: TargetModel,
    },
    FeedAndCut(TargetModel),
    Rest,
    Stop,
}

impl View for WorkerInput {
    type V = InputModel;

    open spec fn view(&self) -> InputModel {
        match self {
            WorkerInput::Command(command) => match command {
                PrinterCommand::DiscoverBluetooth => InputModel::DiscoverBluetooth,
                PrinterCommand::Poll(target) => InputModel::Poll(target@),
                PrinterCommand::Print { raster_lines, chain_print, auto_cut, quality, target } => {
                    InputModel::Print {
                        raster_lines: contents(raster_lines@),
                        chain_print: *chain_print,
                        auto_cut: *auto_cut,
                        quality: *quality,
                        target: target@,
                    }
                },
                PrinterCommand::FeedAndCut(target) => InputModel::FeedAndCut(target@),
            },
            WorkerInput::Silence => InputModel::Silence,
            WorkerInput::HungUp => InputModel::HungUp,
        }
    }
}

impl View for WorkerTask {
    type V = TaskModel;

    open spec fn view(&self) -> TaskModel {
        match self {
            WorkerTask::Discover => TaskModel::Discover,
            WorkerTask::Poll(target) => TaskModel::Poll(target@),
            WorkerTask::Print { raster_lines, chain_print, auto_cut, quality, target } => {
                TaskModel::Print {
                    raster_lines: contents(raster_lines@),
                    chain_print: *chain_print,
                    auto_cut: *auto_cut,
                    quality: *quality,
                    target: target@,
                }
            },
            WorkerTask::FeedAndCut(target) => TaskModel::FeedAndCut(target@),
            WorkerTask::Rest => TaskModel::Rest,
            WorkerTask::Stop => TaskModel::Stop,
        }
    }
}

impl InputModel {
    /// The printer that the input is for.
    pub open spec fn target(self) -> Option<TargetModel> {
        match self {
            InputModel::Poll(target) => Some(target),
            InputModel::Print { raster_lines, chain_print, auto_cut, quality, target } => Some(
                target,
            ),
            InputModel::FeedAndCut(target) => Some(target),
            _ => None,
        }
    }
}

/// The printer that the worker looks after once it has heard `input`.
pub open spec fn attended(current: TargetModel, input: InputModel) -> TargetModel {
    match input.target() {
        Some(target) => target,
        None => current,
    }
}

/// What the worker does about `input`. Only USB printers are polled without a
/// command: to ask a Bluetooth printer is to connect to it.
pub open spec fn tasked(current: TargetModel, input: InputModel) -> TaskModel {
    match input {
        InputModel::DiscoverBluetooth => TaskModel::Discover,
        InputModel::Poll(target) => TaskModel::Poll(target),
        InputModel::Print { raster_lines, chain_print, auto_cut, quality, target } => {
            TaskModel::Print { raster_lines, chain_print, auto_cut, quality, target }
        },
        InputModel::FeedAndCut(target) => TaskModel::FeedAndCut(target),
        InputModel::Silence => if current is Bluetooth {
            TaskModel::Rest
        } else {
            TaskModel::Poll(current)
        },
        InputModel::HungUp => TaskModel::Stop,
    }
}

/// The worker between two commands.
pub struct Worker {
    current: PrinterTarget,
}

impl View for Worker {
    type V = TargetModel;

    closed spec fn view(&self) -> TargetModel {
        self.current@
    }
}

impl Worker {
    /// A worker that looks after the USB bus.
    pub fn new() -> (r: Self)
        ensures
            r@ == TargetModel::Usb,
    {
        Worker { current: PrinterTarget::Usb }
    }

    /// Decide what to do about what was heard.
    pub fn step(&mut self, input: WorkerInput) -> (task: WorkerTask)
        ensures
            task@ == tasked(old(self)@, input@),
            final(self)@ == attended(old(self)@, input@),
            match input {
                WorkerInput::Command(PrinterCommand::DiscoverBluetooth) => {
                    &&& task is Discover
                    &&& final(self)@ == old(self)@
                },
                WorkerInput::Command(PrinterCommand::Poll(target)) => {
                    &&& task == WorkerTask::Poll(target)
                    &&& final(self)@ == target@
                },
                WorkerInput::Command(
                    PrinterCommand::Print { raster_lines, chain_print, auto_cut, quality, target },
                ) => {
                    &&& task is Print
                    &&& task->raster_lines@ == raster_lines@
                    &&& task->chain_print == chain_print
                    &&& task->auto_cut == auto_cut
                    &&& task->quality == quality
                    &&& task->target == target
                    &&& final(self)@ == target@
                },
                WorkerInput::Command(PrinterCommand::FeedAndCut(target)) => {
                    &&& task == WorkerTask::FeedAndCut(target)
                    &&& final(self)@ == target@
                },
                WorkerInput::Silence => {
                    &&& old(self)@ is Bluetooth ==> task is Rest
                    &&& old(self)@ is Usb ==> task == WorkerTask::Poll(PrinterTarget::Usb)
                    &&& final(self)@ == old(self)@
                },
                WorkerInput::HungUp => task is Stop && final(self)@ == old(self)@,
            },
    {
        match input {
            WorkerInput::Command(command) => match command {
                PrinterCommand::DiscoverBluetooth => WorkerTask::Discover,
                PrinterCommand::Poll(target) => {
                    self.current = target.duplicate();
                    WorkerTask::Poll(target)
                },
                PrinterCommand::Print { raster_lines, chain_print, auto_cut, quality, target } => {
                    self.current = target.duplicate();
                    WorkerTask::Print { raster_lines, chain_print, auto_cut, quality, target }
                },
                PrinterCommand::FeedAndCut(target) => {
                    self.current = target.duplicate();
                    WorkerTask::FeedAndCut(target)
                },
            },
            WorkerInput::Silence => {
                if self.current.is_bluetooth() {
                    WorkerTask::Rest
                } else {
                    WorkerTask::Poll(self.current.duplicate())
                }
            },
            WorkerInput::HungUp => WorkerTask::Stop,
        }
    }
}

/// The task for a print command carries the lines, the options and the printer
/// that were commanded, each of them as it came, and the worker then looks after
/// that printer.
pub proof fn law_print_task_carries_command(
    current: TargetModel,
    lines: Seq<Seq<u8>>,
    chain: bool,
    cut: bool,
    at: PrintQuality,
    on: TargetModel,
)
    ensures
        ({
            let input = InputModel::Print {
                raster_lines: lines,
                chain_print: chain,
                auto_cut: cut,
                quality: at,
                target: on,
            };
            &&& match tasked(current, input) {
                TaskModel::Print { raster_lines, chain_print, auto_cut, quality, target } => {
                    &&& raster_lines == lines
                    &&& chain_print == chain
                    &&& auto_cut == cut
                    &&& quality == at
                    &&& target == on
                },
                _ => false,
            }
            &&& attended(current, input) == on
        }),
{
}

/// Commands for other printers, options or lines are other tasks: the task of a
/// command tells which command it was.
pub proof fn law_task_determines_command(current: TargetModel, a: InputModel, b: InputModel)
    requires
        tasked(current, a) == tasked(current, b),
        !(a is Silence),
        !(b is Silence),
    ensures
        a == b,
{
}

/// What is commanded for a printer is done on that printer, which the worker then
/// looks after. A search, a silence and the end leave it with the printer that it
/// had.
pub proof fn law_commands_reach_their_printer(current: TargetModel, on: TargetModel)
    ensures
        tasked(current, InputModel::Poll(on)) == TaskModel::Poll(on),
        attended(current, InputModel::Poll(on)) == on,
        tasked(current, InputModel::FeedAndCut(on)) == TaskModel::FeedAndCut(on),
        attended(current, InputModel::FeedAndCut(on)) == on,
        tasked(current, InputModel::DiscoverBluetooth) is Discover,
        attended(current, InputModel::DiscoverBluetooth) == current,
        tasked(current, InputModel::Silence) is Rest <==> current is Bluetooth,
        attended(current, InputModel::Silence) == current,
        tasked(current, InputModel::HungUp) is Stop,
        attended(current, InputModel::HungUp) == current,
{
}

/// The printer that the worker looks after once it has heard all of `inputs`.
pub open spec fn attended_after(current: TargetModel, inputs: Seq<InputModel>) -> TargetModel
    decreases inputs.len(),
{
    if inputs.len() == 0 {
        current
    } else {
        attended_after(attended(current, inputs[0]), inputs.drop_first())
    }
}

/// In silence, which lasts three seconds, the worker polls the printer of the last
/// command for one, unless that is a Bluetooth printer; without such a command,
/// the USB bus.
pub proof fn law_silence_polls_last_printer(inputs: Seq<InputModel>, i: int)
    requires
        -1 <= i < inputs.len(),
        i >= 0 ==> inputs[i].target() is Some,
        forall|k: int| i < k < inputs.len() ==> (#[trigger] inputs[k]).target() is None,
    ensures
        POLL_INTERVAL == 3_000_000_000,
        ({
            let current = attended_after(TargetModel::Usb, inputs);
            &&& current == if i >= 0 {
                inputs[i].target()->Some_0
            } else {
                TargetModel::Usb
            }
            &&& tasked(current, InputModel::Silence) == if current is Bluetooth {
                TaskModel::Rest
            } else {
                TaskModel::Poll(TargetModel::Usb)
            }
        }),
{
    lemma_attended_after(TargetModel::Usb, inputs, i);
}

proof fn lemma_attended_after(current: TargetModel, inputs: Seq<InputModel>, i: int)
    requires
        -1 <= i < inputs.len(),
        i >= 0 ==> inputs[i].target() is Some,
        forall|k: int| i < k < inputs.len() ==> (#[trigger] inputs[k]).target() is None,
    ensures
        attended_after(current, inputs) == if i >= 0 {
            inputs[i].target()->Some_0
        } else {
            current
        },
    decreases inputs.len(),
{
    if inputs.len() > 0 {
        let rest = inputs.drop_first();
        let j = if i >= 0 {
            i - 1
        } else {
            -1
        };
        assert forall|k: int| j < k < rest.len() implies (#[trigger] rest[k]).target() is None by {
            assert(rest[k] == inputs[k + 1]);
        }
        if i > 0 {
            assert(rest[j] == inputs[i]);
        }
        lemma_attended_after(attended(current, inputs[0]), rest, j);
    }
}

// ---------------------------------------------------------------------
// Responses
// ---------------------------------------------------------------------

/// What the worker reports.
#[derive(Debug, PartialEq, Eq)]
pub enum PrinterResponse {
    /// The paired Bluetooth printers.
    BluetoothDevices(Vec<PrinterTarget>),
    /// The printer is there.
    Connected {
        model_name: String,
        media_width: u8,
        media_type: String,
        max_px: u16,
        dpi: u16,
        quality_modes: bool,
        tape_width_px: u16,
    },
    /// The printer is not there.
    Disconnected,
    /// The label is printed.
    PrintDone,
    /// The tape is fed and cut.
    FeedAndCutDone,
    /// The command failed.
    Error(String),
}

/// What the worker reports, and on which printer.
#[derive(Debug, PartialEq, Eq)]
pub struct PrinterEvent {
    pub target: Option<PrinterTarget>,
    pub response: PrinterResponse,
}

/// A printer that is there.
pub struct ConnectedModel {
    pub model_name: Seq<char>,
    pub media_width: u8,
    pub media_type: Seq<char>,
    pub max_px: u16,
    pub dpi: u16,
    pub quality_modes: bool,
    pub tape_width_px: u16,
}

/// The value of a [`PrinterResponse`].
pub enum ResponseModel {
    BluetoothDevices(Seq<TargetModel>),
    Connected(ConnectedModel),
    Disconnected,
    PrintDone,
    FeedAndCutDone,
    Error(Seq<char>),
}

/// The value of a [`PrinterEvent`].
pub struct EventModel {
    pub target: Option<TargetModel>,
    pub response: ResponseModel,
}

impl View for PrinterResponse {
    type V = ResponseModel;

    open spec fn view(&self) -> ResponseModel {
        match self {
            PrinterResponse::BluetoothDevices(list) => ResponseModel::BluetoothDevices(
                targets(list@),
            ),
            PrinterResponse::Connected {
                model_name,
                media_width,
                media_type,
                max_px,
                dpi,
                quality_modes,
                tape_width_px,
            } => ResponseModel::Connected(
                ConnectedModel {
                    model_name: model_name@,
                    media_width: *media_width,
                    media_type: media_type@,
                    max_px: *max_px,
                    dpi: *dpi,
                    quality_modes: *quality_modes,
                    tape_width_px: *tape_width_px,
                },
            ),
            PrinterResponse::Disconnected => ResponseModel::Disconnected,
            PrinterResponse::PrintDone => ResponseModel::PrintDone,
            PrinterResponse::FeedAndCutDone => ResponseModel::FeedAndCutDone,
            PrinterResponse::Error(message) => ResponseModel::Error(message@),
        }
    }
}

impl View for PrinterEvent {
    type V = EventModel;

    open spec fn view(&self) -> EventModel {
        EventModel {
            target: match self.target {
                Some(target) => Some(target@),
                None => None,
            },
            response: self.response@,
        }
    }
}

/// The report on a discovery, given what it has printed, or why it failed. A
/// failed discovery finds nothing.
pub fn discovery_event(found: Result<String, String>) -> (event: PrinterEvent)
    ensures
        event@ == (EventModel {
            target: None,
            response: ResponseModel::BluetoothDevices(
                match found {
                    Ok(output) => listed_printers(output@),
                    Err(message) => Seq::empty(),
                },
            ),
        }),
{
    let list: Vec<PrinterTarget> = match found {
        Ok(output) => parse_bluetooth_devices(output.as_str()),
        Err(_) => Vec::new(),
    };
    assert(found is Err ==> targets(list@) =~= Seq::empty());
    PrinterEvent { target: None, response: PrinterResponse::BluetoothDevices(list) }
}

/// The report on a poll. A printer that cannot be polled is not there.
pub fn poll_event(target: PrinterTarget, polled: Result<PrinterResponse, String>) -> (event:
    PrinterEvent)
    ensures
        event@ == (EventModel {
            target: Some(target@),
            response: match polled {
                Ok(response) => response@,
                Err(message) => ResponseModel::Disconnected,
            },
        }),
{
    let response: PrinterResponse = match polled {
        Ok(response) => response,
        Err(_) => PrinterResponse::Disconnected,
    };
    PrinterEvent { target: Some(target), response }
}

/// The report on a label.
pub fn print_event(target: PrinterTarget, printed: Result<(), String>) -> (event: PrinterEvent)
    ensures
        event@ == (EventModel {
            target: Some(target@),
            response: match printed {
                Ok(u) => ResponseModel::PrintDone,
                Err(message) => ResponseModel::Error(message@),
            },
        }),
{
    let response: PrinterResponse = match printed {
        Ok(()) => PrinterResponse::PrintDone,
        Err(message) => PrinterResponse::Error(message),
    };
    PrinterEvent { target: Some(target), response }
}

/// The report on a feed.
pub fn feed_event(target: PrinterTarget, fed: Result<(), String>) -> (event: PrinterEvent)
    ensures
        event@ == (EventModel {
            target: Some(target@),
            response: match fed {
                Ok(u) => ResponseModel::FeedAndCutDone,
                Err(message) => ResponseModel::Error(message@),
            },
        }),
{
    let response: PrinterResponse = match fed {
        Ok(()) => PrinterResponse::FeedAndCutDone,
        Err(message) => PrinterResponse::Error(message),
    };
    PrinterEvent { target: Some(target), response }
}

/// Why a printer cannot feed and cut, if it cannot: the cutter of the Bluetooth
/// printer is a manual one.
pub fn feed_refusal(target: &PrinterTarget) -> (r: Option<String>)
    ensures
        match r {
            Some(message) => target@ is Bluetooth && message@ == "PT-P300BT has a manual cutter"@,
            None => target@ is Usb,
        },
{
    match target {
        PrinterTarget::Usb => None,
        PrinterTarget::Bluetooth { .. } => Some("PT-P300BT has a manual cutter".to_string()),
    }
}

/// How far a command on a USB printer has come.
#[derive(Debug, Clone, Copy, PartialEq, Eq, Structural)]
pub enum Stage {
    Connect,
    Init,
    Print,
    FeedAndCut,
}

/// What a failure at a stage is reported as.
pub open spec fn stage_text(stage: Stage) -> Seq<char> {
    match stage {
        Stage::Connect => "Connect error: "@,
        Stage::Init => "Init error: "@,
        Stage::Print => "Print error: "@,
        Stage::FeedAndCut => "Feed & cut error: "@,
    }
}

/// What a failure at a stage is reported as.
pub fn stage_error(stage: Stage, error: &PtouchError) -> (text: String)
    ensures
        text@ == stage_text(stage) + error@.text(),
{
    let mut text: String = match stage {
        Stage::Connect => "Connect error: ".to_string(),
        Stage::Init => "Init error: ".to_string(),
        Stage::Print => "Print error: ".to_string(),
        Stage::FeedAndCut => "Feed & cut error: ".to_string(),
    };
    let message: String = error.message();
    text.append(message.as_str());
    text
}

/// What a USB printer with the given report is reported as.
pub open spec fn usb_connected(device: DeviceModel, status: PrinterStatus) -> ConnectedModel {
    ConnectedModel {
        model_name: device.info.name@,
        media_width: status.media_width,
        media_type: status.media_name(),
        max_px: device.session.profile.raster_width_px,
        dpi: device.info.dpi,
        quality_modes: device.session.profile.flags.has(DeviceFlags::LEGACY_HIRES),
        tape_width_px: match device.session.tape_width_px {
            Some(px) => px,
            None => device.session.profile.raster_width_px,
        },
    }
}

/// A USB printer is reported by its own name, resolution and head, with the tape
/// that its status names. The printable width is the one that is known, else that
/// of the head, and quality modes are offered where the printer has a
/// high-resolution mode.
pub proof fn law_usb_report_is_of_the_device(device: DeviceModel, status: PrinterStatus)
    ensures
        ({
            let report = usb_connected(device, status);
            &&& report.model_name == device.info.name@
            &&& report.media_width == status.media_width
            &&& report.media_type == status.media_name()
            &&& report.max_px == device.session.profile.raster_width_px
            &&& report.dpi == device.info.dpi
            &&& report.quality_modes <==> device.session.profile.flags.bits & 16 == 16
            &&& Some(report.tape_width_px) == device.session.tape_width_px || (
            device.session.tape_width_px is None && report.tape_width_px == report.max_px)
        }),
{
}

/// What a USB printer is reported as once its status was queried. A tape of
/// unknown width counts as wide as the print head.
pub fn usb_response(device: &PtouchDevice) -> (r: Option<PrinterResponse>)
    ensures
        match (r, device@.session.status) {
            (Some(response), Some(status)) => response@ == ResponseModel::Connected(
                usb_connected(device@, status),
            ),
            (None, None) => true,
            _ => false,
        },
        match (r, device@.session.status) {
            (
                Some(
                    PrinterResponse::Connected {
                        model_name,
                        media_width,
                        media_type,
                        max_px,
                        dpi,
                        quality_modes,
                        tape_width_px,
                    },
                ),
                Some(status),
            ) => {
                &&& model_name@ == device@.info.name@
                &&& media_width == status.media_width
                &&& media_type@ == status.media_name()
                &&& max_px == device@.session.profile.raster_width_px
                &&& dpi == device@.info.dpi
                &&& quality_modes <==> device@.session.profile.flags.bits & 16 == 16
                &&& device@.session.tape_width_px is Some ==> device@.session.tape_width_px == Some(
                    tape_width_px,
                )
                &&& device@.session.tape_width_px is None ==> tape_width_px == max_px
            },
            (None, None) => true,
            _ => false,
        },
{
    match device.status() {
        None => None,
        Some(status) => {
            let max_px: u16 = device.max_px();
            let tape_width_px: u16 = match device.tape_width_px() {
                Some(px) => px,
                None => max_px,
            };
            Some(
                PrinterResponse::Connected {
                    model_name: device.device_info().name.to_string(),
                    media_width: status.media_width,
                    media_type: status.media_type_name().to_string(),
                    max_px,
                    dpi: device.device_info().dpi,
                    quality_modes: device.flags().contains(DeviceFlags::LEGACY_HIRES),
                    tape_width_px,
                },
            )
        },
    }
}

// ---------------------------------------------------------------------
// What the Bluetooth helper prints
// ---------------------------------------------------------------------

/// The printer that a line of the listing stands for: an address, a tabulator
/// and a name.
pub open spec fn listed_printer(line: Seq<char>) -> Option<TargetModel> {
    match split_once(line, '\t') {
        Some((address, name)) => Some(TargetModel::Bluetooth { name, address }),
        None => None,
    }
}

/// The printers that lines stand for.
pub open spec fn printers_of(list: Seq<Seq<char>>) -> Seq<TargetModel>
    decreases list.len(),
{
    if list.len() == 0 {
        Seq::empty()
    } else {
        let before = printers_of(list.drop_last());
        match listed_printer(list.last()) {
            Some(target) => before.push(target),
            None => before,
        }
    }
}

/// The printers of a listing.
pub open spec fn listed_printers(output: Seq<char>) -> Seq<TargetModel> {
    printers_of(lines(output))
}

/// Read a listing of paired printers. Other lines are passed over.
pub fn parse_bluetooth_devices(output: &str) -> (list: Vec<PrinterTarget>)
    ensures
        targets(list@) == listed_printers(output@),
{
    let all: Vec<String> = text_lines(output);
    let mut list: Vec<PrinterTarget> = Vec::new();
    let mut i: usize = 0;
    let ghost read = lines(output@);
    proof {
        assert(read.take(0) =~= Seq::empty());
        assert(targets(list@) =~= Seq::empty());
    }
    while i < all.len()
        invariant
            i <= all.len(),
            read == lines(output@),
            texts(all@) == read,
            targets(list@) == printers_of(read.take(i as int)),
        decreases all.len() - i,
    {
        let line: Vec<char> = characters(all[i].as_str());
        proof {
            assert(line@ == read[i as int]);
            assert(read.take(i + 1).drop_last() =~= read.take(i as int));
            assert(line@.skip(0) =~= line@);
        }
        let at: usize = find_from(&line, 0, '\t');
        if at < line.len() {
            let address: String = text_between(&line, 0, at);
            let name: String = text_between(&line, at + 1, line.len());
            proof {
                assert(address@ =~= line@.take(at as int));
                assert(name@ =~= line@.skip(at + 1));
            }
            let ghost before = targets(list@);
            list.push(PrinterTarget::Bluetooth { name, address });
            assert(targets(list@) =~= before.push(
                TargetModel::Bluetooth { name: name@, address: address@ },
            ));
        }
        i = i + 1;
    }
    assert(read.take(i as int) =~= read);
    list
}

/// The printer that a status line stands for: model, tape width in millimetres,
/// kind of tape, raster width, resolution and printable width, with tabulators
/// between them.
pub open spec fn reported(output: Seq<char>) -> Result<ConnectedModel, Seq<char>> {
    let fields = split(trimmed_end(output), '\t');
    if fields.len() != 6 {
        Err("Bluetooth helper returned invalid status"@)
    } else if number(fields[1], u8::MAX as nat) is None {
        Err("Invalid media width"@)
    } else if number(fields[3], u16::MAX as nat) is None {
        Err("Invalid raster width"@)
    } else if number(fields[4], u16::MAX as nat) is None {
        Err("Invalid resolution"@)
    } else if number(fields[5], u16::MAX as nat) is None {
        Err("Invalid tape width"@)
    } else {
        Ok(
            ConnectedModel {
                model_name: fields[0],
                media_width: number(fields[1], u8::MAX as nat)->Some_0 as u8,
                media_type: fields[2],
                max_px: number(fields[3], u16::MAX as nat)->Some_0 as u16,
                dpi: number(fields[4], u16::MAX as nat)->Some_0 as u16,
                quality_modes: false,
                tape_width_px: number(fields[5], u16::MAX as nat)->Some_0 as u16,
            },
        )
    }
}

fn read_u16(text: &String) -> (r: Option<u16>)
    ensures
        match r {
            Some(n) => number(text@, u16::MAX as nat) == Some(n as nat),
            None => number(text@, u16::MAX as nat) is None,
        },
{
    match read_number(text.as_str(), 0xffff) {
        Some(n) => Some(n as u16),
        None => None,
    }
}

/// Read the status line of a Bluetooth printer.
pub fn parse_bluetooth_status(output: &str) -> (r: Result<PrinterResponse, String>)
    ensures
        match (r, reported(output@)) {
            (Ok(response), Ok(connected)) => response@ == ResponseModel::Connected(connected),
            (Err(message), Err(text)) => message@ == text,
            _ => false,
        },
{
    let chars: Vec<char> = characters(output);
    let end: usize = content_end(&chars);
    let fields: Vec<String> = split_parts(&chars, end, '\t');
    let ghost all = split(trimmed_end(output@), '\t');
    assert(texts(fields@) == all);
    assert(fields@.len() == all.len());
    if fields.len() != 6 {
        return Err("Bluetooth helper returned invalid status".to_string());
    }
    proof {
        assert forall|i: int| 0 <= i < 6 implies (#[trigger] fields@[i])@ == all[i] by {
            assert(texts(fields@)[i] == fields@[i]@);
        }
    }
    let media_width: u8 = match read_number(fields[1].as_str(), 0xff) {
        Some(n) => n as u8,
        None => {
            return Err("Invalid media width".to_string());
        },
    };
    let max_px: u16 = match read_u16(&fields[3]) {
        Some(n) => n,
        None => {
            return Err("Invalid raster width".to_string());
        },
    };
    let dpi: u16 = match read_u16(&fields[4]) {
        Some(n) => n,
        None => {
            return Err("Invalid resolution".to_string());
        },
    };
    let tape_width_px: u16 = match read_u16(&fields[5]) {
        Some(n) => n,
        None => {
            return Err("Invalid tape width".to_string());
        },
    };
    Ok(
        PrinterResponse::Connected {
            model_name: fields[0].clone(),
            media_width,
            media_type: fields[2].clone(),
            max_px,
            dpi,
            quality_modes: false,
            tape_width_px,
        },
    )
}

/// A line of the listing is an address, a tabulator and a name: what stands
/// before the first tabulator is the address, and all behind it the name. A line
/// without a tabulator is no printer.
pub proof fn law_listed_printers(before: Seq<Seq<char>>, line: Seq<char>)
    ensures
        printers_of(Seq::empty()) == Seq::<TargetModel>::empty(),
        match listed_printer(line) {
            Some(TargetModel::Bluetooth { name, address }) => {
                &&& line == address + seq!['\t'] + name
                &&& !address.contains('\t')
                &&& printers_of(before.push(line)) == printers_of(before).push(
                    TargetModel::Bluetooth { name, address },
                )
            },
            Some(TargetModel::Usb) => false,
            None => !line.contains('\t') && printers_of(before.push(line)) == printers_of(before),
        },
{
    law_split_once_is_at_first_separator(line, '\t');
    assert(before.push(line).drop_last() =~= before);
}

/// The printers of a listing are those of its lines.
pub proof fn law_listing_is_read_line_by_line(output: Seq<char>)
    ensures
        listed_printers(output) == printers_of(lines(output)),
        listed_printers(output).len() <= lines(output).len(),
{
    lemma_printers_of(lines(output));
}

proof fn lemma_printers_of(list: Seq<Seq<char>>)
    ensures
        printers_of(list).len() <= list.len(),
    decreases list.len(),
{
    if list.len() > 0 {
        lemma_printers_of(list.drop_last());
    }
}

/// A status line that is accepted has six fields with tabulators between them, in
/// the order of model, tape width, kind of tape, raster width, resolution and
/// printable width, and the four numbers are in range. One that is refused has
/// not.
pub proof fn law_status_line_fields(output: Seq<char>)
    ensures
        ({
            let fields = split(trimmed_end(output), '\t');
            match reported(output) {
                Ok(c) => {
                    &&& fields.len() == 6
                    &&& joined_by(fields, '\t') == trimmed_end(output)
                    &&& c.model_name == fields[0]
                    &&& number(fields[1], 255) == Some(c.media_width as nat)
                    &&& c.media_type == fields[2]
                    &&& number(fields[3], 65535) == Some(c.max_px as nat)
                    &&& number(fields[4], 65535) == Some(c.dpi as nat)
                    &&& number(fields[5], 65535) == Some(c.tape_width_px as nat)
                    &&& !c.quality_modes
                },
                Err(text) => if fields.len() != 6 {
                    text == "Bluetooth helper returned invalid status"@
                } else if number(fields[1], 255) is None {
                    text == "Invalid media width"@
                } else if number(fields[3], 65535) is None {
                    text == "Invalid raster width"@
                } else if number(fields[4], 65535) is None {
                    text == "Invalid resolution"@
                } else {
                    number(fields[5], 65535) is None && text == "Invalid tape width"@
                },
            }
        }),
{
    law_split_is_undone_by_joining(trimmed_end(output), '\t');
}

/// A failure is reported by the stage at which it happened.
pub proof fn law_stages_are_told()
    ensures
        stage_text(Stage::Connect) == "Connect error: "@,
        stage_text(Stage::Init) == "Init error: "@,
        stage_text(Stage::Print) == "Print error: "@,
        stage_text(Stage::FeedAndCut) == "Feed & cut error: "@,
{
}

} // verus!
