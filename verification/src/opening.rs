//! Opening an RFCOMM channel to a paired printer, one request to the system at
//! a time.

use vstd::prelude::*;

use crate::error::{ErrorModel, PtouchError};
use crate::pairing::{address, bt, is_address};
use crate::rfcomm::{bt_code, coded, DISCOVERY_TIMEOUT, OPEN_TIMEOUT};

verus! {

/// What is asked of the system.
#[derive(Debug, PartialEq, Eq)]
pub enum OpenRequest {
    /// Look the device up by its address.
    FindDevice,
    /// Look whether the device is paired.
    CheckPairing,
    /// Make an identifier of the serial port service.
    MakeServiceId,
    /// Look whether the service is known already.
    LookUpService,
    /// Start a service discovery.
    QueryServices,
    /// Wait until the service is known or time is up.
    AwaitService { timeout: u64 },
    /// Get the record of the service.
    TakeService,
    /// Find out the channel of the service.
    ResolveChannel,
    /// Start to open the channel.
    OpenChannel { id: u8 },
    /// Wait for the report on the channel, or until time is up.
    AwaitConnection { id: u8, timeout: u64 },
    /// Shut down the channel, which did not open in time.
    CloseExpired,
    /// Shut down the channel, which did not open for the given reason.
    CloseFailed { error: PtouchError },
}

/// The value of an [`OpenRequest`].
pub enum RequestModel {
    FindDevice,
    CheckPairing,
    MakeServiceId,
    LookUpService,
    QueryServices,
    AwaitService { timeout: u64 },
    TakeService,
    ResolveChannel,
    OpenChannel { id: u8 },
    AwaitConnection { id: u8, timeout: u64 },
    CloseExpired,
    CloseFailed { error: ErrorModel },
}

impl View for OpenRequest {
    type V = RequestModel;

    open spec fn view(&self) -> RequestModel {
        match self {
            OpenRequest::FindDevice => RequestModel::FindDevice,
            OpenRequest::CheckPairing => RequestModel::CheckPairing,
            OpenRequest::MakeServiceId => RequestModel::MakeServiceId,
            OpenRequest::LookUpService => RequestModel::LookUpService,
            OpenRequest::QueryServices => RequestModel::QueryServices,
            OpenRequest::AwaitService { timeout } => RequestModel::AwaitService {
                timeout: *timeout,
            },
            OpenRequest::TakeService => RequestModel::TakeService,
            OpenRequest::ResolveChannel => RequestModel::ResolveChannel,
            OpenRequest::OpenChannel { id } => RequestModel::OpenChannel { id: *id },
            OpenRequest::AwaitConnection { id, timeout } => RequestModel::AwaitConnection {
                id: *id,
                timeout: *timeout,
            },
            OpenRequest::CloseExpired => RequestModel::CloseExpired,
            OpenRequest::CloseFailed { error } => RequestModel::CloseFailed { error: error@ },
        }
    }
}

/// What the system answers.
#[derive(Debug, PartialEq, Eq)]
pub enum OpenReply {
    /// Whether what was looked for, made or awaited is there.
    Found(bool),
    /// The result code of a request.
    Code(i32),
    /// The channel of a service, with the result code.
    Resolved { code: i32, id: u8 },
    /// The result code of opening a channel, and whether there is a channel.
    Opening { code: i32, channel: bool },
    /// The reported result code of opening, if it came.
    Reported(Option<i32>),
    /// What shutting down came to.
    Closed(Result<(), PtouchError>),
}

/// The value of an [`OpenReply`].
pub enum OpenReplyModel {
    Found(bool),
    Code(i32),
    Resolved { code: i32, id: u8 },
    Opening { code: i32, channel: bool },
    Reported(Option<i32>),
    Closed(Result<(), ErrorModel>),
}

impl View for OpenReply {
    type V = OpenReplyModel;

    open spec fn view(&self) -> OpenReplyModel {
        match self {
            OpenReply::Found(found) => OpenReplyModel::Found(*found),
            OpenReply::Code(code) => OpenReplyModel::Code(*code),
            OpenReply::Resolved { code, id } => OpenReplyModel::Resolved { code: *code, id: *id },
            OpenReply::Opening { code, channel } => OpenReplyModel::Opening {
                code: *code,
                channel: *channel,
            },
            OpenReply::Reported(code) => OpenReplyModel::Reported(*code),
            OpenReply::Closed(Ok(())) => OpenReplyModel::Closed(Ok(())),
            OpenReply::Closed(Err(e)) => OpenReplyModel::Closed(Err(e@)),
        }
    }
}

/// What is asked for next, or the identifier of the open channel.
#[derive(Debug, PartialEq, Eq)]
pub enum OpenStep {
    Ask(OpenRequest),
    Done(Result<u8, PtouchError>),
}

/// The value of an [`OpenStep`].
pub enum OpenModel {
    Ask(RequestModel),
    Done(Result<u8, ErrorModel>),
}

impl View for OpenStep {
    type V = OpenModel;

    open spec fn view(&self) -> OpenModel {
        match self {
            OpenStep::Ask(request) => OpenModel::Ask(request@),
            OpenStep::Done(Ok(id)) => OpenModel::Done(Ok(*id)),
            OpenStep::Done(Err(e)) => OpenModel::Done(Err(e@)),
        }
    }
}

/// The failure with the given message.
pub open spec fn refused(message: Seq<char>) -> OpenModel {
    OpenModel::Done(Err(ErrorModel::Bluetooth(message)))
}

impl RequestModel {
    /// Whether a reply answers the request.
    pub open spec fn answered_by(self, reply: OpenReplyModel) -> bool {
        match self {
            RequestModel::FindDevice => reply is Found,
            RequestModel::CheckPairing => reply is Found,
            RequestModel::MakeServiceId => reply is Found,
            RequestModel::LookUpService => reply is Found,
            RequestModel::QueryServices => reply is Code,
            RequestModel::AwaitService { timeout } => reply is Found,
            RequestModel::TakeService => reply is Found,
            RequestModel::ResolveChannel => reply is Resolved,
            RequestModel::OpenChannel { id } => reply is Opening,
            RequestModel::AwaitConnection { id, timeout } => reply is Reported,
            RequestModel::CloseExpired => reply is Closed,
            RequestModel::CloseFailed { error } => reply is Closed,
        }
    }

    /// Ask for `next` where something was found, and fail otherwise.
    pub open spec fn where_found(reply: OpenReplyModel, next: RequestModel, message: Seq<char>) -> OpenModel {
        if reply->Found_0 {
            OpenModel::Ask(next)
        } else {
            refused(message)
        }
    }

    /// How opening goes on after a reply.
    pub open spec fn next(self, reply: OpenReplyModel) -> OpenModel {
        match self {
            RequestModel::FindDevice => Self::where_found(
                reply,
                RequestModel::CheckPairing,
                "Unknown Bluetooth address"@,
            ),
            RequestModel::CheckPairing => Self::where_found(
                reply,
                RequestModel::MakeServiceId,
                "Pair the printer in macOS Bluetooth settings first"@,
            ),
            RequestModel::MakeServiceId => Self::where_found(
                reply,
                RequestModel::LookUpService,
                "Cannot create SPP UUID"@,
            ),
            RequestModel::LookUpService => if reply->Found_0 {
                OpenModel::Ask(RequestModel::TakeService)
            } else {
                OpenModel::Ask(RequestModel::QueryServices)
            },
            RequestModel::QueryServices => if reply->Code_0 != 0 {
                OpenModel::Done(Err(coded("SDP query failed: "@, reply->Code_0)))
            } else {
                OpenModel::Ask(RequestModel::AwaitService { timeout: DISCOVERY_TIMEOUT })
            },
            RequestModel::AwaitService { timeout } => Self::where_found(
                reply,
                RequestModel::TakeService,
                "SPP service discovery timed out"@,
            ),
            RequestModel::TakeService => Self::where_found(
                reply,
                RequestModel::ResolveChannel,
                "No SPP service"@,
            ),
            RequestModel::ResolveChannel => {
                let code = reply->Resolved_code;
                let id = reply->Resolved_id;
                if code != 0 || id == 0 {
                    OpenModel::Done(Err(coded("Cannot resolve RFCOMM channel: "@, code)))
                } else {
                    OpenModel::Ask(RequestModel::OpenChannel { id })
                }
            },
            RequestModel::OpenChannel { id } => {
                let code = reply->Opening_code;
                if !reply->channel {
                    OpenModel::Done(Err(coded("No RFCOMM channel: "@, code)))
                } else if code != 0 {
                    OpenModel::Ask(
                        RequestModel::CloseFailed {
                            error: coded("RFCOMM open rejected: "@, code),
                        },
                    )
                } else {
                    OpenModel::Ask(RequestModel::AwaitConnection { id, timeout: OPEN_TIMEOUT })
                }
            },
            RequestModel::AwaitConnection { id, timeout } => match reply->Reported_0 {
                None => OpenModel::Ask(RequestModel::CloseExpired),
                Some(code) => if code != 0 {
                    OpenModel::Ask(
                        RequestModel::CloseFailed {
                            error: coded("RFCOMM connection failed: "@, code),
                        },
                    )
                } else {
                    OpenModel::Done(Ok(id))
                },
            },
            RequestModel::CloseExpired => match reply->Closed_0 {
                Err(e) => OpenModel::Done(Err(e)),
                Ok(u) => refused("RFCOMM connection timed out"@),
            },
            RequestModel::CloseFailed { error } => OpenModel::Done(Err(error)),
        }
    }

    /// How many requests can still follow, at most, this one included.
    pub open spec fn rank(self) -> nat {
        match self {
            RequestModel::FindDevice => 10,
            RequestModel::CheckPairing => 9,
            RequestModel::MakeServiceId => 8,
            RequestModel::LookUpService => 7,
            RequestModel::QueryServices => 6,
            RequestModel::AwaitService { timeout } => 5,
            RequestModel::TakeService => 4,
            RequestModel::ResolveChannel => 3,
            RequestModel::OpenChannel { id } => 2,
            RequestModel::AwaitConnection { id, timeout } => 1,
            RequestModel::CloseExpired => 0,
            RequestModel::CloseFailed { error } => 0,
        }
    }

    /// Whether there is a channel that somebody has to shut down.
    pub open spec fn holds_channel(self) -> bool {
        self is AwaitConnection || self is CloseExpired || self is CloseFailed
    }
}

/// How opening the printer with the given address starts.
pub open spec fn opening(main_thread: bool, text: Seq<char>) -> OpenModel {
    if !main_thread {
        refused("Native Bluetooth must be opened and used on the main thread"@)
    } else if !address(text) {
        refused("Expected a Bluetooth address such as AA:BB:CC:DD:EE:FF"@)
    } else {
        OpenModel::Ask(RequestModel::FindDevice)
    }
}

/// Start to open an already-paired printer by its address.
///
/// The system may be asked on the main thread only.
pub fn begin_open(main_thread: bool, address: &str) -> (r: OpenStep)
    ensures
        r@ == opening(main_thread, address@),
{
    if !main_thread {
        return OpenStep::Done(
            Err(bt("Native Bluetooth must be opened and used on the main thread")),
        );
    }
    if !is_address(address) {
        return OpenStep::Done(
            Err(bt("Expected a Bluetooth address such as AA:BB:CC:DD:EE:FF")),
        );
    }
    OpenStep::Ask(OpenRequest::FindDevice)
}

fn where_found(found: bool, next: OpenRequest, message: &str) -> (r: OpenStep)
    ensures
        r@ == RequestModel::where_found(OpenReplyModel::Found(found), next@, message@),
{
    if found {
        OpenStep::Ask(next)
    } else {
        OpenStep::Done(Err(bt(message)))
    }
}

/// Go on with opening once the system has answered.
pub fn resume_open(request: OpenRequest, reply: OpenReply) -> (r: OpenStep)
    requires
        request@.answered_by(reply@),
    ensures
        r@ == request@.next(reply@),
{
    match (request, reply) {
        (OpenRequest::FindDevice, OpenReply::Found(found)) => where_found(
            found,
            OpenRequest::CheckPairing,
            "Unknown Bluetooth address",
        ),
        (OpenRequest::CheckPairing, OpenReply::Found(found)) => where_found(
            found,
            OpenRequest::MakeServiceId,
            "Pair the printer in macOS Bluetooth settings first",
        ),
        (OpenRequest::MakeServiceId, OpenReply::Found(found)) => where_found(
            found,
            OpenRequest::LookUpService,
            "Cannot create SPP UUID",
        ),
        (OpenRequest::LookUpService, OpenReply::Found(found)) => {
            if found {
                OpenStep::Ask(OpenRequest::TakeService)
            } else {
                OpenStep::Ask(OpenRequest::QueryServices)
            }
        },
        (OpenRequest::QueryServices, OpenReply::Code(code)) => {
            if code != 0 {
                OpenStep::Done(Err(bt_code("SDP query failed: ", code)))
            } else {
                OpenStep::Ask(OpenRequest::AwaitService { timeout: DISCOVERY_TIMEOUT })
            }
        },
        (OpenRequest::AwaitService { .. }, OpenReply::Found(found)) => where_found(
            found,
            OpenRequest::TakeService,
            "SPP service discovery timed out",
        ),
        (OpenRequest::TakeService, OpenReply::Found(found)) => where_found(
            found,
            OpenRequest::ResolveChannel,
            "No SPP service",
        ),
        (OpenRequest::ResolveChannel, OpenReply::Resolved { code, id }) => {
            if code != 0 || id == 0 {
                OpenStep::Done(Err(bt_code("Cannot resolve RFCOMM channel: ", code)))
            } else {
                OpenStep::Ask(OpenRequest::OpenChannel { id })
            }
        },
        (OpenRequest::OpenChannel { id }, OpenReply::Opening { code, channel }) => {
            if !channel {
                OpenStep::Done(Err(bt_code("No RFCOMM channel: ", code)))
            } else if code != 0 {
                OpenStep::Ask(
                    OpenRequest::CloseFailed { error: bt_code("RFCOMM open rejected: ", code) },
                )
            } else {
                OpenStep::Ask(OpenRequest::AwaitConnection { id, timeout: OPEN_TIMEOUT })
            }
        },
        (OpenRequest::AwaitConnection { id, .. }, OpenReply::Reported(reported)) => {
            match reported {
                None => OpenStep::Ask(OpenRequest::CloseExpired),
                Some(code) => {
                    if code != 0 {
                        OpenStep::Ask(
                            OpenRequest::CloseFailed {
                                error: bt_code("RFCOMM connection failed: ", code),
                            },
                        )
                    } else {
                        OpenStep::Done(Ok(id))
                    }
                },
            }
        },
        (OpenRequest::CloseExpired, OpenReply::Closed(result)) => match result {
            Err(error) => OpenStep::Done(Err(error)),
            Ok(()) => OpenStep::Done(Err(bt("RFCOMM connection timed out"))),
        },
        (OpenRequest::CloseFailed { error }, _) => OpenStep::Done(Err(error)),
        // The contract rules out every other reply.
        _ => OpenStep::Done(Err(bt("RFCOMM connection timed out"))),
    }
}

impl OpenRequest {
    /// Whether a reply answers the request.
    pub fn answered_by(&self, reply: &OpenReply) -> (r: bool)
        ensures
            r == self@.answered_by(reply@),
    {
        match self {
            OpenRequest::FindDevice
            | OpenRequest::CheckPairing
            | OpenRequest::MakeServiceId
            | OpenRequest::LookUpService
            | OpenRequest::AwaitService { .. }
            | OpenRequest::TakeService => matches!(reply, OpenReply::Found(_)),
            OpenRequest::QueryServices => matches!(reply, OpenReply::Code(_)),
            OpenRequest::ResolveChannel => matches!(reply, OpenReply::Resolved { .. }),
            OpenRequest::OpenChannel { .. } => matches!(reply, OpenReply::Opening { .. }),
            OpenRequest::AwaitConnection { .. } => matches!(reply, OpenReply::Reported(_)),
            OpenRequest::CloseExpired | OpenRequest::CloseFailed { .. } => {
                matches!(reply, OpenReply::Closed(_))
            },
        }
    }
}

/// Every answer brings opening closer to its end, so it takes eleven answers at
/// most.
pub proof fn law_opening_makes_progress(request: RequestModel, reply: OpenReplyModel)
    requires
        request.answered_by(reply),
    ensures
        request.rank() <= 10,
        request.next(reply) matches OpenModel::Ask(next) ==> next.rank() < request.rank(),
{
}

/// A channel that was opened is returned or shut down: while there is one,
/// opening does not fail without asking to shut it down.
pub proof fn law_channel_is_returned_or_shut_down(request: RequestModel, reply: OpenReplyModel)
    requires
        request.answered_by(reply),
        request is AwaitConnection || (request is OpenChannel && reply->channel),
    ensures
        match request.next(reply) {
            OpenModel::Ask(next) => next.holds_channel(),
            OpenModel::Done(r) => r is Ok && request is AwaitConnection && reply->Reported_0
                == Some(0i32),
        },
{
}

/// A printer is open only if the system has reported its channel open without
/// error, on the channel that the service is on.
pub proof fn law_open_channel_was_reported(request: RequestModel, reply: OpenReplyModel)
    requires
        request.answered_by(reply),
    ensures
        request.next(reply) matches OpenModel::Done(Ok(id)) ==> request matches RequestModel::AwaitConnection {
            id: channel,
            timeout,
        } && channel == id && reply == OpenReplyModel::Reported(Some(0)),
{
}

// ---------------------------------------------------------------------
// Opening as a whole
// ---------------------------------------------------------------------

/// What opening comes to once the system has answered so many requests, or
/// nothing if an answer does not fit or comes too late.
pub open spec fn attempted(step: OpenModel, replies: Seq<OpenReplyModel>) -> Option<OpenModel>
    decreases replies.len(),
{
    if replies.len() == 0 {
        Some(step)
    } else {
        match step {
            OpenModel::Ask(request) => if request.answered_by(replies[0]) {
                attempted(request.next(replies[0]), replies.drop_first())
            } else {
                None
            },
            OpenModel::Done(r) => None,
        }
    }
}

/// The answers with which a printer opens whose service is known already.
pub open spec fn known_service(id: u8) -> Seq<OpenReplyModel> {
    seq![
        OpenReplyModel::Found(true),
        OpenReplyModel::Found(true),
        OpenReplyModel::Found(true),
        OpenReplyModel::Found(true),
        OpenReplyModel::Found(true),
        OpenReplyModel::Resolved { code: 0, id },
        OpenReplyModel::Opening { code: 0, channel: true },
        OpenReplyModel::Reported(Some(0)),
    ]
}

/// The answers with which a printer opens whose service is discovered first.
pub open spec fn discovered_service(id: u8) -> Seq<OpenReplyModel> {
    seq![
        OpenReplyModel::Found(true),
        OpenReplyModel::Found(true),
        OpenReplyModel::Found(true),
        OpenReplyModel::Found(false),
        OpenReplyModel::Code(0),
        OpenReplyModel::Found(true),
        OpenReplyModel::Found(true),
        OpenReplyModel::Resolved { code: 0, id },
        OpenReplyModel::Opening { code: 0, channel: true },
        OpenReplyModel::Reported(Some(0)),
    ]
}

/// The answers with which opening succeeds from a request on.
spec fn good_answers(request: RequestModel, replies: Seq<OpenReplyModel>, id: u8) -> bool {
    match request {
        RequestModel::FindDevice => replies == known_service(id) || replies == discovered_service(
            id,
        ),
        RequestModel::CheckPairing => replies == known_service(id).skip(1) || replies
            == discovered_service(id).skip(1),
        RequestModel::MakeServiceId => replies == known_service(id).skip(2) || replies
            == discovered_service(id).skip(2),
        RequestModel::LookUpService => replies == known_service(id).skip(3) || replies
            == discovered_service(id).skip(3),
        RequestModel::QueryServices => replies == discovered_service(id).skip(4),
        RequestModel::AwaitService { timeout } => replies == discovered_service(id).skip(5),
        RequestModel::TakeService => replies == known_service(id).skip(4),
        RequestModel::ResolveChannel => replies == known_service(id).skip(5),
        RequestModel::OpenChannel { id: channel } => channel == id && replies == known_service(
            id,
        ).skip(6),
        RequestModel::AwaitConnection { id: channel, timeout } => channel == id && replies
            == known_service(id).skip(7),
        _ => false,
    }
}

proof fn lemma_one_ahead(a: Seq<OpenReplyModel>, b: Seq<OpenReplyModel>, n: int)
    requires
        0 <= n < b.len(),
        a.len() > 0,
    ensures
        a == b.skip(n) <==> a[0] == b[n] && a.drop_first() == b.skip(n + 1),
{
    if a[0] == b[n] && a.drop_first() == b.skip(n + 1) {
        assert forall|k: int| 0 <= k < a.len() implies a[k] == b.skip(n)[k] by {
            if k > 0 {
                assert(a.drop_first()[k - 1] == a[k]);
                assert(b.skip(n + 1)[k - 1] == b[n + k]);
            }
        }
        assert(a.drop_first().len() == b.skip(n + 1).len());
        assert(a =~= b.skip(n));
    }
    if a == b.skip(n) {
        assert(a.drop_first() =~= b.skip(n + 1));
    }
}

proof fn lemma_good_answers(request: RequestModel, replies: Seq<OpenReplyModel>, id: u8)
    ensures
        attempted(OpenModel::Ask(request), replies) == Some(
            OpenModel::Done(Ok::<u8, ErrorModel>(id)),
        ) <==> id != 0 && good_answers(request, replies, id) || (request is AwaitConnection
            && good_answers(request, replies, id)) || (request is OpenChannel && good_answers(
            request,
            replies,
            id,
        )),
    decreases replies.len(),
{
    reveal_with_fuel(attempted, 2);
    let known = known_service(id);
    let found = discovered_service(id);
    assert(known.skip(4) =~= found.skip(6));
    if replies.len() == 0 {
        assert(known.skip(1).len() == 7 && known.skip(2).len() == 6 && known.skip(3).len() == 5);
        assert(known.skip(4).len() == 4 && known.skip(5).len() == 3 && known.skip(6).len() == 2);
        assert(known.skip(7).len() == 1 && known.len() == 8 && found.len() == 10);
        assert(found.skip(1).len() == 9 && found.skip(2).len() == 8 && found.skip(3).len() == 7);
        assert(found.skip(4).len() == 6 && found.skip(5).len() == 5);
    } else {
        let rest = replies.drop_first();
        assert(known.skip(0) =~= known);
        assert(found.skip(0) =~= found);
        if request.answered_by(replies[0]) {
            if let OpenModel::Ask(next) = request.next(replies[0]) {
                lemma_good_answers(next, rest, id);
            }
        }
        match request {
            RequestModel::FindDevice => {
                lemma_one_ahead(replies, known, 0);
                lemma_one_ahead(replies, found, 0);
            },
            RequestModel::CheckPairing => {
                lemma_one_ahead(replies, known, 1);
                lemma_one_ahead(replies, found, 1);
            },
            RequestModel::MakeServiceId => {
                lemma_one_ahead(replies, known, 2);
                lemma_one_ahead(replies, found, 2);
            },
            RequestModel::LookUpService => {
                lemma_one_ahead(replies, known, 3);
                lemma_one_ahead(replies, found, 3);
            },
            RequestModel::QueryServices => lemma_one_ahead(replies, found, 4),
            RequestModel::AwaitService { timeout } => lemma_one_ahead(replies, found, 5),
            RequestModel::TakeService => lemma_one_ahead(replies, known, 4),
            RequestModel::ResolveChannel => lemma_one_ahead(replies, known, 5),
            RequestModel::OpenChannel { id: channel } => lemma_one_ahead(replies, known, 6),
            RequestModel::AwaitConnection { id: channel, timeout } => {
                lemma_one_ahead(replies, known, 7);
                assert(known.skip(8) =~= Seq::empty());
                if rest.len() == 0 {
                    assert(rest =~= Seq::empty());
                }
            },
            _ => {},
        }
    }
}

/// A printer opens exactly if everything goes well: it is asked for on the main
/// thread by a valid address, found, and paired; its service can be named and is
/// known or discovered in time; its channel, which is never 0, can be told; and
/// the channel opens and is reported open. It is that channel which is open then.
pub proof fn law_printer_opens(
    main_thread: bool,
    text: Seq<char>,
    replies: Seq<OpenReplyModel>,
    id: u8,
)
    ensures
        attempted(opening(main_thread, text), replies) == Some(
            OpenModel::Done(Ok::<u8, ErrorModel>(id)),
        ) <==> main_thread && address(text) && id != 0 && (replies == known_service(id) || replies
            == discovered_service(id)),
{
    lemma_good_answers(RequestModel::FindDevice, replies, id);
}

/// Why opening fails is told by the request that was in vain.
pub proof fn law_failed_requests_are_told(main_thread: bool, text: Seq<char>, timeout: u64)
    ensures
        !main_thread ==> opening(main_thread, text) == refused(
            "Native Bluetooth must be opened and used on the main thread"@,
        ),
        main_thread && !address(text) ==> opening(main_thread, text) == refused(
            "Expected a Bluetooth address such as AA:BB:CC:DD:EE:FF"@,
        ),
        ({
            let nothing = OpenReplyModel::Found(false);
            &&& RequestModel::FindDevice.next(nothing) == refused("Unknown Bluetooth address"@)
            &&& RequestModel::CheckPairing.next(nothing) == refused(
                "Pair the printer in macOS Bluetooth settings first"@,
            )
            &&& RequestModel::MakeServiceId.next(nothing) == refused("Cannot create SPP UUID"@)
            &&& (RequestModel::AwaitService { timeout }).next(nothing) == refused(
                "SPP service discovery timed out"@,
            )
            &&& RequestModel::TakeService.next(nothing) == refused("No SPP service"@)
        }),
        RequestModel::CloseExpired.next(OpenReplyModel::Closed(Ok(()))) == refused(
            "RFCOMM connection timed out"@,
        ),
{
}

/// A failed request of the system is told with its code, a channel that opened
/// only in part is shut down, and what went wrong with it is told afterwards.
pub proof fn law_failed_channels_are_told(code: i32, id: u8, timeout: u64, e: ErrorModel)
    requires
        code != 0,
    ensures
        RequestModel::QueryServices.next(OpenReplyModel::Code(code)) == OpenModel::Done(
            Err(coded("SDP query failed: "@, code)),
        ),
        RequestModel::ResolveChannel.next(OpenReplyModel::Resolved { code, id })
            == OpenModel::Done(Err(coded("Cannot resolve RFCOMM channel: "@, code))),
        RequestModel::ResolveChannel.next(OpenReplyModel::Resolved { code: 0, id: 0 })
            == OpenModel::Done(Err(coded("Cannot resolve RFCOMM channel: "@, 0))),
        (RequestModel::OpenChannel { id }).next(OpenReplyModel::Opening { code, channel: false })
            == OpenModel::Done(Err(coded("No RFCOMM channel: "@, code))),
        (RequestModel::OpenChannel { id }).next(OpenReplyModel::Opening { code, channel: true })
            == OpenModel::Ask(
            RequestModel::CloseFailed { error: coded("RFCOMM open rejected: "@, code) },
        ),
        (RequestModel::AwaitConnection { id, timeout }).next(OpenReplyModel::Reported(Some(code)))
            == OpenModel::Ask(
            RequestModel::CloseFailed { error: coded("RFCOMM connection failed: "@, code) },
        ),
        (RequestModel::AwaitConnection { id, timeout }).next(OpenReplyModel::Reported(None))
            == OpenModel::Ask(RequestModel::CloseExpired),
        (RequestModel::CloseFailed { error: e }).next(OpenReplyModel::Closed(Ok(())))
            == OpenModel::Done(Err(e)),
        RequestModel::CloseExpired.next(OpenReplyModel::Closed(Err(e))) == OpenModel::Done(Err(e)),
{
}

/// The service is awaited for eight seconds, and the channel, which is the one
/// that was resolved, for fifteen.
pub proof fn law_opening_waits(request: RequestModel, reply: OpenReplyModel)
    requires
        request.answered_by(reply),
    ensures
        request.next(reply) matches OpenModel::Ask(RequestModel::AwaitService { timeout })
            ==> timeout == 8_000_000_000,
        request.next(reply) matches OpenModel::Ask(
            RequestModel::AwaitConnection { id, timeout },
        ) ==> timeout == 15_000_000_000 && request == (RequestModel::OpenChannel { id }),
        request.next(reply) matches OpenModel::Ask(RequestModel::OpenChannel { id }) ==> reply == (
        OpenReplyModel::Resolved { code: 0, id }) && id != 0,
{
}

/// Each request is answered by one kind of reply, whatever it says.
pub proof fn law_requests_and_their_replies(
    found: bool,
    code: i32,
    id: u8,
    channel: bool,
    reported: Option<i32>,
    closed: Result<(), ErrorModel>,
    timeout: u64,
    error: ErrorModel,
)
    ensures
        RequestModel::FindDevice.answered_by(OpenReplyModel::Found(found)),
        RequestModel::CheckPairing.answered_by(OpenReplyModel::Found(found)),
        RequestModel::MakeServiceId.answered_by(OpenReplyModel::Found(found)),
        RequestModel::LookUpService.answered_by(OpenReplyModel::Found(found)),
        RequestModel::QueryServices.answered_by(OpenReplyModel::Code(code)),
        (RequestModel::AwaitService { timeout }).answered_by(OpenReplyModel::Found(found)),
        RequestModel::TakeService.answered_by(OpenReplyModel::Found(found)),
        RequestModel::ResolveChannel.answered_by(OpenReplyModel::Resolved { code, id }),
        (RequestModel::OpenChannel { id }).answered_by(OpenReplyModel::Opening { code, channel }),
        (RequestModel::AwaitConnection { id, timeout }).answered_by(
            OpenReplyModel::Reported(reported),
        ),
        RequestModel::CloseExpired.answered_by(OpenReplyModel::Closed(closed)),
        (RequestModel::CloseFailed { error }).answered_by(OpenReplyModel::Closed(closed)),
{
}

} // verus!
