//! What can go wrong while talking to a printer.

use vstd::prelude::*;

use crate::text::{decimal, push_decimal};

verus! {

/// A failure reported by the USB stack.
#[derive(Debug, Clone, Copy, PartialEq, Eq, Structural)]
pub enum UsbFault {
    Io,
    InvalidParam,
    Access,
    NoDevice,
    NotFound,
    Busy,
    Timeout,
    Overflow,
    Pipe,
    Interrupted,
    NoMem,
    NotSupported,
    BadDescriptor,
    Other,
}

/// An error of the library.
#[derive(Debug, Clone, PartialEq, Eq)]
pub enum PtouchError {
    /// No supported printer was found.
    DeviceNotFound,
    /// The named printer is in PLite mode.
    PLiteMode(String),
    /// The printer cannot print this raster data, or no raster data at all.
    UnsupportedRaster(String),
    /// The named printer has no quality modes.
    UnsupportedQuality(String),
    /// The printer cannot perform the operation.
    UnsupportedOperation(&'static str),
    /// The printer has not been initialized.
    NotInitialized,
    /// No tape profile is known for this width in millimetres.
    UnknownTapeWidth(u8),
    /// Data could not be sent.
    SendFailed(String),
    /// The printer reported a problem, or its report is malformed.
    StatusError(String),
    /// Nothing arrived in time.
    Timeout,
    /// The USB stack failed.
    UsbError(UsbFault),
    /// The Bluetooth link failed.
    Bluetooth(String),
}

/// The value of a [`PtouchError`], with each message as a character sequence.
pub enum ErrorModel {
    DeviceNotFound,
    PLiteMode(Seq<char>),
    UnsupportedRaster(Seq<char>),
    UnsupportedQuality(Seq<char>),
    UnsupportedOperation(Seq<char>),
    NotInitialized,
    UnknownTapeWidth(u8),
    SendFailed(Seq<char>),
    StatusError(Seq<char>),
    Timeout,
    UsbError(UsbFault),
    Bluetooth(Seq<char>),
}

impl View for PtouchError {
    type V = ErrorModel;

    open spec fn view(&self) -> ErrorModel {
        match self {
            PtouchError::DeviceNotFound => ErrorModel::DeviceNotFound,
            PtouchError::PLiteMode(m) => ErrorModel::PLiteMode(m@),
            PtouchError::UnsupportedRaster(m) => ErrorModel::UnsupportedRaster(m@),
            PtouchError::UnsupportedQuality(m) => ErrorModel::UnsupportedQuality(m@),
            PtouchError::UnsupportedOperation(m) => ErrorModel::UnsupportedOperation(m@),
            PtouchError::NotInitialized => ErrorModel::NotInitialized,
            PtouchError::UnknownTapeWidth(w) => ErrorModel::UnknownTapeWidth(*w),
            PtouchError::SendFailed(m) => ErrorModel::SendFailed(m@),
            PtouchError::StatusError(m) => ErrorModel::StatusError(m@),
            PtouchError::Timeout => ErrorModel::Timeout,
            PtouchError::UsbError(f) => ErrorModel::UsbError(*f),
            PtouchError::Bluetooth(m) => ErrorModel::Bluetooth(m@),
        }
    }
}

/// A result with its error taken by value.
pub open spec fn outcome<T>(r: Result<T, PtouchError>) -> Result<T, ErrorModel> {
    match r {
        Ok(v) => Ok(v),
        Err(e) => Err(e@),
    }
}

/// What a USB fault is called.
pub open spec fn fault_text(fault: UsbFault) -> Seq<char> {
    match fault {
        UsbFault::Io => "Input/Output Error"@,
        UsbFault::InvalidParam => "Invalid parameter"@,
        UsbFault::Access => "Access denied (insufficient permissions)"@,
        UsbFault::NoDevice => "No such device (it may have been disconnected)"@,
        UsbFault::NotFound => "Entity not found"@,
        UsbFault::Busy => "Resource busy"@,
        UsbFault::Timeout => "Operation timed out"@,
        UsbFault::Overflow => "Overflow"@,
        UsbFault::Pipe => "Pipe error"@,
        UsbFault::Interrupted => "System call interrupted (perhaps due to signal)"@,
        UsbFault::NoMem => "Insufficient memory"@,
        UsbFault::NotSupported => {
            "Operation not supported or unimplemented on this platform"@
        },
        UsbFault::BadDescriptor => "Malformed descriptor"@,
        UsbFault::Other => "Other error"@,
    }
}

impl UsbFault {
    /// What the fault is called.
    pub fn message(&self) -> (text: &'static str)
        ensures
            text@ == fault_text(*self),
    {
        match self {
            UsbFault::Io => "Input/Output Error",
            UsbFault::InvalidParam => "Invalid parameter",
            UsbFault::Access => "Access denied (insufficient permissions)",
            UsbFault::NoDevice => "No such device (it may have been disconnected)",
            UsbFault::NotFound => "Entity not found",
            UsbFault::Busy => "Resource busy",
            UsbFault::Timeout => "Operation timed out",
            UsbFault::Overflow => "Overflow",
            UsbFault::Pipe => "Pipe error",
            UsbFault::Interrupted => "System call interrupted (perhaps due to signal)",
            UsbFault::NoMem => "Insufficient memory",
            UsbFault::NotSupported => {
                "Operation not supported or unimplemented on this platform"
            },
            UsbFault::BadDescriptor => "Malformed descriptor",
            UsbFault::Other => "Other error",
        }
    }
}

impl ErrorModel {
    /// The sentence that names the error to a user.
    pub open spec fn text(self) -> Seq<char> {
        match self {
            ErrorModel::DeviceNotFound => "No supported P-Touch printer found"@,
            ErrorModel::PLiteMode(name) => "Printer is in PLite mode: "@ + name,
            ErrorModel::UnsupportedRaster(m) => "Raster printing not supported: "@ + m,
            ErrorModel::UnsupportedQuality(name) => "Print quality not supported: "@ + name,
            ErrorModel::UnsupportedOperation(m) => "Operation not supported: "@ + m,
            ErrorModel::NotInitialized => "Printer not initialized"@,
            ErrorModel::UnknownTapeWidth(w) => "Unknown tape width: "@ + decimal(w as nat)
                + " mm"@,
            ErrorModel::SendFailed(m) => "Send failed: "@ + m,
            ErrorModel::StatusError(m) => "Printer status error: "@ + m,
            ErrorModel::Timeout => "Operation timed out"@,
            ErrorModel::UsbError(fault) => "USB error: "@ + fault_text(fault),
            ErrorModel::Bluetooth(m) => "Bluetooth error: "@ + m,
        }
    }
}

fn prefixed(prefix: &str, rest: &str) -> (out: String)
    ensures
        out@ == prefix@ + rest@,
{
    let mut out: String = prefix.to_string();
    out.append(rest);
    out
}

impl PtouchError {
    /// The sentence that names the error to a user.
    pub fn message(&self) -> (text: String)
        ensures
            text@ == self@.text(),
    {
        match self {
            PtouchError::DeviceNotFound => "No supported P-Touch printer found".to_string(),
            PtouchError::PLiteMode(name) => prefixed("Printer is in PLite mode: ", name.as_str()),
            PtouchError::UnsupportedRaster(m) => prefixed(
                "Raster printing not supported: ",
                m.as_str(),
            ),
            PtouchError::UnsupportedQuality(name) => prefixed(
                "Print quality not supported: ",
                name.as_str(),
            ),
            PtouchError::UnsupportedOperation(m) => prefixed("Operation not supported: ", m),
            PtouchError::NotInitialized => "Printer not initialized".to_string(),
            PtouchError::UnknownTapeWidth(w) => {
                let mut text: String = "Unknown tape width: ".to_string();
                push_decimal(&mut text, *w as u64);
                text.append(" mm");
                text
            },
            PtouchError::SendFailed(m) => prefixed("Send failed: ", m.as_str()),
            PtouchError::StatusError(m) => prefixed("Printer status error: ", m.as_str()),
            PtouchError::Timeout => "Operation timed out".to_string(),
            PtouchError::UsbError(fault) => prefixed("USB error: ", fault.message()),
            PtouchError::Bluetooth(m) => prefixed("Bluetooth error: ", m.as_str()),
        }
    }
}

/// The text of an error ends with what it is about, behind words of its own.
pub proof fn law_error_texts_tell_their_subject(m: Seq<char>, w: u8, fault: UsbFault)
    ensures
        ErrorModel::DeviceNotFound.text() == "No supported P-Touch printer found"@,
        ErrorModel::PLiteMode(m).text() == "Printer is in PLite mode: "@ + m,
        ErrorModel::UnsupportedRaster(m).text() == "Raster printing not supported: "@ + m,
        ErrorModel::UnsupportedQuality(m).text() == "Print quality not supported: "@ + m,
        ErrorModel::UnsupportedOperation(m).text() == "Operation not supported: "@ + m,
        ErrorModel::NotInitialized.text() == "Printer not initialized"@,
        ErrorModel::UnknownTapeWidth(w).text() == "Unknown tape width: "@ + decimal(w as nat)
            + " mm"@,
        ErrorModel::SendFailed(m).text() == "Send failed: "@ + m,
        ErrorModel::StatusError(m).text() == "Printer status error: "@ + m,
        ErrorModel::Timeout.text() == "Operation timed out"@,
        ErrorModel::UsbError(fault).text() == "USB error: "@ + fault_text(fault),
        ErrorModel::Bluetooth(m).text() == "Bluetooth error: "@ + m,
{
}

/// No two faults of the USB stack are called the same.
pub proof fn law_faults_have_names_of_their_own(a: UsbFault, b: UsbFault)
    requires
        fault_text(a) == fault_text(b),
    ensures
        a == b,
{
    reveal_strlit("Input/Output Error");
    reveal_strlit("Invalid parameter");
    reveal_strlit("Access denied (insufficient permissions)");
    reveal_strlit("No such device (it may have been disconnected)");
    reveal_strlit("Entity not found");
    reveal_strlit("Resource busy");
    reveal_strlit("Operation timed out");
    reveal_strlit("Overflow");
    reveal_strlit("Pipe error");
    reveal_strlit("System call interrupted (perhaps due to signal)");
    reveal_strlit("Insufficient memory");
    reveal_strlit("Operation not supported or unimplemented on this platform");
    reveal_strlit("Malformed descriptor");
    reveal_strlit("Other error");
    assert("Input/Output Error"@[1] == 'n' && "Input/Output Error"@[2] == 'p');
    assert("Invalid parameter"@[1] == 'n' && "Invalid parameter"@[2] == 'v');
    assert("Insufficient memory"@[1] == 'n' && "Insufficient memory"@[2] == 's');
    assert("Access denied (insufficient permissions)"@[0] == 'A');
    assert("No such device (it may have been disconnected)"@[0] == 'N');
    assert("Entity not found"@[0] == 'E');
    assert("Resource busy"@[0] == 'R');
    assert("Operation timed out"@[0] == 'O' && "Operation timed out"@.len() == 19);
    assert("Overflow"@[0] == 'O' && "Overflow"@.len() == 8);
    assert("Pipe error"@[0] == 'P');
    assert("System call interrupted (perhaps due to signal)"@[0] == 'S');
    assert("Operation not supported or unimplemented on this platform"@.len() == 57);
    assert("Operation not supported or unimplemented on this platform"@[0] == 'O');
    assert("Malformed descriptor"@[0] == 'M');
    assert("Other error"@[0] == 'O' && "Other error"@.len() == 11);
    assert("Input/Output Error"@[0] == 'I');
    assert("Invalid parameter"@[0] == 'I');
    assert("Insufficient memory"@[0] == 'I');
}

} // verus!
