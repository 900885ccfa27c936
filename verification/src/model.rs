//! Fixed codes of the IPP protocol: delimiter tags, the eight-byte
//! header, operation codes, printer and job states.

use vstd::prelude::*;

verus! {

pub const DELIMITER_OPERATION_ATTRIBUTES: u8 = 0x01;

pub const DELIMITER_JOB_ATTRIBUTES: u8 = 0x02;

pub const DELIMITER_END_OF_ATTRIBUTES: u8 = 0x03;

pub const DELIMITER_PRINTER_ATTRIBUTES: u8 = 0x04;

pub const DELIMITER_UNSUPPORTED_ATTRIBUTES: u8 = 0x05;

/// Whether `t` opens an attribute group.  The end-of-attributes tag
/// (0x03) closes the attribute section instead.
pub open spec fn is_group_delimiter(t: u8) -> bool {
    t == DELIMITER_OPERATION_ATTRIBUTES || t == DELIMITER_JOB_ATTRIBUTES || t
        == DELIMITER_PRINTER_ATTRIBUTES || t == DELIMITER_UNSUPPORTED_ATTRIBUTES
}

/// Whether `t` opens an attribute group (runtime form).
pub fn is_group_delimiter_exec(t: u8) -> (r: bool)
    ensures
        r == is_group_delimiter(t),
{
    t == DELIMITER_OPERATION_ATTRIBUTES || t == DELIMITER_JOB_ATTRIBUTES || t
        == DELIMITER_PRINTER_ATTRIBUTES || t == DELIMITER_UNSUPPORTED_ATTRIBUTES
}

/// A delimiter that opens an attribute group.
#[derive(Clone, Copy, PartialEq, Eq, Structural, Debug)]
pub enum DelimiterTag {
    OperationAttributes,
    JobAttributes,
    PrinterAttributes,
    UnsupportedAttributes,
}

impl DelimiterTag {
    /// The wire byte of this delimiter.
    pub open spec fn spec_as_u8(self) -> u8 {
        match self {
            DelimiterTag::OperationAttributes => DELIMITER_OPERATION_ATTRIBUTES,
            DelimiterTag::JobAttributes => DELIMITER_JOB_ATTRIBUTES,
            DelimiterTag::PrinterAttributes => DELIMITER_PRINTER_ATTRIBUTES,
            DelimiterTag::UnsupportedAttributes => DELIMITER_UNSUPPORTED_ATTRIBUTES,
        }
    }

    /// The wire byte of this delimiter.
    pub fn as_u8(self) -> (r: u8)
        ensures
            r == self.spec_as_u8(),
            is_group_delimiter(r),
    {
        match self {
            DelimiterTag::OperationAttributes => DELIMITER_OPERATION_ATTRIBUTES,
            DelimiterTag::JobAttributes => DELIMITER_JOB_ATTRIBUTES,
            DelimiterTag::PrinterAttributes => DELIMITER_PRINTER_ATTRIBUTES,
            DelimiterTag::UnsupportedAttributes => DELIMITER_UNSUPPORTED_ATTRIBUTES,
        }
    }
}

/// The protocol version carried in the first two header bytes.
#[derive(Clone, Copy, PartialEq, Eq, Structural, Debug)]
pub enum IppVersion {
    Ipp10,
    Ipp11,
    Ipp20,
}

impl IppVersion {
    pub open spec fn spec_major(self) -> u8 {
        match self {
            IppVersion::Ipp10 => 1,
            IppVersion::Ipp11 => 1,
            IppVersion::Ipp20 => 2,
        }
    }

    pub open spec fn spec_minor(self) -> u8 {
        match self {
            IppVersion::Ipp10 => 0,
            IppVersion::Ipp11 => 1,
            IppVersion::Ipp20 => 0,
        }
    }

    pub fn major(self) -> (r: u8)
        ensures
            r == self.spec_major(),
    {
        match self {
            IppVersion::Ipp10 => 1,
            IppVersion::Ipp11 => 1,
            IppVersion::Ipp20 => 2,
        }
    }

    pub fn minor(self) -> (r: u8)
        ensures
            r == self.spec_minor(),
    {
        match self {
            IppVersion::Ipp10 => 0,
            IppVersion::Ipp11 => 1,
            IppVersion::Ipp20 => 0,
        }
    }
}

/// The eight-byte message header.  The 16-bit slot carries an operation
/// code in a request and a status code in a response; the request id is
/// chosen by the caller and echoed by the peer.
#[derive(Clone, Copy, PartialEq, Eq, Structural, Debug)]
pub struct IppHeader {
    pub version_major: u8,
    pub version_minor: u8,
    pub operation_or_status: u16,
    pub request_id: u32,
}

impl IppHeader {
    /// A header for the given version, operation-or-status slot and
    /// request id.
    pub fn new(version: IppVersion, operation_or_status: u16, request_id: u32) -> (r: IppHeader)
        ensures
            r.version_major == version.spec_major(),
            r.version_minor == version.spec_minor(),
            r.operation_or_status == operation_or_status,
            r.request_id == request_id,
    {
        IppHeader {
            version_major: version.major(),
            version_minor: version.minor(),
            operation_or_status,
            request_id,
        }
    }

    /// The operation-or-status slot read as a response status code.
    pub fn get_status_code(&self) -> (r: u16)
        ensures
            r == self.operation_or_status,
    {
        self.operation_or_status
    }
}

/// A request semantic, identified by a 16-bit code.  The CUPS extension
/// operations live in the 0x4000 range.
#[derive(Clone, Copy, PartialEq, Eq, Structural, Debug)]
pub enum Operation {
    PrintJob,
    ValidateJob,
    CreateJob,
    SendDocument,
    CancelJob,
    GetJobAttributes,
    GetJobs,
    GetPrinterAttributes,
    CupsGetDefault,
    CupsGetPrinters,
    CupsGetClasses,
}

impl Operation {
    /// The 16-bit wire code of this operation.
    pub open spec fn spec_code(self) -> u16 {
        match self {
            Operation::PrintJob => 0x0002,
            Operation::ValidateJob => 0x0004,
            Operation::CreateJob => 0x0005,
            Operation::SendDocument => 0x0006,
            Operation::CancelJob => 0x0008,
            Operation::GetJobAttributes => 0x0009,
            Operation::GetJobs => 0x000A,
            Operation::GetPrinterAttributes => 0x000B,
            Operation::CupsGetDefault => 0x4001,
            Operation::CupsGetPrinters => 0x4002,
            Operation::CupsGetClasses => 0x4005,
        }
    }

    /// The 16-bit wire code of this operation.
    pub fn code(self) -> (r: u16)
        ensures
            r == self.spec_code(),
    {
        match self {
            Operation::PrintJob => 0x0002,
            Operation::ValidateJob => 0x0004,
            Operation::CreateJob => 0x0005,
            Operation::SendDocument => 0x0006,
            Operation::CancelJob => 0x0008,
            Operation::GetJobAttributes => 0x0009,
            Operation::GetJobs => 0x000A,
            Operation::GetPrinterAttributes => 0x000B,
            Operation::CupsGetDefault => 0x4001,
            Operation::CupsGetPrinters => 0x4002,
            Operation::CupsGetClasses => 0x4005,
        }
    }
}

/// The printer-state enumeration: idle (3), processing (4), stopped (5).
#[derive(Clone, Copy, PartialEq, Eq, Structural, Debug)]
pub enum PrinterState {
    Idle,
    Processing,
    Stopped,
}

impl PrinterState {
    pub open spec fn spec_code(self) -> i32 {
        match self {
            PrinterState::Idle => 3,
            PrinterState::Processing => 4,
            PrinterState::Stopped => 5,
        }
    }

    pub fn code(self) -> (r: i32)
        ensures
            r == self.spec_code(),
    {
        match self {
            PrinterState::Idle => 3,
            PrinterState::Processing => 4,
            PrinterState::Stopped => 5,
        }
    }

    /// The state a printer-state enum value names, if it names one.
    pub fn from_i32(v: i32) -> (r: Option<PrinterState>)
        ensures
            match r {
                Some(s) => s.spec_code() == v,
                None => v != 3 && v != 4 && v != 5,
            },
    {
        if v == 3 {
            Some(PrinterState::Idle)
        } else if v == 4 {
            Some(PrinterState::Processing)
        } else if v == 5 {
            Some(PrinterState::Stopped)
        } else {
            None
        }
    }
}

} // verus!
