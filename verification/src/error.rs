use vstd::prelude::*;
use vstd::string::StringExecFns;

verus! {

/// Everything that can go wrong while a command is handled.
#[derive(Debug, Clone, PartialEq, Eq)]
pub enum KvError {
    /// The named key, table entry or subscription does not exist.
    NotFound(String),
    /// The command is malformed.
    InvalidCommand(String),
    /// A value could not be converted: the value's text and the target type.
    ConvertError(String, &'static str),
    /// A storage backend failed: operation, table, key and detail.
    StorageError(String, String, String, String),
    /// A message could not be encoded.
    EncodeError,
    /// A byte string is not an encoded message.
    DecodeError,
    /// Any other internal failure.
    Internal(String),
    /// The on-disk engine failed; the text is the engine's own report.
    SledError(String),
    /// A frame's payload does not fit the header's length field, or is cut short.
    FrameError,
    /// The transport failed; the text is the transport's own report.
    IOError(String),
    /// A certificate could not be loaded: what was being loaded, and from where.
    CertificateParseError(&'static str, &'static str),
    /// The TLS layer failed; the text is its own report.
    TlsError(String),
}

impl KvError {
    /// The text a user sees for this error.
    pub open spec fn message(&self) -> Seq<char> {
        match self {
            KvError::NotFound(what) => "Not found: "@ + what@,
            KvError::InvalidCommand(why) => "Cannot parse command: "@ + why@,
            KvError::ConvertError(value, target) => "Cannot convert value "@ + value@ + " to "@
                + target@,
            KvError::StorageError(op, table, key, detail) => "Cannot process command "@ + op@
                + " with table: "@ + table@ + ", key: "@ + key@ + ". Error: "@ + detail@,
            KvError::EncodeError => "Failed to encode protobuf message"@,
            KvError::DecodeError => "Failed to decode protobuf message"@,
            KvError::Internal(why) => "Internal error: "@ + why@,
            KvError::SledError(_) => "Failed to access sled db"@,
            KvError::FrameError => "Frame is too large"@,
            KvError::IOError(_) => "I/O error"@,
            KvError::CertificateParseError(what, file) => "Certificate parse error: error to load "@
                + what@ + " "@ + file@,
            KvError::TlsError(_) => "TLS error"@,
        }
    }

    /// The HTTP-style status a response built from this error carries.
    pub open spec fn status(&self) -> u32 {
        match self {
            KvError::NotFound(_) => 404,
            KvError::InvalidCommand(_) => 400,
            _ => 500,
        }
    }

    /// Renders the error as text.
    pub fn to_string(&self) -> (text: String)
        ensures
            text@ == self.message(),
    {
        match self {
            KvError::NotFound(what) => String::from_str("Not found: ").concat(what.as_str()),
            KvError::InvalidCommand(why) => String::from_str("Cannot parse command: ").concat(
                why.as_str(),
            ),
            KvError::ConvertError(value, target) => String::from_str("Cannot convert value ")
                .concat(value.as_str()).concat(" to ").concat(target),
            KvError::StorageError(op, table, key, detail) => String::from_str(
                "Cannot process command ",
            ).concat(op.as_str()).concat(" with table: ").concat(table.as_str()).concat(
                ", key: ",
            ).concat(key.as_str()).concat(". Error: ").concat(detail.as_str()),
            KvError::EncodeError => String::from_str("Failed to encode protobuf message"),
            KvError::DecodeError => String::from_str("Failed to decode protobuf message"),
            KvError::Internal(why) => String::from_str("Internal error: ").concat(why.as_str()),
            KvError::SledError(_) => String::from_str("Failed to access sled db"),
            KvError::FrameError => String::from_str("Frame is too large"),
            KvError::IOError(_) => String::from_str("I/O error"),
            KvError::CertificateParseError(what, file) => String::from_str(
                "Certificate parse error: error to load ",
            ).concat(what).concat(" ").concat(file),
            KvError::TlsError(_) => String::from_str("TLS error"),
        }
    }
}

} // verus!
