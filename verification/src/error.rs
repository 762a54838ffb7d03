//! Error type shared by the whole library.

use vstd::prelude::*;

verus! {

/// Category of an error.
#[derive(Clone, Copy, Debug, PartialEq, Eq, Structural)]
pub enum ErrorKind {
    /// The requested operation is not supported on the platform.
    UnsupportedPlatform,
    /// Connection timed out, was refused or disconnected.
    ConnectionFailed,
    /// Encountered an unknown host key.
    HostKeyNotVerified,
    /// Error in configuration files.
    InvalidConfig,
    /// Not implemented.
    NotImplemented,
    /// Invalid parameter.
    InvalidParameter,
    /// Other unspecified error.
    Other,
}

/// The name of each kind, as it is shown to the user.
pub open spec fn error_kind_name(kind: ErrorKind) -> Seq<char> {
    match kind {
        ErrorKind::UnsupportedPlatform => "UnsupportedPlatform"@,
        ErrorKind::ConnectionFailed => "ConnectionFailed"@,
        ErrorKind::HostKeyNotVerified => "HostKeyNotVerified"@,
        ErrorKind::InvalidConfig => "InvalidConfig"@,
        ErrorKind::NotImplemented => "NotImplemented"@,
        ErrorKind::InvalidParameter => "InvalidParameter"@,
        ErrorKind::Other => "Other"@,
    }
}

impl ErrorKind {
    /// The default kind is `Other`.
    pub fn default_kind() -> (kind: ErrorKind)
        ensures
            kind == ErrorKind::Other,
    {
        ErrorKind::Other
    }

    /// The variant's name.
    pub fn name(&self) -> (name: String)
        ensures
            name@ == error_kind_name(*self),
    {
        let s = match self {
            ErrorKind::UnsupportedPlatform => "UnsupportedPlatform",
            ErrorKind::ConnectionFailed => "ConnectionFailed",
            ErrorKind::HostKeyNotVerified => "HostKeyNotVerified",
            ErrorKind::InvalidConfig => "InvalidConfig",
            ErrorKind::NotImplemented => "NotImplemented",
            ErrorKind::InvalidParameter => "InvalidParameter",
            ErrorKind::Other => "Other",
        };
        s.to_string()
    }
}

/// An error with its kind, a message, the id of the module it came from
/// (empty when unknown) and an optional parameter such as a key id.
#[derive(Clone, Debug)]
pub struct LkError {
    pub source_id: String,
    pub kind: ErrorKind,
    pub message: String,
    pub parameter: Option<String>,
}

/// Text of an error as shown to the user: `source: message`, or only the
/// message when the source is unknown.
pub open spec fn lk_error_text(source_id: Seq<char>, message: Seq<char>) -> Seq<char> {
    if source_id.len() == 0 {
        message
    } else {
        source_id + ": "@ + message
    }
}

impl LkError {
    /// An equal error.
    pub fn duplicate(&self) -> (e: LkError)
        ensures
            e == *self,
    {
        LkError {
            source_id: self.source_id.clone(),
            kind: self.kind,
            message: self.message.clone(),
            parameter: match &self.parameter {
                Some(p) => Some(p.clone()),
                None => None,
            },
        }
    }

    pub fn new(kind: ErrorKind, message: &str) -> (e: LkError)
        ensures
            e.source_id@ == Seq::<char>::empty(),
            e.kind == kind,
            e.message@ == message@,
            e.parameter.is_none(),
    {
        LkError { source_id: String::new(), kind: kind, message: message.to_string(), parameter: None }
    }

    pub fn invalid_parameter(message: &str, value: &str) -> (e: LkError)
        ensures
            e.source_id@ == Seq::<char>::empty(),
            e.kind == ErrorKind::InvalidParameter,
            e.message@ == message@,
            e.parameter matches Some(p) && p@ == value@,
    {
        LkError {
            source_id: String::new(),
            kind: ErrorKind::InvalidParameter,
            message: message.to_string(),
            parameter: Some(value.to_string()),
        }
    }

    pub fn not_implemented() -> (e: LkError)
        ensures
            e.source_id@ == Seq::<char>::empty(),
            e.kind == ErrorKind::NotImplemented,
            e.message@ == "Not implemented"@,
            e.parameter.is_none(),
    {
        LkError {
            source_id: String::new(),
            kind: ErrorKind::NotImplemented,
            message: "Not implemented".to_string(),
            parameter: None,
        }
    }

    pub fn unsupported_platform() -> (e: LkError)
        ensures
            e.source_id@ == Seq::<char>::empty(),
            e.kind == ErrorKind::UnsupportedPlatform,
            e.message@ == "Unsupported platform"@,
            e.parameter.is_none(),
    {
        LkError {
            source_id: String::new(),
            kind: ErrorKind::UnsupportedPlatform,
            message: "Unsupported platform".to_string(),
            parameter: None,
        }
    }

    pub fn unexpected() -> (e: LkError)
        ensures
            e.source_id@ == Seq::<char>::empty(),
            e.kind == ErrorKind::Other,
            e.message@ == "An unexpected error occurred"@,
            e.parameter.is_none(),
    {
        LkError {
            source_id: String::new(),
            kind: ErrorKind::Other,
            message: "An unexpected error occurred".to_string(),
            parameter: None,
        }
    }

    pub fn host_key_unverified(source_id: &str, message: &str, key_id: &str) -> (e: LkError)
        ensures
            e.source_id@ == source_id@,
            e.kind == ErrorKind::HostKeyNotVerified,
            e.message@ == message@,
            e.parameter matches Some(p) && p@ == key_id@,
    {
        LkError {
            source_id: source_id.to_string(),
            kind: ErrorKind::HostKeyNotVerified,
            message: message.to_string(),
            parameter: Some(key_id.to_string()),
        }
    }

    pub fn other(message: &str) -> (e: LkError)
        ensures
            e.source_id@ == Seq::<char>::empty(),
            e.kind == ErrorKind::Other,
            e.message@ == message@,
            e.parameter.is_none(),
    {
        LkError::new(ErrorKind::Other, message)
    }

    /// An error whose message names the parameter after a colon.
    pub fn other_p(message: &str, parameter: &str) -> (e: LkError)
        ensures
            e.source_id@ == Seq::<char>::empty(),
            e.kind == ErrorKind::Other,
            e.message@ == message@ + ": "@ + parameter@,
            e.parameter matches Some(p) && p@ == parameter@,
    {
        let text = message.to_string().concat(": ").concat(parameter);
        LkError {
            kind: ErrorKind::Other,
            source_id: String::new(),
            message: text,
            parameter: Some(parameter.to_string()),
        }
    }

    /// The same error, attributed to `source`.
    pub fn set_source(self, source: &str) -> (e: LkError)
        ensures
            e.source_id@ == source@,
            e.kind == self.kind,
            e.message@ == self.message@,
            e.parameter == self.parameter,
    {
        let mut result = self;
        result.source_id = source.to_string();
        result
    }

    /// The error as text: `source: message`, or the message alone.
    pub fn to_display_string(&self) -> (s: String)
        ensures
            s@ == lk_error_text(self.source_id@, self.message@),
    {
        if self.source_id.as_str().is_empty() {
            self.message.clone()
        } else {
            self.source_id.clone().concat(": ").concat(self.message.as_str())
        }
    }

    /// An error of kind `Other` carrying the given text.
    pub fn from_message(message: String) -> (e: LkError)
        ensures
            e.source_id@ == Seq::<char>::empty(),
            e.kind == ErrorKind::Other,
            e.message@ == message@,
            e.parameter.is_none(),
    {
        LkError { source_id: String::new(), kind: ErrorKind::Other, message: message, parameter: None }
    }
}

} // verus!
