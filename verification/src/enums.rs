//! Small enumerations with their textual forms.

use vstd::prelude::*;
use crate::text::{to_lowercase, spec_to_lowercase};

verus! {

/// Severity of a monitored value, from least to most severe.
#[derive(PartialEq, Eq, PartialOrd, Ord, Debug, Clone, Copy, Structural)]
pub enum Criticality {
    /// When command or service is not available in the system and therefore can't be monitored.
    NotAvailable,
    Ignore,
    Normal,
    /// Info is basically Normal level but it will be displayed to user in some cases where Normal won't.
    Info,
    /// Currently same as "unknown" or "pending". Initial result. Default.
    NoData,
    Warning,
    Error,
    Critical,
}

/// Numeric level of each criticality (its position in severity order).
pub open spec fn criticality_level(c: Criticality) -> u8 {
    match c {
        Criticality::NotAvailable => 0,
        Criticality::Ignore => 1,
        Criticality::Normal => 2,
        Criticality::Info => 3,
        Criticality::NoData => 4,
        Criticality::Warning => 5,
        Criticality::Error => 6,
        Criticality::Critical => 7,
    }
}

/// Name of each criticality.
pub open spec fn criticality_name(c: Criticality) -> Seq<char> {
    match c {
        Criticality::NotAvailable => "NotAvailable"@,
        Criticality::Ignore => "Ignore"@,
        Criticality::Normal => "Normal"@,
        Criticality::Info => "Info"@,
        Criticality::NoData => "NoData"@,
        Criticality::Warning => "Warning"@,
        Criticality::Error => "Error"@,
        Criticality::Critical => "Critical"@,
    }
}

impl Criticality {
    /// The default criticality, `NoData`.
    pub fn default_value() -> (c: Criticality)
        ensures
            c == Criticality::NoData,
    {
        Criticality::NoData
    }

    /// The criticality whose level is `value`; `Err` above 7.
    pub fn try_from(value: u8) -> (r: Result<Criticality, ()>)
        ensures
            value <= 7 ==> (r matches Ok(c) && criticality_level(c) == value),
            value > 7 ==> r is Err,
    {
        match value {
            0 => Ok(Criticality::NotAvailable),
            1 => Ok(Criticality::Ignore),
            2 => Ok(Criticality::Normal),
            3 => Ok(Criticality::Info),
            4 => Ok(Criticality::NoData),
            5 => Ok(Criticality::Warning),
            6 => Ok(Criticality::Error),
            7 => Ok(Criticality::Critical),
            _ => Err(()),
        }
    }

    /// The level of this criticality.
    pub fn level(&self) -> (v: u8)
        ensures
            v == criticality_level(*self),
    {
        match self {
            Criticality::NotAvailable => 0,
            Criticality::Ignore => 1,
            Criticality::Normal => 2,
            Criticality::Info => 3,
            Criticality::NoData => 4,
            Criticality::Warning => 5,
            Criticality::Error => 6,
            Criticality::Critical => 7,
        }
    }

    /// The variant name.
    pub fn to_text(&self) -> (s: String)
        ensures
            s@ == criticality_name(*self),
    {
        let s = match self {
            Criticality::NotAvailable => "NotAvailable",
            Criticality::Ignore => "Ignore",
            Criticality::Normal => "Normal",
            Criticality::Info => "Info",
            Criticality::NoData => "NoData",
            Criticality::Warning => "Warning",
            Criticality::Error => "Error",
            Criticality::Critical => "Critical",
        };
        s.to_string()
    }

    /// Whether `self` is strictly more severe than `other`.
    pub fn is_more_severe_than(&self, other: &Criticality) -> (r: bool)
        ensures
            r == (criticality_level(*self) > criticality_level(*other)),
    {
        self.level() > other.level()
    }
}

/// Text editing mode of the integrated editor.
#[derive(Debug, Clone, Copy, PartialEq, Eq, Structural)]
pub enum EditMode {
    Regular,
    Vim,
    Emacs,
}

/// The edit mode named by lowercase text.
pub open spec fn edit_mode_from_lowercase(s: Seq<char>) -> Option<EditMode> {
    if s == "regular"@ {
        Some(EditMode::Regular)
    } else if s == "vim"@ {
        Some(EditMode::Vim)
    } else if s == "emacs"@ {
        Some(EditMode::Emacs)
    } else {
        None
    }
}

/// Lowercase name of each edit mode.
pub open spec fn edit_mode_name(m: EditMode) -> Seq<char> {
    match m {
        EditMode::Regular => "regular"@,
        EditMode::Vim => "vim"@,
        EditMode::Emacs => "emacs"@,
    }
}

/// Whether `s` equals the literal `lit`.
pub fn str_equals(s: &str, lit: &str) -> (r: bool)
    ensures
        r == (s@ == lit@),
{
    let a = crate::text::chars_of(s);
    let b = crate::text::chars_of(lit);
    if a.len() != b.len() {
        return false;
    }
    let mut i: usize = 0;
    while i < a.len()
        invariant
            a@ == s@,
            b@ == lit@,
            a.len() == b.len(),
            i <= a.len(),
            forall|k: int| 0 <= k < i ==> a@[k] == b@[k],
        decreases a.len() - i,
    {
        if a[i] != b[i] {
            return false;
        }
        i = i + 1;
    }
    assert(a@ =~= b@);
    true
}

impl EditMode {
    /// The default mode, `Regular`.
    pub fn default_value() -> (m: EditMode)
        ensures
            m == EditMode::Regular,
    {
        EditMode::Regular
    }

    /// The mode named by `s`, already in lowercase.
    pub fn from_lowercase(s: &str) -> (r: Result<EditMode, ()>)
        ensures
            r matches Ok(m) ==> edit_mode_from_lowercase(s@) == Some(m),
            r is Err ==> edit_mode_from_lowercase(s@) is None,
    {
        proof {
            reveal_strlit("regular");
            reveal_strlit("vim");
            reveal_strlit("emacs");
        }
        if str_equals(s, "regular") {
            Ok(EditMode::Regular)
        } else if str_equals(s, "vim") {
            Ok(EditMode::Vim)
        } else if str_equals(s, "emacs") {
            Ok(EditMode::Emacs)
        } else {
            Err(())
        }
    }

    /// The mode named by `s`, in any letter case.
    pub fn from_str(s: &str) -> (r: Result<EditMode, ()>)
        ensures
            r matches Ok(m) ==> edit_mode_from_lowercase(spec_to_lowercase(s@)) == Some(m),
            r is Err ==> edit_mode_from_lowercase(spec_to_lowercase(s@)) is None,
    {
        let lower = to_lowercase(s);
        EditMode::from_lowercase(lower.as_str())
    }

    /// The lowercase name.
    pub fn to_text(&self) -> (s: String)
        ensures
            s@ == edit_mode_name(*self),
    {
        let s = match self {
            EditMode::Regular => "regular",
            EditMode::Vim => "vim",
            EditMode::Emacs => "emacs",
        };
        s.to_string()
    }
}

/// Reachability of a host.
#[derive(Debug, Clone, Copy, PartialEq, Eq, Structural)]
pub enum HostStatus {
    Unknown,
    Pending,
    Up,
    Down,
}

/// The status named by lowercase text.
pub open spec fn host_status_from_lowercase(s: Seq<char>) -> Option<HostStatus> {
    if s == "unknown"@ {
        Some(HostStatus::Unknown)
    } else if s == "pending"@ {
        Some(HostStatus::Pending)
    } else if s == "up"@ {
        Some(HostStatus::Up)
    } else if s == "down"@ {
        Some(HostStatus::Down)
    } else {
        None
    }
}

/// Lowercase name of each status.
pub open spec fn host_status_name(h: HostStatus) -> Seq<char> {
    match h {
        HostStatus::Unknown => "unknown"@,
        HostStatus::Pending => "pending"@,
        HostStatus::Up => "up"@,
        HostStatus::Down => "down"@,
    }
}

impl HostStatus {
    /// The default status, `Pending`.
    pub fn default_value() -> (h: HostStatus)
        ensures
            h == HostStatus::Pending,
    {
        HostStatus::Pending
    }

    /// The status named by `s`, already in lowercase; `None` for any other text.
    pub fn from_lowercase(s: &str) -> (r: Option<HostStatus>)
        ensures
            r == host_status_from_lowercase(s@),
    {
        proof {
            reveal_strlit("unknown");
            reveal_strlit("pending");
            reveal_strlit("up");
            reveal_strlit("down");
        }
        if str_equals(s, "unknown") {
            Some(HostStatus::Unknown)
        } else if str_equals(s, "pending") {
            Some(HostStatus::Pending)
        } else if str_equals(s, "up") {
            Some(HostStatus::Up)
        } else if str_equals(s, "down") {
            Some(HostStatus::Down)
        } else {
            None
        }
    }

    /// The status named by `s` in any letter case. Text that names no
    /// status is a programming error here: it is left out by `requires`
    /// (see `try_parse` for a checked form).
    pub fn from_str(s: &str) -> (h: HostStatus)
        requires
            host_status_from_lowercase(spec_to_lowercase(s@)) is Some,
        ensures
            host_status_from_lowercase(spec_to_lowercase(s@)) == Some(h),
    {
        let lower = to_lowercase(s);
        match HostStatus::from_lowercase(lower.as_str()) {
            Some(h) => h,
            None => HostStatus::Unknown,
        }
    }

    /// The status named by `s` in any letter case, or `None`.
    pub fn try_parse(s: &str) -> (r: Option<HostStatus>)
        ensures
            r == host_status_from_lowercase(spec_to_lowercase(s@)),
    {
        let lower = to_lowercase(s);
        if HostStatus::from_lowercase(lower.as_str()).is_some() {
            Some(HostStatus::from_str(s))
        } else {
            None
        }
    }

    /// The lowercase name.
    pub fn to_text(&self) -> (s: String)
        ensures
            s@ == host_status_name(*self),
    {
        let s = match self {
            HostStatus::Unknown => "unknown",
            HostStatus::Pending => "pending",
            HostStatus::Up => "up",
            HostStatus::Down => "down",
        };
        s.to_string()
    }
}

/// Preferred transport for reaching the core service on an admin host.
#[derive(Debug, Clone, Copy, PartialEq, Eq, Structural)]
pub enum CoreTransportPreference {
    OpensshStreamLocal,
}

impl CoreTransportPreference {
    /// The default (and only) transport.
    pub fn default_value() -> (t: CoreTransportPreference)
        ensures
            t == CoreTransportPreference::OpensshStreamLocal,
    {
        CoreTransportPreference::OpensshStreamLocal
    }

    /// The transport named by `s` in any letter case.
    pub fn from_str(s: &str) -> (r: Result<CoreTransportPreference, ()>)
        ensures
            r is Ok <==> spec_to_lowercase(s@) == "openssh_stream_local"@,
            r matches Ok(t) ==> t == CoreTransportPreference::OpensshStreamLocal,
    {
        let lower = to_lowercase(s);
        if str_equals(lower.as_str(), "openssh_stream_local") {
            Ok(CoreTransportPreference::OpensshStreamLocal)
        } else {
            Err(())
        }
    }

    /// The snake-case name.
    pub fn to_text(&self) -> (s: String)
        ensures
            s@ == "openssh_stream_local"@,
    {
        "openssh_stream_local".to_string()
    }
}

} // verus!
