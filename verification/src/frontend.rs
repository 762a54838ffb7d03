//! What the state of the hosts turns into for the user interface: errors
//! that ask the user to verify a host key, and the headers of the host
//! table.

use vstd::prelude::*;
use crate::enums::Criticality;
use crate::error::{ErrorKind, LkError};
use crate::text::append_text;

verus! {

/// A request to the user to verify a host key.
#[derive(Debug)]
pub struct VerificationRequest {
    pub source_id: String,
    pub message: String,
    /// Fingerprint or a similar identifier of the key.
    pub key_id: String,
}

/// Source, message and key of a verification request.
pub type VerificationRequestView = (Seq<char>, Seq<char>, Seq<char>);

impl View for VerificationRequest {
    type V = VerificationRequestView;

    open spec fn view(&self) -> VerificationRequestView {
        (self.source_id@, self.message@, self.key_id@)
    }
}

/// Whether an error asks for a host key to be verified.
pub open spec fn asks_key_verification(e: LkError) -> bool {
    e.kind == ErrorKind::HostKeyNotVerified
}

/// The verification requests made of the key errors among `errors`, in
/// order; each takes the error's source, message and parameter.
pub open spec fn verification_requests_of(errors: Seq<LkError>) -> Seq<VerificationRequestView>
    decreases errors.len(),
{
    if errors.len() == 0 {
        Seq::empty()
    } else if asks_key_verification(errors.last()) {
        verification_requests_of(errors.drop_last()).push(
            (errors.last().source_id@, errors.last().message@, errors.last().parameter->0@),
        )
    } else {
        verification_requests_of(errors.drop_last())
    }
}

/// The errors among `errors` that are not key errors, in order.
pub open spec fn other_errors(errors: Seq<LkError>) -> Seq<LkError>
    decreases errors.len(),
{
    if errors.len() == 0 {
        Seq::empty()
    } else if asks_key_verification(errors.last()) {
        other_errors(errors.drop_last())
    } else {
        other_errors(errors.drop_last()).push(errors.last())
    }
}

/// Parts the errors of a state update into verification requests and the
/// errors shown as they are. A key error carries the key's id as its
/// parameter.
pub fn split_verification_requests(errors: Vec<LkError>) -> (r: (Vec<VerificationRequest>, Vec<LkError>))
    requires
        forall|i: int| 0 <= i < errors@.len() && asks_key_verification(#[trigger] errors@[i]) ==> errors@[i].parameter is Some,
    ensures
        r.0@.map_values(|v: VerificationRequest| v@) == verification_requests_of(errors@),
        r.1@ == other_errors(errors@),
{
    let mut requests: Vec<VerificationRequest> = Vec::new();
    let mut others: Vec<LkError> = Vec::new();
    let mut i: usize = 0;
    while i < errors.len()
        invariant
            i <= errors.len(),
            forall|k: int| 0 <= k < errors@.len() && asks_key_verification(#[trigger] errors@[k]) ==> errors@[k].parameter is Some,
            requests@.map_values(|v: VerificationRequest| v@) == verification_requests_of(errors@.take(i as int)),
            others@ == other_errors(errors@.take(i as int)),
        decreases errors.len() - i,
    {
        assert(errors@.take(i + 1).drop_last() =~= errors@.take(i as int));
        let error = &errors[i];
        if error.kind == ErrorKind::HostKeyNotVerified {
            let key_id = match &error.parameter {
                Some(p) => p.clone(),
                None => String::new(),
            };
            let ghost before = requests@.map_values(|v: VerificationRequest| v@);
            let request = VerificationRequest {
                source_id: error.source_id.clone(),
                message: error.message.clone(),
                key_id,
            };
            requests.push(request);
            assert(requests@.map_values(|v: VerificationRequest| v@) =~= before.push(request@));
        } else {
            let ghost before = others@;
            others.push(error.duplicate());
            assert(others@ =~= before.push(errors@[i as int]));
        }
        i = i + 1;
    }
    assert(errors@.take(errors.len() as int) =~= errors@);
    (requests, others)
}

/// Header of a monitor's column in the host table: its text, followed by
/// its unit in parentheses when it has one.
pub open spec fn column_header(display_text: Seq<char>, unit: Seq<char>) -> Seq<char> {
    if unit.len() == 0 {
        display_text
    } else {
        display_text + " ("@ + unit + ")"@
    }
}

/// The header of a monitor's column in the host table.
pub fn monitor_column_header(display_text: &str, unit: &str) -> (r: String)
    ensures
        r@ == column_header(display_text@, unit@),
{
    let mut header = display_text.to_string();
    if !unit.is_empty() {
        append_text(&mut header, " (");
        append_text(&mut header, unit);
        append_text(&mut header, ")");
    }
    header
}

/// The criticality a monitor counts as: that of its latest value, or
/// `NoData` when it has none.
pub open spec fn counted_as(latest: Option<Criticality>) -> Criticality {
    match latest {
        Some(c) => c,
        None => Criticality::NoData,
    }
}

/// How many monitors count as `c`.
pub open spec fn monitors_at(latest: Seq<Option<Criticality>>, c: Criticality) -> nat
    decreases latest.len(),
{
    if latest.len() == 0 {
        0
    } else {
        monitors_at(latest.drop_last(), c) + if counted_as(latest.last()) == c { 1nat } else { 0nat }
    }
}

/// Numbers of monitors at the criticalities the status bar shows.
#[derive(Clone, Copy, Debug, PartialEq, Eq, Structural)]
pub struct CriticalityCounts {
    pub critical: usize,
    pub error: usize,
    pub warning: usize,
    pub normal: usize,
    pub no_data: usize,
}

proof fn lemma_monitors_at_bound(latest: Seq<Option<Criticality>>, c: Criticality)
    ensures
        monitors_at(latest, c) <= latest.len(),
    decreases latest.len(),
{
    if latest.len() > 0 {
        lemma_monitors_at_bound(latest.drop_last(), c);
    }
}

/// Counts the monitors by criticality, given each monitor's latest
/// criticality (`None` when it has no values yet).
pub fn count_criticalities(latest: &Vec<Option<Criticality>>) -> (r: CriticalityCounts)
    ensures
        r.critical == monitors_at(latest@, Criticality::Critical),
        r.error == monitors_at(latest@, Criticality::Error),
        r.warning == monitors_at(latest@, Criticality::Warning),
        r.normal == monitors_at(latest@, Criticality::Normal),
        r.no_data == monitors_at(latest@, Criticality::NoData),
{
    let mut counts = CriticalityCounts { critical: 0, error: 0, warning: 0, normal: 0, no_data: 0 };
    let mut i: usize = 0;
    while i < latest.len()
        invariant
            i <= latest.len(),
            counts.critical == monitors_at(latest@.take(i as int), Criticality::Critical),
            counts.error == monitors_at(latest@.take(i as int), Criticality::Error),
            counts.warning == monitors_at(latest@.take(i as int), Criticality::Warning),
            counts.normal == monitors_at(latest@.take(i as int), Criticality::Normal),
            counts.no_data == monitors_at(latest@.take(i as int), Criticality::NoData),
        decreases latest.len() - i,
    {
        assert(latest@.take(i + 1).drop_last() =~= latest@.take(i as int));
        proof {
            lemma_monitors_at_bound(latest@.take(i as int), Criticality::Critical);
            lemma_monitors_at_bound(latest@.take(i as int), Criticality::Error);
            lemma_monitors_at_bound(latest@.take(i as int), Criticality::Warning);
            lemma_monitors_at_bound(latest@.take(i as int), Criticality::Normal);
            lemma_monitors_at_bound(latest@.take(i as int), Criticality::NoData);
        }
        let c = match latest[i] {
            Some(c) => c,
            None => Criticality::NoData,
        };
        match c {
            Criticality::Critical => counts.critical = counts.critical + 1,
            Criticality::Error => counts.error = counts.error + 1,
            Criticality::Warning => counts.warning = counts.warning + 1,
            Criticality::Normal => counts.normal = counts.normal + 1,
            Criticality::NoData => counts.no_data = counts.no_data + 1,
            _ => {},
        }
        i = i + 1;
    }
    assert(latest@.take(latest.len() as int) =~= latest@);
    counts
}


/// Positions of the two values whose criticalities an alert compares: one in
/// the monitor's kept history (none when it holds fewer than two values) and
/// one among the new values.
#[derive(PartialEq, Eq, Structural, Clone, Copy, Debug)]
pub struct AlertSpan {
    pub previous: Option<usize>,
    pub current: usize,
}

/// What the user interface does with an update of a host's state.
#[derive(PartialEq, Eq, Structural, Clone, Copy, Debug)]
pub struct HostUpdatePlan {
    /// Record the alert transitions between these two values.
    pub alert: Option<AlertSpan>,
    /// Store the new values for charts.
    pub chart_insert: bool,
    /// The host was just initialized: refresh its monitors instead of
    /// showing the update.
    pub refresh_monitors: bool,
}

/// The plan for a host update. `new_data` gives, when the update brings new
/// monitoring data, the length of that monitor's kept history, the number of
/// new values and whether the monitor is drawn in charts.
pub open spec fn host_update_plan(new_data: Option<(usize, usize, bool)>, just_initialized: bool) -> HostUpdatePlan {
    match new_data {
        Some((history_len, new_len, charts)) => HostUpdatePlan {
            alert: if new_len > 0 {
                Some(AlertSpan {
                    previous: if history_len >= 2 { Some((history_len - 2) as usize) } else { None },
                    current: (new_len - 1) as usize,
                })
            } else {
                None
            },
            chart_insert: charts,
            refresh_monitors: just_initialized,
        },
        None => HostUpdatePlan { alert: None, chart_insert: false, refresh_monitors: just_initialized },
    }
}

/// Decides what a host update leads to: the alert transitions between the
/// value before the newest one and the newest new value, storing for
/// charts, and whether the update only starts monitoring a new host.
pub fn plan_host_update(new_data: Option<(usize, usize, bool)>, just_initialized: bool) -> (r: HostUpdatePlan)
    ensures
        r == host_update_plan(new_data, just_initialized),
{
    match new_data {
        Some((history_len, new_len, charts)) => {
            let alert = if new_len > 0 {
                let previous = if history_len >= 2 { Some(history_len - 2) } else { None };
                Some(AlertSpan { previous, current: new_len - 1 })
            } else {
                None
            };
            HostUpdatePlan { alert, chart_insert: charts, refresh_monitors: just_initialized }
        },
        None => HostUpdatePlan { alert: None, chart_insert: false, refresh_monitors: just_initialized },
    }
}

} // verus!
