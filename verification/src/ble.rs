//! The link manager's state machine: one logical connection to the target
//! peripheral, driven from outside by scan, connect and write steps.
//!
//! The platform side of the link (radio scanning, GATT traffic) lives with
//! the caller; this module owns every decision: whether a call may proceed,
//! whether a background search must be started, which advertisement names
//! the target device, which service and characteristic carry writes, and how
//! often one candidate is retried.  The search-in-progress flag is the sole
//! device keeping two background searches from running at once, so the state
//! is meant to be consulted under mutual exclusion.

use vstd::prelude::*;

verus! {

/// The 128-bit value of the GATT service under which the device listens.
pub const SERVICE_UUID: u128 = 0x6e400001_b5a3_f393_e0a9_e50e24dcca9e;

/// The 128-bit value of the writable characteristic under that service.
pub const WRITE_CHARACTERISTIC_UUID: u128 = 0x6e400002_b5a3_f393_e0a9_e50e24dcca9e;

/// How often one discovered candidate is tried before moving to the next.
pub const CONNECT_ATTEMPTS_PER_CANDIDATE: u8 = 3;

/// Why a link operation failed.
#[derive(Clone, Copy, Debug, PartialEq, Eq, Structural)]
pub enum LinkError {
    /// A background search already runs; no second one was started.
    SearchInProgress,
    /// No live link; the caller may retry once a search has concluded.
    NotConnected,
    /// The scan ended without a usable candidate.
    PeripheralNotFound,
    /// A candidate lacked the target service.
    ServiceNotFound,
    /// The target service lacked the writable characteristic.
    CharacteristicNotFound,
    /// The platform refused a characteristic write.
    WriteFailed,
    /// Any other failure of the platform stack.
    PlatformError,
}

/// What the caller must do after a state step.
#[derive(Clone, Copy, Debug, PartialEq, Eq, Structural)]
pub enum LinkAction {
    /// Nothing: the step had no outside work to hand back.
    Stay,
    /// Start exactly one background scan-and-connect task.
    StartSearch,
}

/// The observable phase of the link.
#[derive(Clone, Copy, Debug, PartialEq, Eq, Structural)]
pub enum LinkPhase {
    Disconnected,
    Searching,
    Connected,
}

/// The shared connection state: whether a peripheral handle is held, and
/// whether a background search is under way.
#[derive(Clone, Copy, Debug, PartialEq, Eq, Structural)]
pub struct TrueGearConnection {
    /// A peripheral and its write characteristic are held.
    pub connected: bool,
    /// A background search runs; the flag that deduplicates searches.
    pub searching: bool,
}

impl TrueGearConnection {
    /// The phase the state presents to observers.
    pub open spec fn spec_phase(self) -> LinkPhase {
        if self.connected {
            LinkPhase::Connected
        } else if self.searching {
            LinkPhase::Searching
        } else {
            LinkPhase::Disconnected
        }
    }
}

/// One decision step of `ensure_connected`: given the state and whether the
/// platform reports the held link alive, the next state, the action for the
/// caller, and the result the caller sees.
pub open spec fn spec_ensure_connected(s: TrueGearConnection, link_alive: bool) -> (
    TrueGearConnection,
    LinkAction,
    Result<(), LinkError>,
) {
    if s.connected && link_alive {
        (s, LinkAction::Stay, Ok(()))
    } else if s.searching {
        (s, LinkAction::Stay, Err(LinkError::SearchInProgress))
    } else {
        (
            TrueGearConnection { connected: s.connected, searching: true },
            LinkAction::StartSearch,
            Err(LinkError::NotConnected),
        )
    }
}

impl TrueGearConnection {
    /// A fresh state: no handle held, no search running.
    pub fn new() -> (c: TrueGearConnection)
        ensures
            !c.connected,
            !c.searching,
            c.spec_phase() is Disconnected,
    {
        TrueGearConnection { connected: false, searching: false }
    }

    /// Demands a live link.  With one, the call succeeds with nothing to do.
    /// Without one, the caller gets an error at once: the first such call
    /// starts the single background search, every further call while it runs
    /// is told only that it is in progress.
    pub fn ensure_connected(&mut self, link_alive: bool) -> (r: (LinkAction, Result<(), LinkError>))
        ensures
            (*final(self), r.0, r.1) == spec_ensure_connected(*old(self), link_alive),
    {
        if self.connected && link_alive {
            (LinkAction::Stay, Ok(()))
        } else if self.searching {
            (LinkAction::Stay, Err(LinkError::SearchInProgress))
        } else {
            self.searching = true;
            (LinkAction::StartSearch, Err(LinkError::NotConnected))
        }
    }

    /// The first step of a send: bytes may go to the radio only when this
    /// returns `Ok`; otherwise the error of `ensure_connected` is handed
    /// through unchanged and the caller decides whether to drop or retry.
    pub fn send_data(&mut self, link_alive: bool) -> (r: (LinkAction, Result<(), LinkError>))
        ensures
            (*final(self), r.0, r.1) == spec_ensure_connected(*old(self), link_alive),
    {
        self.ensure_connected(link_alive)
    }

    /// Starts the link: one `ensure_connected` step whose result is not an
    /// error for the caller, only the action is handed back.
    pub fn start(&mut self, link_alive: bool) -> (a: LinkAction)
        ensures
            ({
                let (s2, a2, _r2) = spec_ensure_connected(*old(self), link_alive);
                *final(self) == s2 && a == a2
            }),
    {
        let (a, _) = self.ensure_connected(link_alive);
        a
    }

    /// Records the end of the one background search.  The flag is cleared
    /// whatever happened; a successful search leaves a held handle.
    pub fn search_finished(&mut self, success: bool)
        ensures
            !final(self).searching,
            final(self).connected == (old(self).connected || success),
    {
        if success {
            self.connected = true;
        }
        self.searching = false;
    }

    /// Drops the held handle.  Idempotent: disconnecting while disconnected
    /// changes nothing and is no error.
    pub fn disconnect(&mut self)
        ensures
            !final(self).connected,
            final(self).searching == old(self).searching,
    {
        self.connected = false;
    }
}

/// Whether one more connect attempt is allowed for the current candidate
/// after the given number of failures.
pub fn should_retry_candidate(failed_attempts: u8) -> (b: bool)
    ensures
        b == (failed_attempts < CONNECT_ATTEMPTS_PER_CANDIDATE),
{
    failed_attempts < CONNECT_ATTEMPTS_PER_CANDIDATE
}

/// The advertised-name fragment that marks the target device, as bytes.
pub open spec fn spec_device_name_marker() -> Seq<u8> {
    seq![
        'T' as u8, 'r' as u8, 'u' as u8, 'e' as u8, 'g' as u8, 'e' as u8, 'a' as u8, 'r' as u8,
        '_' as u8, 'C' as u8,
    ]
}

/// A name addresses the target device when it holds the marker anywhere.
pub open spec fn spec_device_name_matches(s: Seq<u8>) -> bool {
    exists|k: int|
        0 <= k <= s.len() - 10 && #[trigger] s.subrange(k, k + 10) == spec_device_name_marker()
}

/// Whether the marker stands at position `k` of the name.
fn marker_match_at(name: &[u8], k: usize) -> (b: bool)
    requires
        k + 10 <= name@.len(),
    ensures
        b == (name@.subrange(k as int, k as int + 10) == spec_device_name_marker()),
{
    let b = name[k] == 'T' as u8 && name[k + 1] == 'r' as u8 && name[k + 2] == 'u' as u8
        && name[k + 3] == 'e' as u8 && name[k + 4] == 'g' as u8 && name[k + 5] == 'e' as u8
        && name[k + 6] == 'a' as u8 && name[k + 7] == 'r' as u8 && name[k + 8] == '_' as u8
        && name[k + 9] == 'C' as u8;
    proof {
        let sub = name@.subrange(k as int, k as int + 10);
        if b {
            assert(sub =~= spec_device_name_marker());
        } else {
            if sub == spec_device_name_marker() {
                assert(sub[0] == 'T' as u8);
                assert(sub[1] == 'r' as u8);
                assert(sub[2] == 'u' as u8);
                assert(sub[3] == 'e' as u8);
                assert(sub[4] == 'g' as u8);
                assert(sub[5] == 'e' as u8);
                assert(sub[6] == 'a' as u8);
                assert(sub[7] == 'r' as u8);
                assert(sub[8] == '_' as u8);
                assert(sub[9] == 'C' as u8);
            }
        }
    }
    b
}

/// Whether an advertised name, given as its bytes, addresses the target
/// device.  Only advertisements passing this filter are worth a connect
/// attempt.
pub fn device_name_matches(name: &[u8]) -> (b: bool)
    ensures
        b == spec_device_name_matches(name@),
{
    let n = name.len();
    if n < 10 {
        return false;
    }
    let mut k: usize = 0;
    while k <= n - 10
        invariant
            n == name@.len(),
            n >= 10,
            k <= n - 10 + 1,
            forall|k2: int|
                0 <= k2 < k ==> #[trigger] name@.subrange(k2, k2 + 10)
                    != spec_device_name_marker(),
        decreases n - k,
    {
        if marker_match_at(name, k) {
            return true;
        }
        k = k + 1;
    }
    false
}

/// Picks the target service among a candidate's service UUID values: the
/// first occurrence wins, and the lookup succeeds exactly when the service
/// is offered at all.
pub fn find_service_index(uuids: &[u128]) -> (r: Result<usize, LinkError>)
    ensures
        match r {
            Ok(i) => i < uuids@.len() && uuids@[i as int] == SERVICE_UUID && (forall|j: int|
                0 <= j < i ==> uuids@[j] != SERVICE_UUID),
            Err(e) => e == LinkError::ServiceNotFound && (forall|j: int|
                0 <= j < uuids@.len() ==> uuids@[j] != SERVICE_UUID),
        },
{
    let mut k: usize = 0;
    while k < uuids.len()
        invariant
            k <= uuids@.len(),
            forall|j: int| 0 <= j < k ==> uuids@[j] != SERVICE_UUID,
        decreases uuids@.len() - k,
    {
        if uuids[k] == SERVICE_UUID {
            return Ok(k);
        }
        k = k + 1;
    }
    Err(LinkError::ServiceNotFound)
}

/// Picks the writable characteristic among the found service's
/// characteristic UUID values, in the same way.
pub fn find_characteristic_index(uuids: &[u128]) -> (r: Result<usize, LinkError>)
    ensures
        match r {
            Ok(i) => i < uuids@.len() && uuids@[i as int] == WRITE_CHARACTERISTIC_UUID && (
            forall|j: int| 0 <= j < i ==> uuids@[j] != WRITE_CHARACTERISTIC_UUID),
            Err(e) => e == LinkError::CharacteristicNotFound && (forall|j: int|
                0 <= j < uuids@.len() ==> uuids@[j] != WRITE_CHARACTERISTIC_UUID),
        },
{
    let mut k: usize = 0;
    while k < uuids.len()
        invariant
            k <= uuids@.len(),
            forall|j: int| 0 <= j < k ==> uuids@[j] != WRITE_CHARACTERISTIC_UUID,
        decreases uuids@.len() - k,
    {
        if uuids[k] == WRITE_CHARACTERISTIC_UUID {
            return Ok(k);
        }
        k = k + 1;
    }
    Err(LinkError::CharacteristicNotFound)
}

/// Two `ensure_connected` calls racing while no peripheral is held: the
/// first starts the one background search and reports `NotConnected`, the
/// second starts nothing and reports `SearchInProgress`.
pub proof fn lemma_single_search(s: TrueGearConnection, alive1: bool, alive2: bool)
    requires
        !s.connected,
        !s.searching,
    ensures
        ({
            let (s1, a1, r1) = spec_ensure_connected(s, alive1);
            let (s2, a2, r2) = spec_ensure_connected(s1, alive2);
            &&& a1 == LinkAction::StartSearch
            &&& r1 == Err::<(), LinkError>(LinkError::NotConnected)
            &&& s1.searching
            &&& a2 == LinkAction::Stay
            &&& r2 == Err::<(), LinkError>(LinkError::SearchInProgress)
            &&& s2 == s1
        }),
{
}

/// While the one background search runs, no call ever starts another: every
/// step without a live link leaves the state alone and answers
/// `SearchInProgress`.
pub proof fn lemma_no_duplicate_search(s: TrueGearConnection, link_alive: bool)
    requires
        s.searching,
        !(s.connected && link_alive),
    ensures
        ({
            let (s2, a, r) = spec_ensure_connected(s, link_alive);
            &&& a == LinkAction::Stay
            &&& r == Err::<(), LinkError>(LinkError::SearchInProgress)
            &&& s2 == s
        }),
{
}

/// A send while disconnected is refused with `NotConnected` and triggers
/// exactly one background search: the send's own step starts it, and any
/// later send before the search concludes starts nothing further.
pub proof fn lemma_send_starts_one_search(s: TrueGearConnection, alive_later: bool)
    requires
        !s.connected,
        !s.searching,
    ensures
        ({
            let (s1, a1, r1) = spec_ensure_connected(s, false);
            let (s2, a2, r2) = spec_ensure_connected(s1, alive_later);
            &&& a1 == LinkAction::StartSearch
            &&& r1 == Err::<(), LinkError>(LinkError::NotConnected)
            &&& a2 == LinkAction::Stay
            &&& r2 == Err::<(), LinkError>(LinkError::SearchInProgress)
        }),
{
}

} // verus!
