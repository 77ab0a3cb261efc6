//! Device pairing sessions, as the agent tracks them.
//!
//! While a session runs the agent pauses its own capture. Sessions are
//! counted: each `start` adds one, each terminal event (paired or failed)
//! removes one, and the capture pause is lifted only when the count drops
//! from one to zero — so a terminal event still in flight from a cancelled
//! session cannot lift the pause that a restarted session set. Discovered
//! devices are cached by address so a pairing request can name a device by
//! its address alone.
//!
//! The watcher thread, the channels and the shared runtime flags live
//! outside; these functions decide what each step does.

use vstd::prelude::*;
use crate::text::string_from_str;

verus! {

/// A device found during discovery.
#[derive(Debug)]
pub struct DiscoveredDevice {
    pub address: [u8; 6],
    pub name: String,
}

impl DiscoveredDevice {
    /// A copy of the device.
    pub fn duplicate(&self) -> (r: DiscoveredDevice)
        ensures
            r.address == self.address,
            r.name@ == self.name@,
    {
        DiscoveredDevice { address: self.address, name: string_from_str(self.name.as_str()) }
    }
}

/// A discovered device as reported to the GUI.
#[derive(Debug)]
pub struct FoundDevice {
    pub address: [u8; 6],
    pub name: String,
}

/// A raw pairing-watcher event; `P` is the passkey entry method.
#[derive(Debug)]
pub enum PairingEvent<P> {
    Searching,
    DeviceFound(DiscoveredDevice),
    Passkey(P),
    Paired { slot: u8 },
    /// The failure, already rendered as text.
    Failed(String),
}

/// A pairing step as sent to the GUI.
#[derive(Debug)]
pub enum PairingUpdate<P> {
    Searching,
    DeviceFound(FoundDevice),
    Passkey(P),
    Paired { slot: u8 },
    Failed(String),
}

impl<P> PairingUpdate<P> {
    /// Whether the update ends a session.
    pub open spec fn is_terminal(&self) -> bool {
        self is Paired || self is Failed
    }
}

/// The session bookkeeping and the discovered-device cache.
#[derive(Debug)]
pub struct PairingState {
    /// Discovered devices; an address occurs at most once.
    pub devices: Vec<DiscoveredDevice>,
    /// Outstanding sessions.
    pub sessions: usize,
    /// Whether capture is paused for pairing.
    pub pairing_active: bool,
}

/// Session count after one more `start` (the counter wraps as an atomic does).
pub open spec fn sessions_after_start(sessions: usize) -> usize {
    if sessions == usize::MAX {
        0
    } else {
        (sessions + 1) as usize
    }
}

/// Session count after one terminal event (the counter wraps as an atomic does).
pub open spec fn sessions_after_terminal(sessions: usize) -> usize {
    if sessions == 0 {
        usize::MAX
    } else {
        (sessions - 1) as usize
    }
}

/// The pause flag after one terminal event: lifted only when the count
/// drops from one to zero.
pub open spec fn active_after_terminal(sessions: usize, active: bool) -> bool {
    if sessions == 1 {
        false
    } else {
        active
    }
}

impl PairingState {
    /// Addresses in the cache are distinct.
    pub open spec fn wf(&self) -> bool {
        forall|i: int, j: int|
            0 <= i < self.devices@.len() && 0 <= j < self.devices@.len() && i != j
                ==> #[trigger] self.devices@[i].address@ != #[trigger] self.devices@[j].address@
    }

    /// The cached device at `address`, if any.
    pub open spec fn cached(&self, address: Seq<u8>) -> Option<DiscoveredDevice> {
        if exists|i: int| 0 <= i < self.devices@.len() && #[trigger] self.devices@[i].address@ == address {
            let i = choose|i: int| 0 <= i < self.devices@.len() && #[trigger] self.devices@[i].address@ == address;
            Some(self.devices@[i])
        } else {
            None
        }
    }

    /// No session, capture running, nothing discovered.
    pub fn new() -> (r: PairingState)
        ensures
            r.wf(),
            r.devices@.len() == 0,
            r.sessions == 0,
            !r.pairing_active,
    {
        PairingState { devices: Vec::new(), sessions: 0, pairing_active: false }
    }

    /// Begins a session: forgets the previous discovery, counts the session,
    /// then pauses capture.
    pub fn start(&mut self)
        ensures
            final(self).wf(),
            final(self).devices@.len() == 0,
            final(self).sessions == sessions_after_start(old(self).sessions),
            final(self).pairing_active,
    {
        self.devices = Vec::new();
        self.sessions = if self.sessions == usize::MAX {
            0
        } else {
            self.sessions + 1
        };
        self.pairing_active = true;
    }

    /// Index of the cached device at `address`.
    fn find(&self, address: [u8; 6]) -> (r: Option<usize>)
        ensures
            r matches Some(i) ==> i < self.devices@.len() && self.devices@[i as int].address@ == address@,
            r is None ==> forall|i: int|
                0 <= i < self.devices@.len() ==> #[trigger] self.devices@[i].address@ != address@,
    {
        let n = self.devices.len();
        let mut i: usize = 0;
        while i < n
            invariant
                n == self.devices@.len(),
                i <= n,
                forall|k: int| 0 <= k < i ==> #[trigger] self.devices@[k].address@ != address@,
            decreases n - i,
        {
            let a = self.devices[i].address;
            let mut same = true;
            let mut j: usize = 0;
            while j < 6
                invariant
                    j <= 6,
                    same == forall|m: int| 0 <= m < j ==> a@[m] == address@[m],
                decreases 6 - j,
            {
                if a[j] != address[j] {
                    same = false;
                }
                j += 1;
            }
            if same {
                proof {
                    assert(a@ =~= address@);
                }
                return Some(i);
            }
            proof {
                assert(a@[0] != address@[0] || a@[1] != address@[1] || a@[2] != address@[2]
                    || a@[3] != address@[3] || a@[4] != address@[4] || a@[5] != address@[5]);
            }
            i += 1;
        }
        None
    }

    /// The device to pair for a request naming `address`; `None` (the
    /// request is dropped with a warning) for an address never discovered.
    pub fn device_for(&self, address: [u8; 6]) -> (r: Option<DiscoveredDevice>)
        requires
            self.wf(),
        ensures
            r is None <==> self.cached(address@) is None,
            r matches Some(d) ==> self.cached(address@) matches Some(c) && d.address == c.address
                && d.name@ == c.name@,
    {
        match self.find(address) {
            Some(i) => {
                let d = self.devices[i].duplicate();
                proof {
                    assert(self.devices@[i as int].address@ == address@);
                }
                Some(d)
            },
            None => None,
        }
    }

    /// Translates one watcher event for the GUI: caches a discovered device by
    /// address (replacing an earlier one at the same address), and on a
    /// terminal event ends one session, lifting the capture pause when it was
    /// the last.
    pub fn on_event<P>(&mut self, event: PairingEvent<P>) -> (r: PairingUpdate<P>)
        requires
            old(self).wf(),
        ensures
            final(self).wf(),
            r.is_terminal() ==> final(self).sessions == sessions_after_terminal(old(self).sessions)
                && final(self).pairing_active == active_after_terminal(
                old(self).sessions,
                old(self).pairing_active,
            ),
            !r.is_terminal() ==> final(self).sessions == old(self).sessions
                && final(self).pairing_active == old(self).pairing_active,
            match event {
                PairingEvent::DeviceFound(d) => (r matches PairingUpdate::DeviceFound(f) && f.address
                    == d.address && f.name@ == d.name@) && (final(self).cached(d.address@) matches Some(c)
                    && c.address == d.address && c.name@ == d.name@) && forall|a: Seq<u8>|
                    a != d.address@ ==> #[trigger] final(self).cached(a) == old(self).cached(a),
                PairingEvent::Searching => r is Searching && final(self).devices == old(self).devices,
                PairingEvent::Passkey(p) => r == PairingUpdate::<P>::Passkey(p) && final(self).devices
                    == old(self).devices,
                PairingEvent::Paired { slot } => r == PairingUpdate::<P>::Paired { slot }
                    && final(self).devices == old(self).devices,
                PairingEvent::Failed(e) => (r matches PairingUpdate::Failed(f) && f@ == e@)
                    && final(self).devices == old(self).devices,
            },
    {
        let update = match event {
            PairingEvent::Searching => PairingUpdate::Searching,
            PairingEvent::DeviceFound(device) => {
                let found = FoundDevice {
                    address: device.address,
                    name: string_from_str(device.name.as_str()),
                };
                self.insert(device);
                PairingUpdate::DeviceFound(found)
            },
            PairingEvent::Passkey(method) => PairingUpdate::Passkey(method),
            PairingEvent::Paired { slot } => PairingUpdate::Paired { slot },
            PairingEvent::Failed(error) => PairingUpdate::Failed(error),
        };
        let terminal = match &update {
            PairingUpdate::Paired { .. } | PairingUpdate::Failed(_) => true,
            _ => false,
        };
        if terminal {
            let previous = self.sessions;
            self.sessions = if previous == 0 {
                usize::MAX
            } else {
                previous - 1
            };
            if previous == 1 {
                self.pairing_active = false;
            }
        }
        update
    }

    /// Caches `device` at its address, replacing any earlier device there.
    fn insert(&mut self, device: DiscoveredDevice)
        requires
            old(self).wf(),
        ensures
            final(self).wf(),
            final(self).sessions == old(self).sessions,
            final(self).pairing_active == old(self).pairing_active,
            final(self).cached(device.address@) matches Some(c) && c.address == device.address
                && c.name@ == device.name@,
            forall|a: Seq<u8>|
                a != device.address@ ==> #[trigger] final(self).cached(a) == old(self).cached(a),
    {
        let ghost old_devices = self.devices@;
        let ghost addr = device.address@;
        match self.find(device.address) {
            Some(i) => {
                self.devices.set(i, device);
                proof {
                    assert forall|a: Seq<u8>| a != addr implies #[trigger] self.cached(a)
                        == old(self).cached(a) by {
                        if exists|k: int| 0 <= k < self.devices@.len() && #[trigger] self.devices@[k].address@ == a {
                            let k = choose|k: int| 0 <= k < self.devices@.len() && #[trigger] self.devices@[k].address@ == a;
                            assert(old_devices[k].address@ == a);
                            let k2 = choose|k: int| 0 <= k < old_devices.len() && #[trigger] old_devices[k].address@ == a;
                            assert(k == k2);
                        } else {
                            if exists|k: int| 0 <= k < old_devices.len() && #[trigger] old_devices[k].address@ == a {
                                let k = choose|k: int| 0 <= k < old_devices.len() && #[trigger] old_devices[k].address@ == a;
                                assert(self.devices@[k].address@ == a);
                            }
                        }
                    }
                    assert(self.devices@[i as int].address@ == addr);
                }
            },
            None => {
                self.devices.push(device);
                proof {
                    let n = old_devices.len();
                    assert(self.devices@[n as int].address@ == addr);
                    assert forall|a: Seq<u8>| a != addr implies #[trigger] self.cached(a)
                        == old(self).cached(a) by {
                        if exists|k: int| 0 <= k < self.devices@.len() && #[trigger] self.devices@[k].address@ == a {
                            let k = choose|k: int| 0 <= k < self.devices@.len() && #[trigger] self.devices@[k].address@ == a;
                            assert(old_devices[k].address@ == a);
                            let k2 = choose|k: int| 0 <= k < old_devices.len() && #[trigger] old_devices[k].address@ == a;
                            assert(k == k2);
                        } else {
                            if exists|k: int| 0 <= k < old_devices.len() && #[trigger] old_devices[k].address@ == a {
                                let k = choose|k: int| 0 <= k < old_devices.len() && #[trigger] old_devices[k].address@ == a;
                                assert(self.devices@[k].address@ == a);
                            }
                        }
                    }
                }
            },
        }
    }

    /// The watcher's channel closed (its thread is gone): no session can end
    /// any more, so the count is reset and capture resumes.
    pub fn on_watcher_closed(&mut self)
        ensures
            final(self).devices == old(self).devices,
            final(self).sessions == 0,
            !final(self).pairing_active,
    {
        self.sessions = 0;
        self.pairing_active = false;
    }
}


/// How many times `start` polls for the capture watcher to drop its session
/// before opening the receiver anyway.
pub const CAPTURE_IDLE_POLLS: u32 = 30;

/// Pause between two polls, in milliseconds (about three seconds in all).
pub const CAPTURE_IDLE_POLL_MS: u64 = 100;

/// What `start` does next while it waits for capture to go idle.
#[derive(Clone, Copy, Debug, PartialEq, Eq, Structural)]
pub enum CaptureWait {
    /// Capture has released the receiver: start pairing.
    Proceed,
    /// Not yet idle: sleep one poll interval and poll again.
    Sleep,
    /// The polls are used up: warn that capture did not release, and start
    /// pairing anyway.
    GiveUp,
}

/// The wait step after `polls_done` polls that found capture busy, given
/// whether capture is idle now.
pub open spec fn capture_wait_spec(polls_done: u32, capture_idle: bool) -> CaptureWait {
    if polls_done >= CAPTURE_IDLE_POLLS {
        CaptureWait::GiveUp
    } else if capture_idle {
        CaptureWait::Proceed
    } else {
        CaptureWait::Sleep
    }
}

/// Decides one step of the bounded wait for capture to go idle: with polls
/// left, proceed if capture is idle and sleep otherwise; once
/// [`CAPTURE_IDLE_POLLS`] polls have found it busy, give up and proceed with
/// a warning.
pub fn capture_wait_step(polls_done: u32, capture_idle: bool) -> (r: CaptureWait)
    ensures
        r == capture_wait_spec(polls_done, capture_idle),
{
    if polls_done >= CAPTURE_IDLE_POLLS {
        CaptureWait::GiveUp
    } else if capture_idle {
        CaptureWait::Proceed
    } else {
        CaptureWait::Sleep
    }
}

/// The wait is bounded: whatever capture does, no step after
/// [`CAPTURE_IDLE_POLLS`] busy polls sleeps again, and an idle capture is
/// never waited on.
pub proof fn lemma_capture_wait_bounded(polls_done: u32, capture_idle: bool)
    ensures
        polls_done >= CAPTURE_IDLE_POLLS ==> capture_wait_spec(polls_done, capture_idle)
            != CaptureWait::Sleep,
        capture_idle ==> capture_wait_spec(polls_done, capture_idle) != CaptureWait::Sleep,
{
}

/// The session count and pause flag after `k` terminal events.
pub open spec fn after_terminals(sessions: usize, active: bool, k: nat) -> (usize, bool)
    decreases k,
{
    if k == 0 {
        (sessions, active)
    } else {
        let (s, a) = after_terminals(sessions, active, (k - 1) as nat);
        (sessions_after_terminal(s), active_after_terminal(s, a))
    }
}

/// The session count and pause flag after `n` starts.
pub open spec fn after_starts(sessions: usize, n: nat) -> (usize, bool)
    decreases n,
{
    if n == 0 {
        (sessions, false)
    } else {
        (sessions_after_start(after_starts(sessions, (n - 1) as nat).0), true)
    }
}

/// `n` starts from no session count `n` sessions and pause capture.
pub proof fn lemma_starts_count(n: nat)
    requires
        1 <= n < usize::MAX,
    ensures
        after_starts(0, n) == ((n as usize), true),
    decreases n,
{
    if n > 1 {
        lemma_starts_count((n - 1) as nat);
    } else {
        assert(after_starts(0, 0) == (0usize, false));
    }
}

/// Balanced sessions: with `n` sessions outstanding and capture paused, the
/// pause stays held through the first `n - 1` terminal events and is lifted
/// by the `n`-th, which brings the count back to zero.
pub proof fn lemma_pause_until_last_terminal(n: nat, k: nat)
    requires
        1 <= n < usize::MAX,
        k <= n,
    ensures
        after_terminals((n as usize), true, k) == (((n - k) as usize), k < n),
    decreases k,
{
    if k > 0 {
        lemma_pause_until_last_terminal(n, (k - 1) as nat);
    }
}

} // verus!
