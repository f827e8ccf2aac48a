//! Room monitor decisions: per-room backoff and log deduplication, status of
//! each room, and aggregate detection of dead credentials over a check cycle.
//!
//! Time is a count of milliseconds on a monotonic clock chosen by the caller.

use vstd::prelude::*;
use crate::error::Error;

verus! {

/// Last known coarse state of a room, for status consumers.
#[derive(Debug, Clone, Copy, PartialEq, Eq, Structural)]
pub enum RoomStatus {
    Unknown,
    Offline,
    Private,
    Recording,
    CookieDead,
}

/// The kinds of failed checks that backoff and deduplication tell apart.
#[derive(Debug, Clone, Copy, PartialEq, Eq, Structural)]
pub enum RoomErrorKind {
    Offline,
    Private,
    Cloudflare,
    Other,
}

/// What one discovery check of a room came to.
#[derive(Debug, Clone, Copy, PartialEq, Eq, Structural)]
pub enum CheckOutcome {
    Online,
    Failed(RoomErrorKind),
}

/// The error kind that a discovery failure counts as.
pub open spec fn error_kind_of(e: Error) -> RoomErrorKind {
    match e {
        Error::BroadcasterOffline(_) => RoomErrorKind::Offline,
        Error::PrivateStream => RoomErrorKind::Private,
        Error::CloudflareBlocked => RoomErrorKind::Cloudflare,
        _ => RoomErrorKind::Other,
    }
}

/// Classifies a discovery failure.
pub fn classify_check_error(e: &Error) -> (r: RoomErrorKind)
    ensures
        r == error_kind_of(*e),
{
    match e {
        Error::BroadcasterOffline(_) => RoomErrorKind::Offline,
        Error::PrivateStream => RoomErrorKind::Private,
        Error::CloudflareBlocked => RoomErrorKind::Cloudflare,
        _ => RoomErrorKind::Other,
    }
}

/// Largest exponent of the backoff multiplier.
pub const MAX_BACKOFF_EXPONENT: u32 = 6;

pub open spec fn pow2(e: nat) -> nat
    decreases e,
{
    if e == 0 {
        1
    } else {
        2 * pow2((e - 1) as nat)
    }
}

/// Backoff multiplier after `count` consecutive failures of one kind:
/// `2^min(count, 6)`.
pub open spec fn backoff_multiplier(count: nat) -> nat {
    pow2(if count < MAX_BACKOFF_EXPONENT { count } else { MAX_BACKOFF_EXPONENT as nat })
}

/// `a` as a `u64`, held at `u64::MAX` when larger.
pub open spec fn saturate(a: int) -> u64 {
    if a > u64::MAX {
        u64::MAX
    } else {
        a as u64
    }
}

/// The delay before the next check: the base interval times the multiplier,
/// held at `u64::MAX`.
pub open spec fn backoff_delay(base: u64, count: nat) -> u64 {
    saturate(base * backoff_multiplier(count))
}

/// Per-room backoff and deduplication state.
#[derive(Debug, Clone, Copy, PartialEq, Eq, Structural)]
pub struct RoomCheckState {
    /// Kind of the last failed check, if the last check failed.
    pub last_error_kind: Option<RoomErrorKind>,
    /// Consecutive failed checks of that kind, this one included.
    pub consecutive_same_error: u32,
    /// Earliest time at which the room may be checked again.
    pub next_check_at: Option<u64>,
}

impl RoomCheckState {
    /// The state after a failed check of kind `kind` at time `now`.
    pub open spec fn after_error(self, kind: RoomErrorKind, base: u64, now: u64) -> RoomCheckState {
        let count: u32 = if self.last_error_kind == Some(kind) {
            if self.consecutive_same_error == u32::MAX {
                u32::MAX
            } else {
                (self.consecutive_same_error + 1) as u32
            }
        } else {
            1
        };
        RoomCheckState {
            last_error_kind: Some(kind),
            consecutive_same_error: count,
            next_check_at: Some(saturate(now + backoff_delay(base, count as nat))),
        }
    }

    /// The state after a successful check: nothing remembered.
    pub open spec fn cleared() -> RoomCheckState {
        RoomCheckState { last_error_kind: None, consecutive_same_error: 0, next_check_at: None }
    }

    /// Whether the room is inside its backoff window at time `now`.
    pub open spec fn in_backoff(self, now: u64) -> bool {
        match self.next_check_at {
            Some(t) => now < t,
            None => false,
        }
    }

    pub fn new() -> (r: RoomCheckState)
        ensures
            r == RoomCheckState::cleared(),
    {
        RoomCheckState { last_error_kind: None, consecutive_same_error: 0, next_check_at: None }
    }

    /// Records a failed check of kind `kind` at time `now` and schedules the
    /// next one `base × 2^min(count, 6)` later. Returns whether the kind differs
    /// from the previous outcome, that is whether the failure should be logged.
    pub fn record_error(&mut self, kind: RoomErrorKind, base_interval: u64, now: u64) -> (r: bool)
        ensures
            *final(self) == old(self).after_error(kind, base_interval, now),
            r == (old(self).last_error_kind != Some(kind)),
    {
        let is_new = match self.last_error_kind {
            Some(k) => k != kind,
            None => true,
        };
        if is_new {
            self.last_error_kind = Some(kind);
            self.consecutive_same_error = 1;
        } else {
            self.consecutive_same_error = self.consecutive_same_error.saturating_add(1);
        }
        let delay = delay_for(base_interval, self.consecutive_same_error);
        self.next_check_at = Some(now.saturating_add(delay));
        is_new
    }

    /// Records a successful check: backoff and deduplication start afresh.
    pub fn record_success(&mut self)
        ensures
            *final(self) == RoomCheckState::cleared(),
    {
        self.last_error_kind = None;
        self.consecutive_same_error = 0;
        self.next_check_at = None;
    }

    /// Whether the check of this room is to be skipped at time `now`.
    pub fn should_skip(&self, now: u64) -> (r: bool)
        ensures
            r == self.in_backoff(now),
    {
        match self.next_check_at {
            Some(t) => now < t,
            None => false,
        }
    }
}

/// `2^min(count, 6)` as a machine integer.
pub fn multiplier_for(count: u32) -> (r: u64)
    ensures
        r as nat == backoff_multiplier(count as nat),
        r <= 64,
{
    reveal_with_fuel(pow2, 7);
    if count == 0 {
        1
    } else if count == 1 {
        2
    } else if count == 2 {
        4
    } else if count == 3 {
        8
    } else if count == 4 {
        16
    } else if count == 5 {
        32
    } else {
        64
    }
}

/// The backoff delay after `count` consecutive failures of one kind.
pub fn delay_for(base: u64, count: u32) -> (r: u64)
    ensures
        r == backoff_delay(base, count as nat),
{
    let m = multiplier_for(count);
    match base.checked_mul(m) {
        Some(d) => d,
        None => u64::MAX,
    }
}

/// Outcomes tallied over one check cycle.
#[derive(Debug, Clone, Copy, PartialEq, Eq, Structural)]
pub struct CycleTally {
    pub checked: u64,
    pub private: u64,
    pub cloudflare: u64,
}

/// What the caller is to do after a room's check result was recorded.
#[derive(Debug, Clone, Copy, PartialEq, Eq, Structural)]
pub enum RoomAction {
    /// The room went live and is not being recorded: start a recording.
    StartRecording,
    /// A failure of a kind not seen just before: report it.
    ReportNew,
    /// Nothing to report.
    Nothing,
}

/// What the caller is to do once a check cycle is over.
#[derive(Debug, Clone, Copy, PartialEq, Eq, Structural)]
pub enum CycleAction {
    Nothing,
    /// Credentials were just found dead: raise an alert.
    CookieDied,
    /// Credentials work again: announce the recovery.
    CookieRecovered,
}

/// Whether a cycle with `checked` checks, of which `auth_failures` failed for
/// lack of credentials, shows that the credentials are dead.
pub open spec fn cookie_death_engages(checked: nat, auth_failures: nat) -> bool {
    checked >= 1 && auth_failures * 2 >= checked
}

/// A tally count plus one, held at `u64::MAX`.
pub open spec fn bump(n: u64) -> u64 {
    saturate(n + 1)
}

/// Room names as text.
pub open spec fn names(rooms: Seq<String>) -> Seq<Seq<char>> {
    rooms.map_values(|r: String| r@)
}

/// Whether no room name is listed twice.
pub open spec fn distinct_names(rooms: Seq<String>) -> bool {
    forall|i: int, j: int| 0 <= i < j < rooms.len() ==> rooms[i]@ != rooms[j]@
}

/// The names of `s` in order of first appearance, later repeats left out.
pub open spec fn first_occurrences(s: Seq<Seq<char>>) -> Seq<Seq<char>>
    decreases s.len(),
{
    if s.len() == 0 {
        s
    } else {
        let p = first_occurrences(s.drop_last());
        if p.contains(s.last()) {
            p
        } else {
            p.push(s.last())
        }
    }
}

/// Whether a room of this name is already listed.
fn is_listed(rooms: &Vec<String>, name: &String) -> (r: bool)
    ensures
        r == names(rooms@).contains(name@),
{
    let mut k: usize = 0;
    while k < rooms.len()
        invariant
            k <= rooms@.len(),
            forall|j: int| 0 <= j < k ==> rooms@[j]@ != name@,
        decreases rooms@.len() - k,
    {
        if rooms[k] == *name {
            assert(names(rooms@)[k as int] == name@);
            return true;
        }
        k = k + 1;
    }
    assert forall|j: int| 0 <= j < names(rooms@).len() implies names(rooms@)[j] != name@ by {
        assert(rooms@[j]@ != name@);
    }
    false
}

/// The monitor's own state: one entry per room in each vector, indexed as
/// `rooms`, where each room name appears once.
pub struct MonitorState {
    pub rooms: Vec<String>,
    pub statuses: Vec<RoomStatus>,
    pub checks: Vec<RoomCheckState>,
    pub recording: Vec<bool>,
    /// Base interval between checks, in milliseconds.
    pub check_interval: u64,
    /// Whether the credentials are currently held to be dead.
    pub cookie_dead: bool,
    pub tally: CycleTally,
}

impl MonitorState {
    pub open spec fn wf(&self) -> bool {
        &&& distinct_names(self.rooms@)
        &&& self.statuses@.len() == self.rooms@.len()
        &&& self.checks@.len() == self.rooms@.len()
        &&& self.recording@.len() == self.rooms@.len()
    }

    pub open spec fn zero_tally() -> CycleTally {
        CycleTally { checked: 0, private: 0, cloudflare: 0 }
    }

    /// The tally after one more check with outcome `outcome`.
    pub open spec fn tally_after(t: CycleTally, outcome: CheckOutcome) -> CycleTally {
        CycleTally {
            checked: bump(t.checked),
            private: if outcome == CheckOutcome::Failed(RoomErrorKind::Private) {
                bump(t.private)
            } else {
                t.private
            },
            cloudflare: if outcome == CheckOutcome::Failed(RoomErrorKind::Cloudflare) {
                bump(t.cloudflare)
            } else {
                t.cloudflare
            },
        }
    }

    /// A monitor for `rooms`, each name taken once in order of first
    /// appearance, all of unknown status, none recording, with no backoff
    /// pending.
    pub fn new(rooms: Vec<String>, check_interval: u64) -> (r: MonitorState)
        ensures
            r.wf(),
            names(r.rooms@) == first_occurrences(names(rooms@)),
            r.check_interval == check_interval,
            !r.cookie_dead,
            r.tally == MonitorState::zero_tally(),
            forall|i: int| 0 <= i < r.rooms@.len() ==> r.statuses@[i] == RoomStatus::Unknown,
            forall|i: int| 0 <= i < r.rooms@.len() ==> r.checks@[i] == RoomCheckState::cleared(),
            forall|i: int| 0 <= i < r.rooms@.len() ==> !r.recording@[i],
    {
        let mut kept: Vec<String> = Vec::new();
        let mut statuses: Vec<RoomStatus> = Vec::new();
        let mut checks: Vec<RoomCheckState> = Vec::new();
        let mut recording: Vec<bool> = Vec::new();
        let mut i: usize = 0;
        proof {
            assert(names(rooms@).subrange(0, 0).len() == 0);
            assert(names(kept@) =~= Seq::<Seq<char>>::empty());
        }
        while i < rooms.len()
            invariant
                i <= rooms@.len(),
                names(kept@) == first_occurrences(names(rooms@).subrange(0, i as int)),
                distinct_names(kept@),
                statuses@.len() == kept@.len(),
                checks@.len() == kept@.len(),
                recording@.len() == kept@.len(),
                forall|j: int| 0 <= j < kept@.len() ==> statuses@[j] == RoomStatus::Unknown,
                forall|j: int| 0 <= j < kept@.len() ==> checks@[j] == RoomCheckState::cleared(),
                forall|j: int| 0 <= j < kept@.len() ==> !recording@[j],
            decreases rooms@.len() - i,
        {
            let ghost pre = names(rooms@).subrange(0, i as int);
            let ghost next = names(rooms@).subrange(0, i + 1);
            proof {
                assert(next.drop_last() == pre);
                assert(next.last() == rooms@[i as int]@);
            }
            if !is_listed(&kept, &rooms[i]) {
                let ghost before = kept@;
                kept.push(rooms[i].clone());
                statuses.push(RoomStatus::Unknown);
                checks.push(RoomCheckState::new());
                recording.push(false);
                proof {
                    assert(names(kept@) =~= names(before).push(rooms@[i as int]@));
                    assert forall|a: int, b: int| 0 <= a < b < kept@.len() implies kept@[a]@ != kept@[b]@ by {
                        if b == kept@.len() - 1 {
                            assert(names(before)[a] == kept@[a]@);
                        }
                    }
                }
            }
            i = i + 1;
        }
        proof {
            assert(names(rooms@).subrange(0, rooms@.len() as int) == names(rooms@));
        }
        MonitorState {
            rooms: kept,
            statuses,
            checks,
            recording,
            check_interval,
            cookie_dead: false,
            tally: CycleTally { checked: 0, private: 0, cloudflare: 0 },
        }
    }

    /// Status of room `i`.
    pub fn status(&self, i: usize) -> (r: RoomStatus)
        requires
            self.wf(),
            i < self.rooms@.len(),
        ensures
            r == self.statuses@[i as int],
    {
        self.statuses[i]
    }

    /// Whether room `i` is to be checked at time `now`: it is not being
    /// recorded and is not inside its backoff window.
    pub fn should_check(&self, i: usize, now: u64) -> (r: bool)
        requires
            self.wf(),
            i < self.rooms@.len(),
        ensures
            r == (!self.recording@[i as int] && !self.checks@[i as int].in_backoff(now)),
    {
        !self.recording[i] && !self.checks[i].should_skip(now)
    }

    /// Records the outcome of checking room `i` at time `now`.
    ///
    /// A live room that is not being recorded is marked as recording and the
    /// caller is told to start; any live outcome clears the room's backoff. A
    /// failure counts toward the cycle's tally; unless the room is being
    /// recorded (where only failures of kind `Other` count for backoff) it
    /// advances the room's backoff and sets its status to `Offline` or
    /// `Private` for those kinds.
    pub fn on_check_result(&mut self, i: usize, outcome: CheckOutcome, now: u64) -> (r: RoomAction)
        requires
            old(self).wf(),
            i < old(self).rooms@.len(),
        ensures
            final(self).wf(),
            final(self).rooms@ == old(self).rooms@,
            final(self).check_interval == old(self).check_interval,
            final(self).cookie_dead == old(self).cookie_dead,
            final(self).tally == MonitorState::tally_after(old(self).tally, outcome),
            ({
                let rec = old(self).recording@[i as int];
                let st = old(self).checks@[i as int];
                match outcome {
                    CheckOutcome::Online => {
                        &&& final(self).checks@ == old(self).checks@.update(i as int, RoomCheckState::cleared())
                        &&& final(self).recording@ == old(self).recording@.update(i as int, true)
                        &&& if rec {
                            &&& final(self).statuses@ == old(self).statuses@
                            &&& r == RoomAction::Nothing
                        } else {
                            &&& final(self).statuses@ == old(self).statuses@.update(i as int, RoomStatus::Recording)
                            &&& r == RoomAction::StartRecording
                        }
                    },
                    CheckOutcome::Failed(k) => {
                        &&& final(self).recording@ == old(self).recording@
                        &&& if rec && k != RoomErrorKind::Other {
                            &&& final(self).checks@ == old(self).checks@
                            &&& final(self).statuses@ == old(self).statuses@
                            &&& r == RoomAction::Nothing
                        } else {
                            &&& final(self).checks@ == old(self).checks@.update(
                                i as int,
                                st.after_error(k, old(self).check_interval, now),
                            )
                            &&& r == if st.last_error_kind != Some(k) {
                                RoomAction::ReportNew
                            } else {
                                RoomAction::Nothing
                            }
                            &&& final(self).statuses@ == if k == RoomErrorKind::Offline && !rec {
                                old(self).statuses@.update(i as int, RoomStatus::Offline)
                            } else if k == RoomErrorKind::Private && !rec {
                                old(self).statuses@.update(i as int, RoomStatus::Private)
                            } else {
                                old(self).statuses@
                            }
                        }
                    },
                }
            }),
    {
        self.tally.checked = self.tally.checked.saturating_add(1);
        let rec = self.recording[i];
        match outcome {
            CheckOutcome::Online => {
                let mut st = self.checks[i];
                st.record_success();
                self.checks.set(i, st);
                self.recording.set(i, true);
                if rec {
                    RoomAction::Nothing
                } else {
                    self.statuses.set(i, RoomStatus::Recording);
                    RoomAction::StartRecording
                }
            },
            CheckOutcome::Failed(k) => {
                match k {
                    RoomErrorKind::Private => {
                        self.tally.private = self.tally.private.saturating_add(1);
                    },
                    RoomErrorKind::Cloudflare => {
                        self.tally.cloudflare = self.tally.cloudflare.saturating_add(1);
                    },
                    _ => {},
                }
                let counts_for_backoff = match k {
                    RoomErrorKind::Other => true,
                    _ => !rec,
                };
                if !counts_for_backoff {
                    return RoomAction::Nothing;
                }
                let mut st = self.checks[i];
                let is_new = st.record_error(k, self.check_interval, now);
                self.checks.set(i, st);
                if !rec {
                    match k {
                        RoomErrorKind::Offline => {
                            self.statuses.set(i, RoomStatus::Offline);
                        },
                        RoomErrorKind::Private => {
                            self.statuses.set(i, RoomStatus::Private);
                        },
                        _ => {},
                    }
                }
                if is_new {
                    RoomAction::ReportNew
                } else {
                    RoomAction::Nothing
                }
            },
        }
    }

    /// Closes a check cycle. When the cycle's credential failures (private and
    /// blocked) are at least half of its checks, and at least one room was
    /// checked, the credentials are held dead: on entering that state every
    /// room not being recorded gets the status `CookieDead` and an alert is
    /// due. While they are held dead, a cycle with checks and no credential
    /// failure ends that state, clears every room's backoff and announces the
    /// recovery. The tally starts afresh.
    pub fn end_cycle(&mut self) -> (r: CycleAction)
        requires
            old(self).wf(),
        ensures
            final(self).wf(),
            final(self).rooms@ == old(self).rooms@,
            final(self).recording@ == old(self).recording@,
            final(self).check_interval == old(self).check_interval,
            final(self).tally == MonitorState::zero_tally(),
            ({
                let t = old(self).tally;
                let auth = t.private as nat + t.cloudflare as nat;
                if cookie_death_engages(t.checked as nat, auth) {
                    &&& final(self).cookie_dead
                    &&& final(self).checks@ == old(self).checks@
                    &&& if old(self).cookie_dead {
                        &&& final(self).statuses@ == old(self).statuses@
                        &&& r == CycleAction::Nothing
                    } else {
                        &&& final(self).statuses@.len() == old(self).statuses@.len()
                        &&& forall|j: int| 0 <= j < old(self).statuses@.len() ==>
                            #[trigger] final(self).statuses@[j] == if old(self).recording@[j] {
                                old(self).statuses@[j]
                            } else {
                                RoomStatus::CookieDead
                            }
                        &&& r == CycleAction::CookieDied
                    }
                } else if old(self).cookie_dead && auth == 0 && t.checked >= 1 {
                    &&& !final(self).cookie_dead
                    &&& final(self).statuses@ == old(self).statuses@
                    &&& final(self).checks@.len() == old(self).checks@.len()
                    &&& forall|j: int| 0 <= j < old(self).checks@.len() ==>
                        #[trigger] final(self).checks@[j] == RoomCheckState::cleared()
                    &&& r == CycleAction::CookieRecovered
                } else {
                    &&& final(self).cookie_dead == old(self).cookie_dead
                    &&& final(self).statuses@ == old(self).statuses@
                    &&& final(self).checks@ == old(self).checks@
                    &&& r == CycleAction::Nothing
                }
            }),
    {
        let checked = self.tally.checked;
        let auth: u128 = self.tally.private as u128 + self.tally.cloudflare as u128;
        self.tally = CycleTally { checked: 0, private: 0, cloudflare: 0 };
        if checked >= 1 && auth * 2 >= checked as u128 {
            if self.cookie_dead {
                return CycleAction::Nothing;
            }
            self.cookie_dead = true;
            let mut j: usize = 0;
            while j < self.statuses.len()
                invariant
                    self.wf(),
                    j <= self.statuses@.len(),
                    self.rooms@ == old(self).rooms@,
                    self.recording@ == old(self).recording@,
                    self.checks@ == old(self).checks@,
                    self.check_interval == old(self).check_interval,
                    self.cookie_dead,
                    self.tally == MonitorState::zero_tally(),
                    self.statuses@.len() == old(self).statuses@.len(),
                    forall|m: int| j <= m < self.statuses@.len() ==>
                        #[trigger] self.statuses@[m] == old(self).statuses@[m],
                    forall|m: int| 0 <= m < j ==>
                        #[trigger] self.statuses@[m] == if old(self).recording@[m] {
                            old(self).statuses@[m]
                        } else {
                            RoomStatus::CookieDead
                        },
                decreases self.statuses@.len() - j,
            {
                if !self.recording[j] {
                    self.statuses.set(j, RoomStatus::CookieDead);
                }
                j = j + 1;
            }
            CycleAction::CookieDied
        } else if self.cookie_dead && auth == 0 && checked >= 1 {
            self.cookie_dead = false;
            let mut j: usize = 0;
            while j < self.checks.len()
                invariant
                    self.wf(),
                    j <= self.checks@.len(),
                    self.rooms@ == old(self).rooms@,
                    self.recording@ == old(self).recording@,
                    self.statuses@ == old(self).statuses@,
                    self.check_interval == old(self).check_interval,
                    !self.cookie_dead,
                    self.tally == MonitorState::zero_tally(),
                    self.checks@.len() == old(self).checks@.len(),
                    forall|m: int| 0 <= m < j ==>
                        #[trigger] self.checks@[m] == RoomCheckState::cleared(),
                decreases self.checks@.len() - j,
            {
                self.checks.set(j, RoomCheckState::new());
                j = j + 1;
            }
            CycleAction::CookieRecovered
        } else {
            CycleAction::Nothing
        }
    }

    /// Room `i`'s recording has ended: it is no longer recording and its status
    /// is unknown again.
    pub fn recording_finished(&mut self, i: usize)
        requires
            old(self).wf(),
            i < old(self).rooms@.len(),
        ensures
            final(self).wf(),
            final(self).rooms@ == old(self).rooms@,
            final(self).recording@ == old(self).recording@.update(i as int, false),
            final(self).statuses@ == old(self).statuses@.update(i as int, RoomStatus::Unknown),
            final(self).checks@ == old(self).checks@,
            final(self).check_interval == old(self).check_interval,
            final(self).cookie_dead == old(self).cookie_dead,
            final(self).tally == old(self).tally,
    {
        self.recording.set(i, false);
        self.statuses.set(i, RoomStatus::Unknown);
    }
}

/// Consecutive failures of one kind push the next check out by doubling
/// delays: starting from a state whose last outcome was not that kind, three
/// failures in a row schedule the next check `base × 2`, `base × 4` and
/// `base × 8` after each failure; one failure of another kind in between
/// starts the doubling over at `base × 2`. (Stated where no time sum reaches
/// `u64::MAX`, at which the schedule is held.)
pub proof fn lemma_backoff_doubles(
    s: RoomCheckState,
    kind: RoomErrorKind,
    other: RoomErrorKind,
    base: u64,
    t1: u64,
    t2: u64,
    t3: u64,
)
    requires
        s.last_error_kind != Some(kind),
        other != kind,
        t1 + 2 * base <= u64::MAX,
        t2 + 4 * base <= u64::MAX,
        t3 + 8 * base <= u64::MAX,
    ensures
        s.after_error(kind, base, t1).next_check_at == Some((t1 + 2 * base) as u64),
        s.after_error(kind, base, t1).after_error(kind, base, t2).next_check_at == Some(
            (t2 + 4 * base) as u64,
        ),
        s.after_error(kind, base, t1).after_error(kind, base, t2).after_error(
            kind,
            base,
            t3,
        ).next_check_at == Some((t3 + 8 * base) as u64),
        s.after_error(kind, base, t1).after_error(other, base, t2).after_error(
            kind,
            base,
            t3,
        ).next_check_at == Some((t3 + 2 * base) as u64),
        s.after_error(kind, base, t1).after_error(other, base, t2).after_error(
            kind,
            base,
            t3,
        ).consecutive_same_error == 1,
{
    reveal_with_fuel(pow2, 4);
    let s1 = s.after_error(kind, base, t1);
    assert(s1.consecutive_same_error == 1);
    let s2 = s1.after_error(kind, base, t2);
    assert(s2.consecutive_same_error == 2);
    let s3 = s2.after_error(kind, base, t3);
    assert(s3.consecutive_same_error == 3);
    assert(backoff_multiplier(1) == 2);
    assert(backoff_multiplier(2) == 4);
    assert(backoff_multiplier(3) == 8);
    lemma_scaled(base, backoff_multiplier(1), 2);
    lemma_scaled(base, backoff_multiplier(2), 4);
    lemma_scaled(base, backoff_multiplier(3), 8);
}

proof fn lemma_scaled(base: u64, m: nat, k: nat)
    requires
        m == k,
    ensures
        base * m == k * base,
{
    assert(base * m == k * base) by (nonlinear_arith)
        requires
            m == k,
    ;
}

/// How many outcomes of `outcomes` are the failure `kind`.
pub open spec fn count_failures(outcomes: Seq<CheckOutcome>, kind: RoomErrorKind) -> nat
    decreases outcomes.len(),
{
    if outcomes.len() == 0 {
        0
    } else {
        count_failures(outcomes.drop_last(), kind) + if outcomes.last() == CheckOutcome::Failed(kind) {
            1nat
        } else {
            0nat
        }
    }
}

/// The tally of a cycle whose checks had these outcomes, in order.
pub open spec fn tally_of(outcomes: Seq<CheckOutcome>) -> CycleTally
    decreases outcomes.len(),
{
    if outcomes.len() == 0 {
        MonitorState::zero_tally()
    } else {
        MonitorState::tally_after(tally_of(outcomes.drop_last()), outcomes.last())
    }
}

/// A cycle's verdict on the credentials depends on its counts alone: after
/// checks with these outcomes the tally holds the number of checks and of
/// private and blocked results, and credential death engages exactly when at
/// least one room was checked and twice the private plus blocked results
/// reach the number of checks. (Stated for fewer than `u64::MAX` checks, at
/// which the tally is held.)
pub proof fn lemma_cycle_verdict(outcomes: Seq<CheckOutcome>)
    requires
        outcomes.len() < u64::MAX,
    ensures
        tally_of(outcomes).checked == outcomes.len(),
        tally_of(outcomes).private == count_failures(outcomes, RoomErrorKind::Private),
        tally_of(outcomes).cloudflare == count_failures(outcomes, RoomErrorKind::Cloudflare),
        cookie_death_engages(
            tally_of(outcomes).checked as nat,
            tally_of(outcomes).private as nat + tally_of(outcomes).cloudflare as nat,
        ) <==> (outcomes.len() >= 1 && (count_failures(outcomes, RoomErrorKind::Private)
            + count_failures(outcomes, RoomErrorKind::Cloudflare)) * 2 >= outcomes.len()),
    decreases outcomes.len(),
{
    if outcomes.len() > 0 {
        lemma_cycle_verdict(outcomes.drop_last());
        lemma_count_bounded(outcomes.drop_last(), RoomErrorKind::Private);
        lemma_count_bounded(outcomes.drop_last(), RoomErrorKind::Cloudflare);
    }
}

proof fn lemma_count_bounded(outcomes: Seq<CheckOutcome>, kind: RoomErrorKind)
    ensures
        count_failures(outcomes, kind) <= outcomes.len(),
    decreases outcomes.len(),
{
    if outcomes.len() > 0 {
        lemma_count_bounded(outcomes.drop_last(), kind);
    }
}

} // verus!
