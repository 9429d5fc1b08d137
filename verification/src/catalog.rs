//! The catalog: the public operations over the record store, the access
//! guard gating the mutating ones, and the poll scheduler that owns at
//! most one live timer.
//!
//! The host drives the scheduler: every (re)configuration returns a
//! `TimerAction` telling the host which timer handle to cancel and which
//! to arm; the catalog itself keeps at most one handle.

use vstd::prelude::*;

verus! {

use crate::source::FetchError;
use crate::source::FetchResponse;
use crate::source::create_mock_videos;
use crate::source::mock_views;
use crate::source::poll_failed_message;
use crate::source::poll_failed_text;
use crate::source::spec_cycle_error;
use crate::store::Store;
use crate::store::has_id;
use crate::store::idx_of;
use crate::store::ids_unique;
use crate::store::fresh_count;
use crate::store::lemma_upsert_seq_bounds;
use crate::store::lemma_upsert_seq_exact_len;
use crate::store::spec_by_channel;
use crate::store::spec_put;
use crate::store::upsert_seq;
use crate::text::contains_fragment;
use crate::text::has_substring;
use crate::types::PollConfig;
use crate::types::Result_;
use crate::types::ResultView;
use crate::types::Stats;
use crate::types::Video;
use crate::types::VideoView;
use crate::types::stamped;
use crate::types::views_of;

/// The fixed fragment whose presence in a caller's textual identity
/// marks the caller as administrator.  A deliberately weak placeholder
/// policy, kept exactly as it is because callers depend on it.
pub open spec fn admin_fragment() -> Seq<char> {
    "rdmx6-jaaaa"@
}

/// A caller is admin iff it is the process's own identity, or its
/// textual identity contains the administrator fragment.
pub open spec fn spec_is_admin(caller: Seq<char>, self_id: Seq<char>) -> bool {
    caller == self_id || has_substring(caller, admin_fragment())
}

pub fn is_admin(caller: &String, self_id: &String) -> (r: bool)
    ensures
        r == spec_is_admin(caller@, self_id@),
{
    if caller.eq(self_id) {
        true
    } else {
        contains_fragment(caller.as_str(), "rdmx6-jaaaa")
    }
}

fn access_denied_message() -> (r: String)
    ensures
        r@ == "Access denied: admin required"@,
{
    "Access denied: admin required".to_owned()
}

fn not_found_message() -> (r: String)
    ensures
        r@ == "Video not found"@,
{
    "Video not found".to_owned()
}

/// What the host must do to its timers after a scheduler operation:
/// cancel the named handle, then arm a new timer under the named handle
/// with the given delay.
#[derive(Debug, Clone, Copy, PartialEq, Eq)]
pub struct TimerAction {
    pub cancel: Option<u64>,
    pub arm: Option<u64>,
    pub interval_seconds: u64,
}

/// The scheduler's own state: the handle of the at most one live timer,
/// and the handle the next armed timer will get.
pub ghost struct SchedView {
    pub timer: Option<u64>,
    pub next: u64,
}

/// The handle after `n`, wrapping at the top of the range.
pub open spec fn next_gen(n: u64) -> u64 {
    if n == 0xffff_ffff_ffff_ffff {
        0u64
    } else {
        (n + 1) as u64
    }
}

/// One configuration step of the scheduler: any live timer is dropped,
/// and a new one is armed iff the new configuration enables polling.
pub open spec fn sched_step(s: SchedView, enabled: bool) -> SchedView {
    if enabled {
        SchedView { timer: Some(s.next), next: next_gen(s.next) }
    } else {
        SchedView { timer: None, next: s.next }
    }
}

/// The action handed to the host for that step: cancel whatever was
/// live, arm the new handle iff polling is enabled.
pub open spec fn step_action(s: SchedView, enabled: bool, interval: u64) -> TimerAction {
    TimerAction {
        cancel: s.timer,
        arm: if enabled {
            Some(s.next)
        } else {
            None
        },
        interval_seconds: interval,
    }
}

/// The set of timers the host holds armed after it applies an action:
/// the cancelled handle leaves, the newly armed handle enters.
pub open spec fn world_apply(w: Set<u64>, a: TimerAction) -> Set<u64> {
    let cancelled = match a.cancel {
        Some(t) => w.remove(t),
        None => w,
    };
    match a.arm {
        Some(t) => cancelled.insert(t),
        None => cancelled,
    }
}

/// The timers the scheduler believes live: its one optional handle.
pub open spec fn timer_set(s: SchedView) -> Set<u64> {
    match s.timer {
        Some(t) => Set::empty().insert(t),
        None => Set::empty(),
    }
}

/// The scheduler state after a sequence of configuration steps.
pub open spec fn sched_after(s0: SchedView, cfgs: Seq<bool>) -> SchedView
    decreases cfgs.len(),
{
    if cfgs.len() == 0 {
        s0
    } else {
        sched_step(sched_after(s0, cfgs.drop_last()), cfgs.last())
    }
}

/// The host's armed timers after it applies every action of a sequence
/// of configuration steps, in order.
pub open spec fn world_after(s0: SchedView, w0: Set<u64>, cfgs: Seq<bool>) -> Set<u64>
    decreases cfgs.len(),
{
    if cfgs.len() == 0 {
        w0
    } else {
        world_apply(
            world_after(s0, w0, cfgs.drop_last()),
            step_action(sched_after(s0, cfgs.drop_last()), cfgs.last(), 0),
        )
    }
}

/// One configuration step keeps the host's armed timers equal to the
/// scheduler's one optional handle: cancel-before-arm never leaves two
/// timers live.
pub proof fn lemma_single_timer_step(s: SchedView, w: Set<u64>, enabled: bool, interval: u64)
    requires
        w == timer_set(s),
    ensures
        world_apply(w, step_action(s, enabled, interval)) == timer_set(sched_step(s, enabled)),
        timer_set(sched_step(s, enabled)).finite(),
        timer_set(sched_step(s, enabled)).len() <= 1,
{
    assert(world_apply(w, step_action(s, enabled, interval)) =~= timer_set(
        sched_step(s, enabled),
    ));
}

/// Single-timer invariant: under any sequence of configuration changes,
/// the host's armed timers always track the scheduler's one optional
/// handle, so at most one timer is ever armed.
pub proof fn lemma_single_live_timer(s0: SchedView, w0: Set<u64>, cfgs: Seq<bool>)
    requires
        w0 == timer_set(s0),
    ensures
        world_after(s0, w0, cfgs) == timer_set(sched_after(s0, cfgs)),
        world_after(s0, w0, cfgs).finite(),
        world_after(s0, w0, cfgs).len() <= 1,
    decreases cfgs.len(),
{
    if cfgs.len() == 0 {
        match s0.timer {
            Some(t) => {
                assert(timer_set(s0).len() == 1);
            },
            None => {
                assert(timer_set(s0).len() == 0);
            },
        }
    } else {
        let pre = cfgs.drop_last();
        lemma_single_live_timer(s0, w0, pre);
        lemma_single_timer_step(sched_after(s0, pre), world_after(s0, w0, pre), cfgs.last(), 0);
    }
}

/// The single-timer invariant holds at every moment, not only at the
/// end: after every prefix of the configuration sequence, at most one
/// timer is armed.
pub proof fn lemma_single_live_timer_always(s0: SchedView, w0: Set<u64>, cfgs: Seq<bool>)
    requires
        w0 == timer_set(s0),
    ensures
        forall|k: int|
            0 <= k <= cfgs.len() ==> (#[trigger] world_after(s0, w0, cfgs.take(k))).finite()
                && world_after(s0, w0, cfgs.take(k)).len() <= 1,
{
    assert forall|k: int|
        0 <= k <= cfgs.len() implies (#[trigger] world_after(s0, w0, cfgs.take(k))).finite()
        && world_after(s0, w0, cfgs.take(k)).len() <= 1 by {
        lemma_single_live_timer(s0, w0, cfgs.take(k));
    }
}

/// Spec-level image of `Catalog`.
pub ghost struct CatalogView {
    pub rows: Seq<VideoView>,
    pub config: PollConfig,
    pub last_poll: Option<i64>,
    pub timer: Option<u64>,
    pub next_timer: u64,
    pub self_id: Seq<char>,
}

/// The scheduler part of a catalog state.
pub open spec fn sched_of(c: CatalogView) -> SchedView {
    SchedView { timer: c.timer, next: c.next_timer }
}

/// The catalog state after a successful poll at time `now`: the
/// candidate records merged into the store, and the completion time
/// recorded.
pub open spec fn spec_poll_success(c: CatalogView, now: i64) -> CatalogView {
    CatalogView { rows: upsert_seq(c.rows, mock_views(now), now), last_poll: Some(now), ..c }
}

/// The whole system behind the catalog operations: the record store,
/// the poll configuration, the time of the last completed poll, and the
/// scheduler's timer handle.  `self_id` is the process's own identity,
/// against which callers are checked.
pub struct Catalog {
    store: Store,
    config: PollConfig,
    last_poll: Option<i64>,
    timer: Option<u64>,
    next_timer: u64,
    self_id: String,
}

impl View for Catalog {
    type V = CatalogView;

    closed spec fn view(&self) -> CatalogView {
        CatalogView {
            rows: self.store.rows(),
            config: self.config,
            last_poll: self.last_poll,
            timer: self.timer,
            next_timer: self.next_timer,
            self_id: self.self_id@,
        }
    }
}

impl Catalog {
    /// The catalog's invariant: the store keeps at most one revision
    /// per id.
    pub open spec fn wf(&self) -> bool {
        ids_unique(self@.rows)
    }

    /// A fresh catalog owned by the process with identity `self_id`:
    /// empty store, polling disabled with the default day-long period,
    /// no live timer, no poll completed yet.
    pub fn new(self_id: String) -> (c: Catalog)
        ensures
            c.wf(),
            c@.rows == Seq::<VideoView>::empty(),
            c@.config == (PollConfig { interval_seconds: 86400, enabled: false }),
            c@.last_poll == None::<i64>,
            c@.timer == None::<u64>,
            c@.next_timer == 0u64,
            c@.self_id == self_id@,
    {
        Catalog {
            store: Store::new(),
            config: PollConfig { interval_seconds: 86400, enabled: false },
            last_poll: None,
            timer: None,
            next_timer: 0,
            self_id,
        }
    }

    /// Seeds the store with the fixed candidate records, as the process
    /// does once on installation.
    pub fn init(&mut self, now: i64)
        requires
            old(self).wf(),
            0 <= now,
        ensures
            final(self).wf(),
            final(self)@ == (CatalogView {
                rows: upsert_seq(old(self)@.rows, mock_views(now), now),
                ..old(self)@
            }),
    {
        let vids = create_mock_videos(now);
        self.store.put_all(&vids, now);
    }

    /// All current records, in store order.
    pub fn list_videos(&self) -> (r: Vec<Video>)
        ensures
            views_of(r@) == self@.rows,
    {
        self.store.list()
    }

    /// The current record at `id`, if any.
    pub fn get_video(&self, id: &String) -> (r: Option<Video>)
        requires
            self.wf(),
        ensures
            match r {
                Some(v) => has_id(self@.rows, id@) && v@ == self@.rows[idx_of(self@.rows, id@)],
                None => !has_id(self@.rows, id@),
            },
    {
        self.store.get(id)
    }

    /// The records whose channel matches `channel` up to case, in
    /// store order.
    pub fn get_videos_by_channel(&self, channel: &String) -> (r: Vec<Video>)
        ensures
            views_of(r@) == spec_by_channel(self@.rows, channel@),
    {
        self.store.find_by_channel(channel)
    }

    /// Upserts a record, open to any caller; the store stamps
    /// `fetched_at` with the write time `now`.
    pub fn add_or_update_video(&mut self, video: Video, now: i64) -> (r: Result_)
        requires
            old(self).wf(),
        ensures
            final(self).wf(),
            r@ == ResultView::Okay,
            final(self)@ == (CatalogView {
                rows: spec_put(old(self)@.rows, stamped(video@, now)),
                ..old(self)@
            }),
    {
        self.store.put(video, now);
        Result_::Okay
    }

    /// Removes the record at `id`.  Admin-gated: a non-admin caller is
    /// refused and nothing changes; a missing id is reported and nothing
    /// changes; otherwise exactly that record leaves the store.
    pub fn remove_video(&mut self, caller: &String, id: &String) -> (r: Result_)
        requires
            old(self).wf(),
        ensures
            final(self).wf(),
            !spec_is_admin(caller@, old(self)@.self_id) ==> final(self)@ == old(self)@ && r@
                == ResultView::Error("Access denied: admin required"@),
            spec_is_admin(caller@, old(self)@.self_id) && !has_id(old(self)@.rows, id@) ==> final(self)@ == old(self)@ && r@ == ResultView::Error("Video not found"@),
            spec_is_admin(caller@, old(self)@.self_id) && has_id(old(self)@.rows, id@) ==> r@
                == ResultView::Okay && final(self)@ == (CatalogView {
                rows: old(self)@.rows.remove(idx_of(old(self)@.rows, id@)),
                ..old(self)@
            }) && final(self)@.rows.len() == old(self)@.rows.len() - 1,
    {
        if !is_admin(caller, &self.self_id) {
            return Result_::Error(access_denied_message());
        }
        if self.store.remove(id) {
            Result_::Okay
        } else {
            Result_::Error(not_found_message())
        }
    }

    /// One fetch cycle over an already-performed outbound fetch: a 200
    /// response has its candidate records merged into the store and
    /// their count returned; any other outcome is the tagged error and
    /// the store is untouched.  Open to re-entry: each cycle is
    /// self-contained.
    pub fn run_fetch_cycle(&mut self, response: FetchResponse, now: i64) -> (r: Result<
        usize,
        FetchError,
    >)
        requires
            old(self).wf(),
            0 <= now,
        ensures
            final(self).wf(),
            spec_cycle_error(response@) is None ==> (r matches Ok(c) && c == 3) && final(self)@
                == (CatalogView { rows: upsert_seq(old(self)@.rows, mock_views(now), now), ..old(
                self,
            )@ }),
            spec_cycle_error(response@) matches Some(e) ==> (r matches Err(err) && err@ == e)
                && final(self)@ == old(self)@,
    {
        match response {
            FetchResponse::Transport(d) => Err(FetchError::Transport(d)),
            FetchResponse::Response { status } => {
                if status == 200 {
                    let vids = create_mock_videos(now);
                    self.store.put_all(&vids, now);
                    assert(views_of(vids@).len() == 3);
                    Ok(vids.len())
                } else {
                    Err(FetchError::Http(status))
                }
            },
        }
    }

    /// A manually triggered poll.  Admin-gated; on success the fetched
    /// records are merged and `last_poll` is set to the completion time;
    /// on failure the error is surfaced and nothing changes.
    pub fn manual_poll(&mut self, caller: &String, response: FetchResponse, now: i64) -> (r:
        Result_)
        requires
            old(self).wf(),
            0 <= now,
        ensures
            final(self).wf(),
            !spec_is_admin(caller@, old(self)@.self_id) ==> final(self)@ == old(self)@ && r@
                == ResultView::Error("Access denied: admin required"@),
            spec_is_admin(caller@, old(self)@.self_id) && spec_cycle_error(response@) is None
                ==> r@ == ResultView::Okay && final(self)@ == spec_poll_success(old(self)@, now),
            match spec_cycle_error(response@) {
                Some(e) => spec_is_admin(caller@, old(self)@.self_id) ==> final(self)@ == old(
                    self,
                )@ && r@ == ResultView::Error(poll_failed_text(e)),
                None => true,
            },
    {
        if !is_admin(caller, &self.self_id) {
            return Result_::Error(access_denied_message());
        }
        match self.run_fetch_cycle(response, now) {
            Ok(_count) => {
                self.last_poll = Some(now);
                Result_::Okay
            },
            Err(e) => Result_::Error(poll_failed_message(&e)),
        }
    }

    /// Replaces the poll configuration.  Admin-gated.  As one logical
    /// unit: any live timer handle is dropped (and named for the host to
    /// cancel), the new configuration is stored, and iff it enables
    /// polling a fresh handle is armed under the returned action —
    /// cancel-before-arm, so at most one timer is ever live.
    pub fn set_poll_config(&mut self, caller: &String, config: PollConfig) -> (r: (
        Result_,
        TimerAction,
    ))
        requires
            old(self).wf(),
        ensures
            final(self).wf(),
            !spec_is_admin(caller@, old(self)@.self_id) ==> final(self)@ == old(self)@ && r.0@
                == ResultView::Error("Access denied: admin required"@) && r.1.cancel
                == None::<u64> && r.1.arm == None::<u64>,
            spec_is_admin(caller@, old(self)@.self_id) ==> r.0@ == ResultView::Okay && final(self)@ == (CatalogView {
                config,
                timer: sched_step(sched_of(old(self)@), config.enabled).timer,
                next_timer: sched_step(sched_of(old(self)@), config.enabled).next,
                ..old(self)@
            }) && r.1 == step_action(sched_of(old(self)@), config.enabled, config.interval_seconds),
    {
        if !is_admin(caller, &self.self_id) {
            return (
                Result_::Error(access_denied_message()),
                TimerAction { cancel: None, arm: None, interval_seconds: 0 },
            );
        }
        let cancel = self.timer;
        self.timer = None;
        self.config = config;
        let mut arm: Option<u64> = None;
        if config.enabled {
            let id = self.next_timer;
            self.timer = Some(id);
            self.next_timer = if id == 0xffff_ffff_ffff_ffff {
                0
            } else {
                id + 1
            };
            arm = Some(id);
        }
        (Result_::Okay, TimerAction { cancel, arm, interval_seconds: config.interval_seconds })
    }

    /// The current poll configuration.
    pub fn get_poll_config(&self) -> (r: PollConfig)
        ensures
            r == self@.config,
    {
        self.config
    }

    /// A timer firing: the completed fetch's outcome is merged exactly
    /// as in a cycle (errors swallowed), the completion time is
    /// recorded, and — since each timer fires once — the spent handle is
    /// named for cancellation and a fresh one is armed iff polling is
    /// still enabled, sustaining the period.  Cancel-before-arm holds on
    /// this path too: even when a reconfiguration armed another handle
    /// while the fetch was in flight, the recorded handle leaves before
    /// the new one enters, so at most one timer stays live.
    pub fn timer_fired(&mut self, response: FetchResponse, now: i64) -> (act: TimerAction)
        requires
            old(self).wf(),
            0 <= now,
        ensures
            final(self).wf(),
            final(self)@.last_poll == Some(now),
            final(self)@.config == old(self)@.config,
            final(self)@.self_id == old(self)@.self_id,
            spec_cycle_error(response@) is None ==> final(self)@.rows == upsert_seq(
                old(self)@.rows,
                mock_views(now),
                now,
            ),
            spec_cycle_error(response@) matches Some(_) ==> final(self)@.rows == old(self)@.rows,
            act.cancel == old(self)@.timer,
            old(self)@.config.enabled ==> sched_of(final(self)@) == sched_step(
                sched_of(old(self)@),
                true,
            ) && act.arm == Some(old(self)@.next_timer) && act.interval_seconds
                == old(self)@.config.interval_seconds,
            !old(self)@.config.enabled ==> final(self)@.timer == None::<u64> && final(self)@.next_timer == old(self)@.next_timer && act.arm == None::<u64>,
    {
        let cancel = self.timer;
        let _outcome = self.run_fetch_cycle(response, now);
        self.last_poll = Some(now);
        if self.config.enabled {
            let id = self.next_timer;
            self.timer = Some(id);
            self.next_timer = if id == 0xffff_ffff_ffff_ffff {
                0
            } else {
                id + 1
            };
            TimerAction { cancel, arm: Some(id), interval_seconds: self.config.interval_seconds }
        } else {
            self.timer = None;
            TimerAction { cancel, arm: None, interval_seconds: 0 }
        }
    }

    /// The derived figures: current store size, and the completion time
    /// of the last poll.
    pub fn get_stats(&self) -> (r: Stats)
        ensures
            r.total_videos == self@.rows.len() as u64,
            r.last_poll == self@.last_poll,
    {
        Stats { total_videos: self.store.size() as u64, last_poll: self.last_poll }
    }
}

/// The caller's identity, echoed back as the transport presented it.
pub fn whoami(caller: &String) -> (r: String)
    ensures
        r@ == caller@,
{
    caller.clone()
}

/// Fetch-cycle determinism: the candidate set has three records with
/// pairwise distinct ids, every one carrying the success status and the
/// cycle time; merging them into an empty store leaves exactly those
/// three records, in order.
pub proof fn lemma_fetch_cycle_determinism(now: i64)
    ensures
        mock_views(now).len() == 3,
        ids_unique(mock_views(now)),
        forall|k: int|
            0 <= k < 3 ==> (#[trigger] mock_views(now)[k]).fetch_status
                == crate::types::FetchStatusView::Okay && mock_views(now)[k].fetched_at == now,
        upsert_seq(Seq::<VideoView>::empty(), mock_views(now), now) == mock_views(now),
{
    reveal_strlit("1");
    reveal_strlit("2");
    reveal_strlit("3");
    reveal_with_fuel(upsert_seq, 4);
    let m = mock_views(now);
    assert("1"@[0] == '1' && "2"@[0] == '2' && "3"@[0] == '3');
    assert(m[0].id != m[1].id);
    assert(m[0].id != m[2].id);
    assert(m[1].id != m[2].id);
    let e = Seq::<VideoView>::empty();
    let m01 = m.drop_last();
    let m0 = m01.drop_last();
    assert(m0.drop_last() =~= e);
    assert(stamped(m0.last(), now) == m[0]);
    assert(stamped(m01.last(), now) == m[1]);
    assert(stamped(m.last(), now) == m[2]);
    assert(upsert_seq(e, m0, now) == e.push(m[0]));
    assert(!has_id(e.push(m[0]), m[1].id));
    assert(upsert_seq(e, m01, now) == e.push(m[0]).push(m[1]));
    assert(!has_id(e.push(m[0]).push(m[1]), m[2].id));
    assert(upsert_seq(e, m, now) == e.push(m[0]).push(m[1]).push(m[2]));
    assert(e.push(m[0]).push(m[1]).push(m[2]) =~= m);
}

/// Stats consistency: after any catalog state is followed by one
/// successful poll at time `now`, the reported last-poll time is exactly
/// `now`, and the reported total is the prior store size plus exactly
/// the number of fetched candidates whose ids were not already present
/// (so between the prior size and the prior size plus three).
pub proof fn lemma_stats_after_poll(c: CatalogView, now: i64)
    requires
        ids_unique(c.rows),
    ensures
        spec_poll_success(c, now).last_poll == Some(now),
        spec_poll_success(c, now).rows.len() == c.rows.len() + fresh_count(
            c.rows,
            mock_views(now),
        ),
        c.rows.len() <= spec_poll_success(c, now).rows.len() <= c.rows.len() + 3,
{
    lemma_fetch_cycle_determinism(now);
    lemma_upsert_seq_exact_len(c.rows, mock_views(now), now);
    lemma_upsert_seq_bounds(c.rows, mock_views(now), now);
}

} // verus!
