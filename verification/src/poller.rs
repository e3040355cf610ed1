//! Polling a grant until its fate is known: what each reply means, what is
//! written to the cache, and when to stop.
use vstd::prelude::*;
use vstd::string::*;
use crate::cache;
use crate::cache::{Cache, CacheModel, GrantRow};
use crate::cache::rows;
use crate::cache::rows::GrantModel;
use crate::gcp::grants::{GrantState, StateModel};
use crate::table;
use crate::text;
use crate::text::contains;

verus! {

/// How long to wait between two polls, in milliseconds.
pub const DEFAULT_POLL_INTERVAL_MILLIS: u64 = 3000;

/// How long to wait between two polls of the demo, in milliseconds.
pub const DEMO_POLL_INTERVAL_MILLIS: u64 = 800;

/// Sent after an observation was written to the cache. Whoever receives it
/// reads the grants again, so it carries nothing.
#[derive(Debug, Clone, Copy)]
pub struct GrantUpdate;

#[derive(Debug, Clone, Copy, PartialEq, Eq, Structural)]
pub enum PollMode {
    /// Poll until the grant is active or over. For grants that were just
    /// submitted, and for pending ones found in the cache.
    Track,
    /// Poll once, to reconcile the cache with the service. For grants that the
    /// cache already knows to be active.
    ConfirmOnce,
}

/// The polling of one grant.
#[derive(Debug)]
pub struct GrantPoll {
    pub grant_name: String,
    pub requested_duration_secs: i64,
    /// The grant was active when the polling began.
    pub already_active: bool,
    pub last_state: GrantState,
    pub mode: PollMode,
}

/// The polling of one grant, as characters.
pub ghost struct PollModel {
    pub grant_name: Seq<char>,
    pub requested_duration_secs: i64,
    pub already_active: bool,
    pub last_state: StateModel,
    pub mode: PollMode,
}

impl View for GrantPoll {
    type V = PollModel;

    open spec fn view(&self) -> PollModel {
        PollModel {
            grant_name: self.grant_name@,
            requested_duration_secs: self.requested_duration_secs,
            already_active: self.already_active,
            last_state: self.last_state@,
            mode: self.mode,
        }
    }
}

/// What to do after a reply.
#[derive(Debug, Clone, Copy, PartialEq, Eq, Structural)]
pub struct PollStep {
    /// Send a [`GrantUpdate`].
    pub notify: bool,
    /// Poll no more.
    pub stop: bool,
}

impl PollModel {
    /// A polling that begins.
    pub open spec fn starting(
        grant_name: Seq<char>,
        requested_duration_secs: i64,
        initial_state: StateModel,
        mode: PollMode,
    ) -> Self {
        PollModel {
            grant_name,
            requested_duration_secs,
            already_active: initial_state.active(),
            last_state: initial_state,
            mode,
        }
    }

    /// The grant is seen active for the first time.
    pub open spec fn becomes_active(self, state: StateModel) -> bool {
        state.active() && !self.already_active && !self.last_state.active()
    }

    /// The time to stamp the grant's activation with, where there is one.
    pub open spec fn activated_at(self, state: StateModel, now: i64) -> Option<i64> {
        if self.becomes_active(state) {
            Some(now)
        } else {
            None
        }
    }

    /// The time to stamp the grant's end with, where there is one.
    pub open spec fn expires_at(self, state: StateModel, now: i64) -> Option<i64> {
        if self.becomes_active(state) {
            Some((now + self.requested_duration_secs) as i64)
        } else {
            None
        }
    }

    /// The end of the grant, were it to become active now, is a time stamp.
    pub open spec fn end_fits(self, now: i64) -> bool {
        i64::MIN <= now + self.requested_duration_secs <= i64::MAX
    }

    /// What to do after a state was reported.
    pub open spec fn step(self, state: StateModel) -> PollStep {
        PollStep {
            notify: true,
            stop: state.terminal() || state.active() || self.mode == PollMode::ConfirmOnce,
        }
    }

    /// What to do after a poll failed.
    pub open spec fn failed_step(self, message: Seq<char>) -> PollStep {
        PollStep {
            notify: unobservable(message),
            stop: unobservable(message) || self.mode == PollMode::ConfirmOnce,
        }
    }
}

/// A failure that says that the grant can no longer be observed: its host was
/// deleted, or access to it was revoked.
pub open spec fn unobservable(message: Seq<char>) -> bool {
    text::has_text(message, "PERMISSION_DENIED"@) || text::has_text(message, "NOT_FOUND"@)
}

impl GrantPoll {
    pub fn new(
        grant_name: String,
        requested_duration_secs: i64,
        initial_state: GrantState,
        mode: PollMode,
    ) -> (r: Self)
        ensures
            r@ == PollModel::starting(
                grant_name@,
                requested_duration_secs,
                initial_state@,
                mode,
            ),
            r.grant_name@ == grant_name@,
            r.requested_duration_secs == requested_duration_secs,
            r.already_active == (initial_state is Active),
            r.last_state@ == initial_state@,
            r.mode == mode,
    {
        let already_active: bool = initial_state.is_active();
        GrantPoll {
            grant_name,
            requested_duration_secs,
            already_active,
            last_state: initial_state,
            mode,
        }
    }

    /// Takes in a reported state: writes it to the cache, stamps a grant that
    /// became active, and says whether to go on.
    pub fn observe(&mut self, cache: &mut Cache, state: GrantState, now: i64) -> (r: PollStep)
        requires
            old(cache).wf(),
            old(self)@.becomes_active(state@) ==> old(self)@.end_fits(now),
        ensures
            final(cache).wf(),
            final(cache)@ == old(cache)@.with_poll(
                old(self)@.grant_name,
                state@.shown(),
                old(self)@.activated_at(state@, now),
                old(self)@.expires_at(state@, now),
                now,
            ),
            final(self)@ == (PollModel { last_state: state@, ..old(self)@ }),
            r == old(self)@.step(state@),
    {
        let became_active: bool = state.is_active() && !self.already_active
            && !self.last_state.is_active();
        let (activated_at, expires_at): (Option<i64>, Option<i64>) = if became_active {
            (Some(now), Some(now + self.requested_duration_secs))
        } else {
            (None, None)
        };
        let shown: String = state.to_string();
        cache.update_grant_state(
            self.grant_name.as_str(),
            shown.as_str(),
            activated_at,
            expires_at,
            now,
        );
        let stop: bool = state.is_terminal() || state.is_active() || self.mode
            == PollMode::ConfirmOnce;
        self.last_state = state;
        PollStep { notify: true, stop }
    }

    /// Takes in a failure. A grant that can no longer be observed is marked as
    /// revoked in the cache and not polled again; other failures only end a
    /// single confirmation.
    pub fn fail(&self, cache: &mut Cache, message: &str, now: i64) -> (r: PollStep)
        requires
            old(cache).wf(),
        ensures
            final(cache).wf(),
            final(cache)@ == (if unobservable(message@) {
                old(cache)@.with_poll(
                    self@.grant_name,
                    StateModel::Revoked.shown(),
                    None,
                    None,
                    now,
                )
            } else {
                old(cache)@
            }),
            r == self@.failed_step(message@),
    {
        if contains(message, "PERMISSION_DENIED") || contains(message, "NOT_FOUND") {
            let shown: String = GrantState::Revoked.to_string();
            cache.update_grant_state(self.grant_name.as_str(), shown.as_str(), None, None, now);
            PollStep { notify: true, stop: true }
        } else {
            PollStep { notify: false, stop: self.mode == PollMode::ConfirmOnce }
        }
    }
}

// ---------------------------------------------------------------------------
// Launch
// ---------------------------------------------------------------------------

/// The polling that a grant of an earlier run needs: none once it is over, one
/// confirmation while it is active, tracking otherwise.
pub open spec fn resumed(g: GrantModel) -> Option<PollModel> {
    let state = StateModel::read(g.state);
    if state.terminal() {
        None
    } else {
        Some(
            PollModel::starting(
                g.name,
                g.requested_duration_secs,
                state,
                if state.active() {
                    PollMode::ConfirmOnce
                } else {
                    PollMode::Track
                },
            ),
        )
    }
}

/// The polling that a list of grants needs, in order.
pub open spec fn resumed_all(s: Seq<GrantModel>) -> Seq<PollModel>
    decreases s.len(),
{
    if s.len() == 0 {
        Seq::empty()
    } else {
        let init = resumed_all(s.drop_last());
        match resumed(s.last()) {
            Some(p) => init.push(p),
            None => init,
        }
    }
}

/// The models of a list of pollings.
pub open spec fn poll_models(v: Seq<GrantPoll>) -> Seq<PollModel> {
    Seq::new(v.len(), |i: int| v[i]@)
}

/// The polling that grants of an earlier run need.
pub fn resume(grants: &Vec<GrantRow>) -> (r: Vec<GrantPoll>)
    ensures
        poll_models(r@) == resumed_all(rows::grant_models(grants@)),
{
    let ghost all = rows::grant_models(grants@);
    let mut out: Vec<GrantPoll> = Vec::new();
    let mut i: usize = 0;
    assert(poll_models(out@) =~= resumed_all(all.take(0)));
    while i < grants.len()
        invariant
            i <= grants.len(),
            all == rows::grant_models(grants@),
            poll_models(out@) == resumed_all(all.take(i as int)),
        decreases grants.len() - i,
    {
        let g: &GrantRow = &grants[i];
        let ghost before = poll_models(out@);
        assert(all[i as int] == g@);
        assert(all.take(i + 1).drop_last() =~= all.take(i as int));
        let state: GrantState = GrantState::parse(g.state.as_str());
        if !state.is_terminal() {
            let mode = if state.is_active() {
                PollMode::ConfirmOnce
            } else {
                PollMode::Track
            };
            out.push(
                GrantPoll::new(
                    g.name.as_str().to_owned(),
                    g.requested_duration_secs,
                    state,
                    mode,
                ),
            );
            assert(poll_models(out@) =~= before.push(resumed(g@)->0));
        }
        i += 1;
    }
    assert(all.take(i as int) =~= all);
    out
}

/// What to poll at launch. Active grants whose time has run out are first
/// marked as expired, so that no poll is spent on them; grants that cannot be
/// listed are not polled.
pub fn launch(cache: &mut Cache, now: i64) -> (r: Vec<GrantPoll>)
    requires
        old(cache).wf(),
        now - cache::FRESH_TERMINAL_WINDOW_SECS >= i64::MIN,
    ensures
        final(cache).wf(),
        final(cache)@ == old(cache)@.with_expiry(now),
        poll_models(r@) == resumed_all(old(cache)@.with_expiry(now).grant_listing(now)),
{
    cache.expire_stale_active_grants(now);
    let grants: Vec<GrantRow> = cache.grants_or_none(now);
    resume(&grants)
}

// ---------------------------------------------------------------------------
// Laws
// ---------------------------------------------------------------------------

/// A confirmation polls once, whatever the reply.
pub proof fn law_confirmation_polls_once(p: PollModel, state: StateModel, message: Seq<char>)
    requires
        p.mode == PollMode::ConfirmOnce,
    ensures
        p.step(state).stop,
        p.failed_step(message).stop,
{
}

/// Tracking goes on until the grant is active or over, or can no longer be
/// observed.
pub proof fn law_tracking_goes_on(p: PollModel, state: StateModel, message: Seq<char>)
    requires
        p.mode == PollMode::Track,
    ensures
        p.step(state).stop <==> state.active() || state.terminal(),
        p.failed_step(message).stop <==> unobservable(message),
{
}

/// A grant is stamped with both times or with neither; its end is its start
/// and the requested duration.
pub proof fn law_stamps_come_together(p: PollModel, state: StateModel, now: i64)
    requires
        p.becomes_active(state) ==> p.end_fits(now),
    ensures
        p.activated_at(state, now) is Some <==> p.expires_at(state, now) is Some,
        p.activated_at(state, now) is Some <==> p.becomes_active(state),
        p.activated_at(state, now) matches Some(t) ==> p.expires_at(state, now)->0 == t
            + p.requested_duration_secs,
{
}

/// A grant is not stamped again by the poll after one that saw it active, nor
/// by any poll of a polling that began while it was active.
pub proof fn law_active_is_stamped_once(p: PollModel, state: StateModel, now: i64)
    requires
        p.already_active || p.last_state.active(),
    ensures
        p.activated_at(state, now) is None,
        p.expires_at(state, now) is None,
{
}

/// Every change of the cache is announced.
pub proof fn law_changes_are_announced(p: PollModel, state: StateModel, message: Seq<char>)
    ensures
        p.step(state).notify,
        p.failed_step(message).notify <==> unobservable(message),
{
}

/// No grant that is over is polled at launch, and every other one is.
pub proof fn law_launch_skips_what_is_over(g: GrantModel)
    ensures
        resumed(g) is None <==> StateModel::read(g.state).terminal(),
        resumed(g) matches Some(p) ==> (p.mode == PollMode::ConfirmOnce
            <==> p.last_state.active()),
{
}

/// A grant is stamped when it is first seen active: with the time of the poll,
/// and with its end, as much later as was requested. Nothing else stamps it.
pub proof fn law_first_sight_stamps(p: PollModel, state: StateModel, now: i64)
    requires
        p.end_fits(now),
    ensures
        state is Active && !p.already_active && !(p.last_state is Active) ==> p.activated_at(
            state,
            now,
        ) == Some(now) && p.expires_at(state, now) is Some && p.expires_at(state, now)->0 == now
            + p.requested_duration_secs,
        !(state is Active) || p.already_active || p.last_state is Active ==> p.activated_at(
            state,
            now,
        ) is None && p.expires_at(state, now) is None,
        p.end_fits(now) <==> i64::MIN <= now + p.requested_duration_secs <= i64::MAX,
{
}

/// What a poll observed is read back from the cache: the state's own text, the
/// time of the poll, and at the first sight of an active grant its start and
/// its end.
pub proof fn law_observation_is_written(c: CacheModel, p: PollModel, state: StateModel, now: i64)
    requires
        c.wf(),
        p.end_fits(now),
        table::holds(c.grants, p.grant_name),
    ensures
        ({
            let d = c.with_poll(
                p.grant_name,
                state.shown(),
                p.activated_at(state, now),
                p.expires_at(state, now),
                now,
            );
            &&& table::get(d.grants, p.grant_name) matches Some(h) && {
                &&& StateModel::read(h.state) == state
                &&& h.last_polled_at == Some(now)
                &&& state is Active && !p.already_active && !(p.last_state is Active)
                    ==> h.activated_at == Some(now) && h.expires_at is Some && h.expires_at->0
                    == now + p.requested_duration_secs
                &&& !(state is Active) ==> h.activated_at == table::get(
                    c.grants,
                    p.grant_name,
                )->0.activated_at && h.expires_at == table::get(
                    c.grants,
                    p.grant_name,
                )->0.expires_at
            }
        }),
{
    let other = p.grant_name.push('x');
    assert(other.len() != p.grant_name.len());
    cache::laws::law_poll_stamps(
        c,
        p.grant_name,
        state.shown(),
        p.activated_at(state, now),
        p.expires_at(state, now),
        now,
        other,
    );
    law_first_sight_stamps(p, state, now);
    state.law_read_back();
}

/// A grant can no longer be observed exactly where the failure says so.
pub proof fn law_failures_that_end_polling(before: Seq<char>, after: Seq<char>, message: Seq<char>)
    ensures
        unobservable(before + "PERMISSION_DENIED"@ + after),
        unobservable(before + "NOT_FOUND"@ + after),
        unobservable(message) ==> text::has_text(message, "PERMISSION_DENIED"@) || text::has_text(
            message,
            "NOT_FOUND"@,
        ),
{
    text::law_occurrence(before, "PERMISSION_DENIED"@, after);
    text::law_occurrence(before, "NOT_FOUND"@, after);
}

/// A grant of an earlier run is polled under its name, for its duration and from
/// its stored state on.
pub proof fn law_resumed_as_stored(g: GrantModel, state: StateModel)
    requires
        g.state == state.shown(),
    ensures
        resumed(g) is Some <==> !state.terminal(),
        resumed(g) matches Some(p) ==> {
            &&& p.grant_name == g.name
            &&& p.requested_duration_secs == g.requested_duration_secs
            &&& p.last_state == state
            &&& p.already_active == (state is Active)
            &&& p.mode == (if state is Active {
                PollMode::ConfirmOnce
            } else {
                PollMode::Track
            })
        },
{
    state.law_read_back();
}

/// Each grant of a list is resumed in its turn.
pub proof fn law_resumed_in_order(s: Seq<GrantModel>, g: GrantModel)
    ensures
        resumed_all(Seq::empty()).len() == 0,
        resumed(g) matches Some(p) ==> resumed_all(s.push(g)) == resumed_all(s).push(p),
        resumed(g) is None ==> resumed_all(s.push(g)) == resumed_all(s),
{
    assert(s.push(g).drop_last() =~= s);
}

/// The service is polled every three seconds, and the demo more often.
pub proof fn law_intervals()
    ensures
        DEFAULT_POLL_INTERVAL_MILLIS == 3 * 1000,
        0 < DEMO_POLL_INTERVAL_MILLIS < 1000,
{
}

} // verus!
