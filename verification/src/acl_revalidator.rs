//! Revalidation of the tracked sessions.
//!
//! On every tick the caller takes the [`AclRevalidator::pending`] sessions, puts
//! the [`AclRevalidator::question`] about each to the verification client, and
//! hands each outcome to [`AclRevalidator::settle`]:
//!   - a valid answer renews the session;
//!   - an answer that is not valid revokes it;
//!   - an error revokes it only once the last success lies further back than the
//!     grace period.

use vstd::prelude::*;
use vstd::string::*;

use crate::acl_session_store;
use crate::acl_session_store::{
    AclSessionInfo, AclSessionStore, DisconnectEvent, DisconnectView, SessionView, Sessions,
};
use crate::text;
use crate::types;
use crate::types::{
    AclError, AclErrorView, VerifyRequest, VerifyRequestView, VerifyResponse, VerifyResponseView,
};

verus! {

/// The action that a running session is verified for.
pub const STILL_ATTACHED: &'static str = "still_attached";

/// How long to wait before the first tick, in seconds, so that the server is
/// not asked at once at startup.
pub const STARTUP_DELAY_SECS: u64 = 2;

/// Nanoseconds in a second.
pub const NANOS_PER_SEC: u128 = 1_000_000_000;

/// What becomes of a session.
#[derive(Debug)]
pub enum Verdict {
    /// It was verified: renew it.
    Touch,
    /// It ends, for this reason.
    Revoke(String),
    /// Nothing is known yet: leave it as it is.
    Keep,
}

/// What a [`Verdict`] says.
pub enum VerdictView {
    Touch,
    Revoke(Seq<char>),
    Keep,
}

impl View for Verdict {
    type V = VerdictView;

    open spec fn view(&self) -> VerdictView {
        match self {
            Verdict::Touch => VerdictView::Touch,
            Verdict::Revoke(reason) => VerdictView::Revoke(reason@),
            Verdict::Keep => VerdictView::Keep,
        }
    }
}

/// What becomes of a session that was last verified at `last_verified_at`, by
/// the outcome of a verification at the moment `now`.
pub open spec fn verdict_for(
    last_verified_at: nat,
    outcome: Result<VerifyResponseView, AclErrorView>,
    now: nat,
    grace_secs: nat,
) -> VerdictView {
    match outcome {
        Ok(resp) => if resp.valid {
            VerdictView::Touch
        } else {
            VerdictView::Revoke(
                match resp.reason {
                    Some(reason) => reason,
                    None => "acl_denied"@,
                },
            )
        },
        Err(e) => if now - last_verified_at > grace_secs * NANOS_PER_SEC {
            VerdictView::Revoke("tachikoma_unreachable: "@ + e.message())
        } else {
            VerdictView::Keep
        },
    }
}

/// The sessions after a verdict on `hash`.
pub open spec fn settled(
    sessions: Sessions,
    hash: Seq<char>,
    verdict: VerdictView,
    now: nat,
) -> Sessions {
    match verdict {
        VerdictView::Touch => acl_session_store::touched(sessions, hash, now),
        VerdictView::Revoke(reason) => acl_session_store::revoked(sessions, hash, reason),
        VerdictView::Keep => sessions,
    }
}

/// The event to broadcast after a verdict on `hash`.
pub open spec fn announced(hash: Seq<char>, verdict: VerdictView) -> Option<DisconnectView> {
    match verdict {
        VerdictView::Revoke(reason) => Some(DisconnectView { session_token_hash: hash, reason }),
        _ => None,
    }
}

/// The sessions that still need verification.
pub open spec fn not_revoked(sessions: Sessions) -> Sessions {
    Map::new(
        |hash: Seq<char>| sessions.contains_key(hash) && !sessions[hash].revoked,
        |hash: Seq<char>| sessions[hash],
    )
}

/// An empty list holds no sessions.
proof fn lemma_pending_start(list: Seq<(String, AclSessionInfo)>)
    requires
        list.len() == 0,
    ensures
        acl_session_store::distinct(list),
        acl_session_store::sessions_of(list) == not_revoked(
            acl_session_store::sessions_of(list),
        ),
{
    assert(acl_session_store::sessions_of(list) =~= not_revoked(
        acl_session_store::sessions_of(list),
    ));
}

/// Copying one more session, unless it is revoked.
proof fn lemma_pending_step(
    all: Seq<(String, AclSessionInfo)>,
    i: int,
    before: Seq<(String, AclSessionInfo)>,
    after: Seq<(String, AclSessionInfo)>,
)
    requires
        0 <= i < all.len(),
        acl_session_store::distinct(all),
        acl_session_store::distinct(before),
        acl_session_store::sessions_of(before) == not_revoked(
            acl_session_store::sessions_of(all.take(i)),
        ),
        all[i].1.revoked ==> after == before,
        !all[i].1.revoked ==> after.len() == before.len() + 1 && after.drop_last() == before
            && after.last().0@ == all[i].0@ && after.last().1@ == all[i].1@,
    ensures
        acl_session_store::distinct(after),
        acl_session_store::sessions_of(after) == not_revoked(
            acl_session_store::sessions_of(all.take(i + 1)),
        ),
{
    let seen = all.take(i);
    let item = all[i];
    let known = acl_session_store::sessions_of(seen);
    assert(acl_session_store::distinct(seen)) by {
        assert forall|a: int, b: int|
            0 <= a < seen.len() && 0 <= b < seen.len() && (#[trigger] seen[a]).0@ == (
            #[trigger] seen[b]).0@ implies a == b by {
            assert(all[a].0@ == all[b].0@);
        }
    }
    assert(!known.contains_key(item.0@)) by {
        if known.contains_key(item.0@) {
            let k = choose|k: int| acl_session_store::listed_at(seen, item.0@, k);
            assert(seen[k] == all[k]);
            assert(all[k].0@ == all[i].0@);
        }
    }
    assert(all.take(i + 1) =~= seen.push(item));
    acl_session_store::lemma_push(seen, item);
    if item.1.revoked {
        assert(not_revoked(known.insert(item.0@, item.1@)) =~= not_revoked(known));
    } else {
        assert(after =~= before.push(after.last()));
        acl_session_store::lemma_push(before, after.last());
        assert(not_revoked(known.insert(item.0@, item.1@)) =~= not_revoked(known).insert(
            item.0@,
            item.1@,
        ));
    }
}

/// The policy of the background poller.
#[derive(Debug, Clone, Copy)]
pub struct AclRevalidator {
    poll_interval_secs: u64,
    grace_secs: u64,
}

impl AclRevalidator {
    /// Seconds between two ticks.
    pub closed spec fn spec_poll_interval_secs(&self) -> u64 {
        self.poll_interval_secs
    }

    /// Seconds for which the server may be out of reach.
    pub closed spec fn spec_grace_secs(&self) -> u64 {
        self.grace_secs
    }

    /// A poller that ticks every `poll_interval_secs` seconds and lets the
    /// server be out of reach for `grace_seconds` seconds; each is one second at
    /// least.
    pub fn new(poll_interval_secs: u64, grace_seconds: u64) -> (r: Self)
        ensures
            r.spec_poll_interval_secs() == (if poll_interval_secs == 0 {
                1
            } else {
                poll_interval_secs
            }),
            r.spec_grace_secs() == (if grace_seconds == 0 {
                1
            } else {
                grace_seconds
            }),
    {
        AclRevalidator {
            poll_interval_secs: if poll_interval_secs < 1 {
                1
            } else {
                poll_interval_secs
            },
            grace_secs: if grace_seconds < 1 {
                1
            } else {
                grace_seconds
            },
        }
    }

    /// Seconds between two ticks.
    pub fn poll_interval_secs(&self) -> (r: u64)
        ensures
            r == self.spec_poll_interval_secs(),
    {
        self.poll_interval_secs
    }

    /// Seconds for which the server may be out of reach.
    pub fn grace_secs(&self) -> (r: u64)
        ensures
            r == self.spec_grace_secs(),
    {
        self.grace_secs
    }

    /// A copy of every session that a tick verifies: those not yet revoked.
    pub fn pending(&self, store: &AclSessionStore) -> (r: Vec<(String, AclSessionInfo)>)
        requires
            store.wf(),
        ensures
            acl_session_store::distinct(r@),
            acl_session_store::sessions_of(r@) == not_revoked(store@),
    {
        let all = store.snapshot();
        let mut out: Vec<(String, AclSessionInfo)> = Vec::new();
        let mut i: usize = 0;
        proof {
            lemma_pending_start(out@);
        }
        while i < all.len()
            invariant
                i <= all@.len(),
                acl_session_store::distinct(all@),
                acl_session_store::distinct(out@),
                acl_session_store::sessions_of(out@) == not_revoked(
                    acl_session_store::sessions_of(all@.take(i as int)),
                ),
            decreases all@.len() - i,
        {
            let ghost before = out@;
            let revoked = all[i].1.revoked;
            if !revoked {
                out.push((all[i].0.clone(), all[i].1.clone()));
                assert(out@.drop_last() =~= before);
            }
            proof {
                lemma_pending_step(all@, i as int, before, out@);
            }
            i = i + 1;
        }
        assert(all@.take(i as int) =~= all@);
        out
    }

    /// What the server is asked about a pending session.
    pub fn question<'a>(&self, info: &'a AclSessionInfo) -> (r: VerifyRequest<'a>)
        ensures
            r@ == (VerifyRequestView {
                token: info@.user_token,
                context_path: info@.context_path,
                session_name: info@.session_name,
                action: STILL_ATTACHED@,
                force_non_admin: false,
            }),
    {
        VerifyRequest {
            token: info.user_token.as_str(),
            context_path: text::opt_as_str(&info.context_path),
            session_name: text::opt_as_str(&info.session_name),
            action: STILL_ATTACHED,
            force_non_admin: false,
        }
    }

    /// What becomes of the session `info` by the outcome of its verification.
    pub fn verdict(
        &self,
        info: &AclSessionInfo,
        outcome: &Result<VerifyResponse, AclError>,
        now: u128,
    ) -> (r: Verdict)
        ensures
            r@ == verdict_for(
                info@.last_verified_at,
                types::outcome_view(*outcome),
                now as nat,
                self.spec_grace_secs() as nat,
            ),
    {
        match outcome {
            Ok(resp) => {
                if resp.valid {
                    Verdict::Touch
                } else {
                    match &resp.reason {
                        Some(reason) => Verdict::Revoke(reason.clone()),
                        None => Verdict::Revoke("acl_denied".to_owned()),
                    }
                }
            },
            Err(e) => {
                let grace: u128 = self.grace_secs as u128 * NANOS_PER_SEC;
                if now.saturating_sub(info.last_verified_at) > grace {
                    Verdict::Revoke(
                        "tachikoma_unreachable: ".to_owned().concat(e.message().as_str()),
                    )
                } else {
                    Verdict::Keep
                }
            },
        }
    }

    /// Take in the outcome of the verification of the pending session `info`,
    /// and give the event to broadcast if the session ends.
    pub fn settle(
        &self,
        store: &mut AclSessionStore,
        hash: &str,
        info: &AclSessionInfo,
        outcome: &Result<VerifyResponse, AclError>,
        now: u128,
    ) -> (r: Option<DisconnectEvent>)
        requires
            old(store).wf(),
        ensures
            final(store).wf(),
            ({
                let verdict = verdict_for(
                    info@.last_verified_at,
                    types::outcome_view(*outcome),
                    now as nat,
                    self.spec_grace_secs() as nat,
                );
                &&& final(store)@ == settled(old(store)@, hash@, verdict, now as nat)
                &&& match r {
                    Some(event) => announced(hash@, verdict) == Some(event@),
                    None => announced(hash@, verdict) is None,
                }
            }),
    {
        match self.verdict(info, outcome, now) {
            Verdict::Touch => {
                store.touch(hash, now);
                None
            },
            Verdict::Revoke(reason) => Some(store.mark_revoked(hash, reason)),
            Verdict::Keep => None,
        }
    }
}

/// While the server gives no answer, a session ends exactly when its last
/// successful verification lies further back than the grace period, whatever
/// the error is.
pub proof fn law_errors_revoke_only_past_grace(
    last_verified_at: nat,
    error: AclErrorView,
    now: nat,
    grace_secs: nat,
)
    ensures
        verdict_for(last_verified_at, Err(error), now, grace_secs) is Revoke <==> now
            - last_verified_at > grace_secs * NANOS_PER_SEC,
        verdict_for(last_verified_at, Err(error), now, grace_secs) !is Touch,
{
}

/// An answer decides at once, whatever the grace period: a valid one never ends
/// a session, and one that is not valid always does.
pub proof fn law_answers_decide_at_once(
    last_verified_at: nat,
    resp: VerifyResponseView,
    now: nat,
    grace_secs: nat,
)
    ensures
        resp.valid ==> verdict_for(last_verified_at, Ok(resp), now, grace_secs) is Touch,
        !resp.valid ==> verdict_for(last_verified_at, Ok(resp), now, grace_secs) is Revoke,
{
}

/// Settling one session leaves every other as it was, never forgets one, and
/// announces exactly the revocations.
pub proof fn law_settling_is_local(
    sessions: Sessions,
    hash: Seq<char>,
    verdict: VerdictView,
    now: nat,
    other: Seq<char>,
)
    ensures
        settled(sessions, hash, verdict, now).dom() == sessions.dom(),
        other != hash && sessions.contains_key(other) ==> settled(
            sessions,
            hash,
            verdict,
            now,
        )[other] == sessions[other],
        announced(hash, verdict) is Some <==> verdict is Revoke,
        verdict is Revoke && sessions.contains_key(hash) ==> acl_session_store::revocation(
            settled(sessions, hash, verdict, now),
            hash,
        ),
        acl_session_store::revocation(sessions, hash) ==> acl_session_store::revocation(
            settled(sessions, hash, verdict, now),
            hash,
        ),
{
    assert(settled(sessions, hash, verdict, now).dom() =~= sessions.dom());
}

/// A valid answer restarts the grace period: errors within the grace period
/// after it leave the session alone.
pub proof fn law_valid_answer_restarts_grace(
    sessions: Sessions,
    hash: Seq<char>,
    verified_at: nat,
    error: AclErrorView,
    now: nat,
    grace_secs: nat,
)
    requires
        sessions.contains_key(hash),
        now - verified_at <= grace_secs * NANOS_PER_SEC,
    ensures
        ({
            let renewed = settled(sessions, hash, VerdictView::Touch, verified_at);
            verdict_for(renewed[hash].last_verified_at, Err(error), now, grace_secs)
                == VerdictView::Keep
        }),
{
}

/// A revoked session is not verified again.
pub proof fn law_revoked_sessions_are_skipped(sessions: Sessions, hash: Seq<char>)
    ensures
        acl_session_store::revocation(sessions, hash) ==> !not_revoked(sessions).contains_key(hash),
        sessions.contains_key(hash) && !acl_session_store::revocation(sessions, hash)
            ==> not_revoked(sessions).contains_key(hash) && not_revoked(sessions)[hash]
            == sessions[hash],
{
}

/// The verdict on one session of a tick, and the moment at which it fell.
pub struct Settlement {
    pub hash: Seq<char>,
    pub verdict: VerdictView,
    pub now: nat,
}

/// The sessions after a tick.
pub open spec fn after_tick(sessions: Sessions, tick: Seq<Settlement>) -> Sessions
    decreases tick.len(),
{
    if tick.len() == 0 {
        sessions
    } else {
        let last = tick.last();
        settled(after_tick(sessions, tick.drop_last()), last.hash, last.verdict, last.now)
    }
}

/// A tick settles each of its sessions by its own verdict alone, in whatever
/// order they come up, and leaves every session that it does not settle as it
/// was.
pub proof fn law_tick_settles_each_session_by_itself(
    sessions: Sessions,
    tick: Seq<Settlement>,
    hash: Seq<char>,
)
    requires
        forall|i: int, j: int|
            #![trigger tick[i], tick[j]]
            0 <= i < tick.len() && 0 <= j < tick.len() && tick[i].hash == tick[j].hash ==> i == j,
        sessions.contains_key(hash),
    ensures
        after_tick(sessions, tick).dom() == sessions.dom(),
        (forall|i: int| 0 <= i < tick.len() ==> (#[trigger] tick[i]).hash != hash) ==> after_tick(
            sessions,
            tick,
        )[hash] == sessions[hash],
        forall|i: int|
            0 <= i < tick.len() && (#[trigger] tick[i]).hash == hash ==> after_tick(
                sessions,
                tick,
            )[hash] == settled(sessions, hash, tick[i].verdict, tick[i].now)[hash],
    decreases tick.len(),
{
    if tick.len() > 0 {
        let earlier = tick.drop_last();
        let last = tick.last();
        assert forall|i: int, j: int|
            #![trigger earlier[i], earlier[j]]
            0 <= i < earlier.len() && 0 <= j < earlier.len() && earlier[i].hash
                == earlier[j].hash implies i == j by {
            assert(tick[i].hash == tick[j].hash);
        }
        law_tick_settles_each_session_by_itself(sessions, earlier, hash);
        law_settling_is_local(
            after_tick(sessions, earlier),
            last.hash,
            last.verdict,
            last.now,
            hash,
        );
        assert(forall|i: int| 0 <= i < earlier.len() ==> #[trigger] earlier[i] == tick[i]);
        if last.hash == hash {
            assert forall|i: int| 0 <= i < earlier.len() implies (#[trigger] earlier[i]).hash
                != hash by {
                assert(tick[i].hash != tick[tick.len() - 1].hash);
            }
        }
        assert forall|i: int| 0 <= i < tick.len() && (#[trigger] tick[i]).hash
            == hash implies after_tick(sessions, tick)[hash] == settled(
            sessions,
            hash,
            tick[i].verdict,
            tick[i].now,
        )[hash] by {
            if i < earlier.len() {
                assert(earlier[i].hash == hash);
                assert(last.hash != hash) by {
                    assert(tick[i].hash != tick[tick.len() - 1].hash);
                }
            }
        }
    }
}

/// A verdict is the one it was made as, with its reason.
pub proof fn law_verdict_fields(verdict: Verdict)
    ensures
        verdict@ is Touch <==> verdict is Touch,
        verdict@ is Keep <==> verdict is Keep,
        verdict@ is Revoke <==> verdict is Revoke,
        verdict is Revoke ==> verdict@->Revoke_0 == verdict->Revoke_0@,
{
}

/// A session that ends is told why: the reason that the server gave, or that it
/// gave none, or that it could not be reached, with the error.
pub proof fn law_revocation_says_why(
    last_verified_at: nat,
    outcome: Result<VerifyResponseView, AclErrorView>,
    now: nat,
    grace_secs: nat,
)
    requires
        verdict_for(last_verified_at, outcome, now, grace_secs) is Revoke,
    ensures
        ({
            let reason = verdict_for(last_verified_at, outcome, now, grace_secs)->Revoke_0;
            let unreachable = "tachikoma_unreachable: "@;
            &&& outcome is Ok && outcome->Ok_0.reason is Some ==> reason
                == outcome->Ok_0.reason->Some_0
            &&& outcome is Ok && outcome->Ok_0.reason is None ==> reason == "acl_denied"@
            &&& outcome is Err ==> unreachable.is_prefix_of(reason) && reason.skip(
                unreachable.len() as int,
            ) == outcome->Err_0.message()
        }),
{
    let reason = verdict_for(last_verified_at, outcome, now, grace_secs)->Revoke_0;
    let unreachable = "tachikoma_unreachable: "@;
    if outcome is Err {
        assert(reason.skip(unreachable.len() as int) =~= outcome->Err_0.message());
        assert(unreachable =~= reason.subrange(0, unreachable.len() as int));
    }
}

/// The moment of the last success moves on a valid answer alone, and then to the
/// moment of that answer. A verdict to keep a session leaves every session exactly
/// as it was; one to revoke it changes its mark and its reason only.
pub proof fn law_only_valid_answers_renew(
    sessions: Sessions,
    hash: Seq<char>,
    verdict: VerdictView,
    now: nat,
)
    ensures
        verdict is Keep ==> settled(sessions, hash, verdict, now) == sessions,
        sessions.contains_key(hash) ==> {
            let before = sessions[hash];
            let after = settled(sessions, hash, verdict, now)[hash];
            &&& verdict is Touch ==> after == (SessionView { last_verified_at: now, ..before })
            &&& verdict is Revoke ==> after == (SessionView {
                revoked: true,
                revoke_reason: Some(verdict->Revoke_0),
                ..before
            })
            &&& verdict !is Touch ==> after.last_verified_at == before.last_verified_at
        },
        !sessions.contains_key(hash) ==> settled(sessions, hash, verdict, now) == sessions,
{
}

/// What is announced is the session that ends and the reason recorded for it.
pub proof fn law_announcement_matches_the_record(
    sessions: Sessions,
    hash: Seq<char>,
    verdict: VerdictView,
    now: nat,
)
    requires
        announced(hash, verdict) is Some,
    ensures
        announced(hash, verdict)->Some_0.session_token_hash == hash,
        verdict is Revoke && announced(hash, verdict)->Some_0.reason == verdict->Revoke_0,
        sessions.contains_key(hash) ==> settled(sessions, hash, verdict, now)[hash].revoke_reason
            == Some(announced(hash, verdict)->Some_0.reason),
{
}

/// A tick verifies no session that is not tracked.
pub proof fn law_pending_are_tracked(sessions: Sessions)
    ensures
        not_revoked(sessions).dom().subset_of(sessions.dom()),
        forall|hash: Seq<char>| #[trigger]
            not_revoked(sessions).contains_key(hash) ==> !sessions[hash].revoked,
{
}

/// One poll of a session during an outage: what went wrong, and when.
pub struct FailedPoll {
    pub error: AclErrorView,
    pub now: nat,
}

/// The sessions after one poll of `hash` that ended in an error. A session that
/// needs no verification is not polled.
pub open spec fn after_failed_poll(
    sessions: Sessions,
    hash: Seq<char>,
    poll: FailedPoll,
    grace_secs: nat,
) -> Sessions {
    if not_revoked(sessions).contains_key(hash) {
        settled(
            sessions,
            hash,
            verdict_for(sessions[hash].last_verified_at, Err(poll.error), poll.now, grace_secs),
            poll.now,
        )
    } else {
        sessions
    }
}

/// The sessions after a series of polls of `hash` that all ended in errors.
pub open spec fn after_outage(
    sessions: Sessions,
    hash: Seq<char>,
    polls: Seq<FailedPoll>,
    grace_secs: nat,
) -> Sessions
    decreases polls.len(),
{
    if polls.len() == 0 {
        sessions
    } else {
        after_failed_poll(
            after_outage(sessions, hash, polls.drop_last(), grace_secs),
            hash,
            polls.last(),
            grace_secs,
        )
    }
}

/// An outage ends a session at the first poll that lies further than the grace
/// period after its last valid answer, however many polls failed before, and not
/// earlier. Until then nothing changes, and the moment of the last success never
/// moves.
pub proof fn law_outage_ends_a_session_past_grace(
    sessions: Sessions,
    hash: Seq<char>,
    polls: Seq<FailedPoll>,
    grace_secs: nat,
)
    requires
        sessions.contains_key(hash),
        !sessions[hash].revoked,
    ensures
        ({
            let after = after_outage(sessions, hash, polls, grace_secs);
            let last_success = sessions[hash].last_verified_at;
            &&& after.contains_key(hash)
            &&& after[hash].last_verified_at == last_success
            &&& after[hash].revoked <==> exists|i: int|
                0 <= i < polls.len() && (#[trigger] polls[i]).now > last_success + grace_secs
                    * 1_000_000_000
            &&& !after[hash].revoked ==> after == sessions
        }),
    decreases polls.len(),
{
    if polls.len() > 0 {
        let earlier = polls.drop_last();
        law_outage_ends_a_session_past_grace(sessions, hash, earlier, grace_secs);
        let before = after_outage(sessions, hash, earlier, grace_secs);
        let last = polls[polls.len() - 1];
        let last_success = sessions[hash].last_verified_at;
        assert(last == polls.last());
        if before[hash].revoked {
            let i = choose|i: int|
                0 <= i < earlier.len() && (#[trigger] earlier[i]).now > last_success + grace_secs
                    * 1_000_000_000;
            assert(polls[i] == earlier[i]);
        } else {
            assert forall|i: int| 0 <= i < polls.len() - 1 implies (#[trigger] polls[i]).now
                <= last_success + grace_secs * 1_000_000_000 by {
                assert(earlier[i] == polls[i]);
            }
        }
    }
}

/// A running session is verified for the action `still_attached`, first two seconds
/// after startup, and a second has a thousand million nanoseconds.
pub proof fn law_polling_constants()
    ensures
        STILL_ATTACHED@ == "still_attached"@,
        STARTUP_DELAY_SECS == 2,
        NANOS_PER_SEC == 1_000_000_000,
{
}

} // verus!
