//! The sessions that were opened with a user token.
//!
//! The revalidator polls this store and revokes a session when the server says
//! that its token is no longer valid, or has been out of reach for too long.
//! Keys are the SHA-256 hex of the session cookie, so the cookie itself is not
//! kept in memory.

use vstd::prelude::*;
use vstd::string::*;

use crate::text;

verus! {

/// What is known of one session: captured at login, refreshed by the
/// revalidator.
#[derive(Debug)]
pub struct AclSessionInfo {
    pub user_token: String,
    pub context_path: Option<String>,
    pub session_name: Option<String>,
    pub user_id: Option<String>,
    /// Moment of the last successful verification, in nanoseconds on a
    /// monotonic clock.
    pub last_verified_at: u128,
    pub revoked: bool,
    pub revoke_reason: Option<String>,
}

/// What an [`AclSessionInfo`] says.
pub struct SessionView {
    pub user_token: Seq<char>,
    pub context_path: Option<Seq<char>>,
    pub session_name: Option<Seq<char>>,
    pub user_id: Option<Seq<char>>,
    pub last_verified_at: nat,
    pub revoked: bool,
    pub revoke_reason: Option<Seq<char>>,
}

impl View for AclSessionInfo {
    type V = SessionView;

    open spec fn view(&self) -> SessionView {
        SessionView {
            user_token: self.user_token@,
            context_path: text::opt_text(self.context_path),
            session_name: text::opt_text(self.session_name),
            user_id: text::opt_text(self.user_id),
            last_verified_at: self.last_verified_at as nat,
            revoked: self.revoked,
            revoke_reason: text::opt_text(self.revoke_reason),
        }
    }
}

impl Clone for AclSessionInfo {
    fn clone(&self) -> (r: Self)
        ensures
            r@ == self@,
    {
        AclSessionInfo {
            user_token: self.user_token.clone(),
            context_path: text::opt_clone(&self.context_path),
            session_name: text::opt_clone(&self.session_name),
            user_id: text::opt_clone(&self.user_id),
            last_verified_at: self.last_verified_at,
            revoked: self.revoked,
            revoke_reason: text::opt_clone(&self.revoke_reason),
        }
    }
}

/// What is broadcast when a session is revoked, so that its open connections
/// can be closed.
#[derive(Debug)]
pub struct DisconnectEvent {
    /// SHA-256 hex of the session cookie that should be disconnected.
    pub session_token_hash: String,
    /// Human-readable reason, for the close frame.
    pub reason: String,
}

/// How many broadcast events a subscriber may lag behind.
pub const DISCONNECT_CHANNEL_CAPACITY: usize = 256;

/// What a [`DisconnectEvent`] says.
pub struct DisconnectView {
    pub session_token_hash: Seq<char>,
    pub reason: Seq<char>,
}

impl View for DisconnectEvent {
    type V = DisconnectView;

    open spec fn view(&self) -> DisconnectView {
        DisconnectView {
            session_token_hash: self.session_token_hash@,
            reason: self.reason@,
        }
    }
}

impl Clone for DisconnectEvent {
    fn clone(&self) -> (r: Self)
        ensures
            r@ == self@,
    {
        DisconnectEvent {
            session_token_hash: self.session_token_hash.clone(),
            reason: self.reason.clone(),
        }
    }
}

/// The sessions of a store, by cookie hash.
pub type Sessions = Map<Seq<char>, SessionView>;

/// No hash is listed twice.
pub open spec fn distinct(list: Seq<(String, AclSessionInfo)>) -> bool {
    forall|i: int, j: int|
        #![trigger list[i], list[j]]
        0 <= i < list.len() && 0 <= j < list.len() && list[i].0@ == list[j].0@ ==> i == j
}

/// `hash` is listed at place `i`.
pub open spec fn listed_at(list: Seq<(String, AclSessionInfo)>, hash: Seq<char>, i: int) -> bool {
    0 <= i < list.len() && list[i].0@ == hash
}

/// The sessions on a list.
pub open spec fn sessions_of(list: Seq<(String, AclSessionInfo)>) -> Sessions {
    Map::new(
        |hash: Seq<char>| exists|i: int| listed_at(list, hash, i),
        |hash: Seq<char>| list[choose|i: int| listed_at(list, hash, i)].1@,
    )
}

/// A listed session is found at its hash.
pub(crate) proof fn lemma_listed(list: Seq<(String, AclSessionInfo)>, i: int)
    requires
        distinct(list),
        0 <= i < list.len(),
    ensures
        sessions_of(list).contains_key(list[i].0@),
        sessions_of(list)[list[i].0@] == list[i].1@,
{
    assert(listed_at(list, list[i].0@, i));
}

/// Changing the session at one place changes what its hash stands for, and
/// nothing else.
proof fn lemma_update(
    list: Seq<(String, AclSessionInfo)>,
    i: int,
    item: (String, AclSessionInfo),
)
    requires
        distinct(list),
        0 <= i < list.len(),
        item.0@ == list[i].0@,
    ensures
        distinct(list.update(i, item)),
        sessions_of(list.update(i, item)) == sessions_of(list).insert(item.0@, item.1@),
{
    let after = list.update(i, item);
    assert forall|a: int, b: int|
        0 <= a < after.len() && 0 <= b < after.len() && (#[trigger] after[a]).0@ == (
        #[trigger] after[b]).0@ implies a == b by {
        assert(list[a].0@ == list[b].0@);
    }
    lemma_listed(after, i);
    assert forall|hash: Seq<char>| sessions_of(after).contains_key(hash) <==> #[trigger] sessions_of(
        list,
    ).insert(item.0@, item.1@).contains_key(hash) by {
        if sessions_of(after).contains_key(hash) && hash != item.0@ {
            let k = choose|k: int| listed_at(after, hash, k);
            assert(listed_at(list, hash, k));
        }
        if sessions_of(list).contains_key(hash) {
            let k = choose|k: int| listed_at(list, hash, k);
            assert(listed_at(after, hash, k));
        }
    }
    assert forall|hash: Seq<char>| #[trigger] sessions_of(after).contains_key(hash) implies sessions_of(
        after,
    )[hash] == sessions_of(list).insert(item.0@, item.1@)[hash] by {
        if hash != item.0@ {
            let k = choose|k: int| listed_at(after, hash, k);
            assert(list[k] == after[k]);
            lemma_listed(after, k);
            lemma_listed(list, k);
        }
    }
    assert(sessions_of(after) =~= sessions_of(list).insert(item.0@, item.1@));
}

/// Adding a session under a new hash.
pub(crate) proof fn lemma_push(list: Seq<(String, AclSessionInfo)>, item: (String, AclSessionInfo))
    requires
        distinct(list),
        !sessions_of(list).contains_key(item.0@),
    ensures
        distinct(list.push(item)),
        sessions_of(list.push(item)) == sessions_of(list).insert(item.0@, item.1@),
{
    let after = list.push(item);
    assert forall|a: int, b: int|
        0 <= a < after.len() && 0 <= b < after.len() && (#[trigger] after[a]).0@ == (
        #[trigger] after[b]).0@ implies a == b by {
        if a < list.len() {
            assert(listed_at(list, after[a].0@, a));
        }
        if b < list.len() {
            assert(listed_at(list, after[b].0@, b));
        }
        if a < list.len() && b < list.len() {
            assert(list[a].0@ == list[b].0@);
        }
    }
    lemma_listed(after, list.len() as int);
    assert forall|hash: Seq<char>| sessions_of(after).contains_key(hash) <==> #[trigger] sessions_of(
        list,
    ).insert(item.0@, item.1@).contains_key(hash) by {
        if sessions_of(after).contains_key(hash) && hash != item.0@ {
            let k = choose|k: int| listed_at(after, hash, k);
            assert(listed_at(list, hash, k));
        }
        if sessions_of(list).contains_key(hash) {
            let k = choose|k: int| listed_at(list, hash, k);
            assert(listed_at(after, hash, k));
        }
    }
    assert forall|hash: Seq<char>| #[trigger] sessions_of(after).contains_key(hash) implies sessions_of(
        after,
    )[hash] == sessions_of(list).insert(item.0@, item.1@)[hash] by {
        if hash != item.0@ {
            let k = choose|k: int| listed_at(after, hash, k);
            assert(list[k] == after[k]);
            lemma_listed(after, k);
            lemma_listed(list, k);
        }
    }
    assert(sessions_of(after) =~= sessions_of(list).insert(item.0@, item.1@));
}

/// Taking out the session at one place.
proof fn lemma_remove(list: Seq<(String, AclSessionInfo)>, i: int)
    requires
        distinct(list),
        0 <= i < list.len(),
    ensures
        distinct(list.remove(i)),
        sessions_of(list.remove(i)) == sessions_of(list).remove(list[i].0@),
{
    let after = list.remove(i);
    let gone = list[i].0@;
    let source = |k: int| if k < i { k } else { k + 1 };
    assert forall|k: int| 0 <= k < after.len() implies #[trigger] after[k] == list[source(k)] by {}
    assert forall|a: int, b: int|
        0 <= a < after.len() && 0 <= b < after.len() && (#[trigger] after[a]).0@ == (
        #[trigger] after[b]).0@ implies a == b by {
        assert(list[source(a)].0@ == list[source(b)].0@);
        assert(source(a) == source(b));
    }
    assert forall|hash: Seq<char>| sessions_of(after).contains_key(hash) <==> #[trigger] sessions_of(
        list,
    ).remove(gone).contains_key(hash) by {
        if sessions_of(after).contains_key(hash) {
            let k = choose|k: int| listed_at(after, hash, k);
            assert(listed_at(list, hash, source(k)));
            if hash == gone {
                assert(list[source(k)].0@ == list[i].0@);
            }
        }
        if sessions_of(list).contains_key(hash) && hash != gone {
            let k = choose|k: int| listed_at(list, hash, k);
            if k < i {
                assert(listed_at(after, hash, k));
            } else {
                assert(after[k - 1] == list[source(k - 1)]);
                assert(listed_at(after, hash, k - 1));
            }
        }
    }
    assert forall|hash: Seq<char>| #[trigger] sessions_of(after).contains_key(hash) implies sessions_of(
        after,
    )[hash] == sessions_of(list).remove(gone)[hash] by {
        let k = choose|k: int| listed_at(after, hash, k);
        assert(after[k] == list[source(k)]);
        lemma_listed(after, k);
        lemma_listed(list, source(k));
    }
    assert(sessions_of(after) =~= sessions_of(list).remove(gone));
}

/// `sessions` with the verification time of `hash` set to `now`, if it is known.
pub open spec fn touched(sessions: Sessions, hash: Seq<char>, now: nat) -> Sessions {
    if sessions.contains_key(hash) {
        sessions.insert(hash, SessionView { last_verified_at: now, ..sessions[hash] })
    } else {
        sessions
    }
}

/// `sessions` with `hash` revoked, if it is known. The session stays on record.
pub open spec fn revoked(sessions: Sessions, hash: Seq<char>, reason: Seq<char>) -> Sessions {
    if sessions.contains_key(hash) {
        sessions.insert(
            hash,
            SessionView { revoked: true, revoke_reason: Some(reason), ..sessions[hash] },
        )
    } else {
        sessions
    }
}

/// Whether `hash` is known and revoked.
pub open spec fn revocation(sessions: Sessions, hash: Seq<char>) -> bool {
    sessions.contains_key(hash) && sessions[hash].revoked
}

/// The tracked sessions, by cookie hash.
pub struct AclSessionStore {
    list: Vec<(String, AclSessionInfo)>,
}

impl View for AclSessionStore {
    type V = Sessions;

    closed spec fn view(&self) -> Sessions {
        sessions_of(self.list@)
    }
}

impl AclSessionStore {
    /// Each hash is tracked once.
    pub closed spec fn wf(&self) -> bool {
        distinct(self.list@)
    }

    /// A store that tracks no session.
    pub fn new() -> (r: Self)
        ensures
            r.wf(),
            r@ == Sessions::empty(),
    {
        let r = AclSessionStore { list: Vec::new() };
        assert(r@ =~= Sessions::empty());
        r
    }

    fn find(&self, hash: &str) -> (r: Option<usize>)
        requires
            self.wf(),
        ensures
            match r {
                Some(i) => listed_at(self.list@, hash@, i as int) && self@.contains_key(hash@)
                    && self@[hash@] == self.list@[i as int].1@,
                None => !self@.contains_key(hash@),
            },
    {
        let mut i: usize = 0;
        while i < self.list.len()
            invariant
                i <= self.list@.len(),
                self.wf(),
                forall|j: int| 0 <= j < i ==> !listed_at(self.list@, hash@, j),
            decreases self.list@.len() - i,
        {
            if text::text_eq(self.list[i].0.as_str(), hash) {
                proof {
                    lemma_listed(self.list@, i as int);
                }
                return Some(i);
            }
            i = i + 1;
        }
        None
    }

    /// Track a session, in place of the one tracked under the same hash.
    pub fn register(&mut self, session_token_hash: String, info: AclSessionInfo)
        requires
            old(self).wf(),
        ensures
            final(self).wf(),
            final(self)@ == old(self)@.insert(session_token_hash@, info@),
    {
        match self.find(session_token_hash.as_str()) {
            Some(i) => {
                proof {
                    lemma_update(self.list@, i as int, (session_token_hash, info));
                }
                self.list.set(i, (session_token_hash, info));
            },
            None => {
                proof {
                    lemma_push(self.list@, (session_token_hash, info));
                }
                self.list.push((session_token_hash, info));
            },
        }
    }

    /// Stop tracking a session, on an explicit logout.
    pub fn remove(&mut self, session_token_hash: &str)
        requires
            old(self).wf(),
        ensures
            final(self).wf(),
            final(self)@ == old(self)@.remove(session_token_hash@),
    {
        match self.find(session_token_hash) {
            Some(i) => {
                proof {
                    lemma_remove(self.list@, i as int);
                }
                self.list.remove(i);
            },
            None => {
                assert(self@ =~= self@.remove(session_token_hash@));
            },
        }
    }

    /// Record that a session was verified at the moment `now`.
    pub fn touch(&mut self, session_token_hash: &str, now: u128)
        requires
            old(self).wf(),
        ensures
            final(self).wf(),
            final(self)@ == touched(old(self)@, session_token_hash@, now as nat),
    {
        if let Some(i) = self.find(session_token_hash) {
            let mut info = self.list[i].1.clone();
            info.last_verified_at = now;
            let item = (session_token_hash.to_owned(), info);
            proof {
                lemma_update(self.list@, i as int, item);
            }
            self.list.set(i, item);
        }
    }

    /// Mark a session as revoked and give the event to broadcast. The session
    /// stays tracked, so that later requests with its cookie are refused. The
    /// event is given also where the session is not tracked.
    pub fn mark_revoked(&mut self, session_token_hash: &str, reason: String) -> (r: DisconnectEvent)
        requires
            old(self).wf(),
        ensures
            final(self).wf(),
            final(self)@ == revoked(old(self)@, session_token_hash@, reason@),
            r@ == (DisconnectView {
                session_token_hash: session_token_hash@,
                reason: reason@,
            }),
    {
        if let Some(i) = self.find(session_token_hash) {
            let mut info = self.list[i].1.clone();
            info.revoked = true;
            info.revoke_reason = Some(reason.clone());
            let item = (session_token_hash.to_owned(), info);
            proof {
                lemma_update(self.list@, i as int, item);
            }
            self.list.set(i, item);
        }
        DisconnectEvent { session_token_hash: session_token_hash.to_owned(), reason }
    }

    /// Whether a session is tracked and revoked. One that is not tracked is not
    /// revoked.
    pub fn is_revoked(&self, session_token_hash: &str) -> (r: bool)
        requires
            self.wf(),
        ensures
            r == revocation(self@, session_token_hash@),
    {
        match self.find(session_token_hash) {
            Some(i) => self.list[i].1.revoked,
            None => false,
        }
    }

    /// A copy of every tracked session, each hash once.
    pub fn snapshot(&self) -> (r: Vec<(String, AclSessionInfo)>)
        requires
            self.wf(),
        ensures
            distinct(r@),
            sessions_of(r@) == self@,
    {
        let mut out: Vec<(String, AclSessionInfo)> = Vec::new();
        let mut i: usize = 0;
        while i < self.list.len()
            invariant
                i <= self.list@.len(),
                out@.len() == i,
                forall|j: int|
                    0 <= j < i ==> (#[trigger] out@[j]).0@ == self.list@[j].0@ && out@[j].1@
                        == self.list@[j].1@,
            decreases self.list@.len() - i,
        {
            out.push((self.list[i].0.clone(), self.list[i].1.clone()));
            i = i + 1;
        }
        proof {
            lemma_same_sessions(self.list@, out@);
        }
        out
    }
}

/// Lists that agree place by place hold the same sessions.
proof fn lemma_same_sessions(a: Seq<(String, AclSessionInfo)>, b: Seq<(String, AclSessionInfo)>)
    requires
        distinct(a),
        a.len() == b.len(),
        forall|j: int|
            0 <= j < a.len() ==> (#[trigger] b[j]).0@ == a[j].0@ && b[j].1@ == a[j].1@,
    ensures
        distinct(b),
        sessions_of(b) == sessions_of(a),
{
    assert forall|i: int, j: int|
        0 <= i < b.len() && 0 <= j < b.len() && (#[trigger] b[i]).0@ == (
        #[trigger] b[j]).0@ implies i == j by {
        assert(a[i].0@ == a[j].0@);
    }
    assert forall|hash: Seq<char>| sessions_of(a).contains_key(hash) <==> #[trigger] sessions_of(
        b,
    ).contains_key(hash) by {
        if sessions_of(a).contains_key(hash) {
            let k = choose|k: int| listed_at(a, hash, k);
            assert(b[k].0@ == a[k].0@);
            assert(listed_at(b, hash, k));
        }
        if sessions_of(b).contains_key(hash) {
            let k = choose|k: int| listed_at(b, hash, k);
            assert(listed_at(a, hash, k));
        }
    }
    assert forall|hash: Seq<char>| #[trigger] sessions_of(b).contains_key(hash) implies sessions_of(
        b,
    )[hash] == sessions_of(a)[hash] by {
        let k = choose|k: int| listed_at(b, hash, k);
        lemma_listed(a, k);
        lemma_listed(b, k);
    }
    assert(sessions_of(b) =~= sessions_of(a));
}

/// Revoking a tracked session makes it revoked for the given reason and changes
/// nothing else of it; revoking an untracked one changes nothing.
pub proof fn law_mark_revoked_keeps_the_session(
    sessions: Sessions,
    hash: Seq<char>,
    reason: Seq<char>,
)
    ensures
        revocation(revoked(sessions, hash, reason), hash) == sessions.contains_key(hash),
        revoked(sessions, hash, reason).dom() == sessions.dom(),
        sessions.contains_key(hash) ==> revoked(sessions, hash, reason)[hash] == (SessionView {
            revoked: true,
            revoke_reason: Some(reason),
            ..sessions[hash]
        }),
        !sessions.contains_key(hash) ==> revoked(sessions, hash, reason) == sessions,
{
    assert(revoked(sessions, hash, reason).dom() =~= sessions.dom());
}

/// A session that is not tracked is not revoked.
pub proof fn law_untracked_is_not_revoked(sessions: Sessions, hash: Seq<char>)
    requires
        !sessions.contains_key(hash),
    ensures
        !revocation(sessions, hash),
{
}

/// A change to a store.
pub enum StoreChange {
    Register { hash: Seq<char>, info: SessionView },
    Remove { hash: Seq<char> },
    Touch { hash: Seq<char>, now: nat },
    Revoke { hash: Seq<char>, reason: Seq<char> },
}

impl StoreChange {
    /// The session that the change is about.
    pub open spec fn hash(self) -> Seq<char> {
        match self {
            StoreChange::Register { hash, .. } => hash,
            StoreChange::Remove { hash } => hash,
            StoreChange::Touch { hash, .. } => hash,
            StoreChange::Revoke { hash, .. } => hash,
        }
    }

    /// The sessions after the change.
    pub open spec fn applied(self, sessions: Sessions) -> Sessions {
        match self {
            StoreChange::Register { hash, info } => sessions.insert(hash, info),
            StoreChange::Remove { hash } => sessions.remove(hash),
            StoreChange::Touch { hash, now } => touched(sessions, hash, now),
            StoreChange::Revoke { hash, reason } => revoked(sessions, hash, reason),
        }
    }
}

/// The sessions after a series of changes.
pub open spec fn after_changes(sessions: Sessions, changes: Seq<StoreChange>) -> Sessions
    decreases changes.len(),
{
    if changes.len() == 0 {
        sessions
    } else {
        changes.last().applied(after_changes(sessions, changes.drop_last()))
    }
}

/// A change to one session leaves every other session as it was.
pub proof fn law_changes_are_local(sessions: Sessions, change: StoreChange, other: Seq<char>)
    requires
        other != change.hash(),
    ensures
        change.applied(sessions).contains_key(other) == sessions.contains_key(other),
        sessions.contains_key(other) ==> change.applied(sessions)[other] == sessions[other],
{
}

/// A revoked session stays tracked and revoked, whatever happens to the store,
/// until it is removed or registered anew.
pub proof fn law_revocation_is_final(
    sessions: Sessions,
    hash: Seq<char>,
    changes: Seq<StoreChange>,
)
    requires
        revocation(sessions, hash),
        forall|i: int|
            0 <= i < changes.len() && (#[trigger] changes[i]).hash() == hash ==> changes[i] is Touch
                || changes[i] is Revoke,
    ensures
        revocation(after_changes(sessions, changes), hash),
    decreases changes.len(),
{
    if changes.len() > 0 {
        let earlier = changes.drop_last();
        assert forall|i: int|
            0 <= i < earlier.len() && (#[trigger] earlier[i]).hash()
                == hash implies earlier[i] is Touch || earlier[i] is Revoke by {
            assert(earlier[i] == changes[i]);
        }
        law_revocation_is_final(sessions, hash, earlier);
        let last = changes[changes.len() - 1];
        assert(last == changes.last());
        if last.hash() != hash {
            law_changes_are_local(after_changes(sessions, earlier), last, hash);
        }
    }
}

/// A session says what its fields hold.
pub proof fn law_session_fields(info: AclSessionInfo)
    ensures
        info@.user_token == info.user_token@,
        info@.context_path is Some <==> info.context_path is Some,
        info.context_path is Some ==> info@.context_path->Some_0 == info.context_path->Some_0@,
        info@.session_name is Some <==> info.session_name is Some,
        info.session_name is Some ==> info@.session_name->Some_0 == info.session_name->Some_0@,
        info@.user_id is Some <==> info.user_id is Some,
        info.user_id is Some ==> info@.user_id->Some_0 == info.user_id->Some_0@,
        info@.last_verified_at == info.last_verified_at,
        info@.revoked == info.revoked,
        info@.revoke_reason is Some <==> info.revoke_reason is Some,
        info.revoke_reason is Some ==> info@.revoke_reason->Some_0 == info.revoke_reason->Some_0@,
{
}

/// An event says what its fields hold.
pub proof fn law_event_fields(event: DisconnectEvent)
    ensures
        event@.session_token_hash == event.session_token_hash@,
        event@.reason == event.reason@,
{
}

/// The sessions on a list without repeated hashes are its items: each stands under
/// its own hash, and nothing else is there.
pub proof fn law_listed_sessions(list: Seq<(String, AclSessionInfo)>, i: int, j: int, hash: Seq<char>)
    requires
        distinct(list),
        0 <= i < list.len(),
        0 <= j < list.len(),
    ensures
        i != j ==> list[i].0@ != list[j].0@,
        sessions_of(list).contains_key(list[i].0@),
        sessions_of(list)[list[i].0@] == list[i].1@,
        sessions_of(list).contains_key(hash) ==> exists|k: int|
            0 <= k < list.len() && (#[trigger] list[k]).0@ == hash,
{
    lemma_listed(list, i);
    if sessions_of(list).contains_key(hash) {
        let k = choose|k: int| listed_at(list, hash, k);
        assert(list[k].0@ == hash);
    }
}

/// Touching a tracked session sets the moment of its last verification and
/// changes nothing else of it, revoked or not; touching an untracked one changes
/// nothing.
pub proof fn law_touch_moves_the_moment_only(sessions: Sessions, hash: Seq<char>, now: nat)
    ensures
        touched(sessions, hash, now).dom() == sessions.dom(),
        !sessions.contains_key(hash) ==> touched(sessions, hash, now) == sessions,
        sessions.contains_key(hash) ==> {
            let before = sessions[hash];
            let after = touched(sessions, hash, now)[hash];
            &&& after.last_verified_at == now
            &&& after.user_token == before.user_token
            &&& after.context_path == before.context_path
            &&& after.session_name == before.session_name
            &&& after.user_id == before.user_id
            &&& after.revoked == before.revoked
            &&& after.revoke_reason == before.revoke_reason
        },
{
    assert(touched(sessions, hash, now).dom() =~= sessions.dom());
}

/// A session is revoked exactly where it is tracked and marked so.
pub proof fn law_revoked_means_marked(sessions: Sessions, hash: Seq<char>)
    ensures
        revocation(sessions, hash) <==> sessions.dom().contains(hash) && sessions[hash].revoked,
{
}

/// A subscriber may lag 256 events behind.
pub proof fn law_channel_capacity()
    ensures
        DISCONNECT_CHANNEL_CAPACITY == 256,
{
}

} // verus!
