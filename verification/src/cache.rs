//! In-memory cache of verification answers, bounded in age and in number.
//!
//! Entries are keyed by a 64-bit hash of the request. Beside the map stands a
//! queue of the keys in the order in which they were last used. Moments and
//! spans of time are counts of nanoseconds on a monotonic clock.
//!
//! Eviction policy
//! ---------------
//! 1. On `get`, an expired entry is evicted.
//! 2. On `insert` of a new key at capacity, the key that was used longest ago
//!    is dropped.

use std::collections::hash_map::DefaultHasher;
use std::collections::{HashMap, VecDeque};
use std::hash::Hasher;

use vstd::prelude::*;
use vstd::std_specs::hash::*;
use vstd::string::*;
use vstd::utf8::*;

use crate::text;
use crate::types::{VerifyResponse, VerifyResponseView};

verus! {

/// How long an answer is kept: three seconds. Short on purpose, so that a
/// revoked access stops working soon.
pub const TTL: u128 = 3_000_000_000;

/// How many answers are kept.
pub const CAPACITY: usize = 1024;

struct Entry {
    response: VerifyResponse,
    inserted_at: u128,
}

impl View for Entry {
    type V = EntryView;

    closed spec fn view(&self) -> EntryView {
        EntryView { response: self.response@, inserted_at: self.inserted_at as nat }
    }
}

/// A cached answer and the moment at which it was stored.
pub struct EntryView {
    pub response: VerifyResponseView,
    pub inserted_at: nat,
}

/// The contents of a cache.
#[verifier::ext_equal]
pub struct CacheView {
    pub entries: Map<u64, EntryView>,
    /// The keys of `entries`; the one used longest ago comes first.
    pub order: Seq<u64>,
    pub ttl: nat,
    pub capacity: nat,
}

/// Every key but `key`.
pub open spec fn other_than(key: u64) -> spec_fn(u64) -> bool {
    |k: u64| k != key
}

/// `order` without `key`.
pub open spec fn without(order: Seq<u64>, key: u64) -> Seq<u64> {
    order.filter(other_than(key))
}

impl CacheView {
    /// Every cached key is queued exactly once, and nothing else is. There are
    /// no more entries than the capacity; the entry just inserted stays even
    /// where the capacity is zero.
    pub open spec fn wf(self) -> bool {
        &&& self.order.no_duplicates()
        &&& self.order.to_set() == self.entries.dom()
        &&& self.order.len() <= self.limit()
    }

    /// The most entries that the cache holds.
    pub open spec fn limit(self) -> nat {
        if self.capacity == 0 {
            1
        } else {
            self.capacity
        }
    }

    /// Whether `key` is cached and no older than the time to live.
    pub open spec fn fresh(self, key: u64, now: nat) -> bool {
        self.entries.contains_key(key) && now - self.entries[key].inserted_at <= self.ttl
    }

    /// What a lookup of `key` at the moment `now` gives.
    pub open spec fn lookup(self, key: u64, now: nat) -> Option<VerifyResponseView> {
        if self.fresh(key, now) {
            Some(self.entries[key].response)
        } else {
            None
        }
    }

    /// The cache after a lookup: a fresh key becomes the most recently used
    /// one, an expired one leaves.
    pub open spec fn after_get(self, key: u64, now: nat) -> CacheView {
        if !self.entries.contains_key(key) {
            self
        } else if self.fresh(key, now) {
            CacheView { order: without(self.order, key).push(key), ..self }
        } else {
            CacheView {
                entries: self.entries.remove(key),
                order: without(self.order, key),
                ..self
            }
        }
    }

    /// The cache with the key used longest ago dropped, where it is full and
    /// `key` is new to it.
    pub open spec fn with_room_for(self, key: u64) -> CacheView {
        if self.order.len() >= self.capacity && self.order.len() > 0
            && !self.entries.contains_key(key) {
            CacheView {
                entries: self.entries.remove(self.order[0]),
                order: self.order.skip(1),
                ..self
            }
        } else {
            self
        }
    }

    /// The cache after `response` was stored under `key` at the moment `now`.
    pub open spec fn after_insert(
        self,
        key: u64,
        response: VerifyResponseView,
        now: nat,
    ) -> CacheView {
        let room = self.with_room_for(key);
        CacheView {
            entries: room.entries.insert(key, EntryView { response, inserted_at: now }),
            order: without(room.order, key).push(key),
            ..self
        }
    }

    /// The cache with no entries.
    pub open spec fn emptied(self) -> CacheView {
        CacheView { entries: Map::empty(), order: Seq::empty(), ..self }
    }
}

/// What `without` does to a queue of distinct keys.
proof fn lemma_without(order: Seq<u64>, key: u64)
    requires
        order.no_duplicates(),
    ensures
        without(order, key).no_duplicates(),
        without(order, key).to_set() =~= order.to_set().remove(key),
        without(order, key).len() == order.len() - (if order.contains(key) {
            1int
        } else {
            0int
        }),
        !without(order, key).contains(key),
    decreases order.len(),
{
    reveal(Seq::filter);
    if order.len() > 0 {
        let rest = order.drop_last();
        let last = order.last();
        let kept = without(rest, key);
        assert forall|i: int, j: int|
            0 <= i < rest.len() && 0 <= j < rest.len() && i != j implies rest[i] != rest[j] by {
            assert(rest[i] == order[i] && rest[j] == order[j]);
        }
        lemma_without(rest, key);
        assert(order =~= rest.push(last));
        rest.lemma_push_to_set_commute(last);
        kept.lemma_push_to_set_commute(last);
        assert(!rest.to_set().contains(last)) by {
            if rest.contains(last) {
                let i = choose|i: int| 0 <= i < rest.len() && rest[i] == last;
                assert(order[i] == order[order.len() - 1]);
            }
        }
        assert(order.contains(key) == order.to_set().contains(key));
        assert(rest.contains(key) == rest.to_set().contains(key));
        assert(kept.contains(last) == kept.to_set().contains(last));
        if last != key {
            assert(without(order, key) == kept.push(last));
            assert(kept.push(last).contains(key) == kept.push(last).to_set().contains(key));
        } else {
            assert(without(order, key) == kept);
        }
    } else {
        assert(order.to_set() =~= Set::empty());
    }
}

/// A queue of distinct keys is as long as the map of those keys is large.
proof fn lemma_order_len(v: CacheView)
    requires
        v.wf(),
    ensures
        v.order.len() == v.entries.len(),
{
    v.order.unique_seq_to_set();
}

/// A lookup keeps the cache well-formed.
proof fn lemma_after_get_wf(v: CacheView, key: u64, now: nat)
    requires
        v.wf(),
    ensures
        v.after_get(key, now).wf(),
{
    lemma_without(v.order, key);
    without(v.order, key).lemma_push_to_set_commute(key);
    assert(v.order.contains(key) == v.order.to_set().contains(key));
    assert(v.after_get(key, now).order.to_set() =~= v.after_get(key, now).entries.dom());
}

/// Making room keeps the cache well-formed.
proof fn lemma_with_room_wf(v: CacheView, key: u64)
    requires
        v.wf(),
    ensures
        v.with_room_for(key).wf(),
        v.with_room_for(key).entries.contains_key(key) == v.entries.contains_key(key),
        !v.entries.contains_key(key) ==> v.with_room_for(key).order.len() < v.limit(),
{
    let room = v.with_room_for(key);
    if v.order.len() >= v.capacity && v.order.len() > 0 && !v.entries.contains_key(key) {
        let oldest = v.order[0];
        assert(v.order =~= seq![oldest] + v.order.skip(1));
        assert forall|k: u64| room.order.to_set().contains(k) <==> #[trigger] room.entries.dom().contains(
            k,
        ) by {
            if room.order.contains(k) {
                let i = choose|i: int| 0 <= i < room.order.len() && room.order[i] == k;
                assert(v.order[i + 1] == k);
                assert(v.order.to_set().contains(k));
            }
            if room.entries.dom().contains(k) {
                assert(v.order.to_set().contains(k));
                let i = choose|i: int| 0 <= i < v.order.len() && v.order[i] == k;
                assert(room.order[i - 1] == k);
            }
        }
        assert(room.order.to_set() =~= room.entries.dom());
        assert(v.order.to_set().contains(oldest));
    }
}

/// Storing an answer keeps the cache well-formed.
proof fn lemma_after_insert_wf(v: CacheView, key: u64, response: VerifyResponseView, now: nat)
    requires
        v.wf(),
    ensures
        v.after_insert(key, response, now).wf(),
{
    let room = v.with_room_for(key);
    lemma_with_room_wf(v, key);
    lemma_without(room.order, key);
    without(room.order, key).lemma_push_to_set_commute(key);
    assert(room.order.contains(key) == room.order.to_set().contains(key));
    assert(v.after_insert(key, response, now).order.to_set() =~= v.after_insert(
        key,
        response,
        now,
    ).entries.dom());
}

/// Drop every occurrence of `key` from the queue, keeping the other keys in
/// their order.
fn remove_key(order: &mut VecDeque<u64>, key: u64)
    ensures
        final(order)@ == without(old(order)@, key),
{
    let ghost all = order@;
    let n: usize = order.len();
    let mut i: usize = 0;
    reveal(Seq::filter);
    assert(order@ =~= all.skip(0) + without(all.take(0), key));
    while i < n
        invariant
            i <= n,
            n == all.len(),
            order@ == all.skip(i as int) + without(all.take(i as int), key),
        decreases n - i,
    {
        let ghost kept = without(all.take(i as int), key);
        let front = order.pop_front();
        proof {
            reveal(Seq::filter);
            assert(all.take(i + 1).drop_last() =~= all.take(i as int));
            assert(all.skip(i as int).skip(1) =~= all.skip(i + 1));
            assert(order@ =~= all.skip(i + 1) + kept);
        }
        if let Some(k) = front {
            if k != key {
                order.push_back(k);
                assert(order@ =~= all.skip(i + 1) + kept.push(k));
            }
        }
        i = i + 1;
    }
    assert(all.take(n as int) =~= all);
    assert(order@ =~= without(all, key));
}

/// The bytes of a string as they enter a key: its UTF-8 form, closed by a byte
/// that UTF-8 never uses.
pub open spec fn str_bytes(s: Seq<char>) -> Seq<u8> {
    encode_utf8(s).push(0xff)
}

/// The bytes of an optional string as they enter a key: an eight-byte tag, and
/// the string where there is one.
pub open spec fn opt_bytes(s: Option<Seq<char>>) -> Seq<u8> {
    match s {
        None => seq![0u8, 0, 0, 0, 0, 0, 0, 0],
        Some(t) => seq![1u8, 0, 0, 0, 0, 0, 0, 0] + str_bytes(t),
    }
}

/// The bytes of a whole request as they enter its key.
pub open spec fn request_bytes(
    token: Seq<char>,
    context_path: Option<Seq<char>>,
    session_name: Option<Seq<char>>,
    action: Seq<char>,
) -> Seq<u8> {
    str_bytes(token) + (opt_bytes(context_path) + (opt_bytes(session_name) + str_bytes(action)))
}

/// The key of a request: the hash of its bytes.
pub open spec fn request_key(
    token: Seq<char>,
    context_path: Option<Seq<char>>,
    session_name: Option<Seq<char>>,
    action: Seq<char>,
) -> u64 {
    DefaultHasher::spec_finish(
        seq![request_bytes(token, context_path, session_name, action)],
    )
}

fn push_str_bytes(out: &mut Vec<u8>, s: &str)
    ensures
        final(out)@ == old(out)@ + str_bytes(s@),
{
    let bytes = s.as_bytes();
    let ghost start = out@;
    let mut i: usize = 0;
    while i < bytes.len()
        invariant
            i <= bytes@.len(),
            bytes@ == encode_utf8(s@),
            out@ =~= start + bytes@.take(i as int),
        decreases bytes@.len() - i,
    {
        out.push(bytes[i]);
        i = i + 1;
    }
    out.push(0xff);
    assert(out@ =~= start + str_bytes(s@));
}

fn push_opt_bytes(out: &mut Vec<u8>, s: Option<&str>)
    ensures
        final(out)@ == old(out)@ + opt_bytes(text::opt_str_text(s)),
{
    let ghost start = out@;
    let tag: u8 = if s.is_some() {
        1
    } else {
        0
    };
    out.push(tag);
    out.push(0);
    out.push(0);
    out.push(0);
    out.push(0);
    out.push(0);
    out.push(0);
    out.push(0);
    assert(out@ =~= start + seq![tag, 0u8, 0, 0, 0, 0, 0, 0]);
    if let Some(t) = s {
        push_str_bytes(out, t);
        assert(out@ =~= start + opt_bytes(text::opt_str_text(s)));
    }
}

/// A cache of verification answers, keyed by a 64-bit hash of the request.
pub struct TtlLru {
    map: HashMap<u64, Entry>,
    /// Front: used longest ago. Back: used most recently.
    order: VecDeque<u64>,
    ttl: u128,
    capacity: usize,
}

impl View for TtlLru {
    type V = CacheView;

    closed spec fn view(&self) -> CacheView {
        CacheView {
            entries: self.map@.map_values(|e: Entry| e@),
            order: self.order@,
            ttl: self.ttl as nat,
            capacity: self.capacity as nat,
        }
    }
}

impl TtlLru {
    /// An empty cache with the standard capacity and time to live.
    pub fn new() -> (r: Self)
        ensures
            r@.wf(),
            r@ == (CacheView {
                entries: Map::empty(),
                order: Seq::empty(),
                ttl: TTL as nat,
                capacity: CAPACITY as nat,
            }),
    {
        Self::with_params(CAPACITY, TTL)
    }

    /// An empty cache that keeps `capacity` answers for `ttl` nanoseconds.
    pub fn with_params(capacity: usize, ttl: u128) -> (r: Self)
        ensures
            r@.wf(),
            r@ == (CacheView {
                entries: Map::empty(),
                order: Seq::empty(),
                ttl: ttl as nat,
                capacity: capacity as nat,
            }),
    {
        let r = TtlLru { map: HashMap::new(), order: VecDeque::new(), ttl, capacity };
        assert(r@.entries =~= Map::empty());
        assert(r@.order.to_set() =~= r@.entries.dom());
        r
    }

    /// The key of a request. The same request always has the same key.
    pub fn key(
        token: &str,
        context_path: Option<&str>,
        session_name: Option<&str>,
        action: &str,
    ) -> (r: u64)
        ensures
            r == request_key(
                token@,
                text::opt_str_text(context_path),
                text::opt_str_text(session_name),
                action@,
            ),
    {
        let mut bytes: Vec<u8> = Vec::new();
        push_str_bytes(&mut bytes, token);
        push_opt_bytes(&mut bytes, context_path);
        push_opt_bytes(&mut bytes, session_name);
        push_str_bytes(&mut bytes, action);
        let mut h = DefaultHasher::new();
        h.write(bytes.as_slice());
        proof {
            let ghost whole = request_bytes(
                token@,
                text::opt_str_text(context_path),
                text::opt_str_text(session_name),
                action@,
            );
            assert(bytes@ =~= whole);
            assert(h@ =~= seq![whole]);
        }
        h.finish()
    }

    /// The answer stored under `key`, unless it has outlived the time to live.
    pub fn get(&mut self, key: u64, now: u128) -> (r: Option<VerifyResponse>)
        requires
            old(self)@.wf(),
        ensures
            final(self)@.wf(),
            final(self)@ == old(self)@.after_get(key, now as nat),
            match r {
                Some(resp) => old(self)@.lookup(key, now as nat) == Some(resp@),
                None => old(self)@.lookup(key, now as nat) is None,
            },
    {
        proof {
            lemma_after_get_wf(self@, key, now as nat);
        }
        let ghost before = self@;
        let (expired, response) = match self.map.get(&key) {
            Some(entry) => (
                now.saturating_sub(entry.inserted_at) > self.ttl,
                entry.response.clone(),
            ),
            None => {
                return None;
            },
        };
        remove_key(&mut self.order, key);
        if expired {
            self.map.remove(&key);
            assert(self@ =~= before.after_get(key, now as nat));
            return None;
        }
        self.order.push_back(key);
        assert(self@ =~= before.after_get(key, now as nat));
        Some(response)
    }

    /// Store an answer under `key`. Where the cache is full and the key is new,
    /// the key used longest ago leaves.
    pub fn insert(&mut self, key: u64, response: VerifyResponse, now: u128)
        requires
            old(self)@.wf(),
        ensures
            final(self)@.wf(),
            final(self)@ == old(self)@.after_insert(key, response@, now as nat),
    {
        let ghost before = self@;
        proof {
            lemma_after_insert_wf(before, key, response@, now as nat);
            lemma_order_len(before);
            assert(before.entries.dom() =~= self.map@.dom());
            assert(before.order.subrange(1, before.order.len() as int) =~= before.order.skip(1));
        }
        if self.map.len() >= self.capacity && !self.map.contains_key(&key) {
            if let Some(oldest) = self.order.pop_front() {
                self.map.remove(&oldest);
            }
        }
        assert(self@ =~= before.with_room_for(key));
        remove_key(&mut self.order, key);
        self.order.push_back(key);
        self.map.insert(key, Entry { response, inserted_at: now });
        assert(self@ =~= before.after_insert(key, response@, now as nat));
    }

    /// Drop every entry.
    pub fn clear(&mut self)
        ensures
            final(self)@.wf(),
            final(self)@ == old(self)@.emptied(),
    {
        self.map.clear();
        self.order.clear();
        assert(self@ =~= old(self)@.emptied());
        assert(self@.order.to_set() =~= self@.entries.dom());
    }

    /// The number of entries, expired ones included.
    pub fn len(&self) -> (n: usize)
        ensures
            n == self@.entries.len(),
    {
        assert(self@.entries.dom() =~= self.map@.dom());
        self.map.len()
    }
}

impl Default for TtlLru {
    fn default() -> (r: Self)
        ensures
            r@.wf(),
            r@ == (CacheView {
                entries: Map::empty(),
                order: Seq::empty(),
                ttl: TTL as nat,
                capacity: CAPACITY as nat,
            }),
    {
        Self::new()
    }
}

/// UTF-8 never uses the byte 0xff.
proof fn lemma_no_ff(s: Seq<char>)
    ensures
        forall|i: int| 0 <= i < encode_utf8(s).len() ==> encode_utf8(s)[i] != 0xff,
    decreases s.len(),
{
    if s.len() > 0 {
        lemma_no_ff(s.drop_first());
        char_is_scalar(s[0]);
        let c = s[0] as u32;
        assert((c & 0x7F) as u8 != 0xff) by (bit_vector);
        assert(0xC0 | ((c >> 6) & 0x1F) as u8 != 0xff) by (bit_vector);
        assert(0xE0 | ((c >> 12) & 0x0F) as u8 != 0xff) by (bit_vector);
        assert(0xF0 | ((c >> 18) & 0x7) as u8 != 0xff) by (bit_vector);
        assert(0x80 | (c & 0x3F) as u8 != 0xff) by (bit_vector);
        assert(0x80 | ((c >> 6) & 0x3F) as u8 != 0xff) by (bit_vector);
        assert(0x80 | ((c >> 12) & 0x3F) as u8 != 0xff) by (bit_vector);
        assert forall|i: int| 0 <= i < encode_utf8(s).len() implies encode_utf8(s)[i] != 0xff by {
            let head = encode_scalar(c);
            if i >= head.len() {
                assert(encode_utf8(s)[i] == encode_utf8(s.drop_first())[i - head.len()]);
            } else {
                assert(encode_utf8(s)[i] == head[i]);
            }
        }
    }
}

/// A string can be read back off the front of the bytes.
proof fn lemma_str_bytes_prefix(a: Seq<char>, b: Seq<char>, x: Seq<u8>, y: Seq<u8>)
    requires
        str_bytes(a) + x == str_bytes(b) + y,
    ensures
        a == b,
        x == y,
{
    let ea = encode_utf8(a);
    let eb = encode_utf8(b);
    lemma_no_ff(a);
    lemma_no_ff(b);
    let whole = str_bytes(a) + x;
    assert(whole[ea.len() as int] == 0xff);
    assert((str_bytes(b) + y)[eb.len() as int] == 0xff);
    if ea.len() < eb.len() {
        assert((str_bytes(b) + y)[ea.len() as int] == eb[ea.len() as int]);
    } else if eb.len() < ea.len() {
        assert(whole[eb.len() as int] == ea[eb.len() as int]);
    }
    assert(ea =~= eb) by {
        assert forall|i: int| 0 <= i < ea.len() implies ea[i] == eb[i] by {
            assert(whole[i] == ea[i]);
            assert((str_bytes(b) + y)[i] == eb[i]);
        }
    }
    encode_utf8_decode_utf8(a);
    encode_utf8_decode_utf8(b);
    assert(x =~= whole.skip(str_bytes(a).len() as int));
    assert(y =~= (str_bytes(b) + y).skip(str_bytes(b).len() as int));
}

/// An optional string can be read back off the front of the bytes.
proof fn lemma_opt_bytes_prefix(
    a: Option<Seq<char>>,
    b: Option<Seq<char>>,
    x: Seq<u8>,
    y: Seq<u8>,
)
    requires
        opt_bytes(a) + x == opt_bytes(b) + y,
    ensures
        a == b,
        x == y,
{
    let whole = opt_bytes(a) + x;
    assert(whole[0] == opt_bytes(a)[0]);
    assert((opt_bytes(b) + y)[0] == opt_bytes(b)[0]);
    match (a, b) {
        (Some(s), Some(t)) => {
            assert(whole.skip(8) =~= str_bytes(s) + x);
            assert((opt_bytes(b) + y).skip(8) =~= str_bytes(t) + y);
            lemma_str_bytes_prefix(s, t, x, y);
        },
        (None, None) => {
            assert(whole.skip(8) =~= x);
            assert((opt_bytes(b) + y).skip(8) =~= y);
        },
        _ => {},
    }
}

/// The bytes that are hashed tell requests apart: two requests with the same
/// bytes agree in all four fields.
pub proof fn law_key_bytes_discriminate(
    token1: Seq<char>,
    context1: Option<Seq<char>>,
    session1: Option<Seq<char>>,
    action1: Seq<char>,
    token2: Seq<char>,
    context2: Option<Seq<char>>,
    session2: Option<Seq<char>>,
    action2: Seq<char>,
)
    requires
        request_bytes(token1, context1, session1, action1) == request_bytes(
            token2,
            context2,
            session2,
            action2,
        ),
    ensures
        token1 == token2,
        context1 == context2,
        session1 == session2,
        action1 == action2,
{
    let rest1 = opt_bytes(session1) + str_bytes(action1);
    let rest2 = opt_bytes(session2) + str_bytes(action2);
    lemma_str_bytes_prefix(token1, token2, opt_bytes(context1) + rest1, opt_bytes(context2) + rest2);
    lemma_opt_bytes_prefix(context1, context2, rest1, rest2);
    lemma_opt_bytes_prefix(session1, session2, str_bytes(action1), str_bytes(action2));
    assert(str_bytes(action1) + Seq::<u8>::empty() =~= str_bytes(action1));
    assert(str_bytes(action2) + Seq::<u8>::empty() =~= str_bytes(action2));
    lemma_str_bytes_prefix(action1, action2, Seq::empty(), Seq::empty());
}

/// A stored answer is found again until the time to live has passed, and not
/// after it.
pub proof fn law_insert_then_lookup(
    v: CacheView,
    key: u64,
    response: VerifyResponseView,
    stored_at: nat,
    now: nat,
)
    ensures
        now - stored_at <= v.ttl ==> v.after_insert(key, response, stored_at).lookup(key, now)
            == Some(response),
        now - stored_at > v.ttl ==> v.after_insert(key, response, stored_at).lookup(key, now)
            is None,
{
}

/// A lookup that finds an expired entry evicts it and nothing else.
pub proof fn law_expired_is_evicted(v: CacheView, key: u64, now: nat)
    requires
        v.wf(),
        v.entries.contains_key(key),
        now - v.entries[key].inserted_at > v.ttl,
    ensures
        v.lookup(key, now) is None,
        v.after_get(key, now).entries == v.entries.remove(key),
        !v.after_get(key, now).order.contains(key),
        v.after_get(key, now).order.len() == v.order.len() - 1,
{
    lemma_without(v.order, key);
    assert(v.order.to_set().contains(key));
}

/// A lookup never changes what another lookup finds, nor how long an entry
/// lives: reading does not renew the time to live.
pub proof fn law_lookup_is_read_only(v: CacheView, key: u64, now: nat, other: u64, later: nat)
    requires
        now <= later,
    ensures
        v.after_get(key, now).lookup(other, later) == v.lookup(other, later),
{
}

/// A cache never holds more answers than its capacity, or one answer where the
/// capacity is zero, and storing an answer grows it by at most one.
pub proof fn law_capacity_bound(v: CacheView, key: u64, response: VerifyResponseView, now: nat)
    requires
        v.wf(),
    ensures
        v.after_insert(key, response, now).wf(),
        v.after_insert(key, response, now).entries.len() <= v.limit(),
        v.limit() == (if v.capacity >= 1 {
            v.capacity
        } else {
            1
        }),
        v.after_insert(key, response, now).entries.len() <= v.entries.len() + 1,
{
    let after = v.after_insert(key, response, now);
    let room = v.with_room_for(key);
    lemma_after_insert_wf(v, key, response, now);
    lemma_order_len(after);
    lemma_order_len(v);
    lemma_with_room_wf(v, key);
    lemma_without(room.order, key);
}

/// Storing a new key in a full cache drops the key used longest ago; every
/// other entry stays as it was. Storing a known key, or storing into a cache
/// with room, drops nothing.
pub proof fn law_insert_evicts_oldest_only(
    v: CacheView,
    key: u64,
    response: VerifyResponseView,
    now: nat,
    other: u64,
)
    requires
        v.wf(),
        other != key,
        v.entries.contains_key(other),
    ensures
        ({
            let after = v.after_insert(key, response, now);
            let full = v.order.len() >= v.capacity && !v.entries.contains_key(key);
            &&& after.entries.contains_key(other) <==> !(full && other == v.order[0])
            &&& after.entries.contains_key(other) ==> after.entries[other] == v.entries[other]
        }),
{
    assert(v.order.to_set().contains(other));
    assert(v.order.len() > 0);
}

/// An entry that was just read survives the next store, unless the cache holds
/// a single answer.
pub proof fn law_recently_used_survives(
    v: CacheView,
    key: u64,
    now: nat,
    stored: u64,
    response: VerifyResponseView,
    stored_at: nat,
)
    requires
        v.wf(),
        v.fresh(key, now),
        v.limit() >= 2,
        stored != key,
    ensures
        v.after_get(key, now).after_insert(stored, response, stored_at).entries.contains_key(key),
        v.after_get(key, now).after_insert(stored, response, stored_at).entries[key]
            == v.entries[key],
{
    let read = v.after_get(key, now);
    lemma_after_get_wf(v, key, now);
    law_insert_evicts_oldest_only(read, stored, response, stored_at, key);
    lemma_without(v.order, key);
    let kept = without(v.order, key);
    assert(read.order == kept.push(key));
    if read.order[0] == key && read.order.len() >= read.capacity {
        if kept.len() > 0 {
            assert(read.order[0] == kept[0]);
            assert(kept.contains(kept[0]));
        }
    }
}

/// One use of a cache.
pub enum CacheUse {
    /// A lookup of `key` at the moment `now`.
    Get { key: u64, now: nat },
    /// A store of `response` under `key` at the moment `now`.
    Insert { key: u64, response: VerifyResponseView, now: nat },
}

impl CacheView {
    /// The cache after one use.
    pub open spec fn after_use(self, u: CacheUse) -> CacheView {
        match u {
            CacheUse::Get { key, now } => self.after_get(key, now),
            CacheUse::Insert { key, response, now } => self.after_insert(key, response, now),
        }
    }

    /// The cache after a series of uses.
    pub open spec fn after_uses(self, uses: Seq<CacheUse>) -> CacheView
        decreases uses.len(),
    {
        if uses.len() == 0 {
            self
        } else {
            self.after_uses(uses.drop_last()).after_use(uses.last())
        }
    }

    /// `key` is queued, with at most `n` keys used since.
    spec fn used_within(self, key: u64, n: int) -> bool {
        exists|before: Seq<u64>, after: Seq<u64>|
            #![trigger before + seq![key] + after]
            self.order == before + seq![key] + after && after.len() <= n
    }
}

/// Whether `u` leaves an entry for `key` that was stored at the moment `at`
/// alone: it neither stores under that key nor finds the entry expired.
pub open spec fn spares(u: CacheUse, key: u64, at: nat, ttl: nat) -> bool {
    match u {
        CacheUse::Get { key: k, now } => k == key ==> now - at <= ttl,
        CacheUse::Insert { key: k, .. } => k != key,
    }
}

/// Taking a key out of the queue and putting it back at its end moves another
/// key by at most one place.
proof fn lemma_requeue(order: Seq<u64>, before: Seq<u64>, key: u64, after: Seq<u64>, moved: u64)
    requires
        order == before + seq![key] + after,
        moved != key,
    ensures
        without(order, moved) == without(before, moved) + seq![key] + without(after, moved),
        without(after, moved).len() <= after.len(),
{
    let keep = other_than(moved);
    reveal(Seq::filter);
    Seq::filter_distributes_over_add(before + seq![key], after, keep);
    Seq::filter_distributes_over_add(before, seq![key], keep);
    assert(seq![key].drop_last() =~= Seq::<u64>::empty());
    assert(seq![key].filter(keep) =~= seq![key]);
    after.lemma_filter_len(keep);
}

/// A use that spares a recently used entry keeps it, one place further back at
/// most.
proof fn lemma_use_keeps_recent(v: CacheView, key: u64, entry: EntryView, n: int, u: CacheUse)
    requires
        v.wf(),
        v.used_within(key, n),
        0 <= n < v.limit() - 1,
        v.entries.contains_key(key),
        v.entries[key] == entry,
        spares(u, key, entry.inserted_at, v.ttl),
    ensures
        v.after_use(u).wf(),
        v.after_use(u).capacity == v.capacity,
        v.after_use(u).ttl == v.ttl,
        v.after_use(u).used_within(key, n + 1),
        v.after_use(u).entries.contains_key(key),
        v.after_use(u).entries[key] == entry,
{
    let (before, after) = choose|before: Seq<u64>, after: Seq<u64>|
        #![trigger before + seq![key] + after]
        v.order == before + seq![key] + after && after.len() <= n;
    let result = v.after_use(u);
    assert(v.order.len() == before.len() + 1 + after.len());
    match u {
        CacheUse::Get { key: k, now } => {
            lemma_after_get_wf(v, k, now);
            if !v.entries.contains_key(k) {
                assert(result.order == before + seq![key] + after);
            } else if k == key {
                let rest = without(v.order, k);
                assert(result.order =~= rest + seq![key] + Seq::<u64>::empty());
            } else {
                lemma_requeue(v.order, before, key, after, k);
                let b = without(before, k);
                let a = without(after, k);
                if v.fresh(k, now) {
                    assert(result.order =~= b + seq![key] + a.push(k));
                } else {
                    assert(result.order =~= b + seq![key] + a);
                }
            }
        },
        CacheUse::Insert { key: k, response, now } => {
            lemma_after_insert_wf(v, k, response, now);
            let room = v.with_room_for(k);
            let evicts = v.order.len() >= v.capacity && !v.entries.contains_key(k);
            let before2 = if evicts {
                before.skip(1)
            } else {
                before
            };
            assert(room.order =~= before2 + seq![key] + after);
            assert(v.order[before.len() as int] == key);
            if evicts {
                assert(v.order[0] == before[0]);
            }
            lemma_requeue(room.order, before2, key, after, k);
            let b = without(before2, k);
            let a = without(after, k);
            assert(result.order =~= b + seq![key] + a.push(k));
        },
    }
}

proof fn lemma_uses_keep_recent(v: CacheView, key: u64, entry: EntryView, uses: Seq<CacheUse>)
    requires
        v.wf(),
        v.used_within(key, 0),
        v.entries.contains_key(key),
        v.entries[key] == entry,
        uses.len() < v.limit(),
        forall|i: int|
            0 <= i < uses.len() ==> spares(#[trigger] uses[i], key, entry.inserted_at, v.ttl),
    ensures
        v.after_uses(uses).wf(),
        v.after_uses(uses).capacity == v.capacity,
        v.after_uses(uses).ttl == v.ttl,
        v.after_uses(uses).used_within(key, uses.len() as int),
        v.after_uses(uses).entries.contains_key(key),
        v.after_uses(uses).entries[key] == entry,
    decreases uses.len(),
{
    if uses.len() > 0 {
        let earlier = uses.drop_last();
        assert forall|i: int| 0 <= i < earlier.len() implies spares(
            #[trigger] earlier[i],
            key,
            entry.inserted_at,
            v.ttl,
        ) by {
            assert(earlier[i] == uses[i]);
        }
        lemma_uses_keep_recent(v, key, entry, earlier);
        assert(spares(uses[uses.len() - 1], key, entry.inserted_at, v.ttl));
        lemma_use_keeps_recent(
            v.after_uses(earlier),
            key,
            entry,
            uses.len() - 1,
            uses.last(),
        );
    }
}

/// Least recently used: a stored answer is still found, within its time to
/// live, after any series of other uses that is shorter than the capacity.
pub proof fn law_recent_outlasts_other_uses(
    v: CacheView,
    key: u64,
    response: VerifyResponseView,
    at: nat,
    uses: Seq<CacheUse>,
    now: nat,
)
    requires
        v.wf(),
        uses.len() < v.limit(),
        forall|i: int| 0 <= i < uses.len() ==> spares(#[trigger] uses[i], key, at, v.ttl),
        now - at <= v.ttl,
    ensures
        v.after_insert(key, response, at).after_uses(uses).lookup(key, now) == Some(response),
{
    let first = v.after_insert(key, response, at);
    lemma_after_insert_wf(v, key, response, at);
    let rest = without(v.with_room_for(key).order, key);
    assert(first.order =~= rest + seq![key] + Seq::<u64>::empty());
    lemma_uses_keep_recent(first, key, EntryView { response, inserted_at: at }, uses);
}

/// After everything was dropped, every lookup misses.
pub proof fn law_clear_forgets(v: CacheView, key: u64, now: nat)
    ensures
        v.emptied().wf(),
        v.emptied().lookup(key, now) is None,
        v.emptied().entries.len() == 0,
{
    assert(v.emptied().order.to_set() =~= v.emptied().entries.dom());
}

/// A lookup gives an answer exactly where the key has an entry that is no older
/// than the time to live, and then that entry's answer.
pub proof fn law_lookup_finds_fresh_entries(v: CacheView, key: u64, now: nat)
    ensures
        v.lookup(key, now) is Some <==> v.entries.contains_key(key) && now
            <= v.entries[key].inserted_at + v.ttl,
        v.lookup(key, now) is Some ==> v.lookup(key, now)->Some_0 == v.entries[key].response,
{
}

/// Using a cache changes neither its time to live nor its capacity.
pub proof fn law_limits_are_fixed(v: CacheView, u: CacheUse)
    ensures
        v.after_use(u).ttl == v.ttl,
        v.after_use(u).capacity == v.capacity,
        v.emptied().ttl == v.ttl,
        v.emptied().capacity == v.capacity,
{
}

/// Storing under one key never brings an answer to another, nor another answer:
/// what is found there was found there before.
pub proof fn law_insert_answers_its_own_key_only(
    v: CacheView,
    key: u64,
    response: VerifyResponseView,
    at: nat,
    other: u64,
    now: nat,
)
    requires
        other != key,
    ensures
        v.after_insert(key, response, at).lookup(other, now) is Some ==> v.after_insert(
            key,
            response,
            at,
        ).lookup(other, now) == v.lookup(other, now),
{
}

/// A lookup brings no answer to any key, at any moment.
pub proof fn law_get_adds_nothing(v: CacheView, key: u64, at: nat, other: u64, now: nat)
    ensures
        v.after_get(key, at).lookup(other, now) is Some ==> v.after_get(key, at).lookup(other, now)
            == v.lookup(other, now),
        v.after_get(key, at).entries.dom().subset_of(v.entries.dom()),
{
}

/// The key of a request is the hash of the bytes of all its four fields.
pub proof fn law_key_hashes_every_field(
    token: Seq<char>,
    context_path: Option<Seq<char>>,
    session_name: Option<Seq<char>>,
    action: Seq<char>,
)
    ensures
        request_key(token, context_path, session_name, action) == DefaultHasher::spec_finish(
            seq![request_bytes(token, context_path, session_name, action)],
        ),
{
}

/// Whether the hash tells these two byte strings apart, if they differ.
pub open spec fn no_collision(a: Seq<u8>, b: Seq<u8>) -> bool {
    DefaultHasher::spec_finish(seq![a]) == DefaultHasher::spec_finish(seq![b]) ==> a == b
}

/// Where the hash does not collide, requests with the same key agree in token,
/// context path, session name and action.
pub proof fn law_key_discriminates(
    token1: Seq<char>,
    context1: Option<Seq<char>>,
    session1: Option<Seq<char>>,
    action1: Seq<char>,
    token2: Seq<char>,
    context2: Option<Seq<char>>,
    session2: Option<Seq<char>>,
    action2: Seq<char>,
)
    requires
        no_collision(
            request_bytes(token1, context1, session1, action1),
            request_bytes(token2, context2, session2, action2),
        ),
    ensures
        request_key(token1, context1, session1, action1) == request_key(
            token2,
            context2,
            session2,
            action2,
        ) <==> token1 == token2 && context1 == context2 && session1 == session2 && action1
            == action2,
{
    if request_key(token1, context1, session1, action1) == request_key(
        token2,
        context2,
        session2,
        action2,
    ) {
        law_key_bytes_discriminate(
            token1,
            context1,
            session1,
            action1,
            token2,
            context2,
            session2,
            action2,
        );
    }
}

/// The standard cache keeps 1024 answers for three seconds.
pub proof fn law_standard_limits()
    ensures
        CAPACITY == 1024,
        TTL == 3 * 1_000_000_000,
{
}

} // verus!
