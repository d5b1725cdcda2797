//! A keyed store of samples in which every entry expires a fixed time after
//! it was written.
//!
//! Keys are strings and the store keeps its entries ordered by key, greatest
//! first, so that with keys that sort chronologically the newest sample is
//! the first entry. Times are readings of a monotonic clock in nanoseconds.

use crate::text::{
    lemma_lex_asymmetric, lemma_lex_irreflexive, lemma_lex_total, lemma_lex_transitive, lex_less,
    str_equal, str_less,
};
use std::time::Instant;
use vstd::prelude::*;

verus! {

/// Nanoseconds in one second.
pub const NANOS_PER_SECOND: u128 = 1_000_000_000;

/// How many of the greatest keys `get_cached_data` looks at.
pub const CACHED_DATA_WINDOW: usize = 5;

/// One stored sample as contracts speak of it: its key, its value and the
/// clock reading at which it was written.
pub struct Entry<V> {
    pub key: Seq<char>,
    pub value: V,
    pub inserted: nat,
}

/// The keys of `s` fall strictly from one entry to the next, so no key
/// occurs twice.
pub open spec fn descending<V>(s: Seq<Entry<V>>) -> bool {
    forall|i: int, j: int|
        0 <= i < j < s.len() ==> lex_less(#[trigger] s[j].key, #[trigger] s[i].key)
}

/// An entry written at `inserted` is live at `now` while its age is at most
/// `ttl`. A clock reading before the write counts as age zero.
pub open spec fn is_live(inserted: nat, ttl: nat, now: nat) -> bool {
    now - inserted <= ttl
}

/// The entries whose key comes after `key`.
pub open spec fn key_after<V>(key: Seq<char>) -> spec_fn(Entry<V>) -> bool {
    |e: Entry<V>| lex_less(key, e.key)
}

/// The entries whose key comes before `key`.
pub open spec fn key_before<V>(key: Seq<char>) -> spec_fn(Entry<V>) -> bool {
    |e: Entry<V>| lex_less(e.key, key)
}

/// The entries that are live at `now`.
pub open spec fn live_at<V>(ttl: nat, now: nat) -> spec_fn(Entry<V>) -> bool {
    |e: Entry<V>| is_live(e.inserted, ttl, now)
}

/// The first entry of `s` stored under `key`.
pub open spec fn lookup<V>(s: Seq<Entry<V>>, key: Seq<char>) -> Option<Entry<V>>
    decreases s.len(),
{
    if s.len() == 0 {
        None
    } else if s[0].key == key {
        Some(s[0])
    } else {
        lookup(s.drop_first(), key)
    }
}

/// What a read of `key` at `now` yields: the stored value while it is live.
pub open spec fn value_at<V>(s: Seq<Entry<V>>, ttl: nat, key: Seq<char>, now: nat) -> Option<V> {
    match lookup(s, key) {
        Some(e) => if is_live(e.inserted, ttl, now) {
            Some(e.value)
        } else {
            None
        },
        None => None,
    }
}

/// The store after writing `value` under `key` at `now`: an earlier entry
/// under that key is gone and the new one stands where the order puts it.
pub open spec fn put<V>(s: Seq<Entry<V>>, key: Seq<char>, value: V, now: nat) -> Seq<Entry<V>> {
    s.filter(key_after(key)) + seq![Entry { key, value, inserted: now }] + s.filter(
        key_before(key),
    )
}

/// The store without the entries that have expired at `now`.
pub open spec fn purge<V>(s: Seq<Entry<V>>, ttl: nat, now: nat) -> Seq<Entry<V>> {
    s.filter(live_at(ttl, now))
}

/// The first `n` live entries, greatest key first.
pub open spec fn recent<V>(s: Seq<Entry<V>>, ttl: nat, now: nat, n: nat) -> Seq<Entry<V>> {
    let live = purge(s, ttl, now);
    if n < live.len() {
        live.take(n as int)
    } else {
        live
    }
}

/// The live entries among the first `window` entries.
pub open spec fn window_live<V>(s: Seq<Entry<V>>, ttl: nat, now: nat, window: nat) -> Seq<
    Entry<V>,
> {
    if window < s.len() {
        purge(s.take(window as int), ttl, now)
    } else {
        purge(s, ttl, now)
    }
}

/// `copies` holds, position by position, a clone of the value of each entry
/// of `entries`.
pub open spec fn clones_of<V: Clone>(entries: Seq<Entry<V>>, copies: Seq<V>) -> bool {
    &&& copies.len() == entries.len()
    &&& forall|i: int| 0 <= i < entries.len() ==> cloned(#[trigger] entries[i].value, copies[i])
}

/// A filter keeps a sequence whole when every element passes.
proof fn lemma_filter_keeps_all<A>(s: Seq<A>, p: spec_fn(A) -> bool)
    requires
        forall|i: int| 0 <= i < s.len() ==> p(#[trigger] s[i]),
    ensures
        s.filter(p) == s,
    decreases s.len(),
{
    reveal(Seq::filter);
    if s.len() > 0 {
        lemma_filter_keeps_all(s.drop_last(), p);
    }
}

/// A filter leaves nothing when no element passes.
proof fn lemma_filter_drops_all<A>(s: Seq<A>, p: spec_fn(A) -> bool)
    requires
        forall|i: int| 0 <= i < s.len() ==> !p(#[trigger] s[i]),
    ensures
        s.filter(p) == Seq::<A>::empty(),
    decreases s.len(),
{
    reveal(Seq::filter);
    if s.len() > 0 {
        lemma_filter_drops_all(s.drop_last(), p);
    }
}

/// A filter that passes exactly the first `i` elements yields that prefix;
/// one that passes exactly the others yields the rest.
proof fn lemma_filter_at_boundary<A>(s: Seq<A>, p: spec_fn(A) -> bool, i: int, head: bool)
    requires
        0 <= i <= s.len(),
        forall|j: int| 0 <= j < i ==> p(#[trigger] s[j]) == head,
        forall|j: int| i <= j < s.len() ==> p(#[trigger] s[j]) == !head,
    ensures
        s.filter(p) == if head {
            s.take(i)
        } else {
            s.skip(i)
        },
{
    let a = s.take(i);
    let b = s.skip(i);
    assert(s =~= a + b);
    Seq::filter_distributes_over_add(a, b, p);
    if head {
        lemma_filter_keeps_all(a, p);
        lemma_filter_drops_all(b, p);
    } else {
        lemma_filter_drops_all(a, p);
        lemma_filter_keeps_all(b, p);
    }
}

/// Where the new entry goes. With `i` the first position whose key does not
/// come after `key`, `put` keeps the `i` entries before it, then holds the
/// new entry, then the entries from `i` on, less one stored under `key`.
pub proof fn lemma_put_at<V>(s: Seq<Entry<V>>, key: Seq<char>, value: V, now: nat, i: int)
    requires
        descending(s),
        0 <= i <= s.len(),
        forall|j: int| 0 <= j < i ==> lex_less(key, #[trigger] s[j].key),
        i < s.len() ==> !lex_less(key, s[i].key),
    ensures
        put(s, key, value, now) == s.take(i) + seq![Entry { key, value, inserted: now }] + s.skip(
            if i < s.len() && s[i].key == key {
                i + 1
            } else {
                i
            },
        ),
{
    let after = key_after::<V>(key);
    let before = key_before::<V>(key);
    assert forall|j: int| i <= j < s.len() implies !after(#[trigger] s[j]) by {
        if j > i && lex_less(key, s[j].key) {
            lemma_lex_transitive(key, s[j].key, s[i].key);
        }
    }
    lemma_filter_at_boundary(s, after, i, true);
    let k = if i < s.len() && s[i].key == key {
        i + 1
    } else {
        i
    };
    assert forall|j: int| 0 <= j < k implies !before(#[trigger] s[j]) by {
        if j < i {
            if lex_less(s[j].key, key) {
                lemma_lex_asymmetric(key, s[j].key);
            }
        } else {
            lemma_lex_irreflexive(key);
        }
    }
    assert forall|j: int| k <= j < s.len() implies before(#[trigger] s[j]) by {
        if j == i {
            lemma_lex_total(key, s[i].key);
        } else {
            lemma_lex_total(key, s[i].key);
            if s[i].key != key {
                lemma_lex_transitive(s[j].key, s[i].key, key);
            }
        }
    }
    lemma_filter_at_boundary(s, before, k, false);
}

/// A sample whose key is greater than every key of the store becomes its
/// first entry, and the others follow as they were.
pub proof fn lemma_put_newest_first<V>(s: Seq<Entry<V>>, key: Seq<char>, value: V, now: nat)
    requires
        descending(s),
        forall|i: int| 0 <= i < s.len() ==> lex_less(#[trigger] s[i].key, key),
    ensures
        put(s, key, value, now) == seq![Entry { key, value, inserted: now }] + s,
{
    if s.len() > 0 {
        lemma_lex_asymmetric(s[0].key, key);
        lemma_lex_irreflexive(key);
    }
    lemma_put_at(s, key, value, now, 0);
}

/// Writing keeps the keys falling.
pub proof fn lemma_put_descending<V>(s: Seq<Entry<V>>, key: Seq<char>, value: V, now: nat)
    requires
        descending(s),
    ensures
        descending(put(s, key, value, now)),
{
    let a = s.filter(key_after(key));
    let r = put(s, key, value, now);
    lemma_filter_ordered(s, key_after(key));
    lemma_filter_ordered(s, key_before(key));
    assert forall|i: int, j: int| 0 <= i < j < r.len() implies lex_less(
        #[trigger] r[j].key,
        #[trigger] r[i].key,
    ) by {
        if i < a.len() {
            s.lemma_filter_pred(key_after(key), i);
        }
        if j > a.len() {
            s.lemma_filter_pred(key_before(key), j - a.len() - 1);
        }
        if i < a.len() && j > a.len() {
            lemma_lex_transitive(r[j].key, key, r[i].key);
        }
    }
}

/// A filter of a falling sequence is falling.
proof fn lemma_filter_ordered<V>(s: Seq<Entry<V>>, p: spec_fn(Entry<V>) -> bool)
    requires
        descending(s),
    ensures
        descending(s.filter(p)),
    decreases s.len(),
{
    reveal(Seq::filter);
    if s.len() > 0 {
        let front = s.drop_last();
        lemma_filter_ordered(front, p);
        let f = front.filter(p);
        if p(s.last()) {
            let r = f.push(s.last());
            assert forall|i: int, j: int| 0 <= i < j < r.len() implies lex_less(
                #[trigger] r[j].key,
                #[trigger] r[i].key,
            ) by {
                if j == f.len() {
                    front.lemma_filter_contains_rev(p, f[i]);
                    let k = choose|k: int| 0 <= k < front.len() && front[k] == f[i];
                }
            }
        }
    }
}

/// A read skips leading entries that are stored under other keys.
proof fn lemma_lookup_skips<V>(a: Seq<Entry<V>>, rest: Seq<Entry<V>>, key: Seq<char>)
    requires
        forall|i: int| 0 <= i < a.len() ==> #[trigger] a[i].key != key,
    ensures
        lookup(a + rest, key) == lookup(rest, key),
    decreases a.len(),
{
    if a.len() == 0 {
        assert(a + rest =~= rest);
    } else {
        assert((a + rest).drop_first() =~= a.drop_first() + rest);
        lemma_lookup_skips(a.drop_first(), rest, key);
    }
}

/// A read finds an entry only under its own key, and only an entry of the
/// sequence.
proof fn lemma_lookup_found<V>(s: Seq<Entry<V>>, key: Seq<char>)
    ensures
        lookup(s, key) matches Some(e) ==> e.key == key && s.contains(e),
        lookup(s, key) is None ==> forall|i: int| 0 <= i < s.len() ==> #[trigger] s[i].key != key,
    decreases s.len(),
{
    if s.len() > 0 {
        if s[0].key == key {
            assert(s.contains(s[0]));
        } else {
            lemma_lookup_found(s.drop_first(), key);
            if let Some(e) = lookup(s.drop_first(), key) {
                let k = choose|k: int| 0 <= k < s.drop_first().len() && s.drop_first()[k] == e;
                assert(s[k + 1] == e);
            }
            assert forall|i: int| 0 <= i < s.len() && lookup(s, key) is None implies #[trigger] s[
                i
            ].key != key by {
                if i > 0 {
                    assert(s.drop_first()[i - 1] == s[i]);
                }
            }
        }
    }
}

/// In a falling sequence a filter keeps what a read finds exactly when the
/// entry passes, and never brings another entry under that key to light.
proof fn lemma_lookup_filter<V>(s: Seq<Entry<V>>, p: spec_fn(Entry<V>) -> bool, key: Seq<char>)
    requires
        descending(s),
    ensures
        lookup(s.filter(p), key) == match lookup(s, key) {
            Some(e) => if p(e) {
                Some(e)
            } else {
                None
            },
            None => None,
        },
    decreases s.len(),
{
    if s.len() == 0 {
        lemma_filter_drops_all(s, p);
    } else {
        let rest = s.drop_first();
        assert(s =~= seq![s[0]] + rest);
        rest.lemma_filter_prepend(s[0], p);
        assert(descending(rest)) by {
            assert forall|i: int, j: int| 0 <= i < j < rest.len() implies lex_less(
                #[trigger] rest[j].key,
                #[trigger] rest[i].key,
            ) by {
                assert(rest[i] == s[i + 1] && rest[j] == s[j + 1]);
            }
        }
        lemma_lookup_filter(rest, p, key);
        if s[0].key == key {
            if p(s[0]) {
                assert((seq![s[0]] + rest.filter(p))[0] == s[0]);
            } else {
                assert(Seq::<Entry<V>>::empty() + rest.filter(p) =~= rest.filter(p));
                lemma_lookup_found(rest, key);
                if let Some(e) = lookup(rest, key) {
                    let k = choose|k: int| 0 <= k < rest.len() && rest[k] == e;
                    assert(rest[k] == s[k + 1]);
                    assert(lex_less(s[k + 1].key, s[0].key));
                    lemma_lex_irreflexive(key);
                }
            }
        } else {
            if p(s[0]) {
                lemma_lookup_skips(seq![s[0]], rest.filter(p), key);
            } else {
                assert(Seq::<Entry<V>>::empty() + rest.filter(p) =~= rest.filter(p));
            }
        }
    }
}

/// A value that was written is read back unchanged for as long as it is
/// live, whatever the time-to-live: at the instant of the write, and at any
/// later reading whose distance from the write is within the time-to-live.
pub proof fn lemma_read_after_write<V>(
    s: Seq<Entry<V>>,
    ttl: nat,
    key: Seq<char>,
    value: V,
    now: nat,
    later: nat,
)
    requires
        later - now <= ttl,
    ensures
        value_at(put(s, key, value, now), ttl, key, now) == Some(value),
        value_at(put(s, key, value, now), ttl, key, later) == Some(value),
{
    let a = s.filter(key_after(key));
    let b = s.filter(key_before(key));
    let entry = Entry { key, value, inserted: now };
    assert forall|i: int| 0 <= i < a.len() implies #[trigger] a[i].key != key by {
        s.lemma_filter_pred(key_after(key), i);
        lemma_lex_irreflexive(key);
    }
    assert(a + seq![entry] + b =~= a + (seq![entry] + b));
    lemma_lookup_skips(a, seq![entry] + b, key);
}

/// A write leaves what is stored under every other key as it was.
pub proof fn lemma_write_keeps_other_keys<V>(
    s: Seq<Entry<V>>,
    key: Seq<char>,
    value: V,
    now: nat,
    other: Seq<char>,
)
    requires
        descending(s),
        other != key,
    ensures
        lookup(put(s, key, value, now), other) == lookup(s, other),
{
    let a = s.filter(key_after(key));
    let b = s.filter(key_before(key));
    let entry = Entry { key, value, inserted: now };
    lemma_lookup_filter(s, key_after(key), other);
    lemma_lookup_filter(s, key_before(key), other);
    lemma_lookup_found(s, other);
    lemma_lookup_found(a, other);
    lemma_lex_total(key, other);
    if lex_less(key, other) {
        lemma_lex_asymmetric(key, other);
    }
    assert(a + seq![entry] + b =~= a + (seq![entry] + b));
    if lookup(a, other) is Some {
        let e = lookup(a, other)->0;
        let k = choose|k: int| 0 <= k < a.len() && a[k] == e;
        lemma_lookup_front(a, seq![entry] + b, other);
    } else {
        lemma_lookup_skips(a, seq![entry] + b, other);
        assert((seq![entry] + b).drop_first() =~= b);
    }
}

/// A read that succeeds in a leading part of a sequence succeeds the same
/// way in the whole.
proof fn lemma_lookup_front<V>(a: Seq<Entry<V>>, rest: Seq<Entry<V>>, key: Seq<char>)
    requires
        lookup(a, key) is Some,
    ensures
        lookup(a + rest, key) == lookup(a, key),
    decreases a.len(),
{
    if a.len() > 0 {
        if a[0].key != key {
            assert((a + rest).drop_first() =~= a.drop_first() + rest);
            lemma_lookup_front(a.drop_first(), rest, key);
        }
    }
}

/// An entry older than the time-to-live is not read, whether or not the
/// expired entries were deleted first: deleting them changes no read.
pub proof fn lemma_expired_is_absent<V>(s: Seq<Entry<V>>, ttl: nat, key: Seq<char>, now: nat)
    requires
        descending(s),
    ensures
        lookup(s, key) matches Some(e) && now - e.inserted > ttl ==> value_at(s, ttl, key, now)
            is None,
        value_at(purge(s, ttl, now), ttl, key, now) == value_at(s, ttl, key, now),
{
    lemma_lookup_filter(s, live_at(ttl, now), key);
}

/// The most recent values are at most `n`, each is live, and each is the
/// value of an entry of the store.
pub proof fn lemma_recent_bounded_and_live<V>(s: Seq<Entry<V>>, ttl: nat, now: nat, n: nat)
    ensures
        recent(s, ttl, now, n).len() <= n,
        forall|i: int|
            0 <= i < recent(s, ttl, now, n).len() ==> {
                let e = #[trigger] recent(s, ttl, now, n)[i];
                is_live(e.inserted, ttl, now) && s.contains(e)
            },
{
    let live = purge(s, ttl, now);
    assert forall|i: int| 0 <= i < recent(s, ttl, now, n).len() implies {
        let e = #[trigger] recent(s, ttl, now, n)[i];
        is_live(e.inserted, ttl, now) && s.contains(e)
    } by {
        s.lemma_filter_pred(live_at(ttl, now), i);
        s.lemma_filter_contains_rev(live_at(ttl, now), live[i]);
    }
}

/// Deleting the expired entries changes nothing about the most recent
/// values: it only bounds what the store holds.
pub proof fn lemma_purge_keeps_recent<V>(s: Seq<Entry<V>>, ttl: nat, now: nat, n: nat)
    ensures
        recent(purge(s, ttl, now), ttl, now, n) == recent(s, ttl, now, n),
        purge(s, ttl, now).len() <= s.len(),
{
    let live = purge(s, ttl, now);
    assert forall|i: int| 0 <= i < live.len() implies live_at::<V>(ttl, now)(
        #[trigger] live[i],
    ) by {
        s.lemma_filter_pred(live_at(ttl, now), i);
    }
    lemma_filter_keeps_all(live, live_at(ttl, now));
    s.lemma_filter_len(live_at(ttl, now));
}

/// The most recent values come greatest key first.
pub proof fn lemma_recent_descending<V>(s: Seq<Entry<V>>, ttl: nat, now: nat, n: nat)
    requires
        descending(s),
    ensures
        descending(recent(s, ttl, now, n)),
{
    lemma_filter_ordered(s, live_at(ttl, now));
}

/// One stored sample: its key, its value and the clock reading at which it
/// was written.
#[derive(Debug)]
struct Slot<V> {
    key: String,
    value: V,
    inserted: u128,
}

impl<V> Slot<V> {
    spec fn entry(self) -> Entry<V> {
        Entry { key: self.key@, value: self.value, inserted: self.inserted as nat }
    }
}

/// A store of samples under string keys with one time-to-live for all of
/// them.
#[derive(Debug)]
pub struct Cache<V> {
    data: Vec<Slot<V>>,
    ttl: u128,
    origin: Instant,
}

#[verifier::external_type_specification]
#[verifier::external_body]
pub struct ExInstant(Instant);

/// `Instant::now`: a reading of the monotonic clock. Nothing is claimed of
/// it.
#[verifier::external_body]
fn clock_start() -> (origin: Instant) {
    Instant::now()
}

/// `Instant::elapsed` and `Duration::as_nanos`: the nanoseconds that have
/// passed since `origin`. Nothing is claimed of the number.
#[verifier::external_body]
fn clock_read(origin: &Instant) -> (nanos: u128) {
    origin.elapsed().as_nanos()
}

/// The entries that a sequence of slots stands for.
spec fn entries_of<V>(slots: Seq<Slot<V>>) -> Seq<Entry<V>> {
    slots.map_values(|s: Slot<V>| s.entry())
}

impl<V> View for Cache<V> {
    type V = Seq<Entry<V>>;

    /// The entries, greatest key first.
    closed spec fn view(&self) -> Seq<Entry<V>> {
        entries_of(self.data@)
    }
}

impl<V> Cache<V> {
    /// The entries are ordered by key, greatest first.
    #[verifier::type_invariant]
    spec fn ordered(&self) -> bool {
        descending(self@)
    }
}

impl<V: Clone> Cache<V> {
    /// The time-to-live in nanoseconds.
    pub closed spec fn ttl_nanos(&self) -> nat {
        self.ttl as nat
    }

    /// The entries of a store are ordered by key, greatest first, so no key
    /// occurs twice.
    pub fn entries_descend(&self)
        ensures
            descending(self@),
    {
        proof {
            use_type_invariant(self);
        }
    }

    /// An empty store whose entries live for `ttl_seconds`.
    pub fn new(ttl_seconds: u64) -> (cache: Self)
        ensures
            cache@ == Seq::<Entry<V>>::empty(),
            cache.ttl_nanos() == ttl_seconds * NANOS_PER_SECOND,
    {
        let ttl: u128 = (ttl_seconds as u128) * NANOS_PER_SECOND;
        Cache { data: Vec::new(), ttl, origin: clock_start() }
    }

    /// The reading of this store's clock: nanoseconds since the store was
    /// made.
    pub fn now(&self) -> (nanos: u128) {
        clock_read(&self.origin)
    }

    /// Writes `value` under `key` as of the clock reading `now`, in place of
    /// an earlier entry under that key.
    pub fn insert_at(&mut self, key: String, value: V, now: u128)
        ensures
            final(self)@ == put(old(self)@, key@, value, now as nat),
            final(self).ttl_nanos() == old(self).ttl_nanos(),
    {
        proof {
            use_type_invariant(&*self);
        }
        let ghost before = self@;
        let mut data: Vec<Slot<V>> = Vec::new();
        core::mem::swap(&mut self.data, &mut data);
        let n = data.len();
        let mut i: usize = 0;
        while i < n
            invariant
                n == data.len(),
                i <= n,
                before == entries_of(data@),
                forall|j: int| 0 <= j < i ==> lex_less(key@, #[trigger] before[j].key),
            ensures
                i <= n,
                forall|j: int| 0 <= j < i ==> lex_less(key@, #[trigger] before[j].key),
                i < n ==> !lex_less(key@, before[i as int].key),
            decreases n - i,
        {
            if !str_less(key.as_str(), data[i].key.as_str()) {
                break ;
            }
            i = i + 1;
        }
        proof {
            lemma_put_at(before, key@, value, now as nat, i as int);
            lemma_put_descending(before, key@, value, now as nat);
        }
        let replace = i < n && str_equal(data[i].key.as_str(), key.as_str());
        let slot = Slot { key, value, inserted: now };
        if replace {
            data.set(i, slot);
            assert(entries_of(data@) =~= before.take(i as int) + seq![slot.entry()] + before.skip(
                i + 1,
            ));
        } else {
            data.insert(i, slot);
            assert(entries_of(data@) =~= before.take(i as int) + seq![slot.entry()] + before.skip(
                i as int,
            ));
        }
        self.data = data;
    }

    /// Writes `value` under `key` as of now. Always succeeds.
    pub fn insert(&mut self, key: String, value: V)
        ensures
            exists|now: nat| final(self)@ == #[trigger] put(old(self)@, key@, value, now),
            final(self).ttl_nanos() == old(self).ttl_nanos(),
    {
        let now = self.now();
        self.insert_at(key, value, now);
    }

    /// A clone of the value under `key` if it is live at the clock reading
    /// `now`.
    pub fn get_at(&self, key: &String, now: u128) -> (found: Option<V>)
        ensures
            match value_at(self@, self.ttl_nanos(), key@, now as nat) {
                Some(v) => found is Some && cloned(v, found->0),
                None => found is None,
            },
    {
        let n = self.data.len();
        let mut i: usize = 0;
        assert(self@.skip(0) =~= self@);
        while i < n
            invariant
                n == self.data.len(),
                i <= n,
                lookup(self@, key@) == lookup(self@.skip(i as int), key@),
            decreases n - i,
        {
            let slot = &self.data[i];
            if str_equal(slot.key.as_str(), key.as_str()) {
                if now <= slot.inserted || now - slot.inserted <= self.ttl {
                    return Some(slot.value.clone());
                } else {
                    return None;
                }
            }
            assert(self@.skip(i as int).drop_first() =~= self@.skip(i + 1));
            i = i + 1;
        }
        None
    }

    /// A clone of the value under `key` if it is present and not older than
    /// the time-to-live.
    pub fn get(&self, key: &String) -> (found: Option<V>)
        ensures
            exists|now: nat|
                match #[trigger] value_at(self@, self.ttl_nanos(), key@, now) {
                    Some(v) => found is Some && cloned(v, found->0),
                    None => found is None,
                },
    {
        let now = self.now();
        self.get_at(key, now)
    }

    /// Deletes every entry that has expired at the clock reading `now`.
    pub fn remove_expired_at(&mut self, now: u128)
        ensures
            final(self)@ == purge(old(self)@, old(self).ttl_nanos(), now as nat),
            final(self).ttl_nanos() == old(self).ttl_nanos(),
    {
        proof {
            use_type_invariant(&*self);
        }
        let ghost before = self@;
        let ghost live = live_at::<V>(self.ttl as nat, now as nat);
        let ttl = self.ttl;
        let mut data: Vec<Slot<V>> = Vec::new();
        core::mem::swap(&mut self.data, &mut data);
        let mut i: usize = data.len();
        assert(entries_of(data@) =~= before.take(i as int) + before.skip(i as int).filter(live))
            by {
            lemma_filter_drops_all(before.skip(i as int), live);
        }
        while i > 0
            invariant
                i <= before.len(),
                i <= data.len(),
                live == live_at::<V>(ttl as nat, now as nat),
                entries_of(data@) == before.take(i as int) + before.skip(i as int).filter(live),
            decreases i,
        {
            i = i - 1;
            let slot = &data[i];
            assert(slot.entry() == entries_of(data@)[i as int]);
            assert(before.take(i + 1)[i as int] == before[i as int]);
            let keep = now <= slot.inserted || now - slot.inserted <= ttl;
            proof {
                assert(before.skip(i as int) =~= seq![before[i as int]] + before.skip(i + 1));
                before.skip(i + 1).lemma_filter_prepend(before[i as int], live);
            }
            if keep {
                assert(entries_of(data@) =~= before.take(i as int) + before.skip(i as int).filter(
                    live,
                ));
            } else {
                let ghost current = entries_of(data@);
                data.remove(i);
                assert(entries_of(data@) =~= current.remove(i as int));
                assert(entries_of(data@) =~= before.take(i as int) + before.skip(i as int).filter(
                    live,
                ));
            }
        }
        proof {
            assert(before.skip(0) =~= before);
            assert(entries_of(data@) =~= before.filter(live));
            lemma_filter_ordered(before, live);
        }
        self.data = data;
    }

    /// Deletes every entry older than the time-to-live. Reads never depend
    /// on it: it only bounds what the store holds.
    pub fn remove_expired(&mut self)
        ensures
            exists|now: nat|
                final(self)@ == #[trigger] purge(old(self)@, old(self).ttl_nanos(), now),
            final(self).ttl_nanos() == old(self).ttl_nanos(),
    {
        let now = self.now();
        self.remove_expired_at(now);
    }

    /// Clones of the values that are live at the clock reading `now` among
    /// the first `window` entries, greatest key first, stopping after
    /// `limit` values.
    fn collect_live(&self, window: usize, limit: usize, now: u128) -> (values: Vec<V>)
        requires
            window <= self.data.len(),
        ensures
            clones_of(
                recent(self@.take(window as int), self.ttl_nanos(), now as nat, limit as nat),
                values@,
            ),
    {
        let ghost live = live_at::<V>(self.ttl as nat, now as nat);
        let ghost s = self@.take(window as int);
        let mut values: Vec<V> = Vec::new();
        let mut i: usize = 0;
        assert(s.take(0).filter(live) =~= Seq::<Entry<V>>::empty()) by {
            lemma_filter_drops_all(s.take(0), live);
        }
        while i < window && values.len() < limit
            invariant
                i <= window,
                window <= self.data.len(),
                s == self@.take(window as int),
                live == live_at::<V>(self.ttl as nat, now as nat),
                values.len() <= limit,
                clones_of(s.take(i as int).filter(live), values@),
            decreases window - i,
        {
            let slot = &self.data[i];
            assert(slot.entry() == s[i as int]);
            proof {
                assert(s.take(i + 1) =~= s.take(i as int).push(s[i as int]));
                s.take(i as int).lemma_filter_push(s[i as int], live);
            }
            if now <= slot.inserted || now - slot.inserted <= self.ttl {
                values.push(slot.value.clone());
            }
            i = i + 1;
        }
        proof {
            let seen = s.take(i as int).filter(live);
            assert(s =~= s.take(i as int) + s.skip(i as int));
            Seq::filter_distributes_over_add(s.take(i as int), s.skip(i as int), live);
            if i == window {
                assert(s.skip(i as int) =~= Seq::<Entry<V>>::empty());
                lemma_filter_drops_all(s.skip(i as int), live);
                assert(purge(s, self.ttl as nat, now as nat) =~= seen);
            } else {
                assert(purge(s, self.ttl as nat, now as nat).take(limit as int) =~= seen);
            }
        }
        values
    }

    /// Clones of the first `n` values that are live at the clock reading
    /// `now`, greatest key first.
    pub fn most_recent_at(&self, n: usize, now: u128) -> (values: Vec<V>)
        ensures
            clones_of(recent(self@, self.ttl_nanos(), now as nat, n as nat), values@),
            values.len() <= n,
    {
        assert(self@.take(self.data.len() as int) =~= self@);
        let values = self.collect_live(self.data.len(), n, now);
        proof {
            self@.lemma_filter_len(live_at(self.ttl_nanos(), now as nat));
        }
        values
    }

    /// Clones of up to `n` values that have not expired, greatest key first.
    pub fn most_recent(&self, n: usize) -> (values: Vec<V>)
        ensures
            exists|now: nat|
                clones_of(#[trigger] recent(self@, self.ttl_nanos(), now, n as nat), values@),
            values.len() <= n,
    {
        let now = self.now();
        self.most_recent_at(n, now)
    }

    /// The keys of the store, expired entries included, greatest first.
    pub fn keys(&self) -> (keys: Vec<String>)
        ensures
            keys.len() == self@.len(),
            forall|i: int| 0 <= i < keys.len() ==> (#[trigger] keys[i])@ == self@[i].key,
    {
        let mut keys: Vec<String> = Vec::new();
        let n = self.data.len();
        let mut i: usize = 0;
        while i < n
            invariant
                n == self.data.len(),
                i <= n,
                keys.len() == i,
                forall|j: int| 0 <= j < i ==> (#[trigger] keys[j])@ == self@[j].key,
            decreases n - i,
        {
            keys.push(self.data[i].key.clone());
            i = i + 1;
        }
        keys
    }

    /// How many entries the store holds, expired ones included.
    pub fn len(&self) -> (n: usize)
        ensures
            n == self@.len(),
    {
        self.data.len()
    }
}

/// Clones of the values that are live at the clock reading `now` among the
/// entries with the five greatest keys, greatest key first.
pub fn get_cached_data_at<V: Clone>(cache: &Cache<V>, now: u128) -> (values: Vec<V>)
    ensures
        clones_of(
            window_live(cache@, cache.ttl_nanos(), now as nat, CACHED_DATA_WINDOW as nat),
            values@,
        ),
        values.len() <= CACHED_DATA_WINDOW,
{
    let held = cache.len();
    let window = if held < CACHED_DATA_WINDOW {
        held
    } else {
        CACHED_DATA_WINDOW
    };
    assert(cache@.take(held as int) =~= cache@);
    let values = cache.collect_live(window, window, now);
    proof {
        cache@.take(window as int).lemma_filter_len(live_at(cache.ttl_nanos(), now as nat));
    }
    values
}

/// Clones of the values that have not expired among the entries with the
/// five greatest keys, greatest key first.
pub fn get_cached_data<V: Clone>(cache: &Cache<V>) -> (values: Vec<V>)
    ensures
        exists|now: nat|
            clones_of(
                #[trigger] window_live(
                    cache@,
                    cache.ttl_nanos(),
                    now,
                    CACHED_DATA_WINDOW as nat,
                ),
                values@,
            ),
        values.len() <= CACHED_DATA_WINDOW,
{
    let now = cache.now();
    get_cached_data_at(cache, now)
}

} // verus!
