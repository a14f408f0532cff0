//! The expiring positive cache: confirmed "claimed" markers that age out.
//!
//! The cache holds positives only: every marker that goes in is `true`. An
//! entry may expire or be evicted at any time, so a miss means "unknown",
//! never "available"; a hit means that the token was marked at some earlier
//! point. Its model is the markers that were put in, each token with its
//! marker; which of them are still alive is the cache's own business, within
//! the bound on entries and the time-to-live that it was built with.
//! Nothing ever takes a marker back
//! before its time: whether an identifier that was given up can be claimed
//! again within the time-to-live is left to the store.

use vstd::prelude::*;
use moka::sync::Cache;
use std::time::Duration;
use crate::token::{normal_form, normalize, texts};

verus! {

/// `moka::sync::Cache`, a bounded cache whose entries expire. Nothing of
/// its inside is visible here.
#[verifier::external_type_specification]
#[verifier::external_body]
#[verifier::reject_recursive_types(K)]
#[verifier::reject_recursive_types(V)]
#[verifier::reject_recursive_types(S)]
pub struct ExCache<K, V, S>(Cache<K, V, S>);

/// The longest time-to-live that a cache can be built with: a thousand years
/// of 365 days.
pub const MAX_TTL_SECS: u64 = 31_536_000_000;

/// The entries that were put into a cache, each key with its latest value.
/// At any moment the cache holds some of them: the others have expired or
/// were evicted.
pub uninterp spec fn cache_entries(cache: Cache<String, bool>) -> Map<Seq<char>, bool>;

/// The bound on the number of entries, and the time-to-live in seconds,
/// that a cache was built with. The cache keeps to both by itself: beyond
/// the bound it evicts entries of its own choosing, and past its
/// time-to-live an entry is no longer found.
pub uninterp spec fn cache_bounds(cache: Cache<String, bool>) -> (u64, u64);

/// The markers of a cache into which nothing was put.
pub open spec fn no_markers() -> Map<Seq<char>, bool> {
    Map::empty()
}

/// `CacheBuilder::build` makes an empty cache bounded by `max_capacity`
/// entries whose entries expire `time_to_live` after their insertion. It
/// panics on a time-to-live of more than a thousand years.
#[verifier::external_body]
fn cache_build(max_entries: u64, ttl_secs: u64) -> (cache: Cache<String, bool>)
    requires
        ttl_secs <= MAX_TTL_SECS,
    ensures
        cache_entries(cache) == no_markers(),
        cache_bounds(cache) == (max_entries, ttl_secs),
{
    Cache::builder().max_capacity(max_entries).time_to_live(Duration::from_secs(ttl_secs)).build()
}

/// `Cache::insert` puts a key and a value into the cache; the value of a key
/// that is present is replaced. The bound and the time-to-live of the cache
/// stay as they were built. Only positive markers are handed in, so that
/// the cache holds positives only afterwards as it did before.
#[verifier::external_body]
fn cache_insert(cache: &mut TakenCache, key: String, value: bool)
    requires
        value,
    ensures
        cache_entries(final(cache).inner) == cache_entries(old(cache).inner).insert(key@, value),
        cache_bounds(final(cache).inner) == cache_bounds(old(cache).inner),
{
    cache.inner.insert(key, value)
}

/// `Cache::get` returns a clone of the value stored for the key, or `None`
/// when the cache holds no live entry for it. Whether an entry is still
/// alive depends on the clock and on eviction; a value that comes back is
/// the one that was put in last.
#[verifier::external_body]
fn cache_get(cache: &Cache<String, bool>, key: &String) -> (value: Option<bool>)
    ensures
        value matches Some(v) ==> cache_entries(*cache).contains_key(key@) && cache_entries(
            *cache,
        )[key@] == v,
{
    cache.get(key)
}

/// The cache of usernames known to be taken.
pub struct TakenCache {
    inner: Cache<String, bool>,
}

impl View for TakenCache {
    type V = Set<Seq<char>>;

    /// The normalized tokens that were marked as taken. A hit is always one
    /// of them; one of them need not be a hit any more.
    open spec fn view(&self) -> Set<Seq<char>> {
        self.markers().dom()
    }
}

/// Whether every marker is a positive one.
pub open spec fn positives_only(markers: Map<Seq<char>, bool>) -> bool {
    forall|token: Seq<char>| markers.contains_key(token) ==> #[trigger] markers[token]
}

impl TakenCache {
    /// Only positives are stored: every marker is `true`.
    #[verifier::type_invariant]
    pub open spec fn holds_positives_only(self) -> bool {
        positives_only(self.markers())
    }

    /// The markers that were put into the cache, each token with its
    /// marker.
    pub closed spec fn markers(&self) -> Map<Seq<char>, bool> {
        cache_entries(self.inner)
    }

    /// The largest number of entries that the cache keeps.
    pub closed spec fn max_entries(&self) -> u64 {
        cache_bounds(self.inner).0
    }

    /// The number of seconds after which an entry is no longer found.
    pub closed spec fn ttl_secs(&self) -> u64 {
        cache_bounds(self.inner).1
    }

    /// An empty cache of at most `max_entries` entries, each of which expires
    /// `ttl_secs` seconds after it was marked.
    pub fn new(max_entries: u64, ttl_secs: u64) -> (cache: Self)
        requires
            ttl_secs <= MAX_TTL_SECS,
        ensures
            cache.markers() == no_markers(),
            cache.max_entries() == max_entries,
            cache.ttl_secs() == ttl_secs,
            positives_only(cache.markers()),
    {
        let inner = cache_build(max_entries, ttl_secs);
        TakenCache { inner }
    }
}

/// Marks a username as taken: its normal form gets the marker `true`. A
/// username that the cache still knows as taken is left as it is, so that
/// a repeated mark does not prolong the entry's life.
pub fn mark_taken(cache: &mut TakenCache, username: &str)
    ensures
        final(cache).markers() == old(cache).markers().insert(normal_form(username@), true),
        final(cache).max_entries() == old(cache).max_entries(),
        final(cache).ttl_secs() == old(cache).ttl_secs(),
        positives_only(final(cache).markers()),
{
    proof {
        use_type_invariant(&*cache);
    }
    let token = normalize(username);
    let known = marker_or_unknown(cache_get(&cache.inner, &token));
    if known {
        assert(cache.markers() =~= cache.markers().insert(token@, true));
    } else {
        cache_insert(cache, token, true);
    }
}

/// The answer of the cache for one lookup: the stored marker, and `false`
/// where the cache has no live entry.
pub fn marker_or_unknown(found: Option<bool>) -> (taken: bool)
    ensures
        taken == (found == Some(true)),
{
    match found {
        Some(marker) => marker,
        None => false,
    }
}

/// Whether the cache still knows a username as taken. `true` is the marker
/// that was stored for the username's normal form. `false` means "unknown":
/// the entry may have expired, or never have been there. No marker of the
/// cache is a negative one.
pub fn is_taken(cache: &TakenCache, username: &str) -> (taken: bool)
    ensures
        taken ==> cache.markers().contains_key(normal_form(username@)) && cache.markers()[normal_form(
            username@,
        )],
        positives_only(cache.markers()),
{
    proof {
        use_type_invariant(cache);
    }
    let token = normalize(username);
    let found = cache_get(&cache.inner, &token);
    marker_or_unknown(found)
}

/// The set of the normal forms of a list of names.
pub open spec fn forms_of(names: Seq<Seq<char>>) -> Set<Seq<char>> {
    Set::new(
        |t: Seq<char>| exists|i: int| 0 <= i < names.len() && t == normal_form(#[trigger] names[i]),
    )
}

/// The normal forms of two lists, one after the other, are those of the
/// one and those of the other.
pub proof fn lemma_forms_of_concat(front: Seq<Seq<char>>, back: Seq<Seq<char>>)
    ensures
        forms_of(front + back) == forms_of(front).union(forms_of(back)),
{
    let whole = front + back;
    assert forall|t: Seq<char>| forms_of(whole).contains(t) implies forms_of(front).union(
        forms_of(back),
    ).contains(t) by {
        let i = choose|i: int| 0 <= i < whole.len() && t == normal_form(#[trigger] whole[i]);
        if i < front.len() {
            assert(whole[i] == front[i]);
        } else {
            assert(whole[i] == back[i - front.len()]);
        }
    }
    assert forall|t: Seq<char>| forms_of(front).union(forms_of(back)).contains(
        t,
    ) implies forms_of(whole).contains(t) by {
        if forms_of(front).contains(t) {
            let i = choose|i: int| 0 <= i < front.len() && t == normal_form(#[trigger] front[i]);
            assert(whole[i] == front[i]);
        } else {
            let i = choose|i: int| 0 <= i < back.len() && t == normal_form(#[trigger] back[i]);
            assert(whole[i + front.len()] == back[i]);
        }
    }
    assert(forms_of(whole) =~= forms_of(front).union(forms_of(back)));
}

proof fn lemma_forms_of_one(name: Seq<char>)
    ensures
        forms_of(seq![name]) == Set::<Seq<char>>::empty().insert(normal_form(name)),
{
    let one = seq![name];
    assert forall|t: Seq<char>| forms_of(one).contains(t) implies t == normal_form(name) by {
        let i = choose|i: int| 0 <= i < one.len() && t == normal_form(#[trigger] one[i]);
    }
    assert(one[0] == name);
    assert(forms_of(one) =~= Set::<Seq<char>>::empty().insert(normal_form(name)));
}

/// The markers after every name of `names` was marked: each of their
/// normal forms has the marker `true`, and every other token has the marker
/// that it had.
pub open spec fn marked_with(before: Map<Seq<char>, bool>, names: Seq<Seq<char>>) -> Map<
    Seq<char>,
    bool,
> {
    Map::new(
        |token: Seq<char>| before.contains_key(token) || forms_of(names).contains(token),
        |token: Seq<char>|
            if forms_of(names).contains(token) {
                true
            } else {
                before[token]
            },
    )
}

/// Marking names one list after the other is marking the two lists in one.
pub proof fn lemma_marked_with_concat(
    before: Map<Seq<char>, bool>,
    front: Seq<Seq<char>>,
    back: Seq<Seq<char>>,
)
    ensures
        marked_with(marked_with(before, front), back) == marked_with(before, front + back),
{
    lemma_forms_of_concat(front, back);
    assert(marked_with(marked_with(before, front), back) =~= marked_with(before, front + back));
}

proof fn lemma_marked_with_none(before: Map<Seq<char>, bool>)
    ensures
        marked_with(before, Seq::empty()) == before,
{
    assert(forms_of(Seq::<Seq<char>>::empty()) =~= Set::<Seq<char>>::empty());
    assert(marked_with(before, Seq::empty()) =~= before);
}

proof fn lemma_marked_with_one(before: Map<Seq<char>, bool>, name: Seq<char>)
    ensures
        marked_with(before, seq![name]) == before.insert(normal_form(name), true),
{
    lemma_forms_of_one(name);
    assert(marked_with(before, seq![name]) =~= before.insert(normal_form(name), true));
}

/// Marking keeps the cache positive and makes every marked name known:
/// where all markers were `true` they still are, and the normal form of
/// every name of the list has the marker `true`, in whatever spelling the
/// name came.
pub proof fn lemma_marked_names_are_taken(before: Map<Seq<char>, bool>, names: Seq<Seq<char>>)
    ensures
        positives_only(before) ==> positives_only(marked_with(before, names)),
        forall|i: int|
            0 <= i < names.len() ==> marked_with(before, names).contains_key(
                normal_form(#[trigger] names[i]),
            ) && marked_with(before, names)[normal_form(names[i])],
        forall|token: Seq<char>|
            before.contains_key(token) ==> #[trigger] marked_with(before, names).contains_key(token),
        marked_with(before, names).dom() == before.dom().union(forms_of(names)),
{
    assert(marked_with(before, names).dom() =~= before.dom().union(forms_of(names)));
}

/// Marks every username of a batch as taken.
pub fn batch_mark(cache: &mut TakenCache, usernames: &[String])
    ensures
        final(cache).markers() == marked_with(old(cache).markers(), texts(usernames@)),
        final(cache).max_entries() == old(cache).max_entries(),
        final(cache).ttl_secs() == old(cache).ttl_secs(),
        positives_only(final(cache).markers()),
{
    proof {
        use_type_invariant(&*cache);
    }
    let n = usernames.len();
    let mut i: usize = 0;
    proof {
        assert(texts(usernames@.subrange(0, 0)) =~= Seq::<Seq<char>>::empty());
        lemma_marked_with_none(cache.markers());
    }
    while i < n
        invariant
            n == usernames.len(),
            i <= n,
            cache.markers() == marked_with(
                old(cache).markers(),
                texts(usernames@.subrange(0, i as int)),
            ),
            cache.max_entries() == old(cache).max_entries(),
            cache.ttl_secs() == old(cache).ttl_secs(),
            positives_only(cache.markers()),
        decreases n - i,
    {
        mark_taken(cache, usernames[i].as_str());
        proof {
            let done = texts(usernames@.subrange(0, i as int));
            let next = texts(usernames@.subrange(0, i + 1));
            assert(next =~= done + seq![usernames@[i as int]@]);
            lemma_marked_with_one(marked_with(old(cache).markers(), done), usernames@[i as int]@);
            lemma_marked_with_concat(old(cache).markers(), done, seq![usernames@[i as int]@]);
        }
        i = i + 1;
    }
    proof {
        assert(usernames@.subrange(0, n as int) =~= usernames@);
    }
}

/// Marking is idempotent: a second mark of the same username leaves the
/// markers as the first left them.
pub proof fn lemma_mark_twice_is_mark_once(markers: Map<Seq<char>, bool>, token: Seq<char>)
    ensures
        markers.insert(token, true).insert(token, true) == markers.insert(token, true),
        positives_only(markers) ==> positives_only(markers.insert(token, true)),
{
    assert(markers.insert(token, true).insert(token, true) =~= markers.insert(token, true));
}

} // verus!
