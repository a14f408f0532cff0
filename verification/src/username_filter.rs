//! The membership filter: an approximate, memory-bounded set of every
//! identifier ever claimed.
//!
//! The filter answers "definitely absent" or "maybe present". It may report
//! a token that was never inserted, but it never misses one that was, unless
//! a token was explicitly removed. Its model is the number of stored
//! fingerprints that answer for each token; the tokens it reports are those
//! for which at least one answers.

use vstd::prelude::*;
use autoscale_cuckoo_filter::CuckooFilter;
use crate::token::{normal_form, normalize, texts};

verus! {

/// `autoscale_cuckoo_filter::CuckooFilter`, a cuckoo filter that adds layers
/// as it fills up. Nothing of its inside is visible here.
#[verifier::external_type_specification]
#[verifier::external_body]
#[verifier::reject_recursive_types(T)]
#[verifier::reject_recursive_types(H)]
pub struct ExCuckooFilter<T: ?Sized, H>(CuckooFilter<T, H>);

/// The strings that a cuckoo filter answers for, each with the number of
/// stored fingerprints that answer for it: those equal to the string's
/// fingerprint that lie in one of the string's two buckets, or under its
/// bucket pair in the overflow store, of some layer of the filter.
pub uninterp spec fn filter_copies(filter: CuckooFilter<String>) -> Map<Seq<char>, nat>;

/// The copies of a filter that answers for nothing.
pub open spec fn no_copies() -> Map<Seq<char>, nat> {
    Map::empty()
}

/// The number of stored fingerprints that answer for `token`.
pub open spec fn count_in(copies: Map<Seq<char>, nat>, token: Seq<char>) -> nat {
    if copies.contains_key(token) {
        copies[token]
    } else {
        0
    }
}

/// The strings that are reported as possibly present: those that at least
/// one stored fingerprint answers for.
pub open spec fn hits(copies: Map<Seq<char>, nat>) -> Set<Seq<char>> {
    Set::new(|token: Seq<char>| count_in(copies, token) > 0)
}

/// The effect of adding `token`: one more fingerprint answers for it. That
/// fingerprint may answer for other strings too, and for nothing does one
/// fewer.
pub open spec fn added(before: Map<Seq<char>, nat>, after: Map<Seq<char>, nat>, token: Seq<char>) -> bool {
    &&& count_in(after, token) == count_in(before, token) + 1
    &&& forall|other: Seq<char>|
        count_in(before, other) <= #[trigger] count_in(after, other) <= count_in(before, other) + 1
}

/// The effect of removing `token`: one fingerprint fewer answers for it, if
/// any did. That fingerprint may have answered for other strings too, and
/// for nothing does one more. Where none answered for `token`, nothing
/// changes.
pub open spec fn removed(before: Map<Seq<char>, nat>, after: Map<Seq<char>, nat>, token: Seq<char>) -> bool {
    &&& count_in(before, token) > 0 ==> count_in(after, token) == count_in(before, token) - 1
    &&& forall|other: Seq<char>|
        #[trigger] count_in(after, other) <= count_in(before, other) <= count_in(after, other) + 1
    &&& count_in(before, token) == 0 ==> after == before
}

/// `CuckooFilter::with_capacity` builds a filter of one layer whose buckets
/// and overflow store are empty, with the false-positive probability 0.001:
/// it answers for no string.
#[verifier::external_body]
fn filter_with_capacity(capacity: usize) -> (filter: CuckooFilter<String>)
    ensures
        filter_copies(filter) == no_copies(),
{
    CuckooFilter::with_capacity(capacity)
}

/// `CuckooFilter::contains` hashes the item and looks its fingerprint up in
/// the item's two buckets and the overflow store of every layer. It reads
/// the filter only.
#[verifier::external_body]
fn filter_contains(filter: &CuckooFilter<String>, token: &String) -> (hit: bool)
    ensures
        hit == (count_in(filter_copies(*filter), token@) > 0),
{
    filter.contains(token)
}

/// `CuckooFilter::add` stores one copy of the item's fingerprint in the
/// newest layer, whether or not one is there. A fingerprint that it
/// displaces moves to its other bucket or to the overflow store, where it
/// answers for the same strings as before, and a full layer is followed by
/// a new one.
#[verifier::external_body]
fn filter_add(filter: &mut CuckooFilter<String>, token: &String)
    ensures
        added(filter_copies(*old(filter)), filter_copies(*final(filter)), token@),
{
    filter.add(token)
}

/// `CuckooFilter::remove` clears one stored copy of the item's fingerprint,
/// found where `contains` looks, and returns whether there was one. Without
/// a copy the filter is left as it was.
#[verifier::external_body]
fn filter_remove(filter: &mut CuckooFilter<String>, token: &String) -> (gone: bool)
    ensures
        gone == (count_in(filter_copies(*old(filter)), token@) > 0),
        removed(filter_copies(*old(filter)), filter_copies(*final(filter)), token@),
{
    filter.remove(token)
}

/// The shared filter of claimed usernames.
pub struct UsernameFilter {
    inner: CuckooFilter<String>,
}

impl View for UsernameFilter {
    type V = Set<Seq<char>>;

    /// The normalized tokens that the filter reports as possibly claimed.
    open spec fn view(&self) -> Set<Seq<char>> {
        hits(self.copies())
    }
}

impl UsernameFilter {
    /// The tokens that the filter answers for, each with the number of
    /// insertions that answer for it.
    pub closed spec fn copies(&self) -> Map<Seq<char>, nat> {
        filter_copies(self.inner)
    }
}

/// The effect of inserting `token`: it is reported afterwards, and nothing
/// that was reported before is lost.
pub open spec fn grown_by(before: Set<Seq<char>>, after: Set<Seq<char>>, token: Seq<char>) -> bool {
    &&& after.contains(token)
    &&& before.subset_of(after)
}

/// Whether every token of `batch` is reported in `hits`.
pub open spec fn covers(hits: Set<Seq<char>>, batch: Seq<String>) -> bool {
    forall|i: int| 0 <= i < batch.len() ==> hits.contains(#[trigger] batch[i]@)
}

/// What a reader of the shared filter answers for `token`. `None` stands for
/// a filter whose lock a dying writer left broken: every token is then
/// "maybe present", so that the lookup goes on to the next tier.
pub open spec fn reported(filter: Option<&UsernameFilter>, token: Seq<char>) -> bool {
    match filter {
        Some(f) => f@.contains(token),
        None => true,
    }
}

impl UsernameFilter {
    /// An empty filter sized for `capacity` usernames, with a false-positive
    /// probability of one in a thousand at that load. It grows by itself
    /// when it fills up.
    pub fn with_capacity(capacity: usize) -> (filter: Self)
        ensures
            filter.copies() == no_copies(),
            filter@ == Set::<Seq<char>>::empty(),
    {
        let filter = UsernameFilter { inner: filter_with_capacity(capacity) };
        assert(filter@ =~= Set::<Seq<char>>::empty());
        filter
    }

    /// Adopts a filter that was built elsewhere, for instance with another
    /// false-positive probability.
    pub fn from_filter(inner: CuckooFilter<String>) -> (filter: Self)
        ensures
            filter.copies() == filter_copies(inner),
    {
        UsernameFilter { inner }
    }
}

/// Whether a username might be claimed. `false` is definite; `true` may be a
/// false positive.
pub fn might_exist(filter: &UsernameFilter, username: &str) -> (hit: bool)
    ensures
        hit == filter@.contains(normal_form(username@)),
{
    let token = normalize(username);
    filter_contains(&filter.inner, &token)
}

/// `might_exist` for a reader that may have found the filter's lock broken.
pub fn might_exist_or_fault(filter: Option<&UsernameFilter>, username: &str) -> (hit: bool)
    ensures
        hit == reported(filter, normal_form(username@)),
{
    match filter {
        Some(f) => might_exist(f, username),
        None => true,
    }
}

/// Inserts a username. The insert is never dropped: a full filter grows.
pub fn insert(filter: &mut UsernameFilter, username: &str)
    ensures
        added(old(filter).copies(), final(filter).copies(), normal_form(username@)),
        grown_by(old(filter)@, final(filter)@, normal_form(username@)),
{
    let token = normalize(username);
    filter_add(&mut filter.inner, &token);
}

/// Removes one insertion of a username: one fingerprint fewer answers for
/// it. A username that the filter did not report leaves it unchanged. The
/// fingerprint that goes is the newest that answers for the username. It
/// may be one that another username put in: always where the removed
/// username was never inserted but is reported all the same, and now and
/// then, in a filter that has grown by a layer, even where it was. That
/// other username can then be missed.
pub fn remove(filter: &mut UsernameFilter, username: &str)
    ensures
        removed(old(filter).copies(), final(filter).copies(), normal_form(username@)),
        final(filter)@.subset_of(old(filter)@),
        !old(filter)@.contains(normal_form(username@)) ==> final(filter)@ == old(filter)@,
{
    let token = normalize(username);
    let _ = filter_remove(&mut filter.inner, &token);
}

/// The effect of adding `n` tokens: for every string, between none and `n`
/// more fingerprints answer.
pub open spec fn added_up_to(before: Map<Seq<char>, nat>, after: Map<Seq<char>, nat>, n: nat) -> bool {
    forall|other: Seq<char>|
        count_in(before, other) <= #[trigger] count_in(after, other) <= count_in(before, other) + n
}

/// Whether every token of `batch` has gained a fingerprint of its own: at
/// least one more answers for it than before.
pub open spec fn each_gained(before: Map<Seq<char>, nat>, after: Map<Seq<char>, nat>, batch: Seq<Seq<char>>) -> bool {
    forall|i: int|
        0 <= i < batch.len() ==> count_in(after, #[trigger] batch[i]) >= count_in(before, batch[i])
            + 1
}

/// Additions add up: `n` tokens and then `m` tokens are at most `n + m`
/// fingerprints more for any string, and none fewer.
pub proof fn lemma_added_up_to_adds(
    before: Map<Seq<char>, nat>,
    between: Map<Seq<char>, nat>,
    after: Map<Seq<char>, nat>,
    n: nat,
    m: nat,
)
    requires
        added_up_to(before, between, n),
        added_up_to(between, after, m),
    ensures
        added_up_to(before, after, n + m),
        hits(before).subset_of(hits(after)),
{
    assert forall|other: Seq<char>|
        count_in(before, other) <= #[trigger] count_in(after, other) <= count_in(before, other) + n
            + m by {
        assert(count_in(before, other) <= count_in(between, other));
        assert(count_in(between, other) <= count_in(after, other));
    }
    assert forall|other: Seq<char>| hits(before).contains(other) implies hits(after).contains(
        other,
    ) by {
        assert(count_in(before, other) <= count_in(after, other));
    }
}

/// Inserts a batch of usernames that are already normalized, as they stand:
/// one fingerprint for each, and nothing else.
pub fn insert_batch(filter: &mut UsernameFilter, usernames: &[String])
    ensures
        old(filter)@.subset_of(final(filter)@),
        covers(final(filter)@, usernames@),
        added_up_to(old(filter).copies(), final(filter).copies(), usernames@.len()),
        each_gained(old(filter).copies(), final(filter).copies(), texts(usernames@)),
{
    let n = usernames.len();
    let mut i: usize = 0;
    while i < n
        invariant
            n == usernames.len(),
            i <= n,
            old(filter)@.subset_of(filter@),
            covers(filter@, usernames@.subrange(0, i as int)),
            added_up_to(old(filter).copies(), filter.copies(), i as nat),
            each_gained(
                old(filter).copies(),
                filter.copies(),
                texts(usernames@.subrange(0, i as int)),
            ),
        decreases n - i,
    {
        let ghost before = filter@;
        let ghost copies_before = filter.copies();
        filter_add(&mut filter.inner, &usernames[i]);
        proof {
            assert forall|other: Seq<char>|
                count_in(old(filter).copies(), other) <= #[trigger] count_in(
                    filter.copies(),
                    other,
                ) <= count_in(old(filter).copies(), other) + i + 1 by {
                assert(count_in(copies_before, other) <= count_in(filter.copies(), other));
                assert(count_in(old(filter).copies(), other) <= count_in(copies_before, other));
            }
            assert(before.subset_of(filter@)) by {
                lemma_added_grows(copies_before, filter.copies(), usernames@[i as int]@);
            }
            let done = texts(usernames@.subrange(0, i as int));
            let next = texts(usernames@.subrange(0, i + 1));
            assert forall|j: int| 0 <= j < next.len() implies count_in(
                filter.copies(),
                #[trigger] next[j],
            ) >= count_in(old(filter).copies(), next[j]) + 1 by {
                assert(count_in(copies_before, next[j]) <= count_in(filter.copies(), next[j]));
                if j < i {
                    assert(next[j] == done[j]);
                } else {
                    assert(next[j] == usernames@[i as int]@);
                    assert(count_in(old(filter).copies(), next[j]) <= count_in(
                        copies_before,
                        next[j],
                    ));
                }
            }
            assert forall|j: int| 0 <= j < i + 1 implies filter@.contains(
                #[trigger] usernames@.subrange(0, i + 1)[j]@,
            ) by {
                if j < i {
                    assert(usernames@.subrange(0, i as int)[j] == usernames@[j]);
                    assert(before.contains(usernames@.subrange(0, i as int)[j]@));
                }
            }
        }
        i = i + 1;
    }
    proof {
        assert(usernames@.subrange(0, n as int) =~= usernames@);
    }
}

/// An insertion loses nothing: what was reported before is reported after,
/// and so is the inserted token.
pub proof fn lemma_added_grows(before: Map<Seq<char>, nat>, after: Map<Seq<char>, nat>, token: Seq<char>)
    requires
        added(before, after, token),
    ensures
        grown_by(hits(before), hits(after), token),
{
    assert forall|other: Seq<char>| hits(before).contains(other) implies hits(after).contains(
        other,
    ) by {
        assert(count_in(before, other) <= count_in(after, other));
    }
}

/// A removal right after an insertion of the same token takes back what the
/// insertion gave: as many fingerprints answer for the token as before. A
/// token that was not reported before the two is not reported after them.
pub proof fn lemma_remove_undoes_insert(
    before: Map<Seq<char>, nat>,
    between: Map<Seq<char>, nat>,
    after: Map<Seq<char>, nat>,
    token: Seq<char>,
)
    requires
        added(before, between, token),
        removed(between, after, token),
    ensures
        count_in(after, token) == count_in(before, token),
        !hits(before).contains(token) ==> !hits(after).contains(token),
{
}

/// A token that no insertion touches stays out: where no fingerprint
/// answers for a token at first, and no inserted fingerprint answers for it
/// either, the filter does not report it in the end. A token that shares
/// its fingerprint and its buckets with an inserted one is touched, and is
/// reported though it was never inserted.
pub proof fn lemma_untouched_token_stays_out(
    states: Seq<Map<Seq<char>, nat>>,
    tokens: Seq<Seq<char>>,
    stranger: Seq<char>,
)
    requires
        states.len() == tokens.len() + 1,
        forall|i: int|
            0 <= i < tokens.len() ==> added(#[trigger] states[i], states[i + 1], tokens[i]),
        count_in(states[0], stranger) == 0,
        forall|i: int|
            0 <= i < tokens.len() ==> count_in(#[trigger] states[i + 1], stranger) == count_in(
                states[i],
                stranger,
            ),
    ensures
        !hits(states.last()).contains(stranger),
        forall|i: int| 0 <= i < tokens.len() ==> #[trigger] tokens[i] != stranger,
{
    assert forall|j: int| 0 <= j <= tokens.len() implies count_in(#[trigger] states[j], stranger)
        == 0 by {
        lemma_untouched_count(states, tokens, stranger, j);
    }
    assert forall|i: int| 0 <= i < tokens.len() implies #[trigger] tokens[i] != stranger by {
        assert(count_in(states[i + 1], stranger) == count_in(states[i], stranger));
        assert(added(states[i], states[i + 1], tokens[i]));
    }
}

proof fn lemma_untouched_count(
    states: Seq<Map<Seq<char>, nat>>,
    tokens: Seq<Seq<char>>,
    stranger: Seq<char>,
    j: int,
)
    requires
        states.len() == tokens.len() + 1,
        count_in(states[0], stranger) == 0,
        forall|i: int|
            0 <= i < tokens.len() ==> count_in(#[trigger] states[i + 1], stranger) == count_in(
                states[i],
                stranger,
            ),
        0 <= j <= tokens.len(),
    ensures
        count_in(states[j], stranger) == 0,
    decreases j,
{
    if j > 0 {
        lemma_untouched_count(states, tokens, stranger, j - 1);
        assert(count_in(states[j - 1 + 1], stranger) == count_in(states[j - 1], stranger));
    }
}

/// No false negatives: through any run of insertions, a token that was
/// inserted at step `k` is reported in every later state.
pub proof fn lemma_inserted_token_stays(
    states: Seq<Set<Seq<char>>>,
    tokens: Seq<Seq<char>>,
    k: int,
    j: int,
)
    requires
        states.len() == tokens.len() + 1,
        forall|i: int|
            0 <= i < tokens.len() ==> grown_by(#[trigger] states[i], states[i + 1], tokens[i]),
        0 <= k < j <= tokens.len(),
    ensures
        states[j].contains(tokens[k]),
    decreases j - k,
{
    assert(grown_by(states[j - 1], states[j], tokens[j - 1]));
    if j - 1 > k {
        lemma_inserted_token_stays(states, tokens, k, j - 1);
    }
}

} // verus!
