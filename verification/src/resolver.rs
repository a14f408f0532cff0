//! The uniqueness resolver: one availability decision out of the filter,
//! the cache and the authoritative store, and the bookkeeping after a claim.
//!
//! Uniqueness itself is enforced by the store's constraint alone. The two
//! in-memory tiers only spare it lookups: the filter answers "definitely
//! absent" fast, the cache answers "known to be taken" fast, and whatever
//! neither settles goes to the store. Where the store cannot answer, the
//! identifier counts as taken.

use vstd::prelude::*;
use crate::token::{normal_form, normalize};
use crate::username_cache::{is_taken, mark_taken, TakenCache};
use crate::username_filter::{
    added, grown_by, hits, insert, lemma_added_grows, might_exist_or_fault, reported,
    UsernameFilter,
};

verus! {

/// What the authoritative store said of a normalized identifier.
#[derive(Clone, Copy, Debug, PartialEq, Eq, Structural)]
pub enum StoreAnswer {
    /// No record holds the identifier.
    Absent,
    /// A record holds the identifier.
    Present,
    /// The lookup failed: no connection, a timeout, any other error.
    Failed,
}

/// An availability decision.
#[derive(Clone, Copy, Debug, PartialEq, Eq, Structural)]
pub enum Availability {
    /// Nobody holds the identifier.
    Available,
    /// Somebody holds the identifier.
    Taken,
    /// Nothing could be learnt. This counts as taken, so that an outage
    /// never lets through a duplicate claim.
    Uncertain,
}

/// Where a lookup stands once the in-memory tiers have been consulted.
#[derive(Debug, PartialEq, Eq)]
pub enum Lookup {
    /// The filter or the cache settled it.
    Settled(Availability),
    /// The store has to be asked about this normalized identifier.
    AskStore(String),
}

/// The decision of the in-memory tiers, if they reach one: a filter miss is
/// "available"; after a filter hit, a cache hit is "taken".
pub open spec fn tiers_verdict(filter_hit: bool, cache_hit: bool) -> Option<Availability> {
    if !filter_hit {
        Some(Availability::Available)
    } else if cache_hit {
        Some(Availability::Taken)
    } else {
        None
    }
}

/// The decision that follows from the store's answer.
pub open spec fn store_verdict(answer: StoreAnswer) -> Availability {
    match answer {
        StoreAnswer::Absent => Availability::Available,
        StoreAnswer::Present => Availability::Taken,
        StoreAnswer::Failed => Availability::Uncertain,
    }
}

/// The whole cascade: filter, then cache, then store.
pub open spec fn cascade(filter_hit: bool, cache_hit: bool, answer: StoreAnswer) -> Availability {
    match tiers_verdict(filter_hit, cache_hit) {
        Some(verdict) => verdict,
        None => store_verdict(answer),
    }
}

/// Whether a decision lets a claim go ahead.
pub open spec fn grants(verdict: Availability) -> bool {
    verdict == Availability::Available
}

impl Availability {
    /// Whether the identifier may be offered as free. Uncertainty does not.
    pub fn is_available(&self) -> (free: bool)
        ensures
            free == grants(*self),
    {
        match self {
            Availability::Available => true,
            Availability::Taken => false,
            Availability::Uncertain => false,
        }
    }
}

/// The next step of a lookup whose filter and cache answers are known.
pub fn after_tiers(filter_hit: bool, cache_hit: bool, token: String) -> (lookup: Lookup)
    ensures
        lookup == match tiers_verdict(filter_hit, cache_hit) {
            Some(verdict) => Lookup::Settled(verdict),
            None => Lookup::AskStore(token),
        },
{
    if !filter_hit {
        Lookup::Settled(Availability::Available)
    } else if cache_hit {
        Lookup::Settled(Availability::Taken)
    } else {
        Lookup::AskStore(token)
    }
}

/// Whether the markers hold a positive one for `token`.
pub open spec fn known_taken(markers: Map<Seq<char>, bool>, token: Seq<char>) -> bool {
    markers.contains_key(token) && markers[token]
}

/// Consults the in-memory tiers about a raw identifier. It changes nothing.
///
/// A filter miss settles the lookup as available without touching the cache.
/// After a filter hit the cache decides between "taken" and asking the
/// store; it says "taken" only of an identifier whose marker it holds.
pub fn consult_tiers(
    filter: Option<&UsernameFilter>,
    cache: &TakenCache,
    username: &str,
) -> (lookup: Lookup)
    ensures
        !reported(filter, normal_form(username@)) ==> lookup == Lookup::Settled(
            Availability::Available,
        ),
        reported(filter, normal_form(username@)) ==> {
            ||| lookup == Lookup::Settled(Availability::Taken) && known_taken(
                cache.markers(),
                normal_form(username@),
            )
            ||| lookup matches Lookup::AskStore(token) && token@ == normal_form(username@)
        },
{
    let token = normalize(username);
    if !might_exist_or_fault(filter, username) {
        return after_tiers(false, false, token);
    }
    let cache_hit = is_taken(cache, username);
    after_tiers(true, cache_hit, token)
}

/// The decision for a lookup that went to the store.
pub fn availability_from_store(answer: StoreAnswer) -> (verdict: Availability)
    ensures
        verdict == store_verdict(answer),
{
    match answer {
        StoreAnswer::Absent => Availability::Available,
        StoreAnswer::Present => Availability::Taken,
        StoreAnswer::Failed => Availability::Uncertain,
    }
}

/// Whether a raw identifier is free, for a store that can be asked on the
/// spot. The store is asked only where the filter reports the identifier
/// and the cache does not know it as taken, and then about the normalized
/// identifier. Whatever cannot be learnt counts as taken.
pub fn is_username_available<F: FnOnce(String) -> StoreAnswer>(
    filter: Option<&UsernameFilter>,
    cache: &TakenCache,
    username: &str,
    ask_store: F,
) -> (available: bool)
    requires
        forall|token: String| call_requires(ask_store, (token,)),
    ensures
        !reported(filter, normal_form(username@)) ==> available,
        reported(filter, normal_form(username@)) ==> {
            ||| !available && known_taken(cache.markers(), normal_form(username@))
            ||| exists|token: String, answer: StoreAnswer|
                token@ == normal_form(username@) && call_ensures(ask_store, (token,), answer)
                    && available == grants(store_verdict(answer))
        },
{
    match consult_tiers(filter, cache, username) {
        Lookup::Settled(verdict) => verdict.is_available(),
        Lookup::AskStore(token) => {
            let answer = ask_store(token);
            availability_from_store(answer).is_available()
        },
    }
}

/// How the store answered an attempt to insert a new record.
#[derive(Debug, PartialEq, Eq)]
pub enum InsertOutcome {
    /// The record was written.
    Inserted,
    /// The database refused the statement, with this SQLSTATE code if it
    /// gave one.
    Refused(Option<String>),
    /// Any other failure: no connection, a timeout, a protocol error.
    Failed,
}

/// The result of a claim.
#[derive(Clone, Copy, Debug, PartialEq, Eq, Structural)]
pub enum ClaimResult {
    /// The identifier now belongs to the claimant.
    Claimed,
    /// The identifier was taken already.
    Conflict,
    /// The store failed for a reason that has nothing to do with uniqueness.
    InternalError,
}

/// The SQLSTATE class code of an integrity-constraint violation.
pub open spec fn unique_violation_code() -> Seq<char> {
    "23000"@
}

/// Whether a database error code reports a violated uniqueness constraint.
pub fn is_unique_violation(code: Option<&str>) -> (violated: bool)
    ensures
        violated == (code matches Some(c) && c@ == unique_violation_code()),
{
    match code {
        Some(c) => c.eq("23000"),
        None => false,
    }
}

/// The result that an insert outcome stands for.
pub open spec fn spec_claim_result(outcome: InsertOutcome) -> ClaimResult {
    match outcome {
        InsertOutcome::Inserted => ClaimResult::Claimed,
        InsertOutcome::Refused(Some(code)) => if code@ == unique_violation_code() {
            ClaimResult::Conflict
        } else {
            ClaimResult::InternalError
        },
        InsertOutcome::Refused(None) => ClaimResult::InternalError,
        InsertOutcome::Failed => ClaimResult::InternalError,
    }
}

/// Classifies the store's answer to an insert.
pub fn claim_result(outcome: &InsertOutcome) -> (result: ClaimResult)
    ensures
        result == spec_claim_result(*outcome),
{
    match outcome {
        InsertOutcome::Inserted => ClaimResult::Claimed,
        InsertOutcome::Refused(Some(code)) => {
            if is_unique_violation(Some(code.as_str())) {
                ClaimResult::Conflict
            } else {
                ClaimResult::InternalError
            }
        },
        InsertOutcome::Refused(None) => ClaimResult::InternalError,
        InsertOutcome::Failed => ClaimResult::InternalError,
    }
}

/// What a claim with the given result does to the filter: a successful one
/// adds one fingerprint for the token, any other leaves the filter alone.
pub open spec fn filter_effect(
    before: Map<Seq<char>, nat>,
    after: Map<Seq<char>, nat>,
    token: Seq<char>,
    result: ClaimResult,
) -> bool {
    if result == ClaimResult::Claimed {
        added(before, after, token)
    } else {
        after == before
    }
}

/// What a claim with the given result does to the cache: a successful one
/// gives the token the marker `true`, any other leaves the cache alone.
pub open spec fn cache_effect(
    before: Map<Seq<char>, bool>,
    after: Map<Seq<char>, bool>,
    token: Seq<char>,
    result: ClaimResult,
) -> bool {
    after == if result == ClaimResult::Claimed {
        before.insert(token, true)
    } else {
        before
    }
}

/// What a claim with the given result does to the two tiers.
pub open spec fn claim_effect(
    filter_before: Map<Seq<char>, nat>,
    filter_after: Map<Seq<char>, nat>,
    cache_before: Map<Seq<char>, bool>,
    cache_after: Map<Seq<char>, bool>,
    token: Seq<char>,
    result: ClaimResult,
) -> bool {
    &&& filter_effect(filter_before, filter_after, token, result)
    &&& cache_effect(cache_before, cache_after, token, result)
}

/// Records a successful claim in the tiers: first in the filter, then in
/// the cache. `None` stands for a filter whose lock was found broken: the
/// cache is updated all the same.
pub fn record_claim(filter: Option<&mut UsernameFilter>, cache: &mut TakenCache, username: &str)
    ensures
        filter matches Some(f) ==> added(f.copies(), final(f).copies(), normal_form(username@)),
        final(cache).markers() == old(cache).markers().insert(normal_form(username@), true),
        final(cache).max_entries() == old(cache).max_entries(),
        final(cache).ttl_secs() == old(cache).ttl_secs(),
{
    match filter {
        Some(f) => {
            insert(f, username);
        },
        None => {},
    }
    mark_taken(cache, username);
}

/// Finishes a claim once the store has answered the insert. Only a
/// successful insert touches the filter and the cache. `None` stands for a
/// filter whose lock was found broken.
pub fn complete_claim(
    filter: Option<&mut UsernameFilter>,
    cache: &mut TakenCache,
    username: &str,
    outcome: &InsertOutcome,
) -> (result: ClaimResult)
    ensures
        result == spec_claim_result(*outcome),
        filter matches Some(f) ==> filter_effect(
            f.copies(),
            final(f).copies(),
            normal_form(username@),
            result,
        ),
        cache_effect(old(cache).markers(), final(cache).markers(), normal_form(username@), result),
        final(cache).max_entries() == old(cache).max_entries(),
        final(cache).ttl_secs() == old(cache).ttl_secs(),
{
    let result = claim_result(outcome);
    match result {
        ClaimResult::Claimed => {
            record_claim(filter, cache, username);
        },
        _ => {},
    }
    result
}

/// Claims a raw identifier with a store that can be written to on the spot.
/// The insert of the normalized identifier is attempted without any lookup
/// before it: the store's uniqueness constraint decides. A success is
/// recorded in the filter and in the cache; a conflict or a failure touches
/// neither.
pub fn claim<F: FnOnce(String) -> InsertOutcome>(
    filter: Option<&mut UsernameFilter>,
    cache: &mut TakenCache,
    username: &str,
    insert_record: F,
) -> (result: ClaimResult)
    requires
        forall|token: String| call_requires(insert_record, (token,)),
    ensures
        exists|token: String, outcome: InsertOutcome|
            token@ == normal_form(username@) && call_ensures(insert_record, (token,), outcome)
                && result == spec_claim_result(outcome),
        filter matches Some(f) ==> filter_effect(
            f.copies(),
            final(f).copies(),
            normal_form(username@),
            result,
        ),
        cache_effect(old(cache).markers(), final(cache).markers(), normal_form(username@), result),
        final(cache).max_entries() == old(cache).max_entries(),
        final(cache).ttl_secs() == old(cache).ttl_secs(),
{
    let token = normalize(username);
    let outcome = insert_record(token);
    complete_claim(filter, cache, username, &outcome)
}

/// The decision for a raw identifier, given the tokens that the filter
/// reports, the tokens that the cache still holds, and the store's answer
/// for each token.
pub open spec fn decision(
    hits: Set<Seq<char>>,
    live: Set<Seq<char>>,
    store: spec_fn(Seq<char>) -> StoreAnswer,
    raw: Seq<char>,
) -> Availability {
    let token = normal_form(raw);
    cascade(hits.contains(token), live.contains(token), store(token))
}

/// The cache is a positive accelerator only: without a cache hit the decision
/// is the one that the filter and the store reach between them.
pub proof fn lemma_cache_miss_falls_through(filter_hit: bool, answer: StoreAnswer)
    ensures
        cascade(filter_hit, false, answer) == if filter_hit {
            store_verdict(answer)
        } else {
            Availability::Available
        },
{
}

/// A failing store never makes an identifier available that the filter
/// reports.
pub proof fn lemma_store_failure_is_not_available(cache_hit: bool)
    ensures
        !grants(cascade(true, cache_hit, StoreAnswer::Failed)),
{
}

/// An identifier that was claimed stays unavailable: once the claim is
/// recorded in the filter, and through whatever is inserted later, no lookup
/// grants it while the store holds it. That is so whether its cache entry is
/// still alive or has expired, and whether the store answers or fails.
pub proof fn lemma_claimed_token_stays_unavailable(
    before: Set<Seq<char>>,
    recorded: Set<Seq<char>>,
    later: Set<Seq<char>>,
    live: Set<Seq<char>>,
    store: spec_fn(Seq<char>) -> StoreAnswer,
    raw: Seq<char>,
)
    requires
        grown_by(before, recorded, normal_form(raw)),
        recorded.subset_of(later),
        store(normal_form(raw)) != StoreAnswer::Absent,
    ensures
        !grants(decision(later, live, store, raw)),
{
}

/// Spellings that share a normal form get the same decision.
pub proof fn lemma_case_variants_decide_alike(
    hits: Set<Seq<char>>,
    live: Set<Seq<char>>,
    store: spec_fn(Seq<char>) -> StoreAnswer,
    a: Seq<char>,
    b: Seq<char>,
)
    requires
        normal_form(a) == normal_form(b),
    ensures
        decision(hits, live, store, a) == decision(hits, live, store, b),
{
}

/// A successful claim leaves the identifier reported by the filter and
/// known as taken to the cache, and nothing that the filter reported or the
/// cache held is lost.
pub proof fn lemma_claimed_token_is_recorded(
    filter_before: Map<Seq<char>, nat>,
    filter_after: Map<Seq<char>, nat>,
    cache_before: Map<Seq<char>, bool>,
    cache_after: Map<Seq<char>, bool>,
    token: Seq<char>,
)
    requires
        claim_effect(
            filter_before,
            filter_after,
            cache_before,
            cache_after,
            token,
            ClaimResult::Claimed,
        ),
    ensures
        grown_by(hits(filter_before), hits(filter_after), token),
        known_taken(cache_after, token),
        forall|other: Seq<char>|
            other != token && cache_before.contains_key(other) ==> cache_after.contains_key(other)
                && #[trigger] cache_after[other] == cache_before[other],
{
    lemma_added_grows(filter_before, filter_after, token);
}

/// Two claims of one fresh identifier, of which the store lets one through
/// and refuses the other as a duplicate: exactly one is `Claimed`, the other
/// is `Conflict`, and whichever of the two came first, the tiers end up the
/// same way: the filter with one fingerprint added for the token, the cache
/// with the token's marker set and nothing else changed.
pub proof fn lemma_racing_claims_end_alike(
    filters: Seq<Map<Seq<char>, nat>>,
    caches: Seq<Map<Seq<char>, bool>>,
    token: Seq<char>,
    first: InsertOutcome,
    second: InsertOutcome,
)
    requires
        filters.len() == 3,
        caches.len() == 3,
        (first is Inserted && spec_claim_result(second) == ClaimResult::Conflict) || (
        spec_claim_result(first) == ClaimResult::Conflict && second is Inserted),
        claim_effect(filters[0], filters[1], caches[0], caches[1], token, spec_claim_result(first)),
        claim_effect(filters[1], filters[2], caches[1], caches[2], token, spec_claim_result(second)),
    ensures
        (spec_claim_result(first) == ClaimResult::Claimed) != (spec_claim_result(second)
            == ClaimResult::Claimed),
        spec_claim_result(first) == ClaimResult::Conflict || spec_claim_result(second)
            == ClaimResult::Conflict,
        added(filters[0], filters[2], token),
        grown_by(hits(filters[0]), hits(filters[2]), token),
        caches[2] == caches[0].insert(token, true),
{
    lemma_added_grows(filters[0], filters[2], token);
}

} // verus!
