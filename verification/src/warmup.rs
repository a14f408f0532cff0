//! The bootstrap pipeline: rows streamed from the authoritative store are
//! gathered into batches, and each full batch is flushed into a tier.
//!
//! Reading the stream is the caller's business. The caller hands every
//! event of the stream to a step function of this module and carries out the
//! action that comes back, so that the filter's lock is held for one batch at
//! a time and never across the stream.

use vstd::prelude::*;
use crate::token::{normal_form, normalize, texts};
use crate::username_cache::{
    batch_mark, lemma_marked_with_concat, marked_with, positives_only, TakenCache,
};
use crate::username_filter::{
    added_up_to, count_in, each_gained, insert_batch, lemma_added_up_to_adds, UsernameFilter,
};

verus! {

/// When a batch that is being filled is due for flushing.
#[derive(Clone, Copy, Debug, PartialEq, Eq, Structural)]
pub enum FlushRule {
    /// When it holds exactly the batch size. A batch size of zero is never
    /// met: everything is flushed in one batch at the end.
    Exactly,
    /// When it holds at least the batch size. With a batch size of zero
    /// every row is flushed by itself.
    AtLeast,
}

/// Whether a batch of `held` rows is due under a rule and a batch size.
pub open spec fn flush_due(rule: FlushRule, held: nat, batch_size: nat) -> bool {
    match rule {
        FlushRule::Exactly => held == batch_size,
        FlushRule::AtLeast => held >= batch_size,
    }
}

/// The state of one bootstrap run, as a value.
pub struct BatchView {
    /// The rows gathered since the last flush, oldest first.
    pub pending: Seq<Seq<char>>,
    /// The configured batch size.
    pub batch_size: nat,
    /// The configured flush rule.
    pub rule: FlushRule,
    /// The number of rows taken in so far.
    pub total: nat,
}

/// The state after one more row, and the batch to flush if one became due.
pub open spec fn spec_push(state: BatchView, name: Seq<char>) -> (BatchView, Option<Seq<Seq<char>>>) {
    let held = state.pending.push(name);
    if flush_due(state.rule, held.len(), state.batch_size) {
        (
            BatchView {
                pending: Seq::empty(),
                batch_size: state.batch_size,
                rule: state.rule,
                total: state.total + 1,
            },
            Some(held),
        )
    } else {
        (
            BatchView {
                pending: held,
                batch_size: state.batch_size,
                rule: state.rule,
                total: state.total + 1,
            },
            None,
        )
    }
}

/// The batch to flush when the stream is exhausted: what is pending, unless
/// nothing is.
pub open spec fn spec_finish(state: BatchView) -> Option<Seq<Seq<char>>> {
    if state.pending.len() > 0 {
        Some(state.pending)
    } else {
        None
    }
}

/// The rows of a bootstrap run that wait for the next flush.
pub struct WarmupBatch {
    pending: Vec<String>,
    batch_size: usize,
    rule: FlushRule,
    total: usize,
}

impl View for WarmupBatch {
    type V = BatchView;

    closed spec fn view(&self) -> BatchView {
        BatchView {
            pending: texts(self.pending@),
            batch_size: self.batch_size as nat,
            rule: self.rule,
            total: self.total as nat,
        }
    }
}

impl WarmupBatch {
    /// A run that has read nothing yet.
    pub fn new(batch_size: usize, rule: FlushRule) -> (batch: Self)
        ensures
            batch@ == (BatchView {
                pending: Seq::empty(),
                batch_size: batch_size as nat,
                rule,
                total: 0,
            }),
    {
        let batch = WarmupBatch { pending: Vec::new(), batch_size, rule, total: 0 };
        assert(texts(batch.pending@) =~= Seq::<Seq<char>>::empty());
        batch
    }

    /// The number of rows taken in so far.
    pub fn total(&self) -> (total: usize)
        ensures
            total == self@.total,
    {
        self.total
    }

    /// The number of rows that wait for the next flush.
    pub fn pending_len(&self) -> (held: usize)
        ensures
            held == self@.pending.len(),
    {
        self.pending.len()
    }

    /// Takes in one row and hands out the batch that became due, if any.
    pub fn push(&mut self, name: String) -> (flushed: Option<Vec<String>>)
        requires
            old(self)@.total < usize::MAX,
        ensures
            final(self)@ == spec_push(old(self)@, name@).0,
            match flushed {
                Some(batch) => spec_push(old(self)@, name@).1 == Some(texts(batch@)),
                None => spec_push(old(self)@, name@).1.is_none(),
            },
    {
        let ghost held = old(self)@.pending.push(name@);
        self.pending.push(name);
        self.total = self.total + 1;
        assert(texts(self.pending@) =~= held);
        let count = self.pending.len();
        let due = match self.rule {
            FlushRule::Exactly => count == self.batch_size,
            FlushRule::AtLeast => count >= self.batch_size,
        };
        if due {
            let mut batch: Vec<String> = Vec::new();
            std::mem::swap(&mut batch, &mut self.pending);
            assert(texts(self.pending@) =~= Seq::<Seq<char>>::empty());
            Some(batch)
        } else {
            None
        }
    }

    /// Hands out what is left when the stream is exhausted.
    pub fn finish(&mut self) -> (last: Option<Vec<String>>)
        ensures
            final(self)@ == (BatchView { pending: Seq::empty(), ..old(self)@ }),
            match last {
                Some(batch) => spec_finish(old(self)@) == Some(texts(batch@)),
                None => spec_finish(old(self)@).is_none(),
            },
    {
        if self.pending.len() > 0 {
            let mut batch: Vec<String> = Vec::new();
            std::mem::swap(&mut batch, &mut self.pending);
            assert(texts(self.pending@) =~= Seq::<Seq<char>>::empty());
            Some(batch)
        } else {
            assert(texts(self.pending@) =~= Seq::<Seq<char>>::empty());
            None
        }
    }
}

/// One event of the stream of rows.
#[derive(Debug, PartialEq, Eq)]
pub enum RowEvent {
    /// The next identifier.
    Row(String),
    /// Reading the next row failed.
    ReadFailed,
    /// The stream has no more rows.
    Exhausted,
}

/// What the caller does after an event.
#[derive(Debug, PartialEq, Eq)]
pub enum WarmupAction {
    /// Read the next row.
    Continue,
    /// Flush this batch, then read the next row.
    Flush(Vec<String>),
    /// Flush this last batch, if there is one; the run is complete.
    Complete(Option<Vec<String>>),
    /// Stop without flushing anything more; the run has failed and is not
    /// tried again.
    Abort,
}

/// The texts of the batch that an action asks to flush, if it asks for one.
pub open spec fn action_batch(action: WarmupAction) -> Option<Seq<Seq<char>>> {
    match action {
        WarmupAction::Flush(batch) => Some(texts(batch@)),
        WarmupAction::Complete(Some(batch)) => Some(texts(batch@)),
        _ => None,
    }
}

/// One step of a run, for a row that goes in as `token`.
fn step(state: &mut WarmupBatch, token: String) -> (action: WarmupAction)
    requires
        old(state)@.total < usize::MAX,
    ensures
        final(state)@ == spec_push(old(state)@, token@).0,
        action_batch(action) == spec_push(old(state)@, token@).1,
        action is Continue || action is Flush,
{
    match state.push(token) {
        Some(batch) => WarmupAction::Flush(batch),
        None => WarmupAction::Continue,
    }
}

/// One step of the filter's bootstrap. Each row is normalized as it comes
/// in, so that a batch can be inserted into the filter as it stands.
pub fn warmup_username_filter(state: &mut WarmupBatch, event: RowEvent) -> (action: WarmupAction)
    requires
        event is Row ==> old(state)@.total < usize::MAX,
    ensures
        match event {
            RowEvent::Row(name) => {
                &&& final(state)@ == spec_push(old(state)@, normal_form(name@)).0
                &&& action_batch(action) == spec_push(old(state)@, normal_form(name@)).1
                &&& action is Continue || action is Flush
            },
            RowEvent::ReadFailed => action is Abort && final(state)@ == old(state)@,
            RowEvent::Exhausted => {
                &&& action is Complete
                &&& action_batch(action) == spec_finish(old(state)@)
                &&& final(state)@ == (BatchView { pending: Seq::empty(), ..old(state)@ })
            },
        },
{
    match event {
        RowEvent::Row(name) => {
            let token = normalize(name.as_str());
            step(state, token)
        },
        RowEvent::ReadFailed => WarmupAction::Abort,
        RowEvent::Exhausted => WarmupAction::Complete(state.finish()),
    }
}

/// One step of the cache's bootstrap. Rows go in as they are read: marking a
/// batch normalizes each of them.
pub fn warmup_username_cache(state: &mut WarmupBatch, event: RowEvent) -> (action: WarmupAction)
    requires
        event is Row ==> old(state)@.total < usize::MAX,
    ensures
        match event {
            RowEvent::Row(name) => {
                &&& final(state)@ == spec_push(old(state)@, name@).0
                &&& action_batch(action) == spec_push(old(state)@, name@).1
                &&& action is Continue || action is Flush
            },
            RowEvent::ReadFailed => action is Abort && final(state)@ == old(state)@,
            RowEvent::Exhausted => {
                &&& action is Complete
                &&& action_batch(action) == spec_finish(old(state)@)
                &&& final(state)@ == (BatchView { pending: Seq::empty(), ..old(state)@ })
            },
        },
{
    match event {
        RowEvent::Row(name) => step(state, name),
        RowEvent::ReadFailed => WarmupAction::Abort,
        RowEvent::Exhausted => WarmupAction::Complete(state.finish()),
    }
}

/// The state of a run that has read nothing yet.
pub open spec fn fresh(batch_size: nat, rule: FlushRule) -> BatchView {
    BatchView { pending: Seq::empty(), batch_size, rule, total: 0 }
}

/// The state of a run after the rows `names`, and the batches that were
/// flushed on the way, in their order.
pub open spec fn run(start: BatchView, names: Seq<Seq<char>>) -> (BatchView, Seq<Seq<Seq<char>>>)
    decreases names.len(),
{
    if names.len() == 0 {
        (start, Seq::empty())
    } else {
        let (state, flushed) = run(start, names.drop_last());
        let (next, due) = spec_push(state, names.last());
        (
            next,
            match due {
                Some(batch) => flushed.push(batch),
                None => flushed,
            },
        )
    }
}

/// Every batch of a complete run over `names`: those flushed on the way and
/// the last one, flushed when the stream is exhausted.
pub open spec fn batches_of(batch_size: nat, rule: FlushRule, names: Seq<Seq<char>>) -> Seq<
    Seq<Seq<char>>,
> {
    let (state, flushed) = run(fresh(batch_size, rule), names);
    match spec_finish(state) {
        Some(batch) => flushed.push(batch),
        None => flushed,
    }
}

proof fn lemma_run_keeps_rows(batch_size: nat, rule: FlushRule, names: Seq<Seq<char>>)
    ensures
        ({
            let (state, flushed) = run(fresh(batch_size, rule), names);
            &&& flushed.flatten() + state.pending == names
            &&& state.batch_size == batch_size
            &&& state.rule == rule
            &&& state.total == names.len()
        }),
    decreases names.len(),
{
    let start = fresh(batch_size, rule);
    if names.len() == 0 {
        assert(Seq::<Seq<Seq<char>>>::empty().flatten() + start.pending =~= names);
    } else {
        lemma_run_keeps_rows(batch_size, rule, names.drop_last());
        let (state, flushed) = run(start, names.drop_last());
        let held = state.pending.push(names.last());
        assert(names =~= names.drop_last().push(names.last()));
        if flush_due(rule, held.len(), batch_size) {
            flushed.lemma_flatten_push(held);
            assert(flushed.push(held).flatten() + Seq::<Seq<char>>::empty() =~= names);
        } else {
            assert(flushed.flatten() + held =~= names);
        }
    }
}

/// Nothing is lost and nothing changes place: the batches of a complete run,
/// one after the other, are the rows that were read.
pub proof fn lemma_batches_keep_every_row(batch_size: nat, rule: FlushRule, names: Seq<Seq<char>>)
    ensures
        batches_of(batch_size, rule, names).flatten() == names,
{
    lemma_run_keeps_rows(batch_size, rule, names);
    let (state, flushed) = run(fresh(batch_size, rule), names);
    if state.pending.len() > 0 {
        flushed.lemma_flatten_push(state.pending);
    } else {
        assert(flushed.flatten() + state.pending =~= flushed.flatten());
    }
}

proof fn lemma_run_fills_batches(batch_size: nat, rule: FlushRule, names: Seq<Seq<char>>)
    requires
        batch_size >= 1,
    ensures
        ({
            let (state, flushed) = run(fresh(batch_size, rule), names);
            &&& state.pending.len() < batch_size
            &&& flushed.len() * batch_size + state.pending.len() == names.len()
            &&& forall|b: int| 0 <= b < flushed.len() ==> (#[trigger] flushed[b]).len() == batch_size
        }),
    decreases names.len(),
{
    let start = fresh(batch_size, rule);
    if names.len() == 0 {
        assert(0 * batch_size == 0) by (nonlinear_arith);
    } else {
        lemma_run_fills_batches(batch_size, rule, names.drop_last());
        lemma_run_keeps_rows(batch_size, rule, names.drop_last());
        let (state, flushed) = run(start, names.drop_last());
        let held = state.pending.push(names.last());
        if flush_due(rule, held.len(), batch_size) {
            assert((flushed.len() + 1) * batch_size == flushed.len() * batch_size + batch_size)
                by (nonlinear_arith);
        }
    }
}

/// With a batch size of at least one, under either rule, a complete run over
/// `n` rows flushes `n / batch_size` full batches and then, if rows are left
/// over, one batch of the `n % batch_size` that remain.
pub proof fn lemma_batch_sizes(batch_size: nat, rule: FlushRule, names: Seq<Seq<char>>)
    requires
        batch_size >= 1,
    ensures
        ({
            let batches = batches_of(batch_size, rule, names);
            let full = names.len() / batch_size;
            let rest = names.len() % batch_size;
            &&& batches.len() == full + if rest > 0 { 1nat } else { 0nat }
            &&& forall|b: int| 0 <= b < full ==> (#[trigger] batches[b]).len() == batch_size
            &&& rest > 0 ==> batches[full as int].len() == rest
        }),
{
    lemma_run_fills_batches(batch_size, rule, names);
    let (state, flushed) = run(fresh(batch_size, rule), names);
    vstd::arithmetic::div_mod::lemma_fundamental_div_mod_converse(
        names.len() as int,
        batch_size as int,
        flushed.len() as int,
        state.pending.len() as int,
    );
}

/// A run that reads no row flushes no batch.
pub proof fn lemma_empty_stream_flushes_nothing(batch_size: nat, rule: FlushRule)
    ensures
        batches_of(batch_size, rule, Seq::empty()).len() == 0,
{
}

proof fn lemma_flatten_covered(batches: Seq<Seq<Seq<char>>>, hits: Set<Seq<char>>)
    requires
        forall|b: int, j: int|
            0 <= b < batches.len() && 0 <= j < batches[b].len() ==> hits.contains(
                #[trigger] batches[b][j],
            ),
    ensures
        forall|i: int| 0 <= i < batches.flatten().len() ==> hits.contains(#[trigger] batches.flatten()[i]),
    decreases batches.len(),
{
    if batches.len() == 0 {
    } else {
        let front = batches.drop_last();
        assert forall|b: int, j: int| 0 <= b < front.len() && 0 <= j < front[b].len() implies hits.contains(
            #[trigger] front[b][j],
        ) by {
            assert(front[b] == batches[b]);
        }
        lemma_flatten_covered(front, hits);
        front.lemma_flatten_push(batches.last());
        assert(batches =~= front.push(batches.last()));
        assert forall|i: int| 0 <= i < batches.flatten().len() implies hits.contains(
            #[trigger] batches.flatten()[i],
        ) by {
            if i < front.flatten().len() {
                assert(batches.flatten()[i] == front.flatten()[i]);
            } else {
                assert(batches.flatten()[i] == batches[batches.len() - 1][i - front.flatten().len()]);
            }
        }
    }
}

/// A tier that reports every token of every batch of a complete run reports
/// every row that was read.
pub proof fn lemma_flushed_batches_cover_rows(
    batch_size: nat,
    rule: FlushRule,
    names: Seq<Seq<char>>,
    hits: Set<Seq<char>>,
)
    requires
        forall|b: int, j: int|
            0 <= b < batches_of(batch_size, rule, names).len() && 0 <= j < batches_of(
                batch_size,
                rule,
                names,
            )[b].len() ==> hits.contains(#[trigger] batches_of(batch_size, rule, names)[b][j]),
    ensures
        forall|i: int| 0 <= i < names.len() ==> hits.contains(#[trigger] names[i]),
{
    lemma_batches_keep_every_row(batch_size, rule, names);
    lemma_flatten_covered(batches_of(batch_size, rule, names), hits);
}

/// How a run over rows at hand went.
#[derive(Debug, Clone, Copy, PartialEq, Eq, Structural)]
pub struct WarmupReport {
    /// The number of rows taken in.
    pub total: usize,
    /// The number of batches flushed.
    pub batches: usize,
}

/// The normal forms of a list of rows, in their order.
pub open spec fn normal_rows(rows: Seq<String>) -> Seq<Seq<char>> {
    Seq::new(rows.len(), |i: int| normal_form(rows[i]@))
}

proof fn lemma_run_step(start: BatchView, names: Seq<Seq<char>>, i: int)
    requires
        0 <= i < names.len(),
    ensures
        ({
            let (state, flushed) = run(start, names.subrange(0, i));
            let (next, due) = spec_push(state, names[i]);
            run(start, names.subrange(0, i + 1)) == (
                next,
                match due {
                    Some(batch) => flushed.push(batch),
                    None => flushed,
                },
            )
        }),
{
    let longer = names.subrange(0, i + 1);
    assert(longer.drop_last() =~= names.subrange(0, i));
    assert(longer.last() == names[i]);
}

/// Runs the filter's bootstrap over rows that are at hand: every row is
/// normalized, and every batch that becomes due, and the last one, is
/// inserted into the filter. Afterwards the filter reports every row: each
/// row has gained a fingerprint of its own, and no more fingerprints were
/// added than there are rows. A caller that streams the rows uses
/// `warmup_username_filter` instead.
pub fn bootstrap_filter(filter: &mut UsernameFilter, rows: &[String], batch_size: usize) -> (report:
    WarmupReport)
    requires
        rows@.len() < usize::MAX,
    ensures
        report.total == rows@.len(),
        report.batches == batches_of(
            batch_size as nat,
            FlushRule::Exactly,
            normal_rows(rows@),
        ).len(),
        old(filter)@.subset_of(final(filter)@),
        forall|i: int|
            0 <= i < rows@.len() ==> final(filter)@.contains(normal_form(#[trigger] rows@[i]@)),
        added_up_to(old(filter).copies(), final(filter).copies(), rows@.len()),
        each_gained(old(filter).copies(), final(filter).copies(), normal_rows(rows@)),
{
    let ghost names = normal_rows(rows@);
    let ghost start = fresh(batch_size as nat, FlushRule::Exactly);
    let mut state = WarmupBatch::new(batch_size, FlushRule::Exactly);
    let mut batches: usize = 0;
    let n = rows.len();
    let mut i: usize = 0;
    let ghost mut flushed: Seq<Seq<Seq<char>>> = Seq::empty();
    let ghost mut done: int = 0;
    proof {
        assert(names.subrange(0, 0) =~= Seq::<Seq<char>>::empty());
    }
    while i < n
        invariant
            n == rows@.len(),
            n < usize::MAX,
            i <= n,
            names == normal_rows(rows@),
            start == fresh(batch_size as nat, FlushRule::Exactly),
            run(start, names.subrange(0, i as int)) == (state@, flushed),
            state@.total == i,
            batches == flushed.len(),
            batches <= i,
            0 <= done <= i,
            state@.pending == names.subrange(done, i as int),
            old(filter)@.subset_of(filter@),
            forall|j: int| 0 <= j < done ==> filter@.contains(#[trigger] names[j]),
            added_up_to(old(filter).copies(), filter.copies(), done as nat),
            each_gained(old(filter).copies(), filter.copies(), names.subrange(0, done)),
        decreases n - i,
    {
        let ghost before = state@;
        let ghost reported_before = filter@;
        let ghost copies_before = filter.copies();
        proof {
            lemma_run_step(start, names, i as int);
            assert(names[i as int] == normal_form(rows@[i as int]@));
        }
        let action = warmup_username_filter(&mut state, RowEvent::Row(rows[i].clone()));
        match action {
            WarmupAction::Flush(batch) => {
                let ghost held = before.pending.push(names[i as int]);
                proof {
                    assert(texts(batch@) == held);
                    assert(held =~= names.subrange(done, i + 1));
                }
                insert_batch(filter, batch.as_slice());
                batches = batches + 1;
                proof {
                    assert forall|j: int| 0 <= j < i + 1 implies filter@.contains(
                        #[trigger] names[j],
                    ) by {
                        if j < done {
                            assert(reported_before.contains(names[j]));
                        } else {
                            assert(texts(batch@)[j - done] == names[j]);
                            assert(filter@.contains(batch@[j - done]@));
                        }
                    }
                    lemma_added_up_to_adds(
                        old(filter).copies(),
                        copies_before,
                        filter.copies(),
                        done as nat,
                        batch@.len(),
                    );
                    assert forall|j: int| 0 <= j < i + 1 implies count_in(
                        filter.copies(),
                        #[trigger] names.subrange(0, i + 1)[j],
                    ) >= count_in(old(filter).copies(), names.subrange(0, i + 1)[j]) + 1 by {
                        assert(count_in(copies_before, names[j]) <= count_in(
                            filter.copies(),
                            names[j],
                        ));
                        assert(count_in(old(filter).copies(), names[j]) <= count_in(
                            copies_before,
                            names[j],
                        ));
                        if j < done {
                            assert(names.subrange(0, done)[j] == names[j]);
                        } else {
                            assert(texts(batch@)[j - done] == names[j]);
                        }
                    }
                    flushed = flushed.push(held);
                    done = i + 1;
                    assert(state@.pending =~= names.subrange(done, i + 1));
                }
            },
            _ => {
                proof {
                    assert(state@.pending =~= names.subrange(done, i + 1));
                }
            },
        }
        i = i + 1;
    }
    proof {
        assert(names.subrange(0, n as int) =~= names);
    }
    let ghost reported_before = filter@;
    let ghost copies_before = filter.copies();
    let ghost pending = state@.pending;
    match warmup_username_filter(&mut state, RowEvent::Exhausted) {
        WarmupAction::Complete(Some(batch)) => {
            insert_batch(filter, batch.as_slice());
            batches = batches + 1;
            proof {
                assert(texts(batch@) =~= names.subrange(done, n as int));
                lemma_added_up_to_adds(
                    old(filter).copies(),
                    copies_before,
                    filter.copies(),
                    done as nat,
                    batch@.len(),
                );
                assert forall|j: int| 0 <= j < n implies count_in(
                    filter.copies(),
                    #[trigger] names[j],
                ) >= count_in(old(filter).copies(), names[j]) + 1 by {
                    assert(count_in(copies_before, names[j]) <= count_in(filter.copies(), names[j]));
                    assert(count_in(old(filter).copies(), names[j]) <= count_in(
                        copies_before,
                        names[j],
                    ));
                    if j < done {
                        assert(names.subrange(0, done)[j] == names[j]);
                    } else {
                        assert(texts(batch@)[j - done] == names[j]);
                    }
                }
                assert forall|j: int| 0 <= j < n implies filter@.contains(#[trigger] names[j]) by {
                    if j < done {
                        assert(reported_before.contains(names[j]));
                    } else {
                        assert(texts(batch@)[j - done] == names[j]);
                        assert(filter@.contains(batch@[j - done]@));
                    }
                }
            }
        },
        _ => {
            proof {
                assert(pending.len() == 0);
                assert(done == n);
                assert(names.subrange(0, done) =~= names);
            }
        },
    }
    proof {
        assert forall|j: int| 0 <= j < rows@.len() implies filter@.contains(
            normal_form(#[trigger] rows@[j]@),
        ) by {
            assert(names[j] == normal_form(rows@[j]@));
        }
    }
    WarmupReport { total: state.total(), batches }
}

/// Runs the cache's bootstrap over rows that are at hand: every batch that
/// becomes due, and the last one, is marked in the cache. Afterwards the
/// normal form of every row has the marker `true`, and every other token
/// has the marker that it had. A caller that streams the rows uses
/// `warmup_username_cache` instead.
pub fn bootstrap_cache(cache: &mut TakenCache, rows: &[String], batch_size: usize) -> (report:
    WarmupReport)
    requires
        rows@.len() < usize::MAX,
    ensures
        report.total == rows@.len(),
        report.batches == batches_of(batch_size as nat, FlushRule::AtLeast, texts(rows@)).len(),
        final(cache).markers() == marked_with(old(cache).markers(), texts(rows@)),
        final(cache).max_entries() == old(cache).max_entries(),
        final(cache).ttl_secs() == old(cache).ttl_secs(),
        positives_only(final(cache).markers()),
{
    proof {
        use_type_invariant(&*cache);
    }
    let ghost names = texts(rows@);
    let ghost start = fresh(batch_size as nat, FlushRule::AtLeast);
    let mut state = WarmupBatch::new(batch_size, FlushRule::AtLeast);
    let mut batches: usize = 0;
    let n = rows.len();
    let mut i: usize = 0;
    let ghost mut flushed: Seq<Seq<Seq<char>>> = Seq::empty();
    let ghost mut done: int = 0;
    proof {
        assert(names.subrange(0, 0) =~= Seq::<Seq<char>>::empty());
        assert(cache.markers() =~= marked_with(old(cache).markers(), names.subrange(0, 0)));
    }
    while i < n
        invariant
            n == rows@.len(),
            n < usize::MAX,
            i <= n,
            names == texts(rows@),
            start == fresh(batch_size as nat, FlushRule::AtLeast),
            run(start, names.subrange(0, i as int)) == (state@, flushed),
            state@.total == i,
            batches == flushed.len(),
            batches <= i,
            0 <= done <= i,
            state@.pending == names.subrange(done, i as int),
            cache.markers() == marked_with(old(cache).markers(), names.subrange(0, done)),
            cache.max_entries() == old(cache).max_entries(),
            cache.ttl_secs() == old(cache).ttl_secs(),
            positives_only(cache.markers()),
        decreases n - i,
    {
        let ghost before = state@;
        proof {
            lemma_run_step(start, names, i as int);
        }
        let action = warmup_username_cache(&mut state, RowEvent::Row(rows[i].clone()));
        match action {
            WarmupAction::Flush(batch) => {
                let ghost held = before.pending.push(names[i as int]);
                proof {
                    assert(texts(batch@) == held);
                    assert(held =~= names.subrange(done, i + 1));
                }
                batch_mark(cache, batch.as_slice());
                batches = batches + 1;
                proof {
                    lemma_marked_with_concat(
                        old(cache).markers(),
                        names.subrange(0, done),
                        names.subrange(done, i + 1),
                    );
                    assert(names.subrange(0, done) + names.subrange(done, i + 1) =~= names.subrange(
                        0,
                        i + 1,
                    ));
                    flushed = flushed.push(held);
                    done = i + 1;
                    assert(state@.pending =~= names.subrange(done, i + 1));
                }
            },
            _ => {
                proof {
                    assert(state@.pending =~= names.subrange(done, i + 1));
                }
            },
        }
        i = i + 1;
    }
    proof {
        assert(names.subrange(0, n as int) =~= names);
    }
    let ghost pending = state@.pending;
    match warmup_username_cache(&mut state, RowEvent::Exhausted) {
        WarmupAction::Complete(Some(batch)) => {
            batch_mark(cache, batch.as_slice());
            batches = batches + 1;
            proof {
                lemma_marked_with_concat(
                    old(cache).markers(),
                    names.subrange(0, done),
                    names.subrange(done, n as int),
                );
                assert(names.subrange(0, done) + names.subrange(done, n as int) =~= names);
            }
        },
        _ => {
            proof {
                assert(pending.len() == 0);
                assert(names.subrange(0, done) =~= names);
            }
        },
    }
    WarmupReport { total: state.total(), batches }
}

} // verus!
