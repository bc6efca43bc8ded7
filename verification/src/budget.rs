//! The cumulative byte counter that enforces the cap on the log's size.
//!
//! The counter starts at the size the file had on disk and grows by the
//! payload length of each record; stamp bytes are not counted. The cap is
//! enforced after the fact: the record that takes the counter over the cap is
//! counted, and from then on the counter stands still.

use vstd::prelude::*;
use vstd::seq_lib::to_multiset_contains;
use vstd::seq_lib::to_multiset_len;
use vstd::seq_lib::to_multiset_remove;

verus! {

/// The counter as a mathematical value.
pub struct BudgetView {
    pub startup: nat,
    pub max: nat,
    pub total: nat,
}

/// The sum of a sequence of sizes.
pub open spec fn sum_sizes(sizes: Seq<nat>) -> nat
    decreases sizes.len(),
{
    if sizes.len() == 0 {
        0
    } else {
        sum_sizes(sizes.drop_last()) + sizes.last()
    }
}

impl BudgetView {
    /// Whether the counter has passed the cap.
    pub open spec fn exceeded(self) -> bool {
        self.total > self.max
    }

    /// The counter after one more record of `n` payload bytes.
    pub open spec fn increment(self, n: nat) -> BudgetView {
        if self.exceeded() {
            self
        } else {
            BudgetView { total: self.total + n, ..self }
        }
    }

    /// The counter after records of the given sizes, in any one order.
    pub open spec fn increment_all(self, sizes: Seq<nat>) -> BudgetView
        decreases sizes.len(),
    {
        if sizes.len() == 0 {
            self
        } else {
            self.increment_all(sizes.drop_last()).increment(sizes.last())
        }
    }
}

/// What the counter says of the cap once a record has been counted.
#[derive(Clone, Copy, Debug, PartialEq, Eq, Structural)]
pub enum Verdict {
    /// The log is within its cap.
    Within,
    /// The log has passed its cap: the whole process must end.
    Exceeded,
}

impl Verdict {
    /// The exit code that the verdict forces on the process, if it forces one.
    pub fn exit_code(self) -> (code: Option<i32>)
        ensures
            code == (if self == Verdict::Exceeded {
                Some(1i32)
            } else {
                None
            }),
    {
        match self {
            Verdict::Exceeded => Some(1),
            Verdict::Within => None,
        }
    }
}

/// Why a counter could not be started.
#[derive(Clone, Copy, Debug, PartialEq, Eq, Structural)]
pub enum StartupError {
    /// The file on disk is already larger than the cap.
    OverBudget { size: usize, max: usize },
}

/// The cumulative byte counter.
#[derive(Debug)]
pub struct ByteBudget {
    startup_size: usize,
    max_size: usize,
    total: u128,
}

impl View for ByteBudget {
    type V = BudgetView;

    closed spec fn view(&self) -> BudgetView {
        BudgetView {
            startup: self.startup_size as nat,
            max: self.max_size as nat,
            total: self.total as nat,
        }
    }
}

impl ByteBudget {
    /// The counter's invariant: it never falls under the size at startup,
    /// and it passes the cap by one record at most.
    #[verifier::type_invariant]
    spec fn wf(&self) -> bool {
        &&& self.startup_size <= self.total
        &&& self.total <= self.max_size + usize::MAX
    }

    /// Seeds the counter with the size of the file on disk. A file that is
    /// already over the cap is refused, and nothing is counted or written.
    pub fn start(startup_size: usize, max_size: usize) -> (r: Result<ByteBudget, StartupError>)
        ensures
            startup_size > max_size ==> r == Err::<ByteBudget, StartupError>(
                StartupError::OverBudget { size: startup_size, max: max_size },
            ),
            startup_size <= max_size ==> r is Ok && r->Ok_0@ == (BudgetView {
                startup: startup_size as nat,
                max: max_size as nat,
                total: startup_size as nat,
            }),
    {
        if startup_size > max_size {
            Err(StartupError::OverBudget { size: startup_size, max: max_size })
        } else {
            Ok(ByteBudget { startup_size, max_size, total: startup_size as u128 })
        }
    }

    /// Counts a record of `n` payload bytes that has been written, then
    /// compares the counter with the cap. Once the cap is passed nothing more
    /// is counted and every verdict is `Exceeded`.
    pub fn increment(&mut self, n: usize) -> (verdict: Verdict)
        ensures
            final(self)@ == old(self)@.increment(n as nat),
            verdict == (if final(self)@.exceeded() {
                Verdict::Exceeded
            } else {
                Verdict::Within
            }),
    {
        proof {
            use_type_invariant(&*self);
        }
        if self.total <= self.max_size as u128 {
            self.total = self.total + n as u128;
        }
        if self.total > self.max_size as u128 {
            Verdict::Exceeded
        } else {
            Verdict::Within
        }
    }

    /// Whether the counter has passed the cap.
    pub fn exceeded(&self) -> (b: bool)
        ensures
            b == self@.exceeded(),
    {
        self.total > self.max_size as u128
    }

    /// The cumulative count: the size at startup and every payload since.
    pub fn total(&self) -> (t: u128)
        ensures
            t == self@.total,
            t >= self@.startup,
    {
        proof {
            use_type_invariant(self);
        }
        self.total
    }

    /// The size that the file had on disk at startup.
    pub fn startup_size(&self) -> (s: usize)
        ensures
            s == self@.startup,
    {
        self.startup_size
    }

    /// The cap on the log's size.
    pub fn max_size(&self) -> (m: usize)
        ensures
            m == self@.max,
    {
        self.max_size
    }

    /// The payload bytes counted since startup.
    pub fn written_this_session(&self) -> (w: u128)
        ensures
            self@.startup <= self@.total,
            w == self@.total - self@.startup,
    {
        proof {
            use_type_invariant(self);
        }
        self.total - self.startup_size as u128
    }
}

/// After records of sizes `sizes`, counted in whatever order they came, the
/// counter stands at its earlier value plus the sum of the sizes, provided the
/// cap had not been passed before the last of them.
pub proof fn lemma_total_is_sum(budget: BudgetView, sizes: Seq<nat>)
    requires
        sizes.len() > 0 ==> budget.total + sum_sizes(sizes.drop_last()) <= budget.max,
    ensures
        budget.increment_all(sizes).total == budget.total + sum_sizes(sizes),
        budget.increment_all(sizes).startup == budget.startup,
        budget.increment_all(sizes).max == budget.max,
    decreases sizes.len(),
{
    if sizes.len() > 0 {
        let earlier = sizes.drop_last();
        if earlier.len() > 0 {
            assert(sum_sizes(earlier) == sum_sizes(earlier.drop_last()) + earlier.last());
        }
        lemma_total_is_sum(budget, earlier);
    }
}

/// Taking one size out of a sequence takes it out of the sum.
pub proof fn lemma_sum_without(sizes: Seq<nat>, i: int)
    requires
        0 <= i < sizes.len(),
    ensures
        sum_sizes(sizes) == sum_sizes(sizes.remove(i)) + sizes[i],
    decreases sizes.len(),
{
    if i == sizes.len() - 1 {
        assert(sizes.remove(i) =~= sizes.drop_last());
    } else {
        lemma_sum_without(sizes.drop_last(), i);
        assert(sizes.remove(i).drop_last() =~= sizes.drop_last().remove(i));
        assert(sizes.remove(i).last() == sizes.last());
    }
}

/// The sum of the sizes does not depend on the order in which the records
/// were counted: two sequences that hold the same sizes, each as often as
/// the other, have the same sum.
pub proof fn lemma_sum_ignores_order(first: Seq<nat>, second: Seq<nat>)
    requires
        first.to_multiset() == second.to_multiset(),
    ensures
        sum_sizes(first) == sum_sizes(second),
    decreases first.len(),
{
    to_multiset_len(first);
    to_multiset_len(second);
    if first.len() > 0 {
        let last = first.last();
        assert(first.contains(last));
        to_multiset_contains(first, last);
        to_multiset_contains(second, last);
        let j = choose|j: int| 0 <= j < second.len() && second[j] == last;
        to_multiset_remove(first, first.len() - 1);
        to_multiset_remove(second, j);
        assert(first.remove(first.len() - 1) =~= first.drop_last());
        lemma_sum_ignores_order(first.drop_last(), second.remove(j));
        lemma_sum_without(second, j);
    }
}

/// The counter does not depend on the order in which the records were
/// counted: the same sizes in two orders, neither of which passes the cap
/// before its last record, leave the same total.
pub proof fn lemma_total_ignores_order(budget: BudgetView, first: Seq<nat>, second: Seq<nat>)
    requires
        first.to_multiset() == second.to_multiset(),
        first.len() > 0 ==> budget.total + sum_sizes(first.drop_last()) <= budget.max,
        second.len() > 0 ==> budget.total + sum_sizes(second.drop_last()) <= budget.max,
    ensures
        budget.increment_all(first) == budget.increment_all(second),
        budget.increment_all(first).total == budget.total + sum_sizes(first),
{
    lemma_sum_ignores_order(first, second);
    lemma_total_is_sum(budget, first);
    lemma_total_is_sum(budget, second);
}

/// The counter never decreases, and never falls under the size at startup.
pub proof fn lemma_total_never_decreases(budget: BudgetView, sizes: Seq<nat>)
    requires
        budget.startup <= budget.total,
    ensures
        budget.increment_all(sizes).total >= budget.total,
        budget.increment_all(sizes).total >= budget.startup,
        budget.increment_all(sizes).startup == budget.startup,
        budget.increment_all(sizes).max == budget.max,
    decreases sizes.len(),
{
    if sizes.len() > 0 {
        lemma_total_never_decreases(budget, sizes.drop_last());
    }
}

/// Once the counter has passed the cap it stays as it is, whatever is offered
/// to it afterwards: it remains over the cap and counts nothing more.
pub proof fn lemma_exceeded_is_final(budget: BudgetView, sizes: Seq<nat>)
    requires
        budget.exceeded(),
    ensures
        budget.increment_all(sizes) == budget,
    decreases sizes.len(),
{
    if sizes.len() > 0 {
        lemma_exceeded_is_final(budget, sizes.drop_last());
    }
}

/// The counter passes the cap by one record at most: the record that takes it
/// over is counted, and no later one.
pub proof fn lemma_single_overshoot(budget: BudgetView, sizes: Seq<nat>, bound: nat)
    requires
        budget.total <= budget.max + bound,
        forall|i: int| 0 <= i < sizes.len() ==> #[trigger] sizes[i] <= bound,
    ensures
        budget.increment_all(sizes).total <= budget.max + bound,
    decreases sizes.len(),
{
    if sizes.len() > 0 {
        lemma_single_overshoot(budget, sizes.drop_last(), bound);
        lemma_cap_is_kept(budget, sizes.drop_last());
    }
}

/// Counting records leaves the cap as it is.
pub proof fn lemma_cap_is_kept(budget: BudgetView, sizes: Seq<nat>)
    ensures
        budget.increment_all(sizes).max == budget.max,
        budget.increment_all(sizes).startup == budget.startup,
    decreases sizes.len(),
{
    if sizes.len() > 0 {
        lemma_cap_is_kept(budget, sizes.drop_last());
    }
}

} // verus!
