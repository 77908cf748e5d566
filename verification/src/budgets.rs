//! Department budgets: set them, and check an amount against what a
//! department has left.
use vstd::prelude::*;
use crate::fixed::fits_i128;
use crate::ids::is_generated_id;
use crate::server::{BudgetCheckInput, BudgetInput, ProcError, ProcurementServer};
use crate::store::Store;
use crate::text::{take_text_or, text_or};
use crate::types::Budget;

verus! {

/// `b` is the budget that setting `input` under `id` makes, nothing spent
/// yet, currency USD unless given.
pub open spec fn budget_from_input(b: Budget, id: Seq<char>, input: BudgetInput) -> bool {
    &&& b.id@ == id
    &&& b.department == input.department
    &&& b.category == input.category
    &&& b.allocated == input.allocated
    &&& b.spent == 0
    &&& b.currency@ == text_or(input.currency, "USD"@)
    &&& b.period == input.period
}

/// How many budgets belong to department `dept`.
pub open spec fn dept_count(bs: Seq<Budget>, dept: Seq<char>) -> nat
    decreases bs.len(),
{
    if bs.len() == 0 {
        0
    } else {
        dept_count(bs.drop_last(), dept) + (if bs.last().department@ == dept {
            1nat
        } else {
            0nat
        })
    }
}

/// The amount allocated to department `dept`, over all its budgets.
pub open spec fn dept_allocated(bs: Seq<Budget>, dept: Seq<char>) -> int
    decreases bs.len(),
{
    if bs.len() == 0 {
        0
    } else {
        dept_allocated(bs.drop_last(), dept) + (if bs.last().department@ == dept {
            bs.last().allocated as int
        } else {
            0
        })
    }
}

/// The amount department `dept` has spent, over all its budgets.
pub open spec fn dept_spent(bs: Seq<Budget>, dept: Seq<char>) -> int
    decreases bs.len(),
{
    if bs.len() == 0 {
        0
    } else {
        dept_spent(bs.drop_last(), dept) + (if bs.last().department@ == dept {
            bs.last().spent as int
        } else {
            0
        })
    }
}

/// The answer to a budget check.
pub enum BudgetCheck {
    /// The department has no budget; approve with caution.
    NoBudgetSet,
    /// Amounts in cents; approve when within budget, reject otherwise.
    Checked { allocated: i128, spent: i128, remaining: i128, within_budget: bool },
}

impl ProcurementServer {
    /// Sets a department budget under the given id.
    pub fn budget_set_with_id(&mut self, id: String, input: BudgetInput) -> (r: String)
        requires
            old(self).store.wf(),
        ensures
            final(self).store.wf(),
            r@ == id@,
            final(self).store.budgets@ == old(self).store.budgets@.push(
                final(self).store.budgets@.last(),
            ),
            budget_from_input(final(self).store.budgets@.last(), id@, input),
            final(self).store == (Store { budgets: final(self).store.budgets, ..old(self).store }),
    {
        let b = Budget {
            id: id.clone(),
            department: input.department,
            category: input.category,
            allocated: input.allocated,
            spent: 0,
            currency: take_text_or(input.currency, "USD"),
            period: input.period,
        };
        self.store.budgets.push(b);
        id
    }

    /// Sets a department budget under a fresh id `bgt_` followed by eight
    /// hex digits.
    pub fn budget_set(&mut self, input: BudgetInput) -> (r: String)
        requires
            old(self).store.wf(),
        ensures
            final(self).store.wf(),
            is_generated_id("bgt"@, r@),
            final(self).store.budgets@ == old(self).store.budgets@.push(
                final(self).store.budgets@.last(),
            ),
            budget_from_input(final(self).store.budgets@.last(), r@, input),
            final(self).store == (Store { budgets: final(self).store.budgets, ..old(self).store }),
    {
        let id = Store::new_id("bgt");
        self.budget_set_with_id(id, input)
    }

    /// Checks an amount against what the department has left over all its
    /// budgets: allocated minus spent.
    pub fn budget_check(&self, input: BudgetCheckInput) -> (r: Result<BudgetCheck, ProcError>)
        ensures
            ({
                let bs = self.store.budgets@;
                let dept = input.department@;
                let rem = dept_allocated(bs, dept) - dept_spent(bs, dept);
                &&& dept_count(bs, dept) == 0 ==> r == Ok::<BudgetCheck, ProcError>(
                    BudgetCheck::NoBudgetSet,
                )
                &&& dept_count(bs, dept) > 0 && !fits_i128(rem) ==> r == Err::<BudgetCheck, ProcError>(
                    ProcError::AmountOverflow,
                )
                &&& dept_count(bs, dept) > 0 && fits_i128(rem) ==> r == Ok::<BudgetCheck, ProcError>(
                    BudgetCheck::Checked {
                        allocated: dept_allocated(bs, dept) as i128,
                        spent: dept_spent(bs, dept) as i128,
                        remaining: rem as i128,
                        within_budget: input.amount <= rem,
                    },
                )
            }),
    {
        let bs = &self.store.budgets;
        let n = bs.len();
        let mut count: usize = 0;
        let mut allocated: i128 = 0;
        let mut spent: i128 = 0;
        let mut i: usize = 0;
        while i < n
            invariant
                n == bs@.len(),
                i <= n,
                count == dept_count(bs@.take(i as int), input.department@),
                count <= i,
                allocated == dept_allocated(bs@.take(i as int), input.department@),
                spent == dept_spent(bs@.take(i as int), input.department@),
                -(i as int) * 0x8000_0000_0000_0000 <= allocated <= (i as int) * 0x8000_0000_0000_0000,
                -(i as int) * 0x8000_0000_0000_0000 <= spent <= (i as int) * 0x8000_0000_0000_0000,
            decreases n - i,
        {
            proof {
                assert(bs@.take(i + 1).drop_last() =~= bs@.take(i as int));
            }
            if bs[i].department == input.department {
                count = count + 1;
                allocated = allocated + bs[i].allocated as i128;
                spent = spent + bs[i].spent as i128;
            }
            i = i + 1;
        }
        assert(bs@.take(n as int) =~= bs@);
        if count == 0 {
            return Ok(BudgetCheck::NoBudgetSet);
        }
        match allocated.checked_sub(spent) {
            Some(remaining) => Ok(
                BudgetCheck::Checked {
                    allocated,
                    spent,
                    remaining,
                    within_budget: (input.amount as i128) <= remaining,
                },
            ),
            None => Err(ProcError::AmountOverflow),
        }
    }
}

} // verus!
