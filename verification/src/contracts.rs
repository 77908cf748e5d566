//! Supplier contracts: record them, list them with those expiring soon,
//! look them up.
use vstd::prelude::*;
use crate::clock::{self, utc_rfc3339_after};
use crate::ids::is_generated_id;
use crate::keyed::{find_keyed, has_key, lookup, stored_as, upsert_keyed};
use crate::server::{ContractIdInput, ContractInput, ProcError, ProcurementServer};
use crate::store::Store;
use crate::text::{lex_le, take_text_or, text_le, text_or};
use crate::types::{Contract, ContractStatus};

verus! {

/// Contracts ending within this many days count as expiring soon.
pub const EXPIRY_WINDOW_DAYS: i64 = 90;

/// `c` is the active contract that recording `input` under `id` makes:
/// currency USD unless given, no auto-renewal and empty terms unless given.
pub open spec fn contract_from_input(c: Contract, id: Seq<char>, input: ContractInput) -> bool {
    &&& c.id@ == id
    &&& c.supplier_id == input.supplier_id
    &&& c.title == input.title
    &&& c.contract_type == input.contract_type
    &&& c.value == input.value
    &&& c.currency@ == text_or(input.currency, "USD"@)
    &&& c.start_date == input.start_date
    &&& c.end_date == input.end_date
    &&& c.auto_renew == (match input.auto_renew {
        Some(b) => b,
        None => false,
    })
    &&& c.terms@ == text_or(input.terms, Seq::empty())
    &&& c.status == ContractStatus::Active
}

/// An active contract whose end date sorts no later than `cutoff`.
pub open spec fn is_expiring(c: Contract, cutoff: Seq<char>) -> bool {
    c.status == ContractStatus::Active && lex_le(c.end_date@, cutoff)
}

/// How many of the contracts are expiring by `cutoff`.
pub open spec fn count_expiring(cs: Seq<Contract>, cutoff: Seq<char>) -> nat
    decreases cs.len(),
{
    if cs.len() == 0 {
        0
    } else {
        count_expiring(cs.drop_last(), cutoff) + (if is_expiring(cs.last(), cutoff) {
            1nat
        } else {
            0nat
        })
    }
}

/// The contract count and how many of them expire soon.
pub struct ContractSummary {
    pub count: usize,
    pub expiring_within_90_days: usize,
    /// The RFC 3339 instant up to which an end date counts as expiring.
    pub cutoff: String,
}

impl ProcurementServer {
    /// Records a contract under the given id and timestamp.
    pub fn contract_create_with_id(&mut self, id: String, created_at: String, input: ContractInput) -> (r:
        String)
        requires
            old(self).store.wf(),
        ensures
            final(self).store.wf(),
            r@ == id@,
            stored_as(
                old(self).store.contracts@,
                final(self).store.contracts@,
                id@,
                |c: Contract| contract_from_input(c, id@, input) && c.created_at@ == created_at@,
            ),
            final(self).store == (Store { contracts: final(self).store.contracts, ..old(self).store }),
    {
        let ghost input0 = input;
        let c = Contract {
            id: id.clone(),
            supplier_id: input.supplier_id,
            title: input.title,
            contract_type: input.contract_type,
            value: input.value,
            currency: take_text_or(input.currency, "USD"),
            start_date: input.start_date,
            end_date: input.end_date,
            auto_renew: match input.auto_renew {
                Some(b) => b,
                None => false,
            },
            terms: take_text_or(input.terms, ""),
            status: ContractStatus::Active,
            created_at,
        };
        proof {
            reveal_strlit("");
            assert(""@ =~= Seq::<char>::empty());
        }
        let ghost made = |x: Contract| contract_from_input(x, id@, input0) && x.created_at@ == created_at@;
        assert(made(c));
        upsert_keyed(&mut self.store.contracts, c);
        id
    }

    /// Records a contract under a fresh id `ctr_` followed by eight hex
    /// digits, stamped with the current time.
    pub fn contract_create(&mut self, input: ContractInput) -> (r: String)
        requires
            old(self).store.wf(),
        ensures
            final(self).store.wf(),
            is_generated_id("ctr"@, r@),
            stored_as(
                old(self).store.contracts@,
                final(self).store.contracts@,
                r@,
                |c: Contract| contract_from_input(c, r@, input),
            ),
            final(self).store == (Store { contracts: final(self).store.contracts, ..old(self).store }),
    {
        let id = Store::new_id("ctr");
        let created_at = clock::now();
        self.contract_create_with_id(id, created_at, input)
    }

    /// How many contracts there are and how many are expiring by `cutoff`
    /// (an RFC 3339 timestamp, compared as text).
    pub fn contract_summary_at(&self, cutoff: String) -> (r: ContractSummary)
        ensures
            r.count == self.store.contracts@.len(),
            r.expiring_within_90_days == count_expiring(self.store.contracts@, cutoff@),
            r.cutoff@ == cutoff@,
    {
        let cs = &self.store.contracts;
        let n = cs.len();
        let mut expiring: usize = 0;
        let mut i: usize = 0;
        while i < n
            invariant
                n == cs@.len(),
                i <= n,
                expiring == count_expiring(cs@.take(i as int), cutoff@),
                expiring <= i,
            decreases n - i,
        {
            proof {
                assert(cs@.take(i + 1).drop_last() =~= cs@.take(i as int));
            }
            if cs[i].status == ContractStatus::Active && text_le(cs[i].end_date.as_str(), cutoff.as_str()) {
                expiring = expiring + 1;
            }
            i = i + 1;
        }
        assert(cs@.take(n as int) =~= cs@);
        ContractSummary { count: n, expiring_within_90_days: expiring, cutoff }
    }

    /// How many contracts there are and how many active ones end within 90
    /// days from now; the cutoff reported is that instant 90 days ahead.
    pub fn contract_list(&self) -> (r: ContractSummary)
        ensures
            r.count == self.store.contracts@.len(),
            r.expiring_within_90_days == count_expiring(self.store.contracts@, r.cutoff@),
            exists|secs: int, nanos: int|
                0 <= nanos < 1_000_000_000 && r.cutoff@ == #[trigger] utc_rfc3339_after(
                    secs,
                    nanos,
                    EXPIRY_WINDOW_DAYS as int,
                ),
    {
        let (cutoff, _secs, _nanos) = clock::rfc3339_days_from_now(EXPIRY_WINDOW_DAYS);
        self.contract_summary_at(cutoff)
    }

    /// The contract with the given id.
    pub fn contract_get(&self, input: ContractIdInput) -> (r: Result<&Contract, ProcError>)
        requires
            self.store.wf(),
        ensures
            match r {
                Ok(c) => lookup(self.store.contracts@, input.contract_id@) == Some(*c),
                Err(e) => e == ProcError::ContractNotFound && !has_key(
                    self.store.contracts@,
                    input.contract_id@,
                ),
            },
    {
        match find_keyed(&self.store.contracts, &input.contract_id) {
            Some(i) => Ok(&self.store.contracts[i]),
            None => Err(ProcError::ContractNotFound),
        }
    }
}

} // verus!
