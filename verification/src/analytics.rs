//! Spend analytics: what was spent on orders that went out, in all and per
//! supplier.
use vstd::prelude::*;
use crate::keyed::{find_keyed, lookup};
use crate::rfqs::quoting_name;
use crate::server::{ProcurementServer, SpendInput};
use crate::text::{lex_le, text_le};
use crate::types::{PoStatus, PurchaseOrder, Supplier};

verus! {

/// The order counts toward spend: it is neither a draft nor cancelled; it
/// is with the supplier asked for, if one is; its supplier, registered in
/// `sups`, is of the category asked for, if one is; and it was created
/// within the period asked for, its timestamp compared as text with the
/// period's start and end, both included.
pub open spec fn counts_toward_spend(po: PurchaseOrder, sups: Seq<Supplier>, filter: SpendInput) -> bool {
    &&& po.status != PoStatus::Draft
    &&& po.status != PoStatus::Cancelled
    &&& match filter.supplier_id {
        Some(s) => po.supplier_id@ == s@,
        None => true,
    }
    &&& match filter.category {
        Some(c) => match lookup(sups, po.supplier_id@) {
            Some(sup) => sup.category@ == c@,
            None => false,
        },
        None => true,
    }
    &&& match filter.start {
        Some(t) => lex_le(t@, po.created_at@),
        None => true,
    }
    &&& match filter.end {
        Some(t) => lex_le(po.created_at@, t@),
        None => true,
    }
}

/// The spend over the orders that count, in cents.
pub open spec fn spend_total(pos: Seq<PurchaseOrder>, sups: Seq<Supplier>, filter: SpendInput) -> int
    decreases pos.len(),
{
    if pos.len() == 0 {
        0
    } else {
        spend_total(pos.drop_last(), sups, filter) + (if counts_toward_spend(pos.last(), sups, filter) {
            pos.last().total as int
        } else {
            0
        })
    }
}

/// How many orders count.
pub open spec fn spend_count(pos: Seq<PurchaseOrder>, sups: Seq<Supplier>, filter: SpendInput) -> nat
    decreases pos.len(),
{
    if pos.len() == 0 {
        0
    } else {
        spend_count(pos.drop_last(), sups, filter) + (if counts_toward_spend(pos.last(), sups, filter) {
            1nat
        } else {
            0nat
        })
    }
}

/// The suppliers of the orders that count, each once, in the order of
/// their first such order.
pub open spec fn spend_suppliers(pos: Seq<PurchaseOrder>, sups: Seq<Supplier>, filter: SpendInput) -> Seq<Seq<char>>
    decreases pos.len(),
{
    if pos.len() == 0 {
        Seq::empty()
    } else {
        let prev = spend_suppliers(pos.drop_last(), sups, filter);
        if counts_toward_spend(pos.last(), sups, filter) && !prev.contains(pos.last().supplier_id@) {
            prev.push(pos.last().supplier_id@)
        } else {
            prev
        }
    }
}

/// The spend over the orders that count with supplier `sid`, in cents.
pub open spec fn supplier_spend(pos: Seq<PurchaseOrder>, sups: Seq<Supplier>, filter: SpendInput, sid: Seq<char>) -> int
    decreases pos.len(),
{
    if pos.len() == 0 {
        0
    } else {
        supplier_spend(pos.drop_last(), sups, filter, sid) + (if counts_toward_spend(pos.last(), sups, filter)
            && pos.last().supplier_id@ == sid {
            pos.last().total as int
        } else {
            0
        })
    }
}

/// A supplier with no order that counts has no spend.
pub proof fn lemma_spend_absent(pos: Seq<PurchaseOrder>, sups: Seq<Supplier>, filter: SpendInput, sid: Seq<char>)
    requires
        !spend_suppliers(pos, sups, filter).contains(sid),
    ensures
        supplier_spend(pos, sups, filter, sid) == 0,
    decreases pos.len(),
{
    if pos.len() > 0 {
        let prev = spend_suppliers(pos.drop_last(), sups, filter);
        if prev.contains(sid) {
            let i = choose|i: int| 0 <= i < prev.len() && prev[i] == sid;
            let cur = spend_suppliers(pos, sups, filter);
            if counts_toward_spend(pos.last(), sups, filter) && !prev.contains(pos.last().supplier_id@) {
                assert(cur[i] == sid);
            } else {
                assert(cur[i] == sid);
            }
        }
        lemma_spend_absent(pos.drop_last(), sups, filter, sid);
        if counts_toward_spend(pos.last(), sups, filter) && pos.last().supplier_id@ == sid {
            if !prev.contains(sid) {
                assert(spend_suppliers(pos, sups, filter).last() == sid);
            }
        }
    }
}

/// The suppliers listed by `spend_suppliers` are distinct.
pub proof fn lemma_spend_suppliers_distinct(pos: Seq<PurchaseOrder>, sups: Seq<Supplier>, filter: SpendInput)
    ensures
        spend_suppliers(pos, sups, filter).no_duplicates(),
    decreases pos.len(),
{
    if pos.len() > 0 {
        lemma_spend_suppliers_distinct(pos.drop_last(), sups, filter);
    }
}

/// One supplier's line of the spend analysis. Amounts in cents.
pub struct SupplierSpend {
    pub supplier_id: String,
    /// The supplier's name, or its id when no supplier has it.
    pub name: String,
    pub total_spend: i128,
}

/// The spend analysis.
pub struct SpendReport {
    /// Cents.
    pub total_spend: i128,
    pub po_count: usize,
    pub by_supplier: Vec<SupplierSpend>,
}

impl ProcurementServer {
    /// What was spent on orders that went out (neither drafts nor
    /// cancelled), optionally with one supplier, of one supplier category and
    /// within a period: the total, the number of orders, and the spend per
    /// supplier in the order of each supplier's first counted order.
    pub fn spend_analysis(&self, input: SpendInput) -> (r: SpendReport)
        requires
            self.store.wf(),
        ensures
            ({
                let pos = self.store.purchase_orders@;
                let g = spend_suppliers(pos, self.store.suppliers@, input);
                &&& r.total_spend == spend_total(pos, self.store.suppliers@, input)
                &&& r.po_count == spend_count(pos, self.store.suppliers@, input)
                &&& r.by_supplier@.len() == g.len()
                &&& forall|j: int|
                    0 <= j < g.len() ==> {
                        &&& (#[trigger] r.by_supplier@[j]).supplier_id@ == g[j]
                        &&& r.by_supplier@[j].total_spend == supplier_spend(pos, self.store.suppliers@, input, g[j])
                        &&& r.by_supplier@[j].name@ == quoting_name(self.store.suppliers@, g[j])
                    }
            }),
    {
        let pos = &self.store.purchase_orders;
        let n = pos.len();
        let mut total: i128 = 0;
        let mut count: usize = 0;
        let mut groups: Vec<SupplierSpend> = Vec::new();
        let mut k: usize = 0;
        while k < n
            invariant
                self.store.wf(),
                n == pos@.len(),
                k <= n,
                total == spend_total(pos@.take(k as int), self.store.suppliers@, input),
                -(k as int) * 0x8000_0000_0000_0000 <= total <= (k as int) * 0x8000_0000_0000_0000,
                count == spend_count(pos@.take(k as int), self.store.suppliers@, input),
                count <= k,
                groups@.len() == spend_suppliers(pos@.take(k as int), self.store.suppliers@, input).len(),
                forall|j: int|
                    0 <= j < groups@.len() ==> {
                        let sid = spend_suppliers(pos@.take(k as int), self.store.suppliers@, input)[j];
                        &&& (#[trigger] groups@[j]).supplier_id@ == sid
                        &&& groups@[j].total_spend == supplier_spend(pos@.take(k as int), self.store.suppliers@, input, sid)
                        &&& -(k as int) * 0x8000_0000_0000_0000 <= groups@[j].total_spend <= (k as int)
                            * 0x8000_0000_0000_0000
                        &&& groups@[j].name@ == quoting_name(self.store.suppliers@, sid)
                    },
            decreases n - k,
        {
            let ghost pre = pos@.take(k as int);
            let ghost nxt = pos@.take(k + 1);
            proof {
                assert(nxt.drop_last() =~= pre);
                assert(nxt.last() == pos@[k as int]);
                lemma_spend_suppliers_distinct(pre, self.store.suppliers@, input);
            }
            let po = &pos[k];
            let counts = self.counts_toward_spend_exec(po, &input);
            if counts {
                total = total + po.total as i128;
                count = count + 1;
                let ng = groups.len();
                let mut j: usize = 0;
                while j < ng
                    invariant
                        ng == groups@.len(),
                        j <= ng,
                        forall|a: int| 0 <= a < j ==> (#[trigger] groups@[a]).supplier_id@ != po.supplier_id@,
                    ensures
                        j <= ng,
                        j < ng ==> groups@[j as int].supplier_id@ == po.supplier_id@,
                        forall|a: int| 0 <= a < j ==> (#[trigger] groups@[a]).supplier_id@ != po.supplier_id@,
                    decreases ng - j,
                {
                    if groups[j].supplier_id == po.supplier_id {
                        break;
                    }
                    j = j + 1;
                }
                let ghost g0 = spend_suppliers(pre, self.store.suppliers@, input);
                if j < ng {
                    proof {
                        assert(g0[j as int] == po.supplier_id@);
                        assert(g0.contains(po.supplier_id@));
                        assert(spend_suppliers(nxt, self.store.suppliers@, input) == g0);
                    }
                    let ghost before = groups@;
                    let cur = groups[j].total_spend;
                    groups[j].total_spend = cur + po.total as i128;
                    proof {
                        assert forall|a: int| 0 <= a < groups@.len() && a != j implies (#[trigger] groups@[a])
                            == before[a] by {}
                        assert forall|a: int| 0 <= a < g0.len() && a != j implies #[trigger] g0[a]
                            != po.supplier_id@ by {
                            assert(g0[a] != g0[j as int]);
                        }
                    }
                } else {
                    proof {
                        assert(!g0.contains(po.supplier_id@)) by {
                            if g0.contains(po.supplier_id@) {
                                let a = choose|a: int| 0 <= a < g0.len() && g0[a] == po.supplier_id@;
                                assert(groups@[a].supplier_id@ == g0[a]);
                            }
                        }
                        lemma_spend_absent(pre, self.store.suppliers@, input, po.supplier_id@);
                        assert(spend_suppliers(nxt, self.store.suppliers@, input) == g0.push(po.supplier_id@));
                        assert forall|a: int| 0 <= a < g0.len() implies #[trigger] g0[a]
                            != po.supplier_id@ by {}
                    }
                    let name = match find_keyed(&self.store.suppliers, &po.supplier_id) {
                        Some(s) => self.store.suppliers[s].name.clone(),
                        None => po.supplier_id.clone(),
                    };
                    groups.push(
                        SupplierSpend {
                            supplier_id: po.supplier_id.clone(),
                            name,
                            total_spend: po.total as i128,
                        },
                    );
                }
            } else {
                proof {
                    assert(spend_suppliers(nxt, self.store.suppliers@, input) == spend_suppliers(pre, self.store.suppliers@, input));
                }
            }
            k = k + 1;
        }
        assert(pos@.take(n as int) =~= pos@);
        SpendReport { total_spend: total, po_count: count, by_supplier: groups }
    }

    /// Whether the order counts toward the spend that `filter` asks for.
    fn counts_toward_spend_exec(&self, po: &PurchaseOrder, filter: &SpendInput) -> (b: bool)
        requires
            self.store.wf(),
        ensures
            b == counts_toward_spend(*po, self.store.suppliers@, *filter),
    {
        if po.status == PoStatus::Draft || po.status == PoStatus::Cancelled {
            return false;
        }
        let supplier_ok = match &filter.supplier_id {
            Some(s) => po.supplier_id == *s,
            None => true,
        };
        let category_ok = match &filter.category {
            Some(c) => match find_keyed(&self.store.suppliers, &po.supplier_id) {
                Some(i) => self.store.suppliers[i].category == *c,
                None => false,
            },
            None => true,
        };
        let start_ok = match &filter.start {
            Some(t) => text_le(t.as_str(), po.created_at.as_str()),
            None => true,
        };
        let end_ok = match &filter.end {
            Some(t) => text_le(po.created_at.as_str(), t.as_str()),
            None => true,
        };
        supplier_ok && category_ok && start_ok && end_ok
    }
}

} // verus!
