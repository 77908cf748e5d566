//! Requests for quotation: open one, take suppliers' quotes, compare them
//! and award the request.
use vstd::prelude::*;
use crate::clock;
use crate::fixed::{
    fits_i128, fits_i64, lemma_sum_take_step, round_div, round_div_exec, running_sums_fit, sum,
    LINE_DIVISOR, QTY_SCALE,
};
use crate::ids::is_generated_id;
use crate::keyed::{
    find_keyed, has_key, key_index, lemma_update_same_key, lookup, stored_as, upsert_keyed,
};
use crate::server::{
    PoIdInput, ProcError, ProcurementServer, RfqAwardInput, RfqCreateInput, RfqItemInput,
    RfqResponseInput,
};
use crate::store::Store;
use crate::text::{copy_opt_text, copy_text_or, text_or};
use crate::types::{Rfq, RfqItem, RfqResponse, RfqStatus, Supplier};

verus! {

/// The quantity of a requested item: one unit unless given.
pub open spec fn item_quantity(l: RfqItemInput) -> int {
    match l.quantity {
        Some(q) => q as int,
        None => QTY_SCALE as int,
    }
}

/// `item` is the quotation item made from the requested item `l`: no
/// description and unit "each" unless given.
pub open spec fn rfq_item_from_input(item: RfqItem, l: RfqItemInput) -> bool {
    &&& item.description@ == text_or(l.description, Seq::empty())
    &&& item.quantity == item_quantity(l)
    &&& item.unit@ == text_or(l.unit, "each"@)
    &&& item.specs == l.specs
}

/// `rfq` is the open request that creating `input` under `id` makes, with
/// no quotes yet.
pub open spec fn rfq_from_input(rfq: Rfq, id: Seq<char>, input: RfqCreateInput) -> bool {
    &&& rfq.id@ == id
    &&& rfq.title == input.title
    &&& rfq.status == RfqStatus::Open
    &&& rfq.items@.len() == input.items@.len()
    &&& forall|j: int|
        0 <= j < rfq.items@.len() ==> rfq_item_from_input(#[trigger] rfq.items@[j], input.items@[j])
    &&& rfq.supplier_ids == input.supplier_ids
    &&& rfq.responses@.len() == 0
    &&& rfq.deadline == input.deadline
    &&& rfq.created_by == input.created_by
}

/// The terms of a quote: each item's quantity times its unit price, for as
/// many items as there are both items and prices.
pub open spec fn quote_terms(items: Seq<RfqItem>, prices: Seq<i64>) -> Seq<int> {
    let n = if items.len() <= prices.len() { items.len() } else { prices.len() };
    Seq::new(n, |k: int| items[k].quantity as int * prices[k] as int)
}

/// The total of a quote, in cents rounded half away from zero.
pub open spec fn quote_total(items: Seq<RfqItem>, prices: Seq<i64>) -> int {
    round_div(sum(quote_terms(items, prices)), LINE_DIVISOR as int)
}

/// The quote can be computed: its running sums fit in an `i128` and its
/// total in an `i64`.
pub open spec fn quote_fits(items: Seq<RfqItem>, prices: Seq<i64>) -> bool {
    running_sums_fit(quote_terms(items, prices)) && fits_i64(quote_total(items, prices))
}

/// The name a quote is filed under: the registered supplier's name, or the
/// supplier id when no supplier has it.
pub open spec fn quoting_name(suppliers: Seq<Supplier>, supplier_id: Seq<char>) -> Seq<char> {
    match lookup(suppliers, supplier_id) {
        Some(s) => s.name@,
        None => supplier_id,
    }
}

/// A supplier's rating, or zero for an unknown supplier.
pub open spec fn rating_of(suppliers: Seq<Supplier>, supplier_id: Seq<char>) -> int {
    match lookup(suppliers, supplier_id) {
        Some(s) => s.rating as int,
        None => 0,
    }
}

/// `resp` is the quote filed for `input` under `name` with `total`.
pub open spec fn response_from_input(
    resp: RfqResponse,
    input: RfqResponseInput,
    name: Seq<char>,
    total: int,
) -> bool {
    &&& resp.supplier_id == input.supplier_id
    &&& resp.supplier_name@ == name
    &&& resp.unit_prices == input.unit_prices
    &&& resp.total == total
    &&& resp.lead_time_days == input.lead_time_days
    &&& resp.notes == input.notes
}

/// One row of a quote comparison.
pub struct ComparisonRow {
    pub supplier_id: String,
    pub supplier_name: String,
    /// Cents.
    pub total: i64,
    pub lead_time_days: u32,
    /// The supplier's rating in hundredths of a star, zero when unknown.
    pub rating: i64,
    pub notes: Option<String>,
}

/// The quotes of a request for quotation side by side.
pub struct RfqComparison {
    pub rfq_id: String,
    pub title: String,
    pub rows: Vec<ComparisonRow>,
}

/// The first quote from `supplier_id` is at position `i`.
pub open spec fn first_quote_at(resps: Seq<RfqResponse>, supplier_id: Seq<char>, i: int) -> bool {
    &&& 0 <= i < resps.len()
    &&& resps[i].supplier_id@ == supplier_id
    &&& forall|j: int| 0 <= j < i ==> (#[trigger] resps[j]).supplier_id@ != supplier_id
}

impl ProcurementServer {
    /// Opens a request for quotation under the given id and timestamp.
    pub fn rfq_create_with_id(&mut self, id: String, created_at: String, input: RfqCreateInput) -> (r:
        String)
        requires
            old(self).store.wf(),
        ensures
            final(self).store.wf(),
            r@ == id@,
            stored_as(
                old(self).store.rfqs@,
                final(self).store.rfqs@,
                id@,
                |q: Rfq| rfq_from_input(q, id@, input) && q.created_at@ == created_at@,
            ),
            final(self).store == (Store { rfqs: final(self).store.rfqs, ..old(self).store }),
    {
        let ghost input0 = input;
        let mut items: Vec<RfqItem> = Vec::new();
        let n = input.items.len();
        let mut j: usize = 0;
        while j < n
            invariant
                input == input0,
                n == input.items@.len(),
                j <= n,
                items@.len() == j,
                forall|k: int|
                    0 <= k < j ==> rfq_item_from_input(#[trigger] items@[k], input.items@[k]),
            decreases n - j,
        {
            let l = &input.items[j];
            let item = RfqItem {
                description: copy_text_or(&l.description, ""),
                quantity: match l.quantity {
                    Some(q) => q,
                    None => QTY_SCALE,
                },
                unit: copy_text_or(&l.unit, "each"),
                specs: copy_opt_text(&l.specs),
            };
            proof {
                reveal_strlit("");
                assert(""@ =~= Seq::<char>::empty());
                assert(rfq_item_from_input(item, input.items@[j as int]));
            }
            items.push(item);
            j = j + 1;
        }
        let rfq = Rfq {
            id: id.clone(),
            title: input.title,
            status: RfqStatus::Open,
            items,
            supplier_ids: input.supplier_ids,
            responses: Vec::new(),
            deadline: input.deadline,
            created_by: input.created_by,
            created_at,
        };
        let ghost made = |q: Rfq| rfq_from_input(q, id@, input0) && q.created_at@ == created_at@;
        proof {
            assert(made(rfq));
        }
        upsert_keyed(&mut self.store.rfqs, rfq);
        id
    }

    /// Opens a request for quotation under a fresh id `rfq_` followed by
    /// eight hex digits, stamped with the current time.
    pub fn rfq_create(&mut self, input: RfqCreateInput) -> (r: String)
        requires
            old(self).store.wf(),
        ensures
            final(self).store.wf(),
            is_generated_id("rfq"@, r@),
            stored_as(
                old(self).store.rfqs@,
                final(self).store.rfqs@,
                r@,
                |q: Rfq| rfq_from_input(q, r@, input),
            ),
            final(self).store == (Store { rfqs: final(self).store.rfqs, ..old(self).store }),
    {
        let id = Store::new_id("rfq");
        let created_at = clock::now();
        self.rfq_create_with_id(id, created_at, input)
    }

    /// Files a supplier's quote on a request for quotation, stamped
    /// `submitted_at`, and returns the quote's total.
    pub fn rfq_respond_at(&mut self, submitted_at: String, input: RfqResponseInput) -> (r: Result<
        i64,
        ProcError,
    >)
        requires
            old(self).store.wf(),
        ensures
            final(self).store.wf(),
            ({
                let rs = old(self).store.rfqs@;
                let p = key_index(rs, input.rfq_id@);
                &&& !has_key(rs, input.rfq_id@) ==> r == Err::<i64, ProcError>(ProcError::RfqNotFound)
                &&& has_key(rs, input.rfq_id@) && !quote_fits(rs[p].items@, input.unit_prices@) ==> r
                    == Err::<i64, ProcError>(ProcError::AmountOverflow)
                &&& has_key(rs, input.rfq_id@) && quote_fits(rs[p].items@, input.unit_prices@) ==> {
                    let after = final(self).store.rfqs@[p];
                    &&& r == Ok::<i64, ProcError>(
                        quote_total(rs[p].items@, input.unit_prices@) as i64,
                    )
                    &&& final(self).store.rfqs@ == rs.update(p, after)
                    &&& after == (Rfq { responses: after.responses, ..rs[p] })
                    &&& after.responses@ == rs[p].responses@.push(after.responses@.last())
                    &&& response_from_input(
                        after.responses@.last(),
                        input,
                        quoting_name(old(self).store.suppliers@, input.supplier_id@),
                        quote_total(rs[p].items@, input.unit_prices@),
                    )
                    &&& after.responses@.last().submitted_at == submitted_at
                    &&& final(self).store == (Store {
                        rfqs: final(self).store.rfqs,
                        ..old(self).store
                    })
                }
            }),
            r is Err ==> *final(self) == *old(self),
    {
        let i = match find_keyed(&self.store.rfqs, &input.rfq_id) {
            Some(i) => i,
            None => {
                return Err(ProcError::RfqNotFound);
            },
        };
        let supplier_name = match find_keyed(&self.store.suppliers, &input.supplier_id) {
            Some(k) => self.store.suppliers[k].name.clone(),
            None => input.supplier_id.clone(),
        };
        let ghost terms = quote_terms(self.store.rfqs@[i as int].items@, input.unit_prices@);
        let items_len = self.store.rfqs[i].items.len();
        let prices_len = input.unit_prices.len();
        let m = if items_len <= prices_len { items_len } else { prices_len };
        let mut acc: i128 = 0;
        let mut k: usize = 0;
        while k < m
            invariant
                *self == *old(self),
                self.store.wf(),
                has_key(self.store.rfqs@, input.rfq_id@),
                key_index(self.store.rfqs@, input.rfq_id@) == i,
                i < self.store.rfqs@.len(),
                terms == quote_terms(self.store.rfqs@[i as int].items@, input.unit_prices@),
                items_len == self.store.rfqs@[i as int].items@.len(),
                prices_len == input.unit_prices@.len(),
                m == terms.len(),
                k <= m,
                acc == sum(terms.take(k as int)),
                forall|j: int| 0 <= j <= k ==> fits_i128(#[trigger] sum(terms.take(j))),
            decreases m - k,
        {
            let q = self.store.rfqs[i].items[k].quantity;
            let pr = input.unit_prices[k];
            assert(-0x4000_0000_0000_0000_0000_0000_0000_0000 <= (q as int) * (pr as int)
                <= 0x4000_0000_0000_0000_0000_0000_0000_0000) by (nonlinear_arith)
                requires
                    i64::MIN <= q <= i64::MAX,
                    i64::MIN <= pr <= i64::MAX,
            ;
            let term = (q as i128) * (pr as i128);
            proof {
                lemma_sum_take_step(terms, k as int);
            }
            match acc.checked_add(term) {
                Some(a) => {
                    acc = a;
                },
                None => {
                    return Err(ProcError::AmountOverflow);
                },
            }
            k = k + 1;
        }
        assert(terms.take(m as int) =~= terms);
        if acc == i128::MIN {
            assert(round_div(acc as int, 10_000_000) < i64::MIN);
            return Err(ProcError::AmountOverflow);
        }
        let t = round_div_exec(acc, 10_000_000);
        if t < i64::MIN as i128 || t > i64::MAX as i128 {
            return Err(ProcError::AmountOverflow);
        }
        let total = t as i64;
        let resp = RfqResponse {
            supplier_id: input.supplier_id,
            supplier_name,
            unit_prices: input.unit_prices,
            total,
            lead_time_days: input.lead_time_days,
            notes: input.notes,
            submitted_at,
        };
        let ghost before = self.store.rfqs@;
        self.store.rfqs[i].responses.push(resp);
        proof {
            let after = self.store.rfqs@;
            assert(after =~= before.update(i as int, after[i as int]));
            lemma_update_same_key(before, i as int, after[i as int]);
        }
        Ok(total)
    }

    /// Files a supplier's quote on a request for quotation, stamped with
    /// the current time, and returns the quote's total.
    pub fn rfq_respond(&mut self, input: RfqResponseInput) -> (r: Result<i64, ProcError>)
        requires
            old(self).store.wf(),
        ensures
            final(self).store.wf(),
            ({
                let rs = old(self).store.rfqs@;
                let p = key_index(rs, input.rfq_id@);
                &&& !has_key(rs, input.rfq_id@) ==> r == Err::<i64, ProcError>(ProcError::RfqNotFound)
                &&& has_key(rs, input.rfq_id@) && !quote_fits(rs[p].items@, input.unit_prices@) ==> r
                    == Err::<i64, ProcError>(ProcError::AmountOverflow)
                &&& has_key(rs, input.rfq_id@) && quote_fits(rs[p].items@, input.unit_prices@) ==> {
                    let after = final(self).store.rfqs@[p];
                    &&& r == Ok::<i64, ProcError>(
                        quote_total(rs[p].items@, input.unit_prices@) as i64,
                    )
                    &&& final(self).store.rfqs@ == rs.update(p, after)
                    &&& after == (Rfq { responses: after.responses, ..rs[p] })
                    &&& after.responses@ == rs[p].responses@.push(after.responses@.last())
                    &&& response_from_input(
                        after.responses@.last(),
                        input,
                        quoting_name(old(self).store.suppliers@, input.supplier_id@),
                        quote_total(rs[p].items@, input.unit_prices@),
                    )
                    &&& final(self).store == (Store {
                        rfqs: final(self).store.rfqs,
                        ..old(self).store
                    })
                }
            }),
            r is Err ==> *final(self) == *old(self),
    {
        let submitted_at = clock::now();
        self.rfq_respond_at(submitted_at, input)
    }

    /// The quotes filed on a request for quotation side by side, each with
    /// its supplier's rating.
    pub fn rfq_compare(&self, input: PoIdInput) -> (r: Result<RfqComparison, ProcError>)
        requires
            self.store.wf(),
        ensures
            match r {
                Ok(c) => {
                    let rs = self.store.rfqs@;
                    let q = rs[key_index(rs, input.po_id@)];
                    &&& has_key(rs, input.po_id@)
                    &&& c.rfq_id@ == input.po_id@
                    &&& c.title == q.title
                    &&& c.rows@.len() == q.responses@.len()
                    &&& forall|j: int|
                        0 <= j < c.rows@.len() ==> {
                            let row = #[trigger] c.rows@[j];
                            let resp = q.responses@[j];
                            &&& row.supplier_id == resp.supplier_id
                            &&& row.supplier_name == resp.supplier_name
                            &&& row.total == resp.total
                            &&& row.lead_time_days == resp.lead_time_days
                            &&& row.rating == rating_of(self.store.suppliers@, resp.supplier_id@)
                            &&& row.notes == resp.notes
                        }
                },
                Err(e) => e == ProcError::RfqNotFound && !has_key(self.store.rfqs@, input.po_id@),
            },
    {
        let i = match find_keyed(&self.store.rfqs, &input.po_id) {
            Some(i) => i,
            None => {
                return Err(ProcError::RfqNotFound);
            },
        };
        let q = &self.store.rfqs[i];
        let mut rows: Vec<ComparisonRow> = Vec::new();
        let n = q.responses.len();
        let mut j: usize = 0;
        while j < n
            invariant
                self.store.wf(),
                *q == self.store.rfqs@[i as int],
                n == q.responses@.len(),
                j <= n,
                rows@.len() == j,
                forall|k: int|
                    0 <= k < j ==> {
                        let row = #[trigger] rows@[k];
                        let resp = q.responses@[k];
                        &&& row.supplier_id == resp.supplier_id
                        &&& row.supplier_name == resp.supplier_name
                        &&& row.total == resp.total
                        &&& row.lead_time_days == resp.lead_time_days
                        &&& row.rating == rating_of(self.store.suppliers@, resp.supplier_id@)
                        &&& row.notes == resp.notes
                    },
            decreases n - j,
        {
            let resp = &q.responses[j];
            let rating = match find_keyed(&self.store.suppliers, &resp.supplier_id) {
                Some(k) => self.store.suppliers[k].rating,
                None => 0,
            };
            rows.push(
                ComparisonRow {
                    supplier_id: resp.supplier_id.clone(),
                    supplier_name: resp.supplier_name.clone(),
                    total: resp.total,
                    lead_time_days: resp.lead_time_days,
                    rating,
                    notes: copy_opt_text(&resp.notes),
                },
            );
            j = j + 1;
        }
        Ok(RfqComparison { rfq_id: input.po_id, title: q.title.clone(), rows })
    }

    /// Awards a request for quotation to a supplier; returns the total of
    /// that supplier's first quote, if it filed one.
    pub fn rfq_award(&mut self, input: RfqAwardInput) -> (r: Result<Option<i64>, ProcError>)
        requires
            old(self).store.wf(),
        ensures
            final(self).store.wf(),
            ({
                let rs = old(self).store.rfqs@;
                let p = key_index(rs, input.rfq_id@);
                let resps = rs[p].responses@;
                &&& !has_key(rs, input.rfq_id@) ==> r == Err::<Option<i64>, ProcError>(
                    ProcError::RfqNotFound,
                ) && *final(self) == *old(self)
                &&& has_key(rs, input.rfq_id@) ==> {
                    &&& r is Ok
                    &&& final(self).store.rfqs@ == rs.update(
                        p,
                        Rfq { status: RfqStatus::Awarded, ..rs[p] },
                    )
                    &&& final(self).store == (Store {
                        rfqs: final(self).store.rfqs,
                        ..old(self).store
                    })
                    &&& match r->Ok_0 {
                        Some(t) => exists|i: int|
                            first_quote_at(resps, input.supplier_id@, i) && #[trigger] resps[i].total
                                == t,
                        None => forall|i: int|
                            0 <= i < resps.len() ==> (#[trigger] resps[i]).supplier_id@
                                != input.supplier_id@,
                    }
                }
            }),
    {
        let i = match find_keyed(&self.store.rfqs, &input.rfq_id) {
            Some(i) => i,
            None => {
                return Err(ProcError::RfqNotFound);
            },
        };
        let n = self.store.rfqs[i].responses.len();
        let mut winner: Option<i64> = None;
        let mut j: usize = 0;
        while j < n
            invariant_except_break
                winner is None,
                forall|k: int|
                    0 <= k < j ==> (#[trigger] self.store.rfqs@[i as int].responses@[k]).supplier_id@
                        != input.supplier_id@,
            invariant
                *self == *old(self),
                i < self.store.rfqs@.len(),
                n == self.store.rfqs@[i as int].responses@.len(),
                j <= n,
            ensures
                match winner {
                    Some(t) => exists|k: int|
                        first_quote_at(self.store.rfqs@[i as int].responses@, input.supplier_id@, k)
                            && #[trigger] self.store.rfqs@[i as int].responses@[k].total == t,
                    None => forall|k: int|
                        0 <= k < n ==> (#[trigger] self.store.rfqs@[i as int].responses@[k]).supplier_id@
                            != input.supplier_id@,
                },
            decreases n - j,
        {
            if self.store.rfqs[i].responses[j].supplier_id == input.supplier_id {
                winner = Some(self.store.rfqs[i].responses[j].total);
                assert(first_quote_at(self.store.rfqs@[i as int].responses@, input.supplier_id@, j as int));
                break;
            }
            j = j + 1;
        }
        let ghost before = self.store.rfqs@;
        self.store.rfqs[i].status = RfqStatus::Awarded;
        proof {
            let after = self.store.rfqs@;
            assert(after =~= before.update(i as int, after[i as int]));
            lemma_update_same_key(before, i as int, after[i as int]);
        }
        Ok(winner)
    }
}

} // verus!
