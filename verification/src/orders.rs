//! Purchase orders: creation with priced lines and VAT, look-up, and the
//! approval lifecycle draft → approved → sent, with cancellation.
use vstd::prelude::*;
use crate::clock;
use crate::fixed::{
    fits_i64, lemma_sum_take_step, line_total, line_total_exec, sum, vat, vat_exec, QTY_SCALE,
};
use crate::ids::is_generated_id;
use crate::keyed::{
    find_keyed, has_key, key_index, lemma_upsert_all, lookup, stored_as,
    upsert_keyed,
};
use crate::server::{
    ApprovalEscalateInput, PoApproveInput, PoCreateInput, PoIdInput, PoLineInput, ProcError, ProcurementServer,
};
use crate::store::{lemma_replace_po, line_totals, po_amounts_consistent, po_wf, Store};
use crate::text::{copy_text_or, take_text_or, text_or};
use crate::types::{PoLine, PoStatus, PurchaseOrder};

verus! {

/// The quantity of a requested line: one unit unless given.
pub open spec fn input_quantity(l: PoLineInput) -> int {
    match l.quantity {
        Some(q) => q as int,
        None => QTY_SCALE as int,
    }
}

/// The unit price of a requested line: zero unless given.
pub open spec fn input_unit_price(l: PoLineInput) -> int {
    match l.unit_price {
        Some(p) => p as int,
        None => 0,
    }
}

/// The total of a requested line, in cents.
pub open spec fn input_line_total(l: PoLineInput) -> int {
    line_total(input_quantity(l), input_unit_price(l))
}

/// The totals of the requested lines, in cents.
pub open spec fn input_line_totals(lines: Seq<PoLineInput>) -> Seq<int> {
    lines.map_values(|l: PoLineInput| input_line_total(l))
}

/// The subtotal of a requested order, in cents.
pub open spec fn input_subtotal(input: PoCreateInput) -> int {
    sum(input_line_totals(input.lines@))
}

/// Every amount of the requested order fits in an `i64`: each line total,
/// the subtotal and the total with VAT.
pub open spec fn po_create_fits(input: PoCreateInput) -> bool {
    &&& forall|j: int|
        0 <= j < input.lines@.len() ==> fits_i64(#[trigger] input_line_total(input.lines@[j]))
    &&& fits_i64(input_subtotal(input))
    &&& fits_i64(input_subtotal(input) + vat(input_subtotal(input)))
}

/// `line` is the order line made from the requested line `l`.
pub open spec fn po_line_from_input(line: PoLine, l: PoLineInput) -> bool {
    &&& line.sku@ == text_or(l.sku, Seq::empty())
    &&& line.description@ == text_or(l.description, Seq::empty())
    &&& line.quantity == input_quantity(l)
    &&& line.unit_price == input_unit_price(l)
    &&& line.total == input_line_total(l)
    &&& line.received_qty == 0
}

/// `po` is the draft order that creating `input` under `id` makes: its
/// lines priced, VAT on the subtotal, currency USD unless given, payment
/// terms net30, not yet approved.
pub open spec fn po_from_input(po: PurchaseOrder, id: Seq<char>, input: PoCreateInput) -> bool {
    &&& po.id@ == id
    &&& po.supplier_id == input.supplier_id
    &&& po.status == PoStatus::Draft
    &&& po.lines@.len() == input.lines@.len()
    &&& forall|j: int|
        0 <= j < po.lines@.len() ==> po_line_from_input(#[trigger] po.lines@[j], input.lines@[j])
    &&& po.currency@ == text_or(input.currency, "USD"@)
    &&& po.subtotal == input_subtotal(input)
    &&& po.tax == vat(input_subtotal(input))
    &&& po.total == input_subtotal(input) + vat(input_subtotal(input))
    &&& po.payment_terms@ == "net30"@
    &&& po.delivery_date == input.delivery_date
    &&& po.notes == input.notes
    &&& po.created_by == input.created_by
    &&& po.approved_by == None::<String>
}

/// What creating a purchase order reports.
pub struct PoCreated {
    pub po_id: String,
    /// Cents.
    pub total: i64,
}

/// A draft, or an order waiting for approval, may be approved.
pub open spec fn can_approve(s: PoStatus) -> bool {
    s == PoStatus::Draft || s == PoStatus::PendingApproval
}

/// The level of authority an order's approval is escalated to.
#[derive(Clone, Copy, Debug, PartialEq, Eq, Structural)]
pub enum ApprovalLevel {
    Manager,
    Director,
    Cfo,
}

/// Orders above 10 000.00 go to a director; above 100 000.00 to the CFO.
pub open spec fn approval_level(total: int) -> ApprovalLevel {
    if total > 10_000_000 {
        ApprovalLevel::Cfo
    } else if total > 1_000_000 {
        ApprovalLevel::Director
    } else {
        ApprovalLevel::Manager
    }
}

/// The rank of an approval level, lowest first.
pub open spec fn level_rank(l: ApprovalLevel) -> int {
    match l {
        ApprovalLevel::Manager => 0,
        ApprovalLevel::Director => 1,
        ApprovalLevel::Cfo => 2,
    }
}

/// What escalating an order's approval reports.
pub struct Escalation {
    /// The order's total, in cents.
    pub amount: i64,
    pub required_level: ApprovalLevel,
}

impl ProcurementServer {
    /// Creates a draft purchase order under the given id and timestamp.
    pub fn po_create_with_id(&mut self, id: String, created_at: String, input: PoCreateInput) -> (r:
        Result<PoCreated, ProcError>)
        requires
            old(self).store.wf(),
        ensures
            final(self).store.wf(),
            match r {
                Ok(c) => {
                    &&& po_create_fits(input)
                    &&& c.po_id@ == id@
                    &&& c.total == input_subtotal(input) + vat(input_subtotal(input))
                    &&& stored_as(
                        old(self).store.purchase_orders@,
                        final(self).store.purchase_orders@,
                        id@,
                        |po: PurchaseOrder|
                            po_from_input(po, id@, input) && po.created_at@ == created_at@,
                    )
                    &&& final(self).store == (Store {
                        purchase_orders: final(self).store.purchase_orders,
                        ..old(self).store
                    })
                },
                Err(e) => e == ProcError::AmountOverflow && !po_create_fits(input) && *final(self)
                    == *old(self),
            },
    {
        let ghost input0 = input;
        let ghost totals = input_line_totals(input.lines@);
        let mut lines: Vec<PoLine> = Vec::new();
        let mut subtotal: i128 = 0;
        let n = input.lines.len();
        let mut j: usize = 0;
        while j < n
            invariant
                input == input0,
                *self == *old(self),
                self.store.wf(),
                totals == input_line_totals(input.lines@),
                n == input.lines@.len(),
                j <= n,
                lines@.len() == j,
                forall|k: int|
                    0 <= k < j ==> po_line_from_input(#[trigger] lines@[k], input.lines@[k]),
                forall|k: int| 0 <= k < j ==> fits_i64(#[trigger] input_line_total(input.lines@[k])),
                subtotal == sum(totals.take(j as int)),
                -(j as int) * 0x8000_0000_0000_0000 <= subtotal <= (j as int) * 0x8000_0000_0000_0000,
            decreases n - j,
        {
            let l = &input.lines[j];
            let q: i64 = match l.quantity {
                Some(q) => q,
                None => QTY_SCALE,
            };
            let p: i64 = match l.unit_price {
                Some(p) => p,
                None => 0,
            };
            let t = match line_total_exec(q, p) {
                Some(t) => t,
                None => {
                    assert(!fits_i64(input_line_total(input.lines@[j as int])));
                    return Err(ProcError::AmountOverflow);
                },
            };
            let line = PoLine {
                sku: copy_text_or(&l.sku, ""),
                description: copy_text_or(&l.description, ""),
                quantity: q,
                unit_price: p,
                total: t,
                received_qty: 0,
            };
            proof {
                reveal_strlit("");
                assert(""@ =~= Seq::<char>::empty());
                assert(po_line_from_input(line, input.lines@[j as int]));
                lemma_sum_take_step(totals, j as int);
            }
            lines.push(line);
            subtotal = subtotal + t as i128;
            j = j + 1;
        }
        assert(totals.take(n as int) =~= totals);
        if subtotal < i64::MIN as i128 || subtotal > i64::MAX as i128 {
            return Err(ProcError::AmountOverflow);
        }
        let tax = vat_exec(subtotal as i64);
        let total = subtotal + tax;
        if total < i64::MIN as i128 || total > i64::MAX as i128 {
            return Err(ProcError::AmountOverflow);
        }
        let po = PurchaseOrder {
            id: id.clone(),
            supplier_id: input.supplier_id,
            status: PoStatus::Draft,
            lines,
            currency: take_text_or(input.currency, "USD"),
            subtotal: subtotal as i64,
            tax: tax as i64,
            total: total as i64,
            payment_terms: String::from_str("net30"),
            delivery_date: input.delivery_date,
            notes: input.notes,
            created_by: input.created_by,
            approved_by: None,
            created_at,
        };
        proof {
            reveal_strlit("net30");
            assert(line_totals(po.lines@) =~= totals);
            assert(po_amounts_consistent(po));
            assert(po_from_input(po, id@, input0));
        }
        let ghost made = |x: PurchaseOrder|
            po_from_input(x, id@, input0) && x.created_at@ == created_at@;
        let ghost before = self.store.purchase_orders@;
        let ghost po0 = po;
        upsert_keyed(&mut self.store.purchase_orders, po);
        proof {
            assert(made(po0));
            lemma_upsert_all(before, po0, |x: PurchaseOrder| po_wf(x));
        }
        Ok(PoCreated { po_id: id, total: total as i64 })
    }

    /// Creates a draft purchase order under a fresh id `po_` followed by
    /// eight hex digits, stamped with the current time.
    pub fn po_create(&mut self, input: PoCreateInput) -> (r: Result<PoCreated, ProcError>)
        requires
            old(self).store.wf(),
        ensures
            final(self).store.wf(),
            match r {
                Ok(c) => {
                    &&& po_create_fits(input)
                    &&& is_generated_id("po"@, c.po_id@)
                    &&& c.total == input_subtotal(input) + vat(input_subtotal(input))
                    &&& stored_as(
                        old(self).store.purchase_orders@,
                        final(self).store.purchase_orders@,
                        c.po_id@,
                        |po: PurchaseOrder| po_from_input(po, c.po_id@, input),
                    )
                    &&& final(self).store == (Store {
                        purchase_orders: final(self).store.purchase_orders,
                        ..old(self).store
                    })
                },
                Err(e) => e == ProcError::AmountOverflow && !po_create_fits(input) && *final(self)
                    == *old(self),
            },
    {
        let id = Store::new_id("po");
        let created_at = clock::now();
        self.po_create_with_id(id, created_at, input)
    }

    /// Approves a draft (or pending) purchase order, recording the approver.
    pub fn po_approve(&mut self, input: PoApproveInput) -> (r: Result<(), ProcError>)
        requires
            old(self).store.wf(),
        ensures
            final(self).store.wf(),
            ({
                let pos = old(self).store.purchase_orders@;
                let p = key_index(pos, input.po_id@);
                &&& !has_key(pos, input.po_id@) ==> r == Err::<(), ProcError>(ProcError::PoNotFound)
                &&& has_key(pos, input.po_id@) && !can_approve(pos[p].status) ==> r == Err::<
                    (),
                    ProcError,
                >(ProcError::PoNotInDraft)
                &&& has_key(pos, input.po_id@) && can_approve(pos[p].status) ==> {
                    &&& r is Ok
                    &&& final(self).store.purchase_orders@ == pos.update(
                        p,
                        PurchaseOrder {
                            status: PoStatus::Approved,
                            approved_by: Some(input.approved_by),
                            ..pos[p]
                        },
                    )
                    &&& final(self).store == (Store {
                        purchase_orders: final(self).store.purchase_orders,
                        ..old(self).store
                    })
                }
            }),
            r is Err ==> *final(self) == *old(self),
    {
        match find_keyed(&self.store.purchase_orders, &input.po_id) {
            None => Err(ProcError::PoNotFound),
            Some(i) => {
                let st = self.store.purchase_orders[i].status;
                if st != PoStatus::Draft && st != PoStatus::PendingApproval {
                    return Err(ProcError::PoNotInDraft);
                }
                let ghost before = self.store;
                self.store.purchase_orders[i].status = PoStatus::Approved;
                self.store.purchase_orders[i].approved_by = Some(input.approved_by);
                proof {
                    let x = self.store.purchase_orders@[i as int];
                    assert(self.store.purchase_orders@ =~= before.purchase_orders@.update(i as int, x));
                    lemma_replace_po(before, self.store, i as int, x);
                }
                Ok(())
            },
        }
    }

    /// Sends an approved purchase order to its supplier; returns the
    /// supplier's id.
    pub fn po_send(&mut self, input: PoIdInput) -> (r: Result<String, ProcError>)
        requires
            old(self).store.wf(),
        ensures
            final(self).store.wf(),
            ({
                let pos = old(self).store.purchase_orders@;
                let p = key_index(pos, input.po_id@);
                &&& !has_key(pos, input.po_id@) ==> r == Err::<String, ProcError>(
                    ProcError::PoNotFound,
                )
                &&& has_key(pos, input.po_id@) && pos[p].status != PoStatus::Approved ==> r == Err::<
                    String,
                    ProcError,
                >(ProcError::PoNotApproved)
                &&& has_key(pos, input.po_id@) && pos[p].status == PoStatus::Approved ==> {
                    &&& r is Ok
                    &&& r->Ok_0 == pos[p].supplier_id
                    &&& final(self).store.purchase_orders@ == pos.update(
                        p,
                        PurchaseOrder { status: PoStatus::Sent, ..pos[p] },
                    )
                    &&& final(self).store == (Store {
                        purchase_orders: final(self).store.purchase_orders,
                        ..old(self).store
                    })
                }
            }),
            r is Err ==> *final(self) == *old(self),
    {
        match find_keyed(&self.store.purchase_orders, &input.po_id) {
            None => Err(ProcError::PoNotFound),
            Some(i) => {
                if self.store.purchase_orders[i].status != PoStatus::Approved {
                    return Err(ProcError::PoNotApproved);
                }
                let ghost before = self.store;
                self.store.purchase_orders[i].status = PoStatus::Sent;
                proof {
                    let x = self.store.purchase_orders@[i as int];
                    assert(self.store.purchase_orders@ =~= before.purchase_orders@.update(i as int, x));
                    lemma_replace_po(before, self.store, i as int, x);
                }
                Ok(self.store.purchase_orders[i].supplier_id.clone())
            },
        }
    }

    /// Cancels a purchase order, whatever its status.
    pub fn po_cancel(&mut self, input: PoIdInput) -> (r: Result<(), ProcError>)
        requires
            old(self).store.wf(),
        ensures
            final(self).store.wf(),
            ({
                let pos = old(self).store.purchase_orders@;
                let p = key_index(pos, input.po_id@);
                &&& !has_key(pos, input.po_id@) ==> r == Err::<(), ProcError>(ProcError::PoNotFound)
                    && *final(self) == *old(self)
                &&& has_key(pos, input.po_id@) ==> {
                    &&& r is Ok
                    &&& final(self).store.purchase_orders@ == pos.update(
                        p,
                        PurchaseOrder { status: PoStatus::Cancelled, ..pos[p] },
                    )
                    &&& final(self).store == (Store {
                        purchase_orders: final(self).store.purchase_orders,
                        ..old(self).store
                    })
                }
            }),
    {
        match find_keyed(&self.store.purchase_orders, &input.po_id) {
            None => Err(ProcError::PoNotFound),
            Some(i) => {
                let ghost before = self.store;
                self.store.purchase_orders[i].status = PoStatus::Cancelled;
                proof {
                    let x = self.store.purchase_orders@[i as int];
                    assert(self.store.purchase_orders@ =~= before.purchase_orders@.update(i as int, x));
                    lemma_replace_po(before, self.store, i as int, x);
                }
                Ok(())
            },
        }
    }

    /// The level of authority an order's approval must be escalated to,
    /// by its total; the order is not changed.
    pub fn approval_escalate(&self, input: ApprovalEscalateInput) -> (r: Result<Escalation, ProcError>)
        requires
            self.store.wf(),
        ensures
            match r {
                Ok(e) => {
                    let pos = self.store.purchase_orders@;
                    &&& has_key(pos, input.po_id@)
                    &&& e.amount == pos[key_index(pos, input.po_id@)].total
                    &&& e.required_level == approval_level(e.amount as int)
                },
                Err(e) => e == ProcError::PoNotFound && !has_key(
                    self.store.purchase_orders@,
                    input.po_id@,
                ),
            },
    {
        match find_keyed(&self.store.purchase_orders, &input.po_id) {
            None => Err(ProcError::PoNotFound),
            Some(i) => {
                let amount = self.store.purchase_orders[i].total;
                let required_level = if amount > 10_000_000 {
                    ApprovalLevel::Cfo
                } else if amount > 1_000_000 {
                    ApprovalLevel::Director
                } else {
                    ApprovalLevel::Manager
                };
                Ok(Escalation { amount, required_level })
            },
        }
    }

    /// All purchase orders, in the order they were created.
    pub fn po_list(&self) -> (r: &Vec<PurchaseOrder>)
        ensures
            r@ == self.store.purchase_orders@,
    {
        &self.store.purchase_orders
    }

    /// The purchase order with the given id.
    pub fn po_get(&self, input: PoIdInput) -> (r: Result<&PurchaseOrder, ProcError>)
        requires
            self.store.wf(),
        ensures
            match r {
                Ok(po) => lookup(self.store.purchase_orders@, input.po_id@) == Some(*po),
                Err(e) => e == ProcError::PoNotFound && !has_key(
                    self.store.purchase_orders@,
                    input.po_id@,
                ),
            },
    {
        match find_keyed(&self.store.purchase_orders, &input.po_id) {
            Some(i) => Ok(&self.store.purchase_orders[i]),
            None => Err(ProcError::PoNotFound),
        }
    }
}

} // verus!
