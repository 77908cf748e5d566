//! Receiving goods against purchase orders, and three-way matching of an
//! order, its receipts and the supplier's invoice.
use vstd::prelude::*;
use crate::clock;
use crate::fixed::{
    fits_i128, fits_i64, lemma_prefix_overflow, lemma_running_sums_push, lemma_sum_push,
    lemma_sum_take_step, line_total, running_sums_fit, sum,
};
use crate::ids::is_generated_id;
use crate::keyed::{find_keyed, has_key, key_index};
use crate::server::{
    ProcError, ProcurementServer, ReceiptLineInput, ReceiveInput, ThreeWayMatchInput,
};
use crate::store::{lemma_replace_po, line_totals, po_amounts_consistent, Store};
use crate::text::{copy_opt_text, copy_text_or, text_or};
use crate::types::{GoodsReceipt, Invoice, MatchStatus, PoLine, PoStatus, PurchaseOrder, ReceiptLine};

verus! {

/// The sku of a received line: empty unless given.
pub open spec fn input_sku(l: ReceiptLineInput) -> Seq<char> {
    text_or(l.sku, Seq::empty())
}

/// The quantity received on a line: zero unless given.
pub open spec fn input_received(l: ReceiptLineInput) -> int {
    match l.quantity_received {
        Some(q) => q as int,
        None => 0,
    }
}

/// The quantity rejected on a line: zero unless given.
pub open spec fn input_rejected(l: ReceiptLineInput) -> int {
    match l.quantity_rejected {
        Some(q) => q as int,
        None => 0,
    }
}

/// Order line `j` is the first with sku `sku`.
pub open spec fn first_sku_at(lines: Seq<PoLine>, sku: Seq<char>, j: int) -> bool {
    &&& 0 <= j < lines.len()
    &&& lines[j].sku@ == sku
    &&& forall|k: int| 0 <= k < j ==> (#[trigger] lines[k]).sku@ != sku
}

/// The position of the first order line with sku `sku`, or -1 when none has it.
pub open spec fn first_sku(lines: Seq<PoLine>, sku: Seq<char>) -> int {
    if exists|j: int| first_sku_at(lines, sku, j) {
        choose|j: int| first_sku_at(lines, sku, j)
    } else {
        -1
    }
}

/// There is only one first line with a given sku.
pub proof fn lemma_first_sku_unique(lines: Seq<PoLine>, sku: Seq<char>, j: int)
    requires
        first_sku_at(lines, sku, j),
    ensures
        first_sku(lines, sku) == j,
{
    let c = choose|i: int| first_sku_at(lines, sku, i);
    assert(first_sku_at(lines, sku, c));
    if c < j {
        assert(lines[c].sku@ != sku);
    }
    if j < c {
        assert(lines[j].sku@ != sku);
    }
}

/// The received quantities of an order's lines.
pub open spec fn received_of(lines: Seq<PoLine>) -> Seq<i64> {
    lines.map_values(|l: PoLine| l.received_qty)
}

/// Receiving one line: its quantity is added to the first order line with
/// its sku, if any; `None` when that sum leaves the `i64` range.
pub open spec fn receive_step(recv: Seq<i64>, lines: Seq<PoLine>, l: ReceiptLineInput) -> Option<
    Seq<i64>,
> {
    let j = first_sku(lines, input_sku(l));
    if j < 0 {
        Some(recv)
    } else if fits_i64(recv[j] + input_received(l)) {
        Some(recv.update(j, (recv[j] + input_received(l)) as i64))
    } else {
        None
    }
}

/// The received quantities after receiving `ins` one after another.
pub open spec fn received_after(recv: Seq<i64>, lines: Seq<PoLine>, ins: Seq<ReceiptLineInput>) -> Option<
    Seq<i64>,
>
    decreases ins.len(),
{
    if ins.len() == 0 {
        Some(recv)
    } else {
        match received_after(recv, lines, ins.drop_last()) {
            Some(r) => receive_step(r, lines, ins.last()),
            None => None,
        }
    }
}

/// Once a line cannot be received, receiving more lines cannot succeed.
pub proof fn lemma_received_none_sticks(
    recv: Seq<i64>,
    lines: Seq<PoLine>,
    ins: Seq<ReceiptLineInput>,
    m: int,
)
    requires
        0 <= m <= ins.len(),
        received_after(recv, lines, ins.take(m)) is None,
    ensures
        received_after(recv, lines, ins) is None,
    decreases ins.len(),
{
    if m == ins.len() {
        assert(ins.take(m) =~= ins);
    } else {
        assert(ins.drop_last().take(m) =~= ins.take(m));
        lemma_received_none_sticks(recv, lines, ins.drop_last(), m);
    }
}

/// Every line has been received in full.
pub open spec fn all_received(lines: Seq<PoLine>) -> bool {
    forall|m: int| 0 <= m < lines.len() ==> (#[trigger] lines[m]).received_qty >= lines[m].quantity
}

/// `line` is the receipt line made from the received line `l`.
pub open spec fn receipt_line_from_input(line: ReceiptLine, l: ReceiptLineInput) -> bool {
    &&& line.sku@ == input_sku(l)
    &&& line.quantity_received == input_received(l)
    &&& line.quantity_rejected == input_rejected(l)
    &&& line.rejection_reason == l.rejection_reason
}

/// `g` is the receipt that receiving `input` under `id` records.
pub open spec fn receipt_from_input(g: GoodsReceipt, id: Seq<char>, input: ReceiveInput) -> bool {
    &&& g.id@ == id
    &&& g.po_id@ == input.po_id@
    &&& g.lines@.len() == input.lines@.len()
    &&& forall|k: int|
        0 <= k < g.lines@.len() ==> receipt_line_from_input(#[trigger] g.lines@[k], input.lines@[k])
    &&& g.received_by == input.received_by
    &&& g.notes == input.notes
}

/// What receiving goods reports.
pub struct ReceiptRecorded {
    pub all_received: bool,
    pub receipt_id: String,
    pub po_id: String,
}

/// The quantities received on a receipt's lines.
pub open spec fn receipt_quantities(g: GoodsReceipt) -> Seq<int> {
    g.lines@.map_values(|l: ReceiptLine| l.quantity_received as int)
}

/// The quantities received against order `po_id`, receipt by receipt and
/// line by line.
pub open spec fn received_quantities(rs: Seq<GoodsReceipt>, po_id: Seq<char>) -> Seq<int>
    decreases rs.len(),
{
    if rs.len() == 0 {
        Seq::empty()
    } else if rs.last().po_id@ == po_id {
        received_quantities(rs.drop_last(), po_id) + receipt_quantities(rs.last())
    } else {
        received_quantities(rs.drop_last(), po_id)
    }
}

/// The quantities of an order's lines.
pub open spec fn ordered_quantities(lines: Seq<PoLine>) -> Seq<int> {
    lines.map_values(|l: PoLine| l.quantity as int)
}

/// The quantities received against an order from its first receipts are
/// where the quantities from all its receipts begin.
pub proof fn lemma_received_prefix(rs: Seq<GoodsReceipt>, po_id: Seq<char>, a: int)
    requires
        0 <= a <= rs.len(),
    ensures
        received_quantities(rs.take(a), po_id).len() <= received_quantities(rs, po_id).len(),
        received_quantities(rs, po_id).take(received_quantities(rs.take(a), po_id).len() as int)
            == received_quantities(rs.take(a), po_id),
    decreases rs.len(),
{
    let whole = received_quantities(rs, po_id);
    if a == rs.len() {
        assert(rs.take(a) =~= rs);
        assert(whole.take(whole.len() as int) =~= whole);
    } else {
        let d = rs.drop_last();
        assert(d.take(a) =~= rs.take(a));
        lemma_received_prefix(d, po_id, a);
        let pre = received_quantities(rs.take(a), po_id);
        let mid = received_quantities(d, po_id);
        assert(whole.take(mid.len() as int) =~= mid);
        assert(whole.take(pre.len() as int) =~= mid.take(pre.len() as int));
    }
}

/// Received and ordered quantities agree to within a hundredth of a unit.
pub open spec fn quantities_match(received: int, ordered: int) -> bool {
    -10 < received - ordered < 10
}

/// The invoice is within 2% of the order total (never for a zero total;
/// always for a negative one, as the percentage is then not positive).
pub open spec fn within_tolerance(po_amount: int, invoice_amount: int) -> bool {
    let d = if po_amount >= invoice_amount {
        po_amount - invoice_amount
    } else {
        invoice_amount - po_amount
    };
    if po_amount > 0 {
        d * 100 < 2 * po_amount
    } else {
        po_amount < 0
    }
}

/// The verdict of a three-way match.
pub open spec fn match_verdict(qty_match: bool, amount_match: bool, tolerance: bool) -> MatchStatus {
    if qty_match && amount_match {
        MatchStatus::FullMatch
    } else if tolerance {
        MatchStatus::WithinTolerance
    } else {
        MatchStatus::Discrepancy
    }
}

/// What a three-way match reports.
pub struct MatchReport {
    pub status: MatchStatus,
    pub invoice_id: String,
    /// Cents.
    pub po_amount: i64,
    /// Cents.
    pub invoice_amount: i64,
    /// Invoice minus order total, in cents.
    pub amount_variance: i128,
    /// Thousandths of a unit.
    pub qty_ordered: i128,
    /// Thousandths of a unit.
    pub qty_received: i128,
    pub qty_match: bool,
    pub amount_match: bool,
}

/// The outcome of a three-way match of `input` taking the engine from
/// `before` to `after`, apart from the invoice's id and timestamp.
pub open spec fn match_outcome(
    before: ProcurementServer,
    after: ProcurementServer,
    input: ThreeWayMatchInput,
    r: Result<MatchReport, ProcError>,
) -> bool {
    let pos = before.store.purchase_orders@;
    let po = pos[key_index(pos, input.po_id@)];
    let recv = received_quantities(before.store.receipts@, input.po_id@);
    &&& !has_key(pos, input.po_id@) ==> r == Err::<MatchReport, ProcError>(
        ProcError::PoNotFound,
    )
    &&& has_key(pos, input.po_id@) && !running_sums_fit(recv) ==> r == Err::<
        MatchReport,
        ProcError,
    >(ProcError::AmountOverflow)
    &&& has_key(pos, input.po_id@) && running_sums_fit(recv) ==> {
        let m = r->Ok_0;
        let inv = after.store.invoices@.last();
        &&& r is Ok
        &&& m.qty_received == sum(recv)
        &&& m.qty_ordered == sum(ordered_quantities(po.lines@))
        &&& m.po_amount == po.total
        &&& m.invoice_amount == input.invoice_amount
        &&& m.amount_variance == input.invoice_amount - po.total
        &&& m.qty_match == quantities_match(m.qty_received as int, m.qty_ordered as int)
        &&& m.amount_match == (po.total == input.invoice_amount)
        &&& m.status == match_verdict(
            m.qty_match,
            m.amount_match,
            within_tolerance(po.total as int, input.invoice_amount as int),
        )
        &&& after.store.invoices@ == before.store.invoices@.push(inv)
        &&& inv.po_id@ == input.po_id@
        &&& inv.supplier_id == po.supplier_id
        &&& inv.invoice_number == input.invoice_number
        &&& inv.amount == input.invoice_amount
        &&& inv.currency == po.currency
        &&& inv.status == m.status
        &&& after.store == (Store {
            invoices: after.store.invoices,
            ..before.store
        })
    }
}

/// The first order line whose sku is `sku`.
fn find_sku(lines: &Vec<PoLine>, sku: &String) -> (r: Option<usize>)
    ensures
        match r {
            Some(j) => first_sku_at(lines@, sku@, j as int) && first_sku(lines@, sku@) == j,
            None => first_sku(lines@, sku@) == -1,
        },
{
    let mut j: usize = 0;
    while j < lines.len()
        invariant
            j <= lines@.len(),
            forall|k: int| 0 <= k < j ==> (#[trigger] lines@[k]).sku@ != sku@,
        decreases lines@.len() - j,
    {
        if lines[j].sku == *sku {
            proof {
                lemma_first_sku_unique(lines@, sku@, j as int);
            }
            return Some(j);
        }
        j = j + 1;
    }
    assert(!exists|i: int| first_sku_at(lines@, sku@, i));
    None
}

impl ProcurementServer {
    /// Receives goods against a purchase order under the given receipt id
    /// and timestamp: each received quantity is added to the first order
    /// line with the same sku, the order becomes received when every line
    /// is received in full and partially received otherwise, and the
    /// receipt is recorded.
    pub fn goods_receive_with_id(&mut self, id: String, received_at: String, input: ReceiveInput) -> (r:
        Result<ReceiptRecorded, ProcError>)
        requires
            old(self).store.wf(),
        ensures
            final(self).store.wf(),
            ({
                let pos = old(self).store.purchase_orders@;
                let p = key_index(pos, input.po_id@);
                let po0 = pos[p];
                let after = received_after(received_of(po0.lines@), po0.lines@, input.lines@);
                &&& !has_key(pos, input.po_id@) ==> r == Err::<ReceiptRecorded, ProcError>(
                    ProcError::PoNotFound,
                )
                &&& has_key(pos, input.po_id@) && after is None ==> r == Err::<
                    ReceiptRecorded,
                    ProcError,
                >(ProcError::AmountOverflow)
                &&& has_key(pos, input.po_id@) && after is Some ==> {
                    let po1 = final(self).store.purchase_orders@[p];
                    let rc = r->Ok_0;
                    let g = final(self).store.receipts@.last();
                    &&& r is Ok
                    &&& final(self).store.purchase_orders@ == pos.update(p, po1)
                    &&& po1 == (PurchaseOrder { lines: po1.lines, status: po1.status, ..po0 })
                    &&& po1.lines@.len() == po0.lines@.len()
                    &&& forall|m: int|
                        0 <= m < po1.lines@.len() ==> #[trigger] po1.lines@[m] == (PoLine {
                            received_qty: after->Some_0[m],
                            ..po0.lines@[m]
                        })
                    &&& rc.all_received == all_received(po1.lines@)
                    &&& po1.status == (if rc.all_received {
                        PoStatus::Received
                    } else {
                        PoStatus::PartiallyReceived
                    })
                    &&& rc.receipt_id@ == id@
                    &&& rc.po_id@ == input.po_id@
                    &&& final(self).store.receipts@ == old(self).store.receipts@.push(g)
                    &&& receipt_from_input(g, id@, input)
                    &&& g.received_at == received_at
                    &&& final(self).store == (Store {
                        purchase_orders: final(self).store.purchase_orders,
                        receipts: final(self).store.receipts,
                        ..old(self).store
                    })
                }
            }),
            r is Err ==> *final(self) == *old(self),
    {
        let i = match find_keyed(&self.store.purchase_orders, &input.po_id) {
            Some(i) => i,
            None => {
                return Err(ProcError::PoNotFound);
            },
        };
        let ghost lines0 = self.store.purchase_orders@[i as int].lines@;
        let m = self.store.purchase_orders[i].lines.len();
        let mut recv: Vec<i64> = Vec::new();
        let mut k: usize = 0;
        while k < m
            invariant
                *self == *old(self),
                i < self.store.purchase_orders@.len(),
                lines0 == self.store.purchase_orders@[i as int].lines@,
                m == lines0.len(),
                k <= m,
                recv@ == received_of(lines0).take(k as int),
            decreases m - k,
        {
            recv.push(self.store.purchase_orders[i].lines[k].received_qty);
            k = k + 1;
            assert(recv@ =~= received_of(lines0).take(k as int));
        }
        assert(received_of(lines0).take(m as int) =~= received_of(lines0));
        assert(input.lines@.take(0) =~= Seq::<ReceiptLineInput>::empty());
        let n = input.lines.len();
        let mut t: usize = 0;
        while t < n
            invariant
                *self == *old(self),
                self.store.wf(),
                has_key(self.store.purchase_orders@, input.po_id@),
                key_index(self.store.purchase_orders@, input.po_id@) == i,
                i < self.store.purchase_orders@.len(),
                lines0 == self.store.purchase_orders@[i as int].lines@,
                m == lines0.len(),
                n == input.lines@.len(),
                t <= n,
                recv@.len() == m,
                received_after(received_of(lines0), lines0, input.lines@.take(t as int)) == Some(
                    recv@,
                ),
            decreases n - t,
        {
            let l = &input.lines[t];
            let sku = copy_text_or(&l.sku, "");
            let q: i64 = match l.quantity_received {
                Some(q) => q,
                None => 0,
            };
            proof {
                reveal_strlit("");
                assert(""@ =~= Seq::<char>::empty());
                assert(input.lines@.take(t + 1).drop_last() =~= input.lines@.take(t as int));
                assert(input.lines@.take(t + 1).last() == input.lines@[t as int]);
            }
            match find_sku(&self.store.purchase_orders[i].lines, &sku) {
                Some(j) => {
                    match recv[j].checked_add(q) {
                        Some(v) => {
                            recv.set(j, v);
                        },
                        None => {
                            proof {
                                lemma_received_none_sticks(
                                    received_of(lines0),
                                    lines0,
                                    input.lines@,
                                    t + 1,
                                );
                            }
                            return Err(ProcError::AmountOverflow);
                        },
                    }
                },
                None => {},
            }
            t = t + 1;
        }
        assert(input.lines@.take(n as int) =~= input.lines@);
        let ghost before = self.store;
        let mut k: usize = 0;
        while k < m
            invariant
                before.wf(),
                i < before.purchase_orders@.len(),
                lines0 == before.purchase_orders@[i as int].lines@,
                m == lines0.len(),
                recv@.len() == m,
                k <= m,
                self.store == (Store { purchase_orders: self.store.purchase_orders, ..before }),
                self.store.purchase_orders@.len() == before.purchase_orders@.len(),
                forall|p: int|
                    0 <= p < before.purchase_orders@.len() && p != i ==> #[trigger] self.store.purchase_orders@[p]
                        == before.purchase_orders@[p],
                self.store.purchase_orders@[i as int] == (PurchaseOrder {
                    lines: self.store.purchase_orders@[i as int].lines,
                    ..before.purchase_orders@[i as int]
                }),
                self.store.purchase_orders@[i as int].lines@.len() == m,
                forall|q: int|
                    0 <= q < k ==> #[trigger] self.store.purchase_orders@[i as int].lines@[q] == (PoLine {
                        received_qty: recv@[q],
                        ..lines0[q]
                    }),
                forall|q: int|
                    k <= q < m ==> #[trigger] self.store.purchase_orders@[i as int].lines@[q]
                        == lines0[q],
            decreases m - k,
        {
            self.store.purchase_orders[i].lines[k].received_qty = recv[k];
            k = k + 1;
        }
        let mut all = true;
        let mut k: usize = 0;
        while k < m
            invariant
                i < self.store.purchase_orders@.len(),
                self.store.purchase_orders@[i as int].lines@.len() == m,
                k <= m,
                all == (forall|q: int|
                    0 <= q < k ==> (#[trigger] self.store.purchase_orders@[i as int].lines@[q]).received_qty
                        >= self.store.purchase_orders@[i as int].lines@[q].quantity),
            decreases m - k,
        {
            if self.store.purchase_orders[i].lines[k].received_qty
                < self.store.purchase_orders[i].lines[k].quantity {
                all = false;
            }
            k = k + 1;
        }
        self.store.purchase_orders[i].status = if all {
            PoStatus::Received
        } else {
            PoStatus::PartiallyReceived
        };
        proof {
            let x = self.store.purchase_orders@[i as int];
            let po0 = before.purchase_orders@[i as int];
            assert(self.store.purchase_orders@ =~= before.purchase_orders@.update(i as int, x));
            assert(line_totals(x.lines@) =~= line_totals(po0.lines@));
            assert forall|j: int| 0 <= j < x.lines@.len() implies (#[trigger] x.lines@[j]).total
                == line_total(x.lines@[j].quantity as int, x.lines@[j].unit_price as int) by {
                assert(po_amounts_consistent(po0));
                assert(x.lines@[j].total == po0.lines@[j].total);
            }
            lemma_replace_po(before, self.store, i as int, x);
        }
        let mut rlines: Vec<ReceiptLine> = Vec::new();
        let mut t: usize = 0;
        while t < n
            invariant
                n == input.lines@.len(),
                t <= n,
                rlines@.len() == t,
                forall|k: int|
                    0 <= k < t ==> receipt_line_from_input(#[trigger] rlines@[k], input.lines@[k]),
            decreases n - t,
        {
            let l = &input.lines[t];
            let line = ReceiptLine {
                sku: copy_text_or(&l.sku, ""),
                quantity_received: match l.quantity_received {
                    Some(q) => q,
                    None => 0,
                },
                quantity_rejected: match l.quantity_rejected {
                    Some(q) => q,
                    None => 0,
                },
                rejection_reason: copy_opt_text(&l.rejection_reason),
            };
            proof {
                reveal_strlit("");
                assert(""@ =~= Seq::<char>::empty());
                assert(receipt_line_from_input(line, input.lines@[t as int]));
            }
            rlines.push(line);
            t = t + 1;
        }
        let po_id = input.po_id.clone();
        let receipt = GoodsReceipt {
            id: id.clone(),
            po_id: input.po_id,
            lines: rlines,
            received_by: input.received_by,
            received_at,
            notes: input.notes,
        };
        self.store.receipts.push(receipt);
        Ok(ReceiptRecorded { all_received: all, receipt_id: id, po_id })
    }

    /// Receives goods against a purchase order under a fresh receipt id
    /// `gr_` followed by eight hex digits, stamped with the current time.
    pub fn goods_receive(&mut self, input: ReceiveInput) -> (r: Result<ReceiptRecorded, ProcError>)
        requires
            old(self).store.wf(),
        ensures
            final(self).store.wf(),
            ({
                let pos = old(self).store.purchase_orders@;
                let p = key_index(pos, input.po_id@);
                let po0 = pos[p];
                let after = received_after(received_of(po0.lines@), po0.lines@, input.lines@);
                &&& !has_key(pos, input.po_id@) ==> r == Err::<ReceiptRecorded, ProcError>(
                    ProcError::PoNotFound,
                )
                &&& has_key(pos, input.po_id@) && after is None ==> r == Err::<
                    ReceiptRecorded,
                    ProcError,
                >(ProcError::AmountOverflow)
                &&& has_key(pos, input.po_id@) && after is Some ==> {
                    let po1 = final(self).store.purchase_orders@[p];
                    let rc = r->Ok_0;
                    let g = final(self).store.receipts@.last();
                    &&& r is Ok
                    &&& final(self).store.purchase_orders@ == pos.update(p, po1)
                    &&& po1 == (PurchaseOrder { lines: po1.lines, status: po1.status, ..po0 })
                    &&& po1.lines@.len() == po0.lines@.len()
                    &&& forall|m: int|
                        0 <= m < po1.lines@.len() ==> #[trigger] po1.lines@[m] == (PoLine {
                            received_qty: after->Some_0[m],
                            ..po0.lines@[m]
                        })
                    &&& rc.all_received == all_received(po1.lines@)
                    &&& po1.status == (if rc.all_received {
                        PoStatus::Received
                    } else {
                        PoStatus::PartiallyReceived
                    })
                    &&& is_generated_id("gr"@, rc.receipt_id@)
                    &&& rc.po_id@ == input.po_id@
                    &&& final(self).store.receipts@ == old(self).store.receipts@.push(g)
                    &&& receipt_from_input(g, rc.receipt_id@, input)
                    &&& final(self).store == (Store {
                        purchase_orders: final(self).store.purchase_orders,
                        receipts: final(self).store.receipts,
                        ..old(self).store
                    })
                }
            }),
            r is Err ==> *final(self) == *old(self),
    {
        let id = Store::new_id("gr");
        let received_at = clock::now();
        self.goods_receive_with_id(id, received_at, input)
    }

    /// Matches a supplier invoice against its order and the goods received
    /// for it, and records the invoice under the given id and timestamp:
    /// a full match when received and ordered quantities agree and the
    /// invoice equals the order total, within tolerance when the invoice is
    /// within 2% of it, a discrepancy otherwise.
    pub fn three_way_match_with_id(
        &mut self,
        id: String,
        received_at: String,
        input: ThreeWayMatchInput,
    ) -> (r: Result<MatchReport, ProcError>)
        requires
            old(self).store.wf(),
        ensures
            final(self).store.wf(),
            match_outcome(*old(self), *final(self), input, r),
            r matches Ok(m) ==> m.invoice_id@ == id@ && final(self).store.invoices@.last().id@ == id@
                && final(self).store.invoices@.last().received_at == received_at,
            r is Err ==> *final(self) == *old(self),
    {
        let i = match find_keyed(&self.store.purchase_orders, &input.po_id) {
            Some(i) => i,
            None => {
                return Err(ProcError::PoNotFound);
            },
        };
        let ghost rs = self.store.receipts@;
        let ghost whole = received_quantities(rs, input.po_id@);
        let nr = self.store.receipts.len();
        let mut received: i128 = 0;
        let mut a: usize = 0;
        assert(rs.take(0) =~= Seq::<GoodsReceipt>::empty());
        assert(received_quantities(rs.take(0), input.po_id@) =~= Seq::<int>::empty());
        assert(running_sums_fit(Seq::<int>::empty())) by {
            assert forall|k: int| 0 <= k <= 0 implies fits_i128(
                #[trigger] sum(Seq::<int>::empty().take(k)),
            ) by {
                assert(Seq::<int>::empty().take(k) =~= Seq::<int>::empty());
            }
        }
        while a < nr
            invariant
                *self == *old(self),
                self.store.wf(),
                has_key(self.store.purchase_orders@, input.po_id@),
                key_index(self.store.purchase_orders@, input.po_id@) == i,
                i < self.store.purchase_orders@.len(),
                rs == self.store.receipts@,
                whole == received_quantities(rs, input.po_id@),
                nr == rs.len(),
                a <= nr,
                received == sum(received_quantities(rs.take(a as int), input.po_id@)),
                running_sums_fit(received_quantities(rs.take(a as int), input.po_id@)),
            decreases nr - a,
        {
            let g = &self.store.receipts[a];
            let ghost pre = received_quantities(rs.take(a as int), input.po_id@);
            let ghost q = receipt_quantities(rs[a as int]);
            proof {
                assert(rs.take(a + 1).drop_last() =~= rs.take(a as int));
                assert(rs.take(a + 1).last() == rs[a as int]);
                lemma_received_prefix(rs, input.po_id@, a + 1);
            }
            if g.po_id == input.po_id {
                let nl = g.lines.len();
                let mut b: usize = 0;
                assert(pre + q.take(0) =~= pre);
                while b < nl
                    invariant
                        *self == *old(self),
                        self.store.wf(),
                        has_key(self.store.purchase_orders@, input.po_id@),
                        rs == self.store.receipts@,
                        a < rs.len(),
                        *g == rs[a as int],
                        q == receipt_quantities(rs[a as int]),
                        nl == q.len(),
                        b <= nl,
                        whole == received_quantities(rs, input.po_id@),
                        received_quantities(rs.take(a + 1), input.po_id@) == pre + q,
                        (pre + q).len() <= whole.len(),
                        whole.take((pre + q).len() as int) == pre + q,
                        received == sum(pre + q.take(b as int)),
                        running_sums_fit(pre + q.take(b as int)),
                    decreases nl - b,
                {
                    let x = g.lines[b].quantity_received;
                    let ghost cur = pre + q.take(b as int);
                    proof {
                        assert(cur.push(x as int) =~= pre + q.take(b + 1));
                        lemma_sum_push(cur, x as int);
                    }
                    match received.checked_add(x as i128) {
                        Some(v) => {
                            proof {
                                lemma_running_sums_push(cur, x as int);
                            }
                            received = v;
                        },
                        None => {
                            proof {
                                let nxt = pre + q.take(b + 1);
                                assert(whole.take(nxt.len() as int) =~= nxt);
                                lemma_prefix_overflow(whole, nxt);
                            }
                            return Err(ProcError::AmountOverflow);
                        },
                    }
                    b = b + 1;
                }
                assert(q.take(nl as int) =~= q);
            } else {
                assert(received_quantities(rs.take(a + 1), input.po_id@) == pre);
            }
            a = a + 1;
        }
        assert(rs.take(nr as int) =~= rs);
        let po = &self.store.purchase_orders[i];
        let ghost oq = ordered_quantities(po.lines@);
        let nl = po.lines.len();
        let mut ordered: i128 = 0;
        let mut b: usize = 0;
        while b < nl
            invariant
                nl == po.lines@.len(),
                oq == ordered_quantities(po.lines@),
                b <= nl,
                ordered == sum(oq.take(b as int)),
                -(b as int) * 0x8000_0000_0000_0000 <= ordered <= (b as int) * 0x8000_0000_0000_0000,
            decreases nl - b,
        {
            proof {
                lemma_sum_take_step(oq, b as int);
            }
            ordered = ordered + po.lines[b].quantity as i128;
            b = b + 1;
        }
        assert(oq.take(nl as int) =~= oq);
        let po_amount = po.total;
        let invoice_amount = input.invoice_amount;
        let qty_match = ordered - 10 < received && received < ordered + 10;
        let amount_match = po_amount == invoice_amount;
        let d: i128 = if po_amount >= invoice_amount {
            po_amount as i128 - invoice_amount as i128
        } else {
            invoice_amount as i128 - po_amount as i128
        };
        let tolerance = if po_amount > 0 {
            d * 100 < 2 * (po_amount as i128)
        } else {
            po_amount < 0
        };
        let status = if qty_match && amount_match {
            MatchStatus::FullMatch
        } else if tolerance {
            MatchStatus::WithinTolerance
        } else {
            MatchStatus::Discrepancy
        };
        let invoice = Invoice {
            id: id.clone(),
            po_id: input.po_id,
            supplier_id: po.supplier_id.clone(),
            invoice_number: input.invoice_number,
            amount: invoice_amount,
            currency: po.currency.clone(),
            status,
            received_at,
        };
        self.store.invoices.push(invoice);
        Ok(
            MatchReport {
                status,
                invoice_id: id,
                po_amount,
                invoice_amount,
                amount_variance: invoice_amount as i128 - po_amount as i128,
                qty_ordered: ordered,
                qty_received: received,
                qty_match,
                amount_match,
            },
        )
    }

    /// Matches a supplier invoice against its order and the goods received
    /// for it, recording the invoice under a fresh id `inv_` followed by
    /// eight hex digits, stamped with the current time.
    pub fn three_way_match(&mut self, input: ThreeWayMatchInput) -> (r: Result<MatchReport, ProcError>)
        requires
            old(self).store.wf(),
        ensures
            final(self).store.wf(),
            match_outcome(*old(self), *final(self), input, r),
            r matches Ok(m) ==> is_generated_id("inv"@, m.invoice_id@)
                && final(self).store.invoices@.last().id@ == m.invoice_id@,
            r is Err ==> *final(self) == *old(self),
    {
        let id = Store::new_id("inv");
        let received_at = clock::now();
        self.three_way_match_with_id(id, received_at, input)
    }
}

} // verus!
