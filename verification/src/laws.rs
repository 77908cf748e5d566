//! Laws of the engine that relate several of its operations or hold of all
//! inputs, proved over the specifications the operations' contracts use.
use vstd::prelude::*;
use crate::analytics::{
    counts_toward_spend, lemma_spend_absent, lemma_spend_suppliers_distinct, spend_count,
    spend_suppliers, spend_total, supplier_spend,
};
use crate::catalogs::{matches_query, search_results};
use crate::diversity::{diverse_spend, diversity_pct, in_diverse, open_spend};
use crate::fixed::{round_div, running_sums_fit};
use crate::keyed::{has_key, key_index};
use crate::orders::{approval_level, can_approve, level_rank};
use crate::receiving::{
    all_received, input_received, input_sku, match_outcome, match_verdict, quantities_match,
    received_after, received_quantities, within_tolerance, MatchReport,
};
use crate::server::{ProcError, ProcurementServer, ReceiptLineInput, SpendInput, ThreeWayMatchInput};
use crate::store::{po_wf, Store};
use crate::types::{
    CatalogItem, MatchStatus, PoLine, PoStatus, PurchaseOrder, Supplier, SupplierDiversity,
};

verus! {

/// The spend of the suppliers in `gs`, added up.
pub open spec fn group_sum(pos: Seq<PurchaseOrder>, sups: Seq<Supplier>, filter: SpendInput, gs: Seq<Seq<char>>) -> int
    decreases gs.len(),
{
    if gs.len() == 0 {
        0
    } else {
        group_sum(pos, sups, filter, gs.drop_last()) + supplier_spend(pos, sups, filter, gs.last())
    }
}

/// Adding an order adds its total once to the spend of a list of distinct
/// suppliers that holds its supplier, when it counts.
proof fn lemma_group_sum_step(pos: Seq<PurchaseOrder>, sups: Seq<Supplier>, filter: SpendInput, gs: Seq<Seq<char>>)
    requires
        pos.len() > 0,
        gs.no_duplicates(),
    ensures
        group_sum(pos, sups, filter, gs) == group_sum(pos.drop_last(), sups, filter, gs) + (if counts_toward_spend(
            pos.last(),
            sups,
            filter,
        ) && gs.contains(pos.last().supplier_id@) {
            pos.last().total as int
        } else {
            0
        }),
    decreases gs.len(),
{
    if gs.len() > 0 {
        let d = gs.drop_last();
        assert(d.no_duplicates()) by {
            assert forall|i: int, j: int| 0 <= i < d.len() && 0 <= j < d.len() && i != j implies d[i]
                != d[j] by {
                assert(d[i] == gs[i] && d[j] == gs[j]);
            }
        }
        lemma_group_sum_step(pos, sups, filter, d);
        let sid = pos.last().supplier_id@;
        if gs.last() == sid {
            assert(!d.contains(sid)) by {
                if d.contains(sid) {
                    let i = choose|i: int| 0 <= i < d.len() && d[i] == sid;
                    assert(gs[i] == gs[gs.len() - 1]);
                }
            }
            assert(gs.contains(sid)) by {
                assert(gs[gs.len() - 1] == sid);
            }
        } else {
            assert(gs.contains(sid) == d.contains(sid)) by {
                if gs.contains(sid) {
                    let i = choose|i: int| 0 <= i < gs.len() && gs[i] == sid;
                    assert(i != gs.len() - 1);
                    assert(d[i] == sid);
                }
                if d.contains(sid) {
                    let i = choose|i: int| 0 <= i < d.len() && d[i] == sid;
                    assert(gs[i] == sid);
                }
            }
        }
    }
}

/// Spend analysis: the per-supplier spends add up to the total spend.
pub proof fn law_spend_by_supplier_sums_to_total(pos: Seq<PurchaseOrder>, sups: Seq<Supplier>, filter: SpendInput)
    ensures
        group_sum(pos, sups, filter, spend_suppliers(pos, sups, filter)) == spend_total(pos, sups, filter),
    decreases pos.len(),
{
    if pos.len() > 0 {
        let p = pos.drop_last();
        let x = pos.last();
        let g = spend_suppliers(p, sups, filter);
        law_spend_by_supplier_sums_to_total(p, sups, filter);
        lemma_spend_suppliers_distinct(p, sups, filter);
        lemma_spend_suppliers_distinct(pos, sups, filter);
        if counts_toward_spend(x, sups, filter) && !g.contains(x.supplier_id@) {
            let g2 = g.push(x.supplier_id@);
            assert(g2.drop_last() =~= g);
            lemma_group_sum_step(pos, sups, filter, g);
            lemma_spend_absent(p, sups, filter, x.supplier_id@);
        } else {
            lemma_group_sum_step(pos, sups, filter, g);
        }
    }
}

/// Governance: in the store every operation keeps, a sent order has always
/// been approved by someone, and so has an approved one.
pub proof fn law_sent_orders_have_approver(s: Store, i: int)
    requires
        s.wf(),
        0 <= i < s.purchase_orders@.len(),
        s.purchase_orders@[i].status == PoStatus::Sent || s.purchase_orders@[i].status
            == PoStatus::Approved,
    ensures
        s.purchase_orders@[i].approved_by is Some,
{
    assert(po_wf(s.purchase_orders@[i]));
}

/// Escalation: a larger order total never needs a lower level of approval.
pub proof fn law_approval_level_monotone(a: int, b: int)
    requires
        a <= b,
    ensures
        level_rank(approval_level(a)) <= level_rank(approval_level(b)),
{
}

/// Rounding goes to the nearest whole amount: the rounded quotient is off
/// by at most half the divisor, and rounding is symmetric around zero.
pub proof fn law_round_div_nearest(n: int, d: int)
    requires
        d > 0,
    ensures
        2 * (n - d * round_div(n, d)) <= d,
        2 * (d * round_div(n, d) - n) <= d,
        round_div(-n, d) == -round_div(n, d),
{
    let m = if n >= 0 { n } else { -n };
    let q = m / d;
    let r = m % d;
    assert(m == d * q + r && 0 <= r < d) by (nonlinear_arith)
        requires
            d > 0,
            m >= 0,
            q == m / d,
            r == m % d,
    ;
    if n >= 0 {
        if 2 * r >= d {
            assert(round_div(n, d) == q + 1);
            assert(n - d * (q + 1) == r - d) by (nonlinear_arith)
                requires
                    n == d * q + r,
            ;
        } else {
            assert(round_div(n, d) == q);
        }
    } else {
        if 2 * r >= d {
            assert(round_div(n, d) == -(q + 1));
            assert(n - d * (-(q + 1)) == d - r) by (nonlinear_arith)
                requires
                    n == -(d * q + r),
            ;
        } else {
            assert(round_div(n, d) == -q);
            assert(n - d * (-q) == -r) by (nonlinear_arith)
                requires
                    n == -(d * q + r),
            ;
        }
    }
    if n == 0 {
        assert(-n == 0);
    }
}

/// Diversity: when all spend is with diverse suppliers the share is
/// exactly 100.00%.
pub proof fn law_full_diversity_share(t: int)
    requires
        t > 0,
    ensures
        diversity_pct(t, t) == 10000,
{
    assert((t * 10000) / t == 10000 && (t * 10000) % t == 0) by (nonlinear_arith)
        requires
            t > 0,
    ;
}

/// Three-way match: an invoice for exactly a positive order total is within
/// tolerance, and it is a full match when the quantities match too.
pub proof fn law_exact_invoice_matches(po_amount: int, received: int, ordered: int)
    requires
        po_amount > 0,
    ensures
        within_tolerance(po_amount, po_amount),
        quantities_match(received, ordered) ==> match_verdict(
            quantities_match(received, ordered),
            po_amount == po_amount,
            within_tolerance(po_amount, po_amount),
        ) == MatchStatus::FullMatch,
{
}

/// Goods receipt: receiving lines with no negative quantity never lowers
/// what any order line has received, and keeps one received quantity per
/// order line.
pub proof fn law_receiving_never_lowers(recv: Seq<i64>, lines: Seq<PoLine>, ins: Seq<ReceiptLineInput>)
    requires
        recv.len() == lines.len(),
        forall|k: int| 0 <= k < ins.len() ==> input_received(#[trigger] ins[k]) >= 0,
        received_after(recv, lines, ins) is Some,
    ensures
        received_after(recv, lines, ins)->Some_0.len() == recv.len(),
        forall|m: int|
            0 <= m < recv.len() ==> #[trigger] received_after(recv, lines, ins)->Some_0[m] >= recv[m],
    decreases ins.len(),
{
    if ins.len() > 0 {
        let d = ins.drop_last();
        assert forall|k: int| 0 <= k < d.len() implies input_received(#[trigger] d[k]) >= 0 by {
            assert(d[k] == ins[k]);
        }
        law_receiving_never_lowers(recv, lines, d);
        let l = ins.last();
        assert(input_received(l) >= 0) by {
            assert(l == ins[ins.len() - 1]);
        }
    }
}

/// Catalog search returns exactly the catalog items that match, each as
/// often and in the same order as in the catalog.
pub proof fn law_search_results_exact(cs: Seq<CatalogItem>, query: Seq<char>, supplier: Option<String>)
    ensures
        search_results(cs, query, supplier) == cs.filter(|c: CatalogItem| matches_query(c, query, supplier)),
    decreases cs.len(),
{
    reveal(Seq::filter);
    if cs.len() > 0 {
        law_search_results_exact(cs.drop_last(), query, supplier);
    }
}

/// The absolute difference of two amounts.
pub open spec fn abs_diff(a: int, b: int) -> int {
    if a >= b { a - b } else { b - a }
}

/// Three-way match tolerance: for a positive order total, an invoice is
/// within tolerance exactly when it differs from the total by less than 2%
/// of it, whether it is over or under; the verdict is the same for an
/// invoice `d` over the total as for one `d` under it.
pub proof fn law_tolerance_is_two_percent_either_way(po_amount: int, invoice_amount: int, d: int)
    requires
        po_amount > 0,
    ensures
        within_tolerance(po_amount, invoice_amount) <==> abs_diff(po_amount, invoice_amount) * 100
            < 2 * po_amount,
        within_tolerance(po_amount, po_amount + d) == within_tolerance(po_amount, po_amount - d),
{
}

/// Three-way match: when the order exists and its receipts can be summed,
/// an invoice that differs from a positive order total is reported within
/// tolerance if it is off by less than 2% of the total, over or under, and
/// as a discrepancy otherwise.
pub proof fn law_match_verdict_on_amount(
    before: ProcurementServer,
    after: ProcurementServer,
    input: ThreeWayMatchInput,
    r: Result<MatchReport, ProcError>,
)
    requires
        match_outcome(before, after, input, r),
        has_key(before.store.purchase_orders@, input.po_id@),
        running_sums_fit(received_quantities(before.store.receipts@, input.po_id@)),
        ({
            let po = before.store.purchase_orders@[key_index(before.store.purchase_orders@, input.po_id@)];
            po.total > 0 && input.invoice_amount != po.total
        }),
    ensures
        r is Ok,
        ({
            let po = before.store.purchase_orders@[key_index(before.store.purchase_orders@, input.po_id@)];
            let off = abs_diff(po.total as int, input.invoice_amount as int);
            &&& !r->Ok_0.amount_match
            &&& off * 100 < 2 * po.total ==> r->Ok_0.status == MatchStatus::WithinTolerance
            &&& off * 100 >= 2 * po.total ==> r->Ok_0.status == MatchStatus::Discrepancy
        }),
{
}

/// Goods receipt: an order counts as fully received only when every one of
/// its lines, the last included, has received at least its quantity; one
/// line short of its quantity leaves the order partially received.
pub proof fn law_all_received_means_every_line(lines: Seq<PoLine>, m: int)
    requires
        0 <= m < lines.len(),
    ensures
        all_received(lines) ==> lines[m].received_qty >= lines[m].quantity,
        lines[m].received_qty < lines[m].quantity ==> !all_received(lines),
        (forall|k: int| 0 <= k < lines.len() ==> (#[trigger] lines[k]).received_qty >= lines[k].quantity)
            ==> all_received(lines),
{
}

/// Spend analysis: with no filter given, an order counts toward spend
/// exactly when it is neither a draft nor cancelled, whatever else its
/// status; adding such an order adds its total and one to the count.
pub proof fn law_unfiltered_spend_counts_every_issued_order(
    pos: Seq<PurchaseOrder>,
    po: PurchaseOrder,
    sups: Seq<Supplier>,
    filter: SpendInput,
)
    requires
        filter.supplier_id is None,
        filter.category is None,
        filter.start is None,
        filter.end is None,
    ensures
        counts_toward_spend(po, sups, filter) <==> (po.status != PoStatus::Draft && po.status
            != PoStatus::Cancelled),
        po.status != PoStatus::Draft && po.status != PoStatus::Cancelled ==> {
            &&& spend_total(pos.push(po), sups, filter) == spend_total(pos, sups, filter) + po.total
            &&& spend_count(pos.push(po), sups, filter) == spend_count(pos, sups, filter) + 1
        },
        po.status == PoStatus::Draft || po.status == PoStatus::Cancelled ==> {
            &&& spend_total(pos.push(po), sups, filter) == spend_total(pos, sups, filter)
            &&& spend_count(pos.push(po), sups, filter) == spend_count(pos, sups, filter)
        },
{
    assert(pos.push(po).drop_last() =~= pos);
}

/// Approval: only a draft or an order pending approval can be approved;
/// an approved, sent, received or cancelled order cannot be approved again.
pub proof fn law_only_drafts_are_approved(s: PoStatus)
    ensures
        can_approve(s) <==> (s == PoStatus::Draft || s == PoStatus::PendingApproval),
        !can_approve(PoStatus::Cancelled),
        !can_approve(PoStatus::Approved),
        !can_approve(PoStatus::Sent),
        !can_approve(PoStatus::Received),
        !can_approve(PoStatus::PartiallyReceived),
{
}

/// Diversity: the spend of the report is over every order that is not
/// cancelled, whatever else its status; an order adds its total to the
/// diverse spend too when its supplier counts as diverse, and a cancelled
/// order adds nothing to either.
pub proof fn law_diversity_spend_counts_every_open_order(
    pos: Seq<PurchaseOrder>,
    po: PurchaseOrder,
    ds: Seq<SupplierDiversity>,
    cert: Option<String>,
)
    ensures
        po.status != PoStatus::Cancelled ==> open_spend(pos.push(po)) == open_spend(pos) + po.total,
        po.status != PoStatus::Cancelled && in_diverse(ds, cert, po.supplier_id@) ==> diverse_spend(
            pos.push(po),
            ds,
            cert,
        ) == diverse_spend(pos, ds, cert) + po.total,
        po.status != PoStatus::Cancelled && !in_diverse(ds, cert, po.supplier_id@) ==> diverse_spend(
            pos.push(po),
            ds,
            cert,
        ) == diverse_spend(pos, ds, cert),
        po.status == PoStatus::Cancelled ==> open_spend(pos.push(po)) == open_spend(pos)
            && diverse_spend(pos.push(po), ds, cert) == diverse_spend(pos, ds, cert),
{
    assert(pos.push(po).drop_last() =~= pos);
}

} // verus!
