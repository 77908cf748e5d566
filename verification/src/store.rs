//! The engine's in-memory store and the invariant every operation keeps.
use vstd::prelude::*;
use crate::fixed::{line_total, sum, vat};
use crate::ids::{id_from_uuid_text, is_generated_id, random_uuid_text};
use crate::keyed::{keys_unique, lemma_update_same_key};
use crate::types::{
    Budget, CatalogItem, Contract, GoodsReceipt, Invoice, PoLine, PoStatus, PurchaseOrder, Rfq, Supplier,
    SupplierDiversity,
};

verus! {

/// Every record the engine holds. Suppliers, orders, quotations and
/// contracts are maps by id; the rest are kept in the order they came.
pub struct Store {
    pub suppliers: Vec<Supplier>,
    pub purchase_orders: Vec<PurchaseOrder>,
    pub rfqs: Vec<Rfq>,
    pub receipts: Vec<GoodsReceipt>,
    pub invoices: Vec<Invoice>,
    pub contracts: Vec<Contract>,
    pub diversity: Vec<SupplierDiversity>,
    pub budgets: Vec<Budget>,
    pub catalogs: Vec<CatalogItem>,
}

/// The line totals of a purchase order, in cents.
pub open spec fn line_totals(lines: Seq<PoLine>) -> Seq<int> {
    lines.map_values(|l: PoLine| l.total as int)
}

/// A purchase order's amounts follow from its lines: each line total is
/// quantity times unit price, rounded to the cent; the subtotal is their
/// sum; the tax is the VAT on the subtotal; the total is subtotal plus tax.
pub open spec fn po_amounts_consistent(po: PurchaseOrder) -> bool {
    &&& forall|j: int|
        0 <= j < po.lines@.len() ==> (#[trigger] po.lines@[j]).total == line_total(
            po.lines@[j].quantity as int,
            po.lines@[j].unit_price as int,
        )
    &&& po.subtotal == sum(line_totals(po.lines@))
    &&& po.tax == vat(po.subtotal as int)
    &&& po.total == po.subtotal + po.tax
}

/// An approved or sent order records who approved it.
pub open spec fn approval_recorded(po: PurchaseOrder) -> bool {
    (po.status == PoStatus::Approved || po.status == PoStatus::Sent) ==> po.approved_by is Some
}

/// What the store keeps true of each purchase order: its amounts follow
/// from its lines, and an approved or sent order has an approver.
pub open spec fn po_wf(po: PurchaseOrder) -> bool {
    po_amounts_consistent(po) && approval_recorded(po)
}

/// No supplier has two diversity records.
pub open spec fn diversity_unique(d: Seq<SupplierDiversity>) -> bool {
    forall|i: int, j: int|
        0 <= i < d.len() && 0 <= j < d.len() && i != j ==> (#[trigger] d[i]).supplier_id@ != (
        #[trigger] d[j]).supplier_id@
}

/// The highest rating, five stars, in hundredths of a star.
pub const MAX_RATING: i64 = 500;

/// Replacing one purchase order by one with the same id that still meets
/// `po_wf` keeps the store's invariant.
pub proof fn lemma_replace_po(before: Store, after: Store, i: int, x: PurchaseOrder)
    requires
        before.wf(),
        0 <= i < before.purchase_orders@.len(),
        x.id@ == before.purchase_orders@[i].id@,
        po_wf(x),
        after == (Store { purchase_orders: after.purchase_orders, ..before }),
        after.purchase_orders@ == before.purchase_orders@.update(i, x),
    ensures
        after.wf(),
{
    lemma_update_same_key(before.purchase_orders@, i, x);
    assert forall|k: int| 0 <= k < after.purchase_orders@.len() implies po_wf(
        #[trigger] after.purchase_orders@[k],
    ) by {
        if k != i {
            assert(after.purchase_orders@[k] == before.purchase_orders@[k]);
        }
    }
}

impl Store {
    /// The store's invariant: ids are unique in each map, each supplier has
    /// at most one diversity record, ratings lie within zero to five stars,
    /// every purchase order's amounts follow from its lines, and every
    /// approved or sent order has an approver.
    pub open spec fn wf(&self) -> bool {
        &&& keys_unique(self.suppliers@)
        &&& keys_unique(self.purchase_orders@)
        &&& keys_unique(self.rfqs@)
        &&& keys_unique(self.contracts@)
        &&& diversity_unique(self.diversity@)
        &&& forall|i: int|
            0 <= i < self.suppliers@.len() ==> 0 <= (#[trigger] self.suppliers@[i]).rating
                <= MAX_RATING
        &&& forall|i: int|
            0 <= i < self.purchase_orders@.len() ==> po_wf(#[trigger] self.purchase_orders@[i])
    }

    /// An empty store.
    pub fn new() -> (s: Self)
        ensures
            s.wf(),
            s.suppliers@.len() == 0,
            s.purchase_orders@.len() == 0,
            s.rfqs@.len() == 0,
            s.receipts@.len() == 0,
            s.invoices@.len() == 0,
            s.contracts@.len() == 0,
            s.diversity@.len() == 0,
            s.budgets@.len() == 0,
            s.catalogs@.len() == 0,
    {
        Store {
            suppliers: Vec::new(),
            purchase_orders: Vec::new(),
            rfqs: Vec::new(),
            receipts: Vec::new(),
            invoices: Vec::new(),
            contracts: Vec::new(),
            diversity: Vec::new(),
            budgets: Vec::new(),
            catalogs: Vec::new(),
        }
    }

    /// A fresh id: `prefix`, an underscore and the first eight hex digits of
    /// a random UUID.
    pub fn new_id(prefix: &str) -> (id: String)
        ensures
            is_generated_id(prefix@, id@),
    {
        let u = random_uuid_text();
        id_from_uuid_text(prefix, &u)
    }
}

} // verus!
