//! The procurement engine: its requests, its errors and the server that
//! holds the store. The operations stand in the modules by area.
use vstd::prelude::*;
use crate::store::Store;

verus! {

/// A request to register a supplier.
pub struct SupplierInput {
    pub name: String,
    pub category: String,
    pub country: String,
    pub currency: Option<String>,
    pub contact_email: Option<String>,
    pub contact_phone: Option<String>,
    pub payment_terms: Option<String>,
}

/// A request naming a supplier.
pub struct SupplierIdInput {
    pub supplier_id: String,
}

/// A request to rate a supplier.
pub struct SupplierRateInput {
    pub supplier_id: String,
    /// Hundredths of a star; clamped to zero to five stars.
    pub rating: i64,
    pub reason: Option<String>,
}

/// One requested line of a purchase order; missing fields take defaults.
pub struct PoLineInput {
    pub sku: Option<String>,
    pub description: Option<String>,
    /// Thousandths of a unit.
    pub quantity: Option<i64>,
    /// Millionths of a currency unit per unit.
    pub unit_price: Option<i64>,
}

/// A request to create a purchase order.
pub struct PoCreateInput {
    pub supplier_id: String,
    pub lines: Vec<PoLineInput>,
    pub currency: Option<String>,
    pub delivery_date: Option<String>,
    pub notes: Option<String>,
    pub created_by: String,
}

/// A request naming a purchase order (or, for a comparison, a quotation).
pub struct PoIdInput {
    pub po_id: String,
}

/// A request to approve a purchase order.
pub struct PoApproveInput {
    pub po_id: String,
    pub approved_by: String,
}

/// One requested item of a request for quotation.
pub struct RfqItemInput {
    pub description: Option<String>,
    /// Thousandths of a unit.
    pub quantity: Option<i64>,
    pub unit: Option<String>,
    pub specs: Option<String>,
}

/// A request to open a request for quotation.
pub struct RfqCreateInput {
    pub title: String,
    pub items: Vec<RfqItemInput>,
    pub supplier_ids: Vec<String>,
    pub deadline: String,
    pub created_by: String,
}

/// A supplier's answer to a request for quotation.
pub struct RfqResponseInput {
    pub rfq_id: String,
    pub supplier_id: String,
    /// Millionths of a currency unit per unit, one per item.
    pub unit_prices: Vec<i64>,
    pub lead_time_days: u32,
    pub notes: Option<String>,
}

/// A request to award a request for quotation.
pub struct RfqAwardInput {
    pub rfq_id: String,
    pub supplier_id: String,
}

/// One received line of a goods receipt; missing fields take defaults.
pub struct ReceiptLineInput {
    pub sku: Option<String>,
    /// Thousandths of a unit.
    pub quantity_received: Option<i64>,
    /// Thousandths of a unit.
    pub quantity_rejected: Option<i64>,
    pub rejection_reason: Option<String>,
}

/// A request to receive goods against a purchase order.
pub struct ReceiveInput {
    pub po_id: String,
    pub lines: Vec<ReceiptLineInput>,
    pub received_by: String,
    pub notes: Option<String>,
}

/// A request for spend analytics. Each filter that is given narrows the
/// orders counted: to one supplier, to suppliers of one category, and to
/// orders created from `start` to `end` inclusive, timestamps compared as text.
pub struct SpendInput {
    pub start: Option<String>,
    pub end: Option<String>,
    pub supplier_id: Option<String>,
    pub category: Option<String>,
}

/// A request to match a supplier invoice against its order and receipts.
pub struct ThreeWayMatchInput {
    pub po_id: String,
    pub invoice_number: String,
    /// Cents.
    pub invoice_amount: i64,
}

/// A request to record a contract.
pub struct ContractInput {
    pub supplier_id: String,
    pub title: String,
    pub contract_type: String,
    /// Cents.
    pub value: i64,
    pub currency: Option<String>,
    pub start_date: String,
    pub end_date: String,
    pub auto_renew: Option<bool>,
    pub terms: Option<String>,
}

/// A request naming a contract.
pub struct ContractIdInput {
    pub contract_id: String,
}

/// A request to set a supplier's diversity certifications.
pub struct DiversityInput {
    pub supplier_id: String,
    pub certifications: Vec<String>,
    pub certified_by: Option<String>,
    pub expiry_date: Option<String>,
}

/// A request for the diversity report, optionally for one certification.
pub struct DiversityReportInput {
    pub certification: Option<String>,
}

/// A request to set a department budget.
pub struct BudgetInput {
    pub department: String,
    pub category: String,
    /// Cents.
    pub allocated: i64,
    pub currency: Option<String>,
    pub period: String,
}

/// A request to check an amount against a department's budgets.
pub struct BudgetCheckInput {
    pub department: String,
    /// Cents.
    pub amount: i64,
}

/// One item to add to a supplier's catalog; missing fields take defaults.
pub struct CatalogItemInput {
    pub sku: Option<String>,
    pub description: Option<String>,
    /// Millionths of a currency unit per unit.
    pub unit_price: Option<i64>,
    pub currency: Option<String>,
    pub lead_time_days: Option<u64>,
    /// Thousandths of a unit.
    pub min_order_qty: Option<i64>,
}

/// A request to add items to a supplier's catalog.
pub struct CatalogAddInput {
    pub supplier_id: String,
    pub items: Vec<CatalogItemInput>,
}

/// A catalog search by keyword, optionally within one supplier's catalog.
pub struct CatalogSearchInput {
    pub query: String,
    pub supplier_id: Option<String>,
}

/// A request to escalate a purchase order's approval.
pub struct ApprovalEscalateInput {
    pub po_id: String,
    pub current_approver: String,
    pub escalate_to: String,
    pub reason: String,
}

/// Why a request was refused.
#[derive(Clone, Copy, Debug, PartialEq, Eq, Structural)]
pub enum ProcError {
    SupplierNotFound,
    PoNotFound,
    PoNotInDraft,
    PoNotApproved,
    RfqNotFound,
    ContractNotFound,
    /// An amount or quantity left the range the engine computes in.
    AmountOverflow,
}

/// The error code reported for each refusal.
pub open spec fn error_code(e: ProcError) -> Seq<char> {
    match e {
        ProcError::SupplierNotFound => "SUPPLIER_NOT_FOUND"@,
        ProcError::PoNotFound => "PO_NOT_FOUND"@,
        ProcError::PoNotInDraft => "PO_NOT_IN_DRAFT"@,
        ProcError::PoNotApproved => "PO_NOT_APPROVED"@,
        ProcError::RfqNotFound => "RFQ_NOT_FOUND"@,
        ProcError::ContractNotFound => "CONTRACT_NOT_FOUND"@,
        ProcError::AmountOverflow => "AMOUNT_OUT_OF_RANGE"@,
    }
}

impl ProcError {
    /// The error code of this refusal.
    pub fn code(&self) -> (r: &'static str)
        ensures
            r@ == error_code(*self),
    {
        match self {
            ProcError::SupplierNotFound => "SUPPLIER_NOT_FOUND",
            ProcError::PoNotFound => "PO_NOT_FOUND",
            ProcError::PoNotInDraft => "PO_NOT_IN_DRAFT",
            ProcError::PoNotApproved => "PO_NOT_APPROVED",
            ProcError::RfqNotFound => "RFQ_NOT_FOUND",
            ProcError::ContractNotFound => "CONTRACT_NOT_FOUND",
            ProcError::AmountOverflow => "AMOUNT_OUT_OF_RANGE",
        }
    }
}

/// The procurement engine.
pub struct ProcurementServer {
    pub store: Store,
}

impl ProcurementServer {
    /// An engine with an empty store.
    pub fn new() -> (s: Self)
        ensures
            s.store.wf(),
            s.store.suppliers@.len() == 0,
            s.store.purchase_orders@.len() == 0,
            s.store.rfqs@.len() == 0,
            s.store.receipts@.len() == 0,
            s.store.invoices@.len() == 0,
            s.store.contracts@.len() == 0,
            s.store.diversity@.len() == 0,
            s.store.budgets@.len() == 0,
            s.store.catalogs@.len() == 0,
    {
        ProcurementServer { store: Store::new() }
    }
}

} // verus!
