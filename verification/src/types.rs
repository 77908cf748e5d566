//! The records the engine keeps. Amounts are in cents, unit prices in
//! millionths of a currency unit, quantities in thousandths of a unit,
//! ratings in hundredths of a star.
use vstd::prelude::*;
use crate::keyed::Keyed;

verus! {

/// Standing of a supplier.
#[derive(Clone, Copy, Debug, PartialEq, Eq, Structural)]
pub enum SupplierStatus {
    Active,
    Suspended,
    Blacklisted,
}

/// A registered supplier.
#[derive(Debug)]
pub struct Supplier {
    pub id: String,
    pub name: String,
    pub category: String,
    pub contact_email: Option<String>,
    pub contact_phone: Option<String>,
    pub country: String,
    pub currency: String,
    /// net30, net60, cod
    pub payment_terms: String,
    /// Hundredths of a star, from 0 to 500.
    pub rating: i64,
    pub status: SupplierStatus,
}

/// Where a purchase order stands in its life.
#[derive(Clone, Copy, Debug, PartialEq, Eq, Structural)]
pub enum PoStatus {
    Draft,
    PendingApproval,
    Approved,
    Sent,
    PartiallyReceived,
    Received,
    Cancelled,
}

/// A purchase order.
#[derive(Debug)]
pub struct PurchaseOrder {
    pub id: String,
    pub supplier_id: String,
    pub status: PoStatus,
    pub lines: Vec<PoLine>,
    pub currency: String,
    /// Cents.
    pub subtotal: i64,
    /// Cents.
    pub tax: i64,
    /// Cents.
    pub total: i64,
    pub payment_terms: String,
    pub delivery_date: Option<String>,
    pub notes: Option<String>,
    pub created_by: String,
    pub approved_by: Option<String>,
    pub created_at: String,
}

/// One line of a purchase order.
#[derive(Debug)]
pub struct PoLine {
    pub sku: String,
    pub description: String,
    /// Thousandths of a unit.
    pub quantity: i64,
    /// Millionths of a currency unit per unit.
    pub unit_price: i64,
    /// Cents.
    pub total: i64,
    /// Thousandths of a unit.
    pub received_qty: i64,
}

/// Where a request for quotation stands.
#[derive(Clone, Copy, Debug, PartialEq, Eq, Structural)]
pub enum RfqStatus {
    Open,
    Closed,
    Awarded,
}

/// A request for quotation sent to several suppliers.
#[derive(Debug)]
pub struct Rfq {
    pub id: String,
    pub title: String,
    pub status: RfqStatus,
    pub items: Vec<RfqItem>,
    pub supplier_ids: Vec<String>,
    pub responses: Vec<RfqResponse>,
    pub deadline: String,
    pub created_by: String,
    pub created_at: String,
}

/// One item a request for quotation asks prices for.
#[derive(Debug)]
pub struct RfqItem {
    pub description: String,
    /// Thousandths of a unit.
    pub quantity: i64,
    pub unit: String,
    pub specs: Option<String>,
}

/// A supplier's quote in answer to a request for quotation.
#[derive(Debug)]
pub struct RfqResponse {
    pub supplier_id: String,
    pub supplier_name: String,
    /// Millionths of a currency unit per unit, one per item, in the items' order.
    pub unit_prices: Vec<i64>,
    /// Cents.
    pub total: i64,
    pub lead_time_days: u32,
    pub notes: Option<String>,
    pub submitted_at: String,
}

/// Goods received against a purchase order.
#[derive(Debug)]
pub struct GoodsReceipt {
    pub id: String,
    pub po_id: String,
    pub lines: Vec<ReceiptLine>,
    pub received_by: String,
    pub received_at: String,
    pub notes: Option<String>,
}

/// One received line of a goods receipt.
#[derive(Debug)]
pub struct ReceiptLine {
    pub sku: String,
    /// Thousandths of a unit.
    pub quantity_received: i64,
    /// Thousandths of a unit.
    pub quantity_rejected: i64,
    pub rejection_reason: Option<String>,
}

/// The verdict of a three-way match.
#[derive(Clone, Copy, Debug, PartialEq, Eq, Structural)]
pub enum MatchStatus {
    FullMatch,
    WithinTolerance,
    Discrepancy,
}

/// A supplier invoice recorded by a three-way match.
#[derive(Debug)]
pub struct Invoice {
    pub id: String,
    pub po_id: String,
    pub supplier_id: String,
    pub invoice_number: String,
    /// Cents.
    pub amount: i64,
    pub currency: String,
    pub status: MatchStatus,
    pub received_at: String,
}

/// Where a contract stands.
#[derive(Clone, Copy, Debug, PartialEq, Eq, Structural)]
pub enum ContractStatus {
    Active,
}

/// A contract with a supplier.
#[derive(Debug)]
pub struct Contract {
    pub id: String,
    pub supplier_id: String,
    pub title: String,
    /// fixed price, time and materials, blanket, framework
    pub contract_type: String,
    /// Cents.
    pub value: i64,
    pub currency: String,
    pub start_date: String,
    pub end_date: String,
    pub auto_renew: bool,
    pub terms: String,
    pub status: ContractStatus,
    pub created_at: String,
}

/// The diversity certifications of a supplier.
#[derive(Debug)]
pub struct SupplierDiversity {
    pub supplier_id: String,
    pub certifications: Vec<String>,
    pub certified_by: Option<String>,
    pub expiry_date: Option<String>,
}

/// A department's budget for a category and period.
#[derive(Debug)]
pub struct Budget {
    pub id: String,
    pub department: String,
    pub category: String,
    /// Cents.
    pub allocated: i64,
    /// Cents.
    pub spent: i64,
    pub currency: String,
    pub period: String,
}

/// An item of a supplier's punch-out catalog.
#[derive(Debug)]
pub struct CatalogItem {
    pub id: String,
    pub supplier_id: String,
    pub sku: String,
    pub description: String,
    /// Millionths of a currency unit per unit.
    pub unit_price: i64,
    pub currency: String,
    pub lead_time_days: u32,
    /// Thousandths of a unit.
    pub min_order_qty: i64,
}

impl Keyed for Supplier {
    open spec fn key(&self) -> Seq<char> {
        self.id@
    }

    fn key_text(&self) -> (r: &String) {
        &self.id
    }
}

impl Keyed for PurchaseOrder {
    open spec fn key(&self) -> Seq<char> {
        self.id@
    }

    fn key_text(&self) -> (r: &String) {
        &self.id
    }
}

impl Keyed for Rfq {
    open spec fn key(&self) -> Seq<char> {
        self.id@
    }

    fn key_text(&self) -> (r: &String) {
        &self.id
    }
}

impl Keyed for Contract {
    open spec fn key(&self) -> Seq<char> {
        self.id@
    }

    fn key_text(&self) -> (r: &String) {
        &self.id
    }
}

} // verus!
