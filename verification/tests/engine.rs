use procurement::analytics::SpendReport;
use procurement::budgets::BudgetCheck;
use procurement::orders::ApprovalLevel;
use procurement::server::{
    ApprovalEscalateInput, BudgetCheckInput, BudgetInput, CatalogAddInput, CatalogItemInput,
    CatalogSearchInput, ContractIdInput, ContractInput, DiversityInput, DiversityReportInput,
    PoApproveInput, PoCreateInput, PoIdInput, PoLineInput, ProcError, ProcurementServer,
    ReceiptLineInput, ReceiveInput, RfqAwardInput, RfqCreateInput, RfqItemInput, RfqResponseInput,
    SpendInput, SupplierIdInput, SupplierInput, SupplierRateInput, ThreeWayMatchInput,
};
use procurement::store::Store;
use procurement::types::{ContractStatus, MatchStatus, PoStatus, RfqStatus, SupplierStatus};

fn s(t: &str) -> String {
    t.to_string()
}

fn supplier(name: &str) -> SupplierInput {
    SupplierInput {
        name: s(name),
        category: s("raw_materials"),
        country: s("KE"),
        currency: None,
        contact_email: None,
        contact_phone: None,
        payment_terms: None,
    }
}

/// Unit prices are in millionths of a currency unit: a cent is 10 000.
const CENT: i64 = 10_000;

fn line(sku: &str, qty_milli: i64, price_cents: i64) -> PoLineInput {
    PoLineInput {
        sku: Some(s(sku)),
        description: Some(format!("{} item", sku)),
        quantity: Some(qty_milli),
        unit_price: Some(price_cents * CENT),
    }
}

fn order(server: &mut ProcurementServer, id: &str, supplier_id: &str, lines: Vec<PoLineInput>) -> i64 {
    let input = PoCreateInput {
        supplier_id: s(supplier_id),
        lines,
        currency: None,
        delivery_date: None,
        notes: None,
        created_by: s("james"),
    };
    server
        .po_create_with_id(s(id), s("2026-05-27T00:00:00+00:00"), input)
        .unwrap()
        .total
}

fn is_hex_id(prefix: &str, id: &str) -> bool {
    id.len() == prefix.len() + 9
        && id.starts_with(&format!("{}_", prefix))
        && id[prefix.len() + 1..].chars().all(|c| c.is_ascii_digit() || ('a'..='f').contains(&c))
}

#[test]
fn new_id_has_prefix_and_eight_hex_digits() {
    let id = Store::new_id("sup");
    assert!(is_hex_id("sup", &id), "{}", id);
}

#[test]
fn supplier_create_applies_defaults_and_get_finds_it() {
    let mut server = ProcurementServer::new();
    let id = server.supplier_create(supplier("Acme Steel Ltd"));
    assert!(is_hex_id("sup", &id));
    let sup = server.supplier_get(SupplierIdInput { supplier_id: id.clone() }).unwrap();
    assert_eq!(sup.id, id);
    assert_eq!(sup.name, "Acme Steel Ltd");
    assert_eq!(sup.currency, "USD");
    assert_eq!(sup.payment_terms, "net30");
    assert_eq!(sup.rating, 0);
    assert_eq!(sup.status, SupplierStatus::Active);
    assert_eq!(server.supplier_list().len(), 1);
}

#[test]
fn supplier_create_keeps_given_currency_and_terms() {
    let mut server = ProcurementServer::new();
    let mut input = supplier("Global Parts Inc");
    input.currency = Some(s("EUR"));
    input.payment_terms = Some(s("net60"));
    let id = server.supplier_create_with_id(s("sup_1"), input);
    assert_eq!(id, "sup_1");
    let sup = server.supplier_get(SupplierIdInput { supplier_id: s("sup_1") }).unwrap();
    assert_eq!(sup.currency, "EUR");
    assert_eq!(sup.payment_terms, "net60");
}

#[test]
fn supplier_get_unknown_is_not_found() {
    let server = ProcurementServer::new();
    let err = server.supplier_get(SupplierIdInput { supplier_id: s("sup_x") }).unwrap_err();
    assert_eq!(err, ProcError::SupplierNotFound);
    assert_eq!(err.code(), "SUPPLIER_NOT_FOUND");
}

#[test]
fn supplier_rate_clamps_to_five_stars() {
    let mut server = ProcurementServer::new();
    server.supplier_create_with_id(s("sup_1"), supplier("A"));
    let rate = |server: &mut ProcurementServer, r: i64| {
        server.supplier_rate(SupplierRateInput { supplier_id: s("sup_1"), rating: r, reason: None })
    };
    assert_eq!(rate(&mut server, 700), Ok(500));
    assert_eq!(rate(&mut server, -5), Ok(0));
    assert_eq!(rate(&mut server, 425), Ok(425));
    assert_eq!(server.supplier_list()[0].rating, 425);
    assert_eq!(rate_missing(&mut server), Err(ProcError::SupplierNotFound));
}

fn rate_missing(server: &mut ProcurementServer) -> Result<i64, ProcError> {
    server.supplier_rate(SupplierRateInput { supplier_id: s("nope"), rating: 300, reason: None })
}

#[test]
fn po_create_prices_lines_and_adds_vat() {
    let mut server = ProcurementServer::new();
    // 5000 units at 2.20: 11 000.00, VAT 16%: 1 760.00, total 12 760.00
    let total = order(&mut server, "po_1", "sup_1", vec![line("STEEL-12MM", 5_000_000, 220)]);
    assert_eq!(total, 1_276_000);
    let po = server.po_get(PoIdInput { po_id: s("po_1") }).unwrap();
    assert_eq!(po.status, PoStatus::Draft);
    assert_eq!(po.subtotal, 1_100_000);
    assert_eq!(po.tax, 176_000);
    assert_eq!(po.total, 1_276_000);
    assert_eq!(po.lines[0].total, 1_100_000);
    assert_eq!(po.lines[0].received_qty, 0);
    assert_eq!(po.currency, "USD");
    assert_eq!(po.payment_terms, "net30");
    assert_eq!(po.approved_by, None);
}

#[test]
fn po_line_totals_round_half_away_from_zero() {
    let mut server = ProcurementServer::new();
    // 1.5 units at 0.33: 0.495 rounds to 0.50; VAT 0.08; total 0.58
    assert_eq!(order(&mut server, "po_a", "s", vec![line("A", 1500, 33)]), 58);
    // 1.5 units at -0.33: -0.495 rounds to -0.50
    order(&mut server, "po_b", "s", vec![line("B", 1500, -33)]);
    let po = server.po_get(PoIdInput { po_id: s("po_b") }).unwrap();
    assert_eq!(po.lines[0].total, -50);
    assert_eq!(po.tax, -8);
}

#[test]
fn po_line_keeps_sub_cent_unit_prices() {
    let mut server = ProcurementServer::new();
    // 1000 units at 0.125: 125.00, VAT 20.00, total 145.00
    let l = PoLineInput { sku: None, description: None, quantity: Some(1_000_000), unit_price: Some(125_000) };
    assert_eq!(order(&mut server, "po_1", "s", vec![l]), 14_500);
    let po = server.po_get(PoIdInput { po_id: s("po_1") }).unwrap();
    assert_eq!(po.lines[0].unit_price, 125_000);
    assert_eq!(po.lines[0].total, 12_500);
    // 3 units at 0.0049: 0.0147 rounds to 0.01
    let l = PoLineInput { sku: None, description: None, quantity: Some(3000), unit_price: Some(4_900) };
    order(&mut server, "po_2", "s", vec![l]);
    assert_eq!(server.po_get(PoIdInput { po_id: s("po_2") }).unwrap().lines[0].total, 1);
}

#[test]
fn po_line_defaults_to_one_unit_at_zero() {
    let mut server = ProcurementServer::new();
    let empty = PoLineInput { sku: None, description: None, quantity: None, unit_price: Some(1000 * CENT) };
    assert_eq!(order(&mut server, "po_1", "s", vec![empty]), 1160);
    let po = server.po_get(PoIdInput { po_id: s("po_1") }).unwrap();
    assert_eq!(po.lines[0].quantity, 1000);
    assert_eq!(po.lines[0].sku, "");
    let free = PoLineInput { sku: None, description: None, quantity: Some(3000), unit_price: None };
    assert_eq!(order(&mut server, "po_2", "s", vec![free]), 0);
}

#[test]
fn po_create_refuses_amounts_out_of_range() {
    let mut server = ProcurementServer::new();
    let input = PoCreateInput {
        supplier_id: s("s"),
        lines: vec![PoLineInput { sku: None, description: None, quantity: Some(i64::MAX), unit_price: Some(i64::MAX) }],
        currency: None,
        delivery_date: None,
        notes: None,
        created_by: s("james"),
    };
    let r = server.po_create(input);
    assert_eq!(r.err(), Some(ProcError::AmountOverflow));
    assert_eq!(server.po_list().len(), 0);
}

#[test]
fn po_create_generates_id() {
    let mut server = ProcurementServer::new();
    let input = PoCreateInput {
        supplier_id: s("s"),
        lines: vec![line("X", 1000, 100)],
        currency: Some(s("KES")),
        delivery_date: Some(s("2026-07-01")),
        notes: None,
        created_by: s("james"),
    };
    let created = server.po_create(input).unwrap();
    assert!(is_hex_id("po", &created.po_id));
    assert_eq!(created.total, 116);
    let po = server.po_get(PoIdInput { po_id: created.po_id.clone() }).unwrap();
    assert_eq!(po.currency, "KES");
    assert_eq!(po.delivery_date, Some(s("2026-07-01")));
}

#[test]
fn po_lifecycle_approve_send_cancel() {
    let mut server = ProcurementServer::new();
    order(&mut server, "po_1", "sup_1", vec![line("A", 1000, 100)]);
    let send = |server: &mut ProcurementServer| server.po_send(PoIdInput { po_id: s("po_1") });
    assert_eq!(send(&mut server), Err(ProcError::PoNotApproved));
    let approve = |server: &mut ProcurementServer| {
        server.po_approve(PoApproveInput { po_id: s("po_1"), approved_by: s("director_kim") })
    };
    assert_eq!(approve(&mut server), Ok(()));
    {
        let po = server.po_get(PoIdInput { po_id: s("po_1") }).unwrap();
        assert_eq!(po.status, PoStatus::Approved);
        assert_eq!(po.approved_by, Some(s("director_kim")));
    }
    assert_eq!(approve(&mut server), Err(ProcError::PoNotInDraft));
    assert_eq!(ProcError::PoNotInDraft.code(), "PO_NOT_IN_DRAFT");
    assert_eq!(send(&mut server), Ok(s("sup_1")));
    assert_eq!(server.po_get(PoIdInput { po_id: s("po_1") }).unwrap().status, PoStatus::Sent);
    assert_eq!(server.po_cancel(PoIdInput { po_id: s("po_1") }), Ok(()));
    assert_eq!(server.po_get(PoIdInput { po_id: s("po_1") }).unwrap().status, PoStatus::Cancelled);
    assert_eq!(server.po_cancel(PoIdInput { po_id: s("po_9") }), Err(ProcError::PoNotFound));
    assert_eq!(
        server.po_approve(PoApproveInput { po_id: s("po_9"), approved_by: s("x") }),
        Err(ProcError::PoNotFound)
    );
    assert_eq!(ProcError::PoNotApproved.code(), "PO_NOT_APPROVED");
}

fn rfq(server: &mut ProcurementServer) {
    let input = RfqCreateInput {
        title: s("Steel Rods Q3"),
        items: vec![
            RfqItemInput {
                description: Some(s("Steel Rod 12mm")),
                quantity: Some(5_000_000),
                unit: Some(s("kg")),
                specs: None,
            },
            RfqItemInput { description: None, quantity: None, unit: None, specs: None },
        ],
        supplier_ids: vec![s("sup_abc"), s("sup_def")],
        deadline: s("2026-07-01"),
        created_by: s("james"),
    };
    server.rfq_create_with_id(s("rfq_1"), s("2026-05-27T00:00:00+00:00"), input);
}

fn respond(server: &mut ProcurementServer, sup: &str, prices: Vec<i64>) -> Result<i64, ProcError> {
    server.rfq_respond(RfqResponseInput {
        rfq_id: s("rfq_1"),
        supplier_id: s(sup),
        unit_prices: prices,
        lead_time_days: 14,
        notes: None,
    })
}

#[test]
fn rfq_create_applies_item_defaults() {
    let mut server = ProcurementServer::new();
    rfq(&mut server);
    let q = &server.store.rfqs[0];
    assert_eq!(q.status, RfqStatus::Open);
    assert_eq!(q.items[1].quantity, 1000);
    assert_eq!(q.items[1].unit, "each");
    assert_eq!(q.items[1].description, "");
    assert!(q.responses.is_empty());
    let id = server.rfq_create(RfqCreateInput {
        title: s("t"),
        items: vec![],
        supplier_ids: vec![],
        deadline: s("d"),
        created_by: s("c"),
    });
    assert!(is_hex_id("rfq", &id));
}

#[test]
fn rfq_respond_totals_quote_and_names_supplier() {
    let mut server = ProcurementServer::new();
    server.supplier_create_with_id(s("sup_abc"), supplier("Acme Steel Ltd"));
    rfq(&mut server);
    // 5000 x 2.50 + 1 x 10.005 = 12 510.005, rounded half away from zero to 12 510.01
    assert_eq!(respond(&mut server, "sup_abc", vec![2_500_000, 10_005_000]), Ok(1_251_001));
    // fewer prices than items: only the first item is priced
    assert_eq!(respond(&mut server, "sup_def", vec![220 * CENT]), Ok(1_100_000));
    let q = &server.store.rfqs[0];
    assert_eq!(q.responses.len(), 2);
    assert_eq!(q.responses[0].supplier_name, "Acme Steel Ltd");
    assert_eq!(q.responses[1].supplier_name, "sup_def");
    assert_eq!(q.responses[1].lead_time_days, 14);
    let err = server.rfq_respond(RfqResponseInput {
        rfq_id: s("rfq_x"),
        supplier_id: s("sup_abc"),
        unit_prices: vec![1],
        lead_time_days: 1,
        notes: None,
    });
    assert_eq!(err, Err(ProcError::RfqNotFound));
    assert_eq!(ProcError::RfqNotFound.code(), "RFQ_NOT_FOUND");
}

#[test]
fn rfq_respond_refuses_totals_out_of_range() {
    let mut server = ProcurementServer::new();
    let input = RfqCreateInput {
        title: s("Bulk"),
        items: vec![RfqItemInput { description: None, quantity: Some(i64::MAX), unit: None, specs: None }],
        supplier_ids: vec![],
        deadline: s("2026-07-01"),
        created_by: s("james"),
    };
    server.rfq_create_with_id(s("rfq_1"), s("2026-05-27T00:00:00+00:00"), input);
    assert_eq!(respond(&mut server, "x", vec![i64::MAX]), Err(ProcError::AmountOverflow));
    assert!(server.store.rfqs[0].responses.is_empty());
}

#[test]
fn rfq_compare_lists_quotes_with_ratings() {
    let mut server = ProcurementServer::new();
    server.supplier_create_with_id(s("sup_abc"), supplier("Acme"));
    server
        .supplier_rate(SupplierRateInput { supplier_id: s("sup_abc"), rating: 400, reason: None })
        .unwrap();
    rfq(&mut server);
    respond(&mut server, "sup_abc", vec![250 * CENT]).unwrap();
    respond(&mut server, "sup_def", vec![220 * CENT]).unwrap();
    let c = server.rfq_compare(PoIdInput { po_id: s("rfq_1") }).unwrap();
    assert_eq!(c.rfq_id, "rfq_1");
    assert_eq!(c.title, "Steel Rods Q3");
    assert_eq!(c.rows.len(), 2);
    assert_eq!(c.rows[0].rating, 400);
    assert_eq!(c.rows[0].total, 1_250_000);
    assert_eq!(c.rows[1].rating, 0);
    assert_eq!(c.rows[1].supplier_name, "sup_def");
    assert!(server.rfq_compare(PoIdInput { po_id: s("nope") }).is_err());
}

#[test]
fn rfq_award_reports_the_first_quote_of_the_winner() {
    let mut server = ProcurementServer::new();
    rfq(&mut server);
    respond(&mut server, "sup_def", vec![220 * CENT]).unwrap();
    respond(&mut server, "sup_def", vec![200 * CENT]).unwrap();
    let r = server.rfq_award(RfqAwardInput { rfq_id: s("rfq_1"), supplier_id: s("sup_def") });
    assert_eq!(r, Ok(Some(1_100_000)));
    assert_eq!(server.store.rfqs[0].status, RfqStatus::Awarded);
    let r = server.rfq_award(RfqAwardInput { rfq_id: s("rfq_1"), supplier_id: s("sup_zzz") });
    assert_eq!(r, Ok(None));
    let r = server.rfq_award(RfqAwardInput { rfq_id: s("nope"), supplier_id: s("sup_def") });
    assert_eq!(r, Err(ProcError::RfqNotFound));
}

fn receive(server: &mut ProcurementServer, lines: Vec<(&str, i64, i64)>) -> Result<bool, ProcError> {
    let input = ReceiveInput {
        po_id: s("po_1"),
        lines: lines
            .into_iter()
            .map(|(sku, q, rej)| ReceiptLineInput {
                sku: Some(s(sku)),
                quantity_received: Some(q),
                quantity_rejected: Some(rej),
                rejection_reason: None,
            })
            .collect(),
        received_by: s("warehouse_john"),
        notes: None,
    };
    server.goods_receive(input).map(|r| r.all_received)
}

#[test]
fn goods_receive_partial_then_full() {
    let mut server = ProcurementServer::new();
    order(&mut server, "po_1", "s", vec![line("A", 5_000_000, 220), line("B", 2000, 100)]);
    assert_eq!(receive(&mut server, vec![("A", 4_950_000, 50_000), ("Z", 7000, 0)]), Ok(false));
    {
        let po = server.po_get(PoIdInput { po_id: s("po_1") }).unwrap();
        assert_eq!(po.status, PoStatus::PartiallyReceived);
        assert_eq!(po.lines[0].received_qty, 4_950_000);
        assert_eq!(po.lines[1].received_qty, 0);
        assert_eq!(po.total, 1_276_232);
    }
    assert_eq!(receive(&mut server, vec![("A", 50_000, 0), ("B", 2000, 0)]), Ok(true));
    let po = server.po_get(PoIdInput { po_id: s("po_1") }).unwrap();
    assert_eq!(po.status, PoStatus::Received);
    assert_eq!(server.store.receipts.len(), 2);
    assert_eq!(server.store.receipts[0].lines[0].quantity_rejected, 50_000);
    assert_eq!(server.store.receipts[0].lines.len(), 2);
    assert!(is_hex_id("gr", &server.store.receipts[0].id));
}

#[test]
fn goods_receive_unknown_order_and_overflow() {
    let mut server = ProcurementServer::new();
    assert_eq!(receive(&mut server, vec![("A", 1, 0)]), Err(ProcError::PoNotFound));
    order(&mut server, "po_1", "s", vec![line("A", 1000, 1)]);
    assert_eq!(receive(&mut server, vec![("A", i64::MAX, 0), ("A", 1, 0)]), Err(ProcError::AmountOverflow));
    assert!(server.store.receipts.is_empty());
    assert_eq!(server.store.purchase_orders[0].lines[0].received_qty, 0);
    assert_eq!(server.store.purchase_orders[0].status, PoStatus::Draft);
}

#[test]
fn goods_receive_of_order_without_lines_is_full() {
    let mut server = ProcurementServer::new();
    order(&mut server, "po_1", "s", vec![]);
    assert_eq!(receive(&mut server, vec![]), Ok(true));
}

fn matched(server: &mut ProcurementServer, amount: i64) -> procurement::receiving::MatchReport {
    server
        .three_way_match(ThreeWayMatchInput {
            po_id: s("po_1"),
            invoice_number: s("INV-2026-0891"),
            invoice_amount: amount,
        })
        .unwrap()
}

#[test]
fn three_way_match_verdicts() {
    let mut server = ProcurementServer::new();
    // 100 units at 100.00: 10 000.00 + VAT 1 600.00 = 11 600.00
    order(&mut server, "po_1", "sup_1", vec![line("A", 100_000, 10_000)]);
    receive(&mut server, vec![("A", 100_000, 0)]).unwrap();
    let m = matched(&mut server, 1_160_000);
    assert_eq!(m.status, MatchStatus::FullMatch);
    assert!(m.qty_match && m.amount_match);
    assert_eq!(m.qty_ordered, 100_000);
    assert_eq!(m.qty_received, 100_000);
    assert_eq!(m.amount_variance, 0);
    assert!(is_hex_id("inv", &m.invoice_id));
    // 1% over: within the 2% tolerance
    let m = matched(&mut server, 1_171_600);
    assert_eq!(m.status, MatchStatus::WithinTolerance);
    assert_eq!(m.amount_variance, 11_600);
    // 5% under: a discrepancy
    let m = matched(&mut server, 1_102_000);
    assert_eq!(m.status, MatchStatus::Discrepancy);
    assert_eq!(server.store.invoices.len(), 3);
    assert_eq!(server.store.invoices[2].status, MatchStatus::Discrepancy);
    assert_eq!(server.store.invoices[2].supplier_id, "sup_1");
}

#[test]
fn three_way_match_quantity_short_but_amount_exact_is_within_tolerance() {
    let mut server = ProcurementServer::new();
    order(&mut server, "po_1", "s", vec![line("A", 100_000, 10_000)]);
    receive(&mut server, vec![("A", 99_000, 0)]).unwrap();
    let m = matched(&mut server, 1_160_000);
    assert!(!m.qty_match);
    assert!(m.amount_match);
    assert_eq!(m.status, MatchStatus::WithinTolerance);
}

#[test]
fn three_way_match_zero_total_and_unknown_order() {
    let mut server = ProcurementServer::new();
    let e = server.three_way_match(ThreeWayMatchInput {
        po_id: s("po_1"),
        invoice_number: s("I"),
        invoice_amount: 5,
    });
    assert_eq!(e.err(), Some(ProcError::PoNotFound));
    order(&mut server, "po_1", "s", vec![line("A", 1000, 0)]);
    let m = matched(&mut server, 5);
    assert_eq!(m.status, MatchStatus::Discrepancy);
}

fn contract(end: &str) -> ContractInput {
    ContractInput {
        supplier_id: s("sup_1"),
        title: s("Steel supply"),
        contract_type: s("blanket"),
        value: 5_000_000,
        currency: None,
        start_date: s("2026-01-01"),
        end_date: s(end),
        auto_renew: None,
        terms: None,
    }
}

#[test]
fn contracts_create_get_and_count_expiring() {
    let mut server = ProcurementServer::new();
    server.contract_create_with_id(s("ctr_1"), s("now"), contract("2026-06-30"));
    server.contract_create_with_id(s("ctr_2"), s("now"), contract("2027-06-30"));
    let id = server.contract_create(contract("2026-08-01T00:00:00+00:00"));
    assert!(is_hex_id("ctr", &id));
    let c = server.contract_get(ContractIdInput { contract_id: s("ctr_1") }).unwrap();
    assert_eq!(c.currency, "USD");
    assert!(!c.auto_renew);
    assert_eq!(c.terms, "");
    assert_eq!(c.status, ContractStatus::Active);
    let summary = server.contract_summary_at(s("2026-08-25T10:00:00+00:00"));
    assert_eq!(summary.count, 3);
    assert_eq!(summary.expiring_within_90_days, 2);
    assert_eq!(summary.cutoff, "2026-08-25T10:00:00+00:00");
    let listed = server.contract_list();
    assert_eq!(listed.count, 3);
    let again = server.contract_summary_at(listed.cutoff.clone());
    assert_eq!(listed.expiring_within_90_days, again.expiring_within_90_days);
    let err = server.contract_get(ContractIdInput { contract_id: s("ctr_x") }).unwrap_err();
    assert_eq!(err.code(), "CONTRACT_NOT_FOUND");
}

#[test]
fn diversity_set_replaces_and_report_computes_share() {
    let mut server = ProcurementServer::new();
    server.supplier_create_with_id(s("sup_a"), supplier("A"));
    server.supplier_create_with_id(s("sup_b"), supplier("B"));
    let set = |server: &mut ProcurementServer, sid: &str, certs: Vec<&str>| {
        server.diversity_set(DiversityInput {
            supplier_id: s(sid),
            certifications: certs.into_iter().map(s).collect(),
            certified_by: None,
            expiry_date: None,
        })
    };
    set(&mut server, "sup_a", vec!["small_business"]);
    set(&mut server, "sup_a", vec!["women_owned", "minority_owned"]);
    assert_eq!(server.store.diversity.len(), 1);
    assert_eq!(server.store.diversity[0].certifications.len(), 2);
    // orders: 3 000.00 with sup_a (diverse), 7 000.00 with sup_b, one cancelled with sup_a
    order(&mut server, "po_1", "sup_a", vec![line("A", 1000, 258_621)]);
    order(&mut server, "po_2", "sup_b", vec![line("B", 1000, 603_448)]);
    order(&mut server, "po_3", "sup_a", vec![line("C", 1000, 100_000)]);
    server.po_cancel(PoIdInput { po_id: s("po_3") }).unwrap();
    let rep = server.diversity_report(DiversityReportInput { certification: None }).unwrap();
    assert_eq!(rep.diverse_suppliers, 1);
    assert_eq!(rep.total_suppliers, 2);
    assert_eq!(rep.diverse_spend, 300_000);
    assert_eq!(rep.total_spend, 1_000_000);
    assert_eq!(rep.diversity_pct, 3000);
    assert_eq!(rep.certifications, vec![s("women_owned"), s("minority_owned")]);
    let rep = server
        .diversity_report(DiversityReportInput { certification: Some(s("veteran_owned")) })
        .unwrap();
    assert_eq!(rep.diverse_suppliers, 0);
    assert_eq!(rep.diverse_spend, 0);
    assert_eq!(rep.diversity_pct, 0);
}

#[test]
fn diversity_report_with_no_spend_is_zero_percent() {
    let server = ProcurementServer::new();
    let rep = server.diversity_report(DiversityReportInput { certification: None }).unwrap();
    assert_eq!(rep.total_spend, 0);
    assert_eq!(rep.diversity_pct, 0);
}

#[test]
fn budget_check_sums_department_budgets() {
    let mut server = ProcurementServer::new();
    let check = |server: &ProcurementServer, amount: i64| {
        server.budget_check(BudgetCheckInput { department: s("manufacturing"), amount }).unwrap()
    };
    assert!(matches!(check(&server, 1), BudgetCheck::NoBudgetSet));
    let id = server.budget_set(BudgetInput {
        department: s("manufacturing"),
        category: s("raw_materials"),
        allocated: 1_000_000,
        currency: None,
        period: s("2026-Q3"),
    });
    assert!(is_hex_id("bgt", &id));
    server.budget_set_with_id(
        s("bgt_2"),
        BudgetInput {
            department: s("manufacturing"),
            category: s("tools"),
            allocated: 500_000,
            currency: Some(s("KES")),
            period: s("2026-Q3"),
        },
    );
    server.budget_set_with_id(
        s("bgt_3"),
        BudgetInput {
            department: s("marketing"),
            category: s("ads"),
            allocated: 9_000_000,
            currency: None,
            period: s("2026-Q3"),
        },
    );
    assert_eq!(server.store.budgets[0].currency, "USD");
    match check(&server, 1_100_000) {
        BudgetCheck::Checked { allocated, spent, remaining, within_budget } => {
            assert_eq!(allocated, 1_500_000);
            assert_eq!(spent, 0);
            assert_eq!(remaining, 1_500_000);
            assert!(within_budget);
        },
        BudgetCheck::NoBudgetSet => panic!("budget expected"),
    }
    match check(&server, 1_500_001) {
        BudgetCheck::Checked { within_budget, .. } => assert!(!within_budget),
        BudgetCheck::NoBudgetSet => panic!("budget expected"),
    }
}

#[test]
fn catalog_add_defaults_and_search_ignores_case() {
    let mut server = ProcurementServer::new();
    let added = server.catalog_add(CatalogAddInput {
        supplier_id: s("sup_a"),
        items: vec![
            CatalogItemInput {
                sku: Some(s("STEEL-12MM")),
                description: Some(s("Steel Rod 12mm")),
                unit_price: Some(2_200_000),
                currency: None,
                lead_time_days: None,
                min_order_qty: None,
            },
            CatalogItemInput {
                sku: Some(s("BOLT-M8")),
                description: Some(s("Hex bolt")),
                unit_price: None,
                currency: Some(s("EUR")),
                lead_time_days: Some(3),
                min_order_qty: Some(100_000),
            },
        ],
    });
    assert_eq!(added, 2);
    server.catalog_add(CatalogAddInput {
        supplier_id: s("sup_b"),
        items: vec![CatalogItemInput {
            sku: Some(s("ROD-STEEL")),
            description: None,
            unit_price: Some(2_500_000),
            currency: None,
            lead_time_days: Some(4_294_967_297),
            min_order_qty: None,
        }],
    });
    let c = &server.store.catalogs;
    assert!(is_hex_id("cat", &c[0].id));
    assert_eq!(c[0].lead_time_days, 7);
    assert_eq!(c[0].min_order_qty, 1000);
    assert_eq!(c[0].currency, "USD");
    assert_eq!(c[1].unit_price, 0);
    assert_eq!(c[2].lead_time_days, 1);
    let found = server.catalog_search(CatalogSearchInput { query: s("sTeEl"), supplier_id: None });
    assert_eq!(found.len(), 2);
    assert_eq!(found[0].sku, "STEEL-12MM");
    assert_eq!(found[1].sku, "ROD-STEEL");
    let found = server.catalog_search(CatalogSearchInput {
        query: s("steel"),
        supplier_id: Some(s("sup_b")),
    });
    assert_eq!(found.len(), 1);
    let found = server.catalog_search(CatalogSearchInput { query: s("m8"), supplier_id: None });
    assert_eq!(found.len(), 1);
    assert_eq!(found[0].description, "Hex bolt");
    let all = server.catalog_search(CatalogSearchInput { query: s(""), supplier_id: None });
    assert_eq!(all.len(), 3);
}

fn spend(server: &ProcurementServer, supplier_id: Option<&str>) -> SpendReport {
    server.spend_analysis(SpendInput {
        start: None,
        end: None,
        supplier_id: supplier_id.map(s),
        category: None,
    })
}

fn spend_by(server: &ProcurementServer, category: Option<&str>, start: Option<&str>, end: Option<&str>) -> SpendReport {
    server.spend_analysis(SpendInput {
        start: start.map(s),
        end: end.map(s),
        supplier_id: None,
        category: category.map(s),
    })
}

#[test]
fn spend_analysis_filters_by_category_and_period() {
    let mut server = ProcurementServer::new();
    server.supplier_create_with_id(s("sup_a"), supplier("Acme"));
    let mut it = supplier("IT Co");
    it.category = s("it_services");
    server.supplier_create_with_id(s("sup_i"), it);
    for (id, sup, price) in [("po_1", "sup_a", 1000), ("po_2", "sup_i", 2000), ("po_3", "sup_x", 4000)] {
        order(&mut server, id, sup, vec![line("X", 1000, price)]);
        server.po_approve(PoApproveInput { po_id: s(id), approved_by: s("k") }).unwrap();
    }
    let r = spend_by(&server, Some("raw_materials"), None, None);
    assert_eq!(r.po_count, 1);
    assert_eq!(r.total_spend, 1160);
    assert_eq!(r.by_supplier.len(), 1);
    assert_eq!(r.by_supplier[0].supplier_id, "sup_a");
    let r = spend_by(&server, Some("it_services"), None, None);
    assert_eq!(r.total_spend, 2320);
    // an unregistered supplier has no category
    let r = spend_by(&server, Some("logistics"), None, None);
    assert_eq!(r.po_count, 0);
    assert!(r.by_supplier.is_empty());
    // orders were created at 2026-05-27T00:00:00+00:00
    let r = spend_by(&server, None, Some("2026-05-01"), Some("2026-06-01"));
    assert_eq!(r.po_count, 3);
    assert_eq!(r.total_spend, 8120);
    let r = spend_by(&server, None, Some("2026-06-01"), None);
    assert_eq!(r.po_count, 0);
    let r = spend_by(&server, None, None, Some("2026-05-26"));
    assert_eq!(r.po_count, 0);
    let r = spend_by(&server, Some("raw_materials"), Some("2026-05-27"), Some("2026-05-28"));
    assert_eq!(r.po_count, 1);
}

#[test]
fn spend_analysis_counts_orders_that_went_out() {
    let mut server = ProcurementServer::new();
    server.supplier_create_with_id(s("sup_a"), supplier("Acme"));
    for (id, sup, price) in [("po_1", "sup_a", 1000), ("po_2", "sup_b", 2000), ("po_3", "sup_a", 4000), ("po_4", "sup_a", 8000)] {
        order(&mut server, id, sup, vec![line("X", 1000, price)]);
    }
    for id in ["po_1", "po_2", "po_3"] {
        server.po_approve(PoApproveInput { po_id: s(id), approved_by: s("k") }).unwrap();
    }
    server.po_cancel(PoIdInput { po_id: s("po_3") }).unwrap();
    // po_4 is a draft, po_3 cancelled: counted are po_1 (11.60) and po_2 (23.20)
    let r = spend(&server, None);
    assert_eq!(r.total_spend, 3480);
    assert_eq!(r.po_count, 2);
    assert_eq!(r.by_supplier.len(), 2);
    assert_eq!(r.by_supplier[0].supplier_id, "sup_a");
    assert_eq!(r.by_supplier[0].name, "Acme");
    assert_eq!(r.by_supplier[0].total_spend, 1160);
    assert_eq!(r.by_supplier[1].name, "sup_b");
    let sum: i128 = r.by_supplier.iter().map(|g| g.total_spend).sum();
    assert_eq!(sum, r.total_spend);
    let r = spend(&server, Some("sup_b"));
    assert_eq!(r.total_spend, 2320);
    assert_eq!(r.po_count, 1);
}

#[test]
fn approval_escalate_levels_by_amount() {
    let mut server = ProcurementServer::new();
    // totals: 10 000.00 exactly, 10 000.01, 100 000.01 (before VAT chosen so)
    order(&mut server, "po_m", "s", vec![line("A", 1000, 862_069)]);
    order(&mut server, "po_d", "s", vec![line("A", 1000, 862_070)]);
    order(&mut server, "po_c", "s", vec![line("A", 1000, 8_620_691)]);
    let esc = |server: &ProcurementServer, id: &str| {
        server.approval_escalate(ApprovalEscalateInput {
            po_id: s(id),
            current_approver: s("a"),
            escalate_to: s("b"),
            reason: s("r"),
        })
    };
    let m = esc(&server, "po_m").unwrap();
    assert_eq!(m.amount, 1_000_000);
    assert_eq!(m.required_level, ApprovalLevel::Manager);
    let d = esc(&server, "po_d").unwrap();
    assert_eq!(d.amount, 1_000_001);
    assert_eq!(d.required_level, ApprovalLevel::Director);
    let c = esc(&server, "po_c").unwrap();
    assert_eq!(c.amount, 10_000_002);
    assert_eq!(c.required_level, ApprovalLevel::Cfo);
    assert!(esc(&server, "po_x").is_err());
}

#[test]
fn storing_under_an_existing_id_replaces_in_place() {
    let mut server = ProcurementServer::new();
    server.supplier_create_with_id(s("sup_1"), supplier("First"));
    server.supplier_create_with_id(s("sup_2"), supplier("Second"));
    server.supplier_create_with_id(s("sup_1"), supplier("Again"));
    let list = server.supplier_list();
    assert_eq!(list.len(), 2);
    assert_eq!(list[0].name, "Again");
    assert_eq!(list[1].name, "Second");
}

#[test]
fn diversity_share_is_full_when_all_spend_is_diverse() {
    let mut server = ProcurementServer::new();
    server.diversity_set(DiversityInput {
        supplier_id: s("sup_a"),
        certifications: vec![s("veteran_owned")],
        certified_by: Some(s("NVSBC")),
        expiry_date: None,
    });
    order(&mut server, "po_1", "sup_a", vec![line("A", 3000, 333)]);
    let rep = server
        .diversity_report(DiversityReportInput { certification: Some(s("veteran_owned")) })
        .unwrap();
    assert_eq!(rep.diverse_spend, rep.total_spend);
    assert_eq!(rep.diversity_pct, 10_000);
}

#[test]
fn error_codes_match_the_documented_ones() {
    assert_eq!(ProcError::PoNotFound.code(), "PO_NOT_FOUND");
    assert_eq!(ProcError::AmountOverflow.code(), "AMOUNT_OUT_OF_RANGE");
}
