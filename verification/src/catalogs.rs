//! Punch-out catalogs: add items to a supplier's catalog and search all
//! catalogs by keyword, ignoring case.
use vstd::prelude::*;
use crate::fixed::QTY_SCALE;
use crate::ids::is_generated_id;
use crate::server::{CatalogAddInput, CatalogItemInput, CatalogSearchInput, ProcurementServer};
use crate::store::Store;
use crate::text::{contains_text, copy_text_or, lowercase, lowercase_of, text_contains, text_or};
use crate::types::CatalogItem;

verus! {

/// The lead time of a requested item: seven days unless given, cut to 32
/// bits.
pub open spec fn input_lead_time(l: CatalogItemInput) -> u32 {
    (match l.lead_time_days {
        Some(d) => d,
        None => 7,
    }) as u32
}

/// `c` is the catalog item of supplier `supplier_id` made from `l`: no sku
/// or description, price zero, currency USD, minimum order one unit,
/// unless given.
pub open spec fn catalog_item_from_input(c: CatalogItem, supplier_id: Seq<char>, l: CatalogItemInput) -> bool {
    &&& c.supplier_id@ == supplier_id
    &&& c.sku@ == text_or(l.sku, Seq::empty())
    &&& c.description@ == text_or(l.description, Seq::empty())
    &&& c.unit_price == (match l.unit_price {
        Some(p) => p,
        None => 0,
    })
    &&& c.currency@ == text_or(l.currency, "USD"@)
    &&& c.lead_time_days == input_lead_time(l)
    &&& c.min_order_qty == (match l.min_order_qty {
        Some(q) => q,
        None => QTY_SCALE,
    })
}

/// The item matches the search: the query occurs, ignoring case, in its
/// description or its sku, and it belongs to the given supplier if one is
/// given.
pub open spec fn matches_query(c: CatalogItem, query: Seq<char>, supplier: Option<String>) -> bool {
    &&& (contains_text(lowercase_of(c.description@), lowercase_of(query)) || contains_text(
        lowercase_of(c.sku@),
        lowercase_of(query),
    ))
    &&& match supplier {
        Some(s) => c.supplier_id@ == s@,
        None => true,
    }
}

/// The items that match the search, in catalog order.
pub open spec fn search_results(cs: Seq<CatalogItem>, query: Seq<char>, supplier: Option<String>) -> Seq<
    CatalogItem,
>
    decreases cs.len(),
{
    if cs.len() == 0 {
        Seq::empty()
    } else if matches_query(cs.last(), query, supplier) {
        search_results(cs.drop_last(), query, supplier).push(cs.last())
    } else {
        search_results(cs.drop_last(), query, supplier)
    }
}

impl CatalogItem {
    /// A copy of the item.
    pub fn copy(&self) -> (r: CatalogItem)
        ensures
            r == *self,
    {
        CatalogItem {
            id: self.id.clone(),
            supplier_id: self.supplier_id.clone(),
            sku: self.sku.clone(),
            description: self.description.clone(),
            unit_price: self.unit_price,
            currency: self.currency.clone(),
            lead_time_days: self.lead_time_days,
            min_order_qty: self.min_order_qty,
        }
    }
}

impl ProcurementServer {
    /// Adds items to a supplier's catalog, each under a fresh id `cat_`
    /// followed by eight hex digits; returns how many were added.
    pub fn catalog_add(&mut self, input: CatalogAddInput) -> (r: usize)
        requires
            old(self).store.wf(),
        ensures
            final(self).store.wf(),
            r == input.items@.len(),
            ({
                let before = old(self).store.catalogs@;
                let after = final(self).store.catalogs@;
                &&& after.len() == before.len() + r
                &&& after.take(before.len() as int) == before
                &&& forall|k: int|
                    0 <= k < r ==> {
                        &&& catalog_item_from_input(
                            #[trigger] after[before.len() + k],
                            input.supplier_id@,
                            input.items@[k],
                        )
                        &&& is_generated_id("cat"@, after[before.len() + k].id@)
                    }
            }),
            final(self).store == (Store { catalogs: final(self).store.catalogs, ..old(self).store }),
    {
        let ghost before = self.store.catalogs@;
        let n = input.items.len();
        let mut k: usize = 0;
        while k < n
            invariant
                self.store.wf(),
                self.store == (Store { catalogs: self.store.catalogs, ..old(self).store }),
                before == old(self).store.catalogs@,
                n == input.items@.len(),
                k <= n,
                self.store.catalogs@.len() == before.len() + k,
                self.store.catalogs@.take(before.len() as int) == before,
                forall|j: int|
                    0 <= j < k ==> {
                        &&& catalog_item_from_input(
                            #[trigger] self.store.catalogs@[before.len() + j],
                            input.supplier_id@,
                            input.items@[j],
                        )
                        &&& is_generated_id("cat"@, self.store.catalogs@[before.len() + j].id@)
                    },
            decreases n - k,
        {
            let l = &input.items[k];
            let item = CatalogItem {
                id: Store::new_id("cat"),
                supplier_id: input.supplier_id.clone(),
                sku: copy_text_or(&l.sku, ""),
                description: copy_text_or(&l.description, ""),
                unit_price: match l.unit_price {
                    Some(p) => p,
                    None => 0,
                },
                currency: copy_text_or(&l.currency, "USD"),
                lead_time_days: (match l.lead_time_days {
                    Some(d) => d,
                    None => 7,
                }) as u32,
                min_order_qty: match l.min_order_qty {
                    Some(q) => q,
                    None => QTY_SCALE,
                },
            };
            proof {
                reveal_strlit("");
                assert(""@ =~= Seq::<char>::empty());
                assert(catalog_item_from_input(item, input.supplier_id@, input.items@[k as int]));
            }
            let ghost prev = self.store.catalogs@;
            self.store.catalogs.push(item);
            proof {
                assert(self.store.catalogs@.take(before.len() as int) =~= prev.take(before.len() as int));
                assert forall|j: int| 0 <= j < k implies #[trigger] self.store.catalogs@[before.len() + j]
                    == prev[before.len() + j] by {}
            }
            k = k + 1;
        }
        n
    }

    /// The catalog items whose description or sku holds the query, ignoring
    /// case, within one supplier's catalog if a supplier is given.
    pub fn catalog_search(&self, input: CatalogSearchInput) -> (r: Vec<CatalogItem>)
        ensures
            r@ == search_results(self.store.catalogs@, input.query@, input.supplier_id),
    {
        let query = lowercase(input.query.as_str());
        let cs = &self.store.catalogs;
        let n = cs.len();
        let mut out: Vec<CatalogItem> = Vec::new();
        let mut i: usize = 0;
        while i < n
            invariant
                n == cs@.len(),
                i <= n,
                query@ == lowercase_of(input.query@),
                out@ == search_results(cs@.take(i as int), input.query@, input.supplier_id),
            decreases n - i,
        {
            proof {
                assert(cs@.take(i + 1).drop_last() =~= cs@.take(i as int));
            }
            let c = &cs[i];
            let desc = lowercase(c.description.as_str());
            let sku = lowercase(c.sku.as_str());
            let hit = text_contains(desc.as_str(), query.as_str()) || text_contains(
                sku.as_str(),
                query.as_str(),
            );
            let mine = match &input.supplier_id {
                Some(s) => c.supplier_id == *s,
                None => true,
            };
            if hit && mine {
                out.push(c.copy());
            }
            i = i + 1;
        }
        assert(cs@.take(n as int) =~= cs@);
        out
    }
}

} // verus!
