//! Supplier registry: register, list, look up and rate suppliers.
use vstd::prelude::*;
use crate::ids::is_generated_id;
use crate::keyed::{
    find_keyed, has_key, key_index, lemma_update_same_key, lemma_upsert_all, lookup, stored_as,
    upsert_keyed,
};
use crate::server::{ProcError, ProcurementServer, SupplierIdInput, SupplierInput, SupplierRateInput};
use crate::store::{Store, MAX_RATING};
use crate::text::{take_text_or, text_or};
use crate::types::{Supplier, SupplierStatus};

verus! {

/// `s` is the supplier that registering `input` under `id` makes: the given
/// fields, currency USD and payment terms net30 unless given, no rating yet,
/// active.
pub open spec fn supplier_from_input(s: Supplier, id: Seq<char>, input: SupplierInput) -> bool {
    &&& s.id@ == id
    &&& s.name == input.name
    &&& s.category == input.category
    &&& s.contact_email == input.contact_email
    &&& s.contact_phone == input.contact_phone
    &&& s.country == input.country
    &&& s.currency@ == text_or(input.currency, "USD"@)
    &&& s.payment_terms@ == text_or(input.payment_terms, "net30"@)
    &&& s.rating == 0
    &&& s.status == SupplierStatus::Active
}

/// A rating clamped to zero to five stars.
pub open spec fn clamp_rating(r: int) -> int {
    if r > MAX_RATING {
        MAX_RATING as int
    } else if r < 0 {
        0
    } else {
        r
    }
}

impl ProcurementServer {
    /// Registers a supplier under the given id.
    pub fn supplier_create_with_id(&mut self, id: String, input: SupplierInput) -> (r: String)
        requires
            old(self).store.wf(),
        ensures
            final(self).store.wf(),
            r@ == id@,
            stored_as(
                old(self).store.suppliers@,
                final(self).store.suppliers@,
                id@,
                |s: Supplier| supplier_from_input(s, id@, input),
            ),
            final(self).store == (Store { suppliers: final(self).store.suppliers, ..old(self).store }),
    {
        let ghost input0 = input;
        let ghost id0 = id@;
        let r = id.clone();
        let s = Supplier {
            id,
            name: input.name,
            category: input.category,
            contact_email: input.contact_email,
            contact_phone: input.contact_phone,
            country: input.country,
            currency: take_text_or(input.currency, "USD"),
            payment_terms: take_text_or(input.payment_terms, "net30"),
            rating: 0,
            status: SupplierStatus::Active,
        };
        assert(supplier_from_input(s, id0, input0));
        let ghost made = |t: Supplier| supplier_from_input(t, id0, input0);
        let ghost before = self.store.suppliers@;
        upsert_keyed(&mut self.store.suppliers, s);
        proof {
            assert(made(s));
            lemma_upsert_all(before, s, |t: Supplier| 0 <= t.rating <= MAX_RATING);
        }
        r
    }

    /// Registers a supplier under a fresh id `sup_` followed by eight hex
    /// digits, and returns that id.
    pub fn supplier_create(&mut self, input: SupplierInput) -> (r: String)
        requires
            old(self).store.wf(),
        ensures
            final(self).store.wf(),
            is_generated_id("sup"@, r@),
            stored_as(
                old(self).store.suppliers@,
                final(self).store.suppliers@,
                r@,
                |s: Supplier| supplier_from_input(s, r@, input),
            ),
            final(self).store == (Store { suppliers: final(self).store.suppliers, ..old(self).store }),
    {
        let id = Store::new_id("sup");
        self.supplier_create_with_id(id, input)
    }

    /// All suppliers, in the order they were registered.
    pub fn supplier_list(&self) -> (r: &Vec<Supplier>)
        ensures
            r@ == self.store.suppliers@,
    {
        &self.store.suppliers
    }

    /// The supplier with the given id.
    pub fn supplier_get(&self, input: SupplierIdInput) -> (r: Result<&Supplier, ProcError>)
        requires
            self.store.wf(),
        ensures
            match r {
                Ok(s) => lookup(self.store.suppliers@, input.supplier_id@) == Some(*s),
                Err(e) => e == ProcError::SupplierNotFound && !has_key(
                    self.store.suppliers@,
                    input.supplier_id@,
                ),
            },
    {
        match find_keyed(&self.store.suppliers, &input.supplier_id) {
            Some(i) => Ok(&self.store.suppliers[i]),
            None => Err(ProcError::SupplierNotFound),
        }
    }

    /// Sets a supplier's rating, clamped to zero to five stars, and returns
    /// the rating set.
    pub fn supplier_rate(&mut self, input: SupplierRateInput) -> (r: Result<i64, ProcError>)
        requires
            old(self).store.wf(),
        ensures
            final(self).store.wf(),
            match r {
                Ok(v) => {
                    let old_s = old(self).store.suppliers@;
                    let p = key_index(old_s, input.supplier_id@);
                    &&& has_key(old_s, input.supplier_id@)
                    &&& v == clamp_rating(input.rating as int)
                    &&& final(self).store.suppliers@ == old_s.update(
                        p,
                        Supplier { rating: v, ..old_s[p] },
                    )
                    &&& final(self).store == (Store {
                        suppliers: final(self).store.suppliers,
                        ..old(self).store
                    })
                },
                Err(e) => e == ProcError::SupplierNotFound && !has_key(
                    old(self).store.suppliers@,
                    input.supplier_id@,
                ) && *final(self) == *old(self),
            },
    {
        match find_keyed(&self.store.suppliers, &input.supplier_id) {
            Some(i) => {
                let v = if input.rating > MAX_RATING {
                    MAX_RATING
                } else if input.rating < 0 {
                    0
                } else {
                    input.rating
                };
                let ghost before = self.store.suppliers@;
                self.store.suppliers[i].rating = v;
                proof {
                    let after = self.store.suppliers@;
                    assert(after =~= before.update(i as int, Supplier { rating: v, ..before[i as int] }));
                    lemma_update_same_key(before, i as int, after[i as int]);
                    assert forall|a: int| 0 <= a < after.len() implies 0 <= (#[trigger] after[a]).rating
                        <= MAX_RATING by {
                        if a != i {
                            assert(after[a] == before[a]);
                        }
                    }
                }
                Ok(v)
            },
            None => Err(ProcError::SupplierNotFound),
        }
    }
}

} // verus!
