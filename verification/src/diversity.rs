//! Supplier diversity: certifications per supplier, and the share of spend
//! that goes to certified suppliers.
use vstd::prelude::*;
use crate::fixed::{fits_i128, round_div, round_div_exec};
use crate::server::{DiversityInput, DiversityReportInput, ProcError, ProcurementServer};
use crate::store::{diversity_unique, Store};
use crate::types::{PoStatus, PurchaseOrder, SupplierDiversity};

verus! {

/// The record does not belong to supplier `sid`.
pub open spec fn not_of_supplier(sid: Seq<char>) -> spec_fn(SupplierDiversity) -> bool {
    |x: SupplierDiversity| x.supplier_id@ != sid
}

/// Filtering keeps a sequence whose items all pass.
pub proof fn lemma_filter_all<A>(s: Seq<A>, p: spec_fn(A) -> bool)
    requires
        forall|i: int| 0 <= i < s.len() ==> p(#[trigger] s[i]),
    ensures
        s.filter(p) == s,
    decreases s.len(),
{
    reveal(Seq::filter);
    if s.len() > 0 {
        let d = s.drop_last();
        assert forall|i: int| 0 <= i < d.len() implies p(#[trigger] d[i]) by {
            assert(d[i] == s[i]);
        }
        lemma_filter_all(d, p);
        assert(d.push(s.last()) =~= s);
    }
}

/// Filtering removes the one item that fails, keeping the rest in order.
pub proof fn lemma_filter_one_out<A>(s: Seq<A>, p: spec_fn(A) -> bool, j: int)
    requires
        0 <= j < s.len(),
        !p(s[j]),
        forall|i: int| 0 <= i < s.len() && i != j ==> p(#[trigger] s[i]),
    ensures
        s.filter(p) == s.remove(j),
    decreases s.len(),
{
    reveal(Seq::filter);
    let d = s.drop_last();
    if j == s.len() - 1 {
        assert forall|i: int| 0 <= i < d.len() implies p(#[trigger] d[i]) by {
            assert(d[i] == s[i]);
        }
        lemma_filter_all(d, p);
        assert(s.remove(j) =~= d);
    } else {
        assert(d[j] == s[j]);
        assert forall|i: int| 0 <= i < d.len() && i != j implies p(#[trigger] d[i]) by {
            assert(d[i] == s[i]);
        }
        lemma_filter_one_out(d, p, j);
        assert(p(s[s.len() - 1]));
        assert(d.remove(j).push(s.last()) =~= s.remove(j));
    }
}

/// `x` is the diversity record that `input` sets.
pub open spec fn diversity_from_input(x: SupplierDiversity, input: DiversityInput) -> bool {
    &&& x.supplier_id == input.supplier_id
    &&& x.certifications == input.certifications
    &&& x.certified_by == input.certified_by
    &&& x.expiry_date == input.expiry_date
}

/// The record counts as diverse: it holds the certification asked for, or
/// any certification record counts when none is asked for.
pub open spec fn is_diverse(d: SupplierDiversity, cert: Option<String>) -> bool {
    match cert {
        Some(c) => exists|k: int|
            0 <= k < d.certifications@.len() && (#[trigger] d.certifications@[k])@ == c@,
        None => true,
    }
}

/// How many records count as diverse.
pub open spec fn diverse_count(ds: Seq<SupplierDiversity>, cert: Option<String>) -> nat
    decreases ds.len(),
{
    if ds.len() == 0 {
        0
    } else {
        diverse_count(ds.drop_last(), cert) + (if is_diverse(ds.last(), cert) {
            1nat
        } else {
            0nat
        })
    }
}

/// Supplier `sid` has a record that counts as diverse.
pub open spec fn in_diverse(ds: Seq<SupplierDiversity>, cert: Option<String>, sid: Seq<char>) -> bool {
    exists|i: int| 0 <= i < ds.len() && is_diverse(ds[i], cert) && (#[trigger] ds[i]).supplier_id@ == sid
}

/// Spend on orders that are not cancelled, in cents.
pub open spec fn open_spend(pos: Seq<PurchaseOrder>) -> int
    decreases pos.len(),
{
    if pos.len() == 0 {
        0
    } else {
        open_spend(pos.drop_last()) + (if pos.last().status != PoStatus::Cancelled {
            pos.last().total as int
        } else {
            0
        })
    }
}

/// Spend on orders that are not cancelled, with suppliers that count as
/// diverse, in cents.
pub open spec fn diverse_spend(pos: Seq<PurchaseOrder>, ds: Seq<SupplierDiversity>, cert: Option<String>) -> int
    decreases pos.len(),
{
    if pos.len() == 0 {
        0
    } else {
        diverse_spend(pos.drop_last(), ds, cert) + (if pos.last().status != PoStatus::Cancelled
            && in_diverse(ds, cert, pos.last().supplier_id@) {
            pos.last().total as int
        } else {
            0
        })
    }
}

/// The share of `total` that `part` is, in hundredths of a percent rounded
/// half away from zero; zero when the total is not positive.
pub open spec fn diversity_pct(part: int, total: int) -> int {
    if total > 0 {
        round_div(part * 10000, total)
    } else {
        0
    }
}

/// The certifications of the records that count as diverse, in order.
pub open spec fn diverse_certs(ds: Seq<SupplierDiversity>, cert: Option<String>) -> Seq<Seq<char>>
    decreases ds.len(),
{
    if ds.len() == 0 {
        Seq::empty()
    } else if is_diverse(ds.last(), cert) {
        diverse_certs(ds.drop_last(), cert) + ds.last().certifications@.map_values(|s: String| s@)
    } else {
        diverse_certs(ds.drop_last(), cert)
    }
}

/// The supplier diversity report. Amounts in cents; the percentage in
/// hundredths of a percent.
pub struct DiversityReport {
    pub diverse_suppliers: usize,
    pub total_suppliers: usize,
    pub diverse_spend: i128,
    pub total_spend: i128,
    pub diversity_pct: i128,
    pub certifications: Vec<String>,
}

impl ProcurementServer {
    /// Sets a supplier's diversity certifications, replacing any it had.
    pub fn diversity_set(&mut self, input: DiversityInput)
        requires
            old(self).store.wf(),
        ensures
            final(self).store.wf(),
            final(self).store.diversity@ == old(self).store.diversity@.filter(
                not_of_supplier(input.supplier_id@),
            ).push(final(self).store.diversity@.last()),
            diversity_from_input(final(self).store.diversity@.last(), input),
            final(self).store == (Store { diversity: final(self).store.diversity, ..old(self).store }),
    {
        let ghost before = self.store.diversity@;
        let n = self.store.diversity.len();
        let mut j: usize = 0;
        while j < n
            invariant
                *self == *old(self),
                before == self.store.diversity@,
                n == before.len(),
                j <= n,
                forall|k: int| 0 <= k < j ==> (#[trigger] before[k]).supplier_id@ != input.supplier_id@,
            ensures
                j <= n,
                j < n ==> before[j as int].supplier_id@ == input.supplier_id@,
                forall|k: int| 0 <= k < j ==> (#[trigger] before[k]).supplier_id@ != input.supplier_id@,
            decreases n - j,
        {
            if self.store.diversity[j].supplier_id == input.supplier_id {
                break;
            }
            j = j + 1;
        }
        if j < n {
            proof {
                let p = not_of_supplier(input.supplier_id@);
                assert forall|i: int| 0 <= i < before.len() && i != j implies p(#[trigger] before[i]) by {
                    if i > j {
                        assert(before[i].supplier_id@ != before[j as int].supplier_id@);
                    }
                }
                lemma_filter_one_out(before, p, j as int);
            }
            self.store.diversity.remove(j);
        } else {
            proof {
                let p = not_of_supplier(input.supplier_id@);
                assert forall|i: int| 0 <= i < before.len() implies p(#[trigger] before[i]) by {}
                lemma_filter_all(before, p);
            }
        }
        let ghost mid = self.store.diversity@;
        assert(mid == before.filter(not_of_supplier(input.supplier_id@)));
        assert forall|k: int| 0 <= k < mid.len() implies (#[trigger] mid[k]).supplier_id@
            != input.supplier_id@ by {
            if j < n {
                if k < j {
                    assert(mid[k] == before[k]);
                } else {
                    assert(mid[k] == before[k + 1]);
                    assert(before[k + 1].supplier_id@ != before[j as int].supplier_id@);
                }
            } else {
                assert(mid[k] == before[k]);
            }
        }
        assert(diversity_unique(mid)) by {
            assert forall|a: int, b: int|
                0 <= a < mid.len() && 0 <= b < mid.len() && a != b implies (#[trigger] mid[a]).supplier_id@
                != (#[trigger] mid[b]).supplier_id@ by {
                if j < n {
                    let a2 = if a < j { a } else { a + 1 };
                    let b2 = if b < j { b } else { b + 1 };
                    assert(mid[a] == before[a2]);
                    assert(mid[b] == before[b2]);
                } else {
                    assert(mid[a] == before[a]);
                    assert(mid[b] == before[b]);
                }
            }
        }
        let x = SupplierDiversity {
            supplier_id: input.supplier_id,
            certifications: input.certifications,
            certified_by: input.certified_by,
            expiry_date: input.expiry_date,
        };
        self.store.diversity.push(x);
        proof {
            let after = self.store.diversity@;
            assert forall|a: int, b: int|
                0 <= a < after.len() && 0 <= b < after.len() && a != b implies (#[trigger] after[a]).supplier_id@
                != (#[trigger] after[b]).supplier_id@ by {
                if a < mid.len() && b < mid.len() {
                    assert(after[a] == mid[a] && after[b] == mid[b]);
                } else if a < mid.len() {
                    assert(after[a] == mid[a]);
                } else {
                    assert(after[b] == mid[b]);
                }
            }
        }
    }

    /// The diversity report: how many suppliers count as diverse (holding
    /// the given certification, or any record when none is given), the
    /// spend on their orders against all spend (cancelled orders left out),
    /// the share in hundredths of a percent, and their certifications.
    pub fn diversity_report(&self, input: DiversityReportInput) -> (r: Result<DiversityReport, ProcError>)
        ensures
            ({
                let ds = self.store.diversity@;
                let pos = self.store.purchase_orders@;
                let cert = input.certification;
                let d = diverse_spend(pos, ds, cert);
                let t = open_spend(pos);
                &&& t > 0 && !fits_i128(d * 10000) ==> r == Err::<DiversityReport, ProcError>(
                    ProcError::AmountOverflow,
                )
                &&& !(t > 0 && !fits_i128(d * 10000)) ==> {
                    let rep = r->Ok_0;
                    &&& r is Ok
                    &&& rep.diverse_suppliers == diverse_count(ds, cert)
                    &&& rep.total_suppliers == self.store.suppliers@.len()
                    &&& rep.diverse_spend == d
                    &&& rep.total_spend == t
                    &&& rep.diversity_pct == diversity_pct(d, t)
                    &&& rep.certifications@.map_values(|s: String| s@) == diverse_certs(ds, cert)
                }
            }),
    {
        let ds = &self.store.diversity;
        let cert = &input.certification;
        let nd = ds.len();
        let mut flags: Vec<bool> = Vec::new();
        let mut count: usize = 0;
        let mut certs: Vec<String> = Vec::new();
        let mut i: usize = 0;
        while i < nd
            invariant
                nd == ds@.len(),
                i <= nd,
                flags@.len() == i,
                forall|k: int| 0 <= k < i ==> #[trigger] flags@[k] == is_diverse(ds@[k], *cert),
                count == diverse_count(ds@.take(i as int), *cert),
                count <= i,
                certs@.map_values(|s: String| s@) == diverse_certs(ds@.take(i as int), *cert),
            decreases nd - i,
        {
            proof {
                assert(ds@.take(i + 1).drop_last() =~= ds@.take(i as int));
            }
            let f = diverse_flag(&ds[i], cert);
            flags.push(f);
            if f {
                count = count + 1;
                let cs = &ds[i].certifications;
                let ghost base = certs@.map_values(|s: String| s@);
                let mut j: usize = 0;
                while j < cs.len()
                    invariant
                        j <= cs@.len(),
                        certs@.map_values(|s: String| s@) == base + cs@.take(j as int).map_values(
                            |s: String| s@,
                        ),
                    decreases cs@.len() - j,
                {
                    let ghost prev = certs@;
                    let c = cs[j].clone();
                    certs.push(c);
                    proof {
                        let f = |s: String| s@;
                        assert(certs@.map_values(f) =~= prev.map_values(f).push(cs@[j as int]@));
                        assert(cs@.take(j + 1).map_values(f) =~= cs@.take(j as int).map_values(f).push(
                            cs@[j as int]@,
                        ));
                        assert(base + cs@.take(j + 1).map_values(f) =~= (base + cs@.take(
                            j as int,
                        ).map_values(f)).push(cs@[j as int]@));
                    }
                    j = j + 1;
                }
                assert(cs@.take(cs@.len() as int) =~= cs@);
            }
            i = i + 1;
        }
        assert(ds@.take(nd as int) =~= ds@);
        let pos = &self.store.purchase_orders;
        let np = pos.len();
        let mut d: i128 = 0;
        let mut t: i128 = 0;
        let mut k: usize = 0;
        while k < np
            invariant
                np == pos@.len(),
                nd == ds@.len(),
                flags@.len() == nd,
                forall|m: int| 0 <= m < nd ==> #[trigger] flags@[m] == is_diverse(ds@[m], *cert),
                k <= np,
                d == diverse_spend(pos@.take(k as int), ds@, *cert),
                t == open_spend(pos@.take(k as int)),
                -(k as int) * 0x8000_0000_0000_0000 <= d <= (k as int) * 0x8000_0000_0000_0000,
                -(k as int) * 0x8000_0000_0000_0000 <= t <= (k as int) * 0x8000_0000_0000_0000,
            decreases np - k,
        {
            proof {
                assert(pos@.take(k + 1).drop_last() =~= pos@.take(k as int));
            }
            let po = &pos[k];
            if po.status != PoStatus::Cancelled {
                t = t + po.total as i128;
                if supplier_is_diverse(ds, &flags, cert, &po.supplier_id) {
                    d = d + po.total as i128;
                }
            }
            k = k + 1;
        }
        assert(pos@.take(np as int) =~= pos@);
        let pct: i128 = if t > 0 {
            match d.checked_mul(10000) {
                Some(v) => {
                    assert(v != i128::MIN) by (nonlinear_arith)
                        requires
                            v == d * 10000,
                    ;
                    round_div_exec(v, t)
                },
                None => {
                    return Err(ProcError::AmountOverflow);
                },
            }
        } else {
            0
        };
        Ok(
            DiversityReport {
                diverse_suppliers: count,
                total_suppliers: self.store.suppliers.len(),
                diverse_spend: d,
                total_spend: t,
                diversity_pct: pct,
                certifications: certs,
            },
        )
    }
}

/// Whether the record counts as diverse.
fn diverse_flag(d: &SupplierDiversity, cert: &Option<String>) -> (b: bool)
    ensures
        b == is_diverse(*d, *cert),
{
    match cert {
        None => true,
        Some(c) => {
            let n = d.certifications.len();
            let mut k: usize = 0;
            while k < n
                invariant
                    *cert == Some(*c),
                    n == d.certifications@.len(),
                    k <= n,
                    forall|j: int| 0 <= j < k ==> (#[trigger] d.certifications@[j])@ != c@,
                decreases n - k,
            {
                if d.certifications[k] == *c {
                    assert(d.certifications@[k as int]@ == c@);
                    return true;
                }
                k = k + 1;
            }
            false
        },
    }
}

/// Whether supplier `sid` has a record that counts as diverse, given the
/// records' diverse flags.
fn supplier_is_diverse(
    ds: &Vec<SupplierDiversity>,
    flags: &Vec<bool>,
    cert: &Option<String>,
    sid: &String,
) -> (b: bool)
    requires
        flags@.len() == ds@.len(),
        forall|m: int| 0 <= m < ds@.len() ==> #[trigger] flags@[m] == is_diverse(ds@[m], *cert),
    ensures
        b == in_diverse(ds@, *cert, sid@),
{
    let n = ds.len();
    let mut k: usize = 0;
    while k < n
        invariant
            n == ds@.len(),
            flags@.len() == n,
            forall|m: int| 0 <= m < n ==> #[trigger] flags@[m] == is_diverse(ds@[m], *cert),
            k <= n,
            forall|j: int| 0 <= j < k ==> !(is_diverse(ds@[j], *cert) && (#[trigger] ds@[j]).supplier_id@ == sid@),
        decreases n - k,
    {
        if flags[k] && ds[k].supplier_id == *sid {
            return true;
        }
        k = k + 1;
    }
    false
}

} // verus!
