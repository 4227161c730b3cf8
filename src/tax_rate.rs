//! Tax rates of an organization; at most one of them is the default.

use vstd::prelude::*;

use crate::database::{Database, DbView};
use crate::model::{coalesce, coalesce_exec, DbError, Real};
use crate::table::{
    find_row, has_key, index_of, keys_unique, lemma_lookup_push, lemma_lookup_update,
    lemma_members_in_scope, lemma_of_scope_isolated, lookup, of_scope, remove_row, select_scope,
    sort_rows, sorted, ListOrder, Row, RowCopy, Scoped,
};
use crate::text::{
    copy_opt_text, lemma_text_le_total, lemma_text_le_trans, text_eq, text_le, text_le_exec,
};

verus! {

#[derive(Debug, Clone, PartialEq)]
pub struct TaxRate {
    pub id: String,
    pub organization_id: String,
    pub name: String,
    pub description: Option<String>,
    pub percentage: Real,
    /// 1 for the organization's default rate.
    pub is_default: Option<i64>,
}

#[derive(Debug, Clone, PartialEq)]
pub struct CreateTaxRateRequest {
    pub id: String,
    pub organization_id: String,
    pub name: String,
    pub description: Option<String>,
    pub percentage: Real,
    pub is_default: Option<i64>,
}

/// A patch: each field that is present replaces the stored value.
#[derive(Debug, Clone, PartialEq)]
pub struct UpdateTaxRateRequest {
    pub name: Option<String>,
    pub description: Option<String>,
    pub percentage: Option<Real>,
    pub is_default: Option<i64>,
}

impl Row for TaxRate {
    open spec fn key(&self) -> Seq<char> {
        self.id@
    }

    fn key_text(&self) -> (r: &str) {
        self.id.as_str()
    }
}

impl Scoped for TaxRate {
    open spec fn scope(&self) -> Seq<char> {
        self.organization_id@
    }

    fn scope_text(&self) -> (r: &str) {
        self.organization_id.as_str()
    }
}

impl RowCopy for TaxRate {
    fn copy_row(&self) -> (r: TaxRate) {
        TaxRate {
            id: self.id.clone(),
            organization_id: self.organization_id.clone(),
            name: self.name.clone(),
            description: copy_opt_text(&self.description),
            percentage: self.percentage,
            is_default: self.is_default,
        }
    }
}

/// Tax rates are listed by name, ascending.
impl ListOrder for TaxRate {
    open spec fn sorts_before(&self, other: &TaxRate) -> bool {
        text_le(self.name@, other.name@)
    }

    fn sorts_before_exec(&self, other: &TaxRate) -> (r: bool) {
        text_le_exec(self.name.as_str(), other.name.as_str())
    }

    proof fn lemma_sorts_total(a: &TaxRate, b: &TaxRate) {
        lemma_text_le_total(a.name@, b.name@);
    }

    proof fn lemma_sorts_trans(a: &TaxRate, b: &TaxRate, c: &TaxRate) {
        lemma_text_le_trans(a.name@, b.name@, c.name@);
    }
}

pub open spec fn is_default_rate(t: TaxRate) -> bool {
    t.is_default == Some(1i64)
}

/// No organization has two default tax rates.
pub open spec fn defaults_unique(rows: Seq<TaxRate>) -> bool {
    forall|i: int, j: int|
        0 <= i < rows.len() && 0 <= j < rows.len() && i != j && is_default_rate(#[trigger] rows[i])
            && is_default_rate(#[trigger] rows[j]) ==> rows[i].organization_id@
            != rows[j].organization_id@
}

/// Whether no organization has two default tax rates.
pub fn check_defaults_unique(rows: &Vec<TaxRate>) -> (r: bool)
    ensures
        r == defaults_unique(rows@),
{
    let mut i: usize = 0;
    while i < rows.len()
        invariant
            i <= rows@.len(),
            forall|a: int, b: int|
                0 <= a < i && 0 <= b < rows@.len() && a != b && is_default_rate(#[trigger] rows@[a])
                    && is_default_rate(#[trigger] rows@[b]) ==> rows@[a].organization_id@
                    != rows@[b].organization_id@,
        decreases rows@.len() - i,
    {
        let mut j: usize = 0;
        while j < rows.len()
            invariant
                i < rows@.len(),
                j <= rows@.len(),
                forall|a: int, b: int|
                    0 <= a < i && 0 <= b < rows@.len() && a != b && is_default_rate(
                        #[trigger] rows@[a],
                    ) && is_default_rate(#[trigger] rows@[b]) ==> rows@[a].organization_id@
                        != rows@[b].organization_id@,
                forall|b: int|
                    0 <= b < j && b != i && is_default_rate(rows@[i as int]) && is_default_rate(
                        #[trigger] rows@[b],
                    ) ==> rows@[i as int].organization_id@ != rows@[b].organization_id@,
            decreases rows@.len() - j,
        {
            let both = match (rows[i].is_default, rows[j].is_default) {
                (Some(x), Some(y)) => x == 1 && y == 1,
                _ => false,
            };
            if j != i && both && text_eq(
                rows[i].organization_id.as_str(),
                rows[j].organization_id.as_str(),
            ) {
                return false;
            }
            j = j + 1;
        }
        i = i + 1;
    }
    true
}

/// The row with its default flag cleared, if it is a default of
/// organization `org` other than row `except`.
pub open spec fn cleared(t: TaxRate, org: Seq<char>, except: Option<Seq<char>>) -> TaxRate {
    if t.organization_id@ == org && is_default_rate(t) && except != Some(t.id@) {
        TaxRate { is_default: Some(0), ..t }
    } else {
        t
    }
}

/// `UPDATE taxRates SET isDefault = 0` on the defaults of `org` but `except`.
pub open spec fn clear_defaults(rows: Seq<TaxRate>, org: Seq<char>, except: Option<Seq<char>>) -> Seq<
    TaxRate,
> {
    Seq::new(rows.len(), |i: int| cleared(rows[i], org, except))
}

pub open spec fn tax_rate_row(req: CreateTaxRateRequest) -> TaxRate {
    TaxRate {
        id: req.id,
        organization_id: req.organization_id,
        name: req.name,
        description: req.description,
        percentage: req.percentage,
        is_default: req.is_default,
    }
}

pub open spec fn tax_rate_updated(t: TaxRate, u: UpdateTaxRateRequest) -> TaxRate {
    TaxRate {
        name: coalesce(u.name, Some(t.name)).unwrap(),
        description: coalesce(u.description, t.description),
        percentage: coalesce(u.percentage, Some(t.percentage)).unwrap(),
        is_default: coalesce(u.is_default, t.is_default),
        ..t
    }
}

impl DbView {
    pub open spec fn tax_rate(self, id: Seq<char>) -> Option<TaxRate> {
        lookup(self.tax_rates, id)
    }

    /// What `create_tax_rate` does: a new default first clears the
    /// organization's other defaults.
    pub open spec fn create_tax_rate_outcome(self, req: CreateTaxRateRequest) -> (
        DbView,
        Result<TaxRate, DbError>,
    ) {
        if has_key(self.tax_rates, req.id@) {
            (self, Err(DbError::Conflict))
        } else if !self.has_organization(req.organization_id@) {
            (self, Err(DbError::ForeignKey))
        } else {
            let base = if req.is_default == Some(1i64) {
                clear_defaults(self.tax_rates, req.organization_id@, None)
            } else {
                self.tax_rates
            };
            let row = tax_rate_row(req);
            (DbView { tax_rates: base.push(row), ..self }, Ok(row))
        }
    }

    /// What `update_tax_rate` does: becoming the default first clears the
    /// organization's other defaults.
    pub open spec fn update_tax_rate_outcome(self, id: Seq<char>, u: UpdateTaxRateRequest) -> (
        DbView,
        Result<TaxRate, DbError>,
    ) {
        if !has_key(self.tax_rates, id) {
            (self, Err(DbError::NotFound))
        } else {
            let i = index_of(self.tax_rates, id);
            let base = if u.is_default == Some(1i64) {
                clear_defaults(self.tax_rates, self.tax_rates[i].organization_id@, Some(id))
            } else {
                self.tax_rates
            };
            let row = tax_rate_updated(self.tax_rates[i], u);
            (DbView { tax_rates: base.update(i, row), ..self }, Ok(row))
        }
    }

    pub open spec fn delete_tax_rate_outcome(self, id: Seq<char>) -> (DbView, bool) {
        if has_key(self.tax_rates, id) {
            (DbView { tax_rates: self.tax_rates.remove(index_of(self.tax_rates, id)), ..self }, true)
        } else {
            (self, false)
        }
    }
}

/// Clears the default flag of the defaults of `org`, except row `except`.
fn clear_default_flags(rows: &mut Vec<TaxRate>, org: &str, except: Option<&str>)
    ensures
        final(rows)@ == clear_defaults(
            old(rows)@,
            org@,
            match except {
                Some(e) => Some(e@),
                None => None,
            },
        ),
{
    let ghost ex = match except {
        Some(e) => Some(e@),
        None => None::<Seq<char>>,
    };
    let ghost orig = rows@;
    let mut i: usize = 0;
    while i < rows.len()
        invariant
            i <= rows@.len(),
            rows@.len() == orig.len(),
            ex == match except {
                Some(e) => Some(e@),
                None => None::<Seq<char>>,
            },
            forall|k: int| 0 <= k < i ==> #[trigger] rows@[k] == cleared(orig[k], org@, ex),
            forall|k: int| i <= k < rows@.len() ==> #[trigger] rows@[k] == orig[k],
        decreases rows@.len() - i,
    {
        let flagged = match rows[i].is_default {
            Some(v) => v == 1,
            None => false,
        };
        let hit = flagged && text_eq(rows[i].organization_id.as_str(), org)
            && match except {
            Some(e) => !text_eq(rows[i].id.as_str(), e),
            None => true,
        };
        if hit {
            let mut t = rows[i].copy_row();
            t.is_default = Some(0);
            rows.set(i, t);
        }
        i = i + 1;
    }
    assert(rows@ =~= clear_defaults(orig, org@, ex));
}

pub proof fn lemma_clear_keeps_keys(rows: Seq<TaxRate>, org: Seq<char>, except: Option<Seq<char>>)
    requires
        keys_unique(rows),
    ensures
        keys_unique(clear_defaults(rows, org, except)),
        forall|k: Seq<char>|
            #[trigger] has_key(clear_defaults(rows, org, except), k) == has_key(rows, k),
        forall|i: int|
            0 <= i < rows.len() ==> #[trigger] clear_defaults(rows, org, except)[i].id == rows[i].id,
{
    let c = clear_defaults(rows, org, except);
    assert forall|i: int, j: int|
        0 <= i < c.len() && 0 <= j < c.len() && i != j implies #[trigger] c[i].key()
        != #[trigger] c[j].key() by {
        assert(c[i].key() == rows[i].key());
        assert(c[j].key() == rows[j].key());
    }
    assert forall|k: Seq<char>| #[trigger] has_key(c, k) == has_key(rows, k) by {
        if has_key(rows, k) {
            let i = index_of(rows, k);
            assert(c[i].key() == k);
        }
        if has_key(c, k) {
            let i = index_of(c, k);
            assert(rows[i].key() == k);
        }
    }
}

/// After clearing, a default of `org` can only be row `except`.
pub proof fn lemma_clear_defaults_unique(rows: Seq<TaxRate>, org: Seq<char>, except: Option<Seq<char>>)
    requires
        defaults_unique(rows),
    ensures
        defaults_unique(clear_defaults(rows, org, except)),
        forall|i: int|
            0 <= i < rows.len() && is_default_rate(#[trigger] clear_defaults(rows, org, except)[i])
                ==> is_default_rate(rows[i]),
        forall|i: int|
            0 <= i < rows.len() && is_default_rate(#[trigger] clear_defaults(rows, org, except)[i])
                && rows[i].organization_id@ == org ==> except == Some(rows[i].id@),
{
    let c = clear_defaults(rows, org, except);
    assert forall|i: int, j: int|
        0 <= i < c.len() && 0 <= j < c.len() && i != j && is_default_rate(#[trigger] c[i])
            && is_default_rate(#[trigger] c[j]) implies c[i].organization_id@
        != c[j].organization_id@ by {
        assert(is_default_rate(rows[i]) && is_default_rate(rows[j]));
    }
}

/// Creating a tax rate keeps at most one default per organization.
pub proof fn lemma_create_tax_rate_one_default(db: DbView, req: CreateTaxRateRequest)
    requires
        db.wf(),
    ensures
        defaults_unique(db.create_tax_rate_outcome(req).0.tax_rates),
{
    if !has_key(db.tax_rates, req.id@) && db.has_organization(req.organization_id@) {
        let makes_default = req.is_default == Some(1i64);
        if makes_default {
            lemma_clear_defaults_unique(db.tax_rates, req.organization_id@, None);
        }
        let base = if makes_default {
            clear_defaults(db.tax_rates, req.organization_id@, None)
        } else {
            db.tax_rates
        };
        let t = db.create_tax_rate_outcome(req).0.tax_rates;
        assert(t == base.push(tax_rate_row(req)));
        assert forall|i: int, j: int|
            0 <= i < t.len() && 0 <= j < t.len() && i != j && is_default_rate(#[trigger] t[i])
                && is_default_rate(#[trigger] t[j]) implies t[i].organization_id@
            != t[j].organization_id@ by {
            if i < base.len() && j < base.len() {
                assert(t[i] == base[i] && t[j] == base[j]);
            } else if i < base.len() {
                assert(t[i] == base[i]);
            } else {
                assert(t[j] == base[j]);
            }
        }
    }
}

/// Updating a tax rate keeps at most one default per organization.
pub proof fn lemma_update_tax_rate_one_default(db: DbView, id: Seq<char>, u: UpdateTaxRateRequest)
    requires
        db.wf(),
    ensures
        defaults_unique(db.update_tax_rate_outcome(id, u).0.tax_rates),
{
    if has_key(db.tax_rates, id) {
        let i = index_of(db.tax_rates, id);
        crate::table::lemma_index_of(db.tax_rates, i);
        let makes_default = u.is_default == Some(1i64);
        let org = db.tax_rates[i].organization_id@;
        if makes_default {
            lemma_clear_defaults_unique(db.tax_rates, org, Some(id));
        }
        let base = if makes_default {
            clear_defaults(db.tax_rates, org, Some(id))
        } else {
            db.tax_rates
        };
        let t = db.update_tax_rate_outcome(id, u).0.tax_rates;
        assert forall|a: int, b: int|
            0 <= a < t.len() && 0 <= b < t.len() && a != b && is_default_rate(#[trigger] t[a])
                && is_default_rate(#[trigger] t[b]) implies t[a].organization_id@
            != t[b].organization_id@ by {
            if a != i && b != i {
                assert(t[a] == base[a] && t[b] == base[b]);
            } else if a == i {
                assert(t[b] == base[b]);
                if !makes_default {
                    assert(is_default_rate(db.tax_rates[a]));
                } else {
                    assert(db.tax_rates[b].key() != db.tax_rates[i].key());
                }
            } else {
                assert(t[a] == base[a]);
                if !makes_default {
                    assert(is_default_rate(db.tax_rates[b]));
                } else {
                    assert(db.tax_rates[a].key() != db.tax_rates[i].key());
                }
            }
        }
    }
}

impl Database {
    /// The tax rates of organization `organization_id`, ordered by name.
    pub fn get_tax_rates(&self, organization_id: &str) -> (r: Vec<TaxRate>)
        requires
            self.wf(),
        ensures
            r@.to_multiset() == of_scope(self@.tax_rates, organization_id@).to_multiset(),
            sorted(r@),
            forall|i: int| 0 <= i < r@.len() ==> (#[trigger] r@[i]).organization_id@ == organization_id@,
    {
        let r = sort_rows(select_scope(&self.tax_rates, organization_id));
        proof {
            lemma_of_scope_isolated(self@.tax_rates, organization_id@);
            lemma_members_in_scope(r@, of_scope(self@.tax_rates, organization_id@), organization_id@);
        }
        r
    }

    /// The tax rate with identifier `tax_rate_id`.
    pub fn get_tax_rate(&self, tax_rate_id: &str) -> (r: Option<TaxRate>)
        requires
            self.wf(),
        ensures
            r == self@.tax_rate(tax_rate_id@),
    {
        match find_row(&self.tax_rates, tax_rate_id) {
            Some(i) => Some(self.tax_rates[i].copy_row()),
            None => None,
        }
    }

    /// Inserts a tax rate; a new default clears the organization's other
    /// defaults in the same step.
    pub fn create_tax_rate(&mut self, tax_rate: CreateTaxRateRequest) -> (r: Result<TaxRate, DbError>)
        requires
            old(self).wf(),
        ensures
            final(self).wf(),
            (final(self)@, r) == old(self)@.create_tax_rate_outcome(tax_rate),
    {
        let ghost before = self@;
        if find_row(&self.tax_rates, tax_rate.id.as_str()).is_some() {
            return Err(DbError::Conflict);
        }
        if find_row(&self.organizations, tax_rate.organization_id.as_str()).is_none() {
            return Err(DbError::ForeignKey);
        }
        let ghost req = tax_rate;
        let makes_default = match tax_rate.is_default {
            Some(v) => v == 1,
            None => false,
        };
        if makes_default {
            clear_default_flags(&mut self.tax_rates, tax_rate.organization_id.as_str(), None);
            proof {
                lemma_clear_keeps_keys(before.tax_rates, tax_rate.organization_id@, None);
                lemma_clear_defaults_unique(before.tax_rates, tax_rate.organization_id@, None);
            }
        }
        let ghost base = self.tax_rates@;
        let row = TaxRate {
            id: tax_rate.id,
            organization_id: tax_rate.organization_id,
            name: tax_rate.name,
            description: tax_rate.description,
            percentage: tax_rate.percentage,
            is_default: tax_rate.is_default,
        };
        proof {
            lemma_lookup_push(self.tax_rates@, row);
        }
        let out = row.copy_row();
        self.tax_rates.push(row);
        proof {
            lemma_create_tax_rate_one_default(before, req);
        }
        Ok(out)
    }

    /// Applies a patch to tax rate `tax_rate_id`; becoming the default
    /// clears the organization's other defaults in the same step.
    pub fn update_tax_rate(&mut self, tax_rate_id: &str, updates: UpdateTaxRateRequest) -> (r: Result<
        TaxRate,
        DbError,
    >)
        requires
            old(self).wf(),
        ensures
            final(self).wf(),
            (final(self)@, r) == old(self)@.update_tax_rate_outcome(tax_rate_id@, updates),
    {
        let ghost before = self@;
        let ghost patch = updates;
        let i = match find_row(&self.tax_rates, tax_rate_id) {
            Some(i) => i,
            None => { return Err(DbError::NotFound); },
        };
        let old_row = self.tax_rates[i].copy_row();
        let makes_default = match updates.is_default {
            Some(v) => v == 1,
            None => false,
        };
        if makes_default {
            clear_default_flags(
                &mut self.tax_rates,
                old_row.organization_id.as_str(),
                Some(tax_rate_id),
            );
            proof {
                lemma_clear_keeps_keys(before.tax_rates, old_row.organization_id@, Some(tax_rate_id@));
                lemma_clear_defaults_unique(
                    before.tax_rates,
                    old_row.organization_id@,
                    Some(tax_rate_id@),
                );
            }
        }
        let ghost base = self.tax_rates@;
        let row = TaxRate {
            id: old_row.id,
            organization_id: old_row.organization_id,
            name: match updates.name { Some(v) => v, None => old_row.name },
            description: coalesce_exec(updates.description, old_row.description),
            percentage: match updates.percentage { Some(v) => v, None => old_row.percentage },
            is_default: coalesce_exec(updates.is_default, old_row.is_default),
        };
        proof {
            lemma_lookup_update(self.tax_rates@, i as int, row);
        }
        let out = row.copy_row();
        self.tax_rates.set(i, row);
        proof {
            lemma_update_tax_rate_one_default(before, tax_rate_id@, patch);
        }
        Ok(out)
    }

    /// Deletes tax rate `tax_rate_id`; true iff a row was removed.
    pub fn delete_tax_rate(&mut self, tax_rate_id: &str) -> (r: bool)
        requires
            old(self).wf(),
        ensures
            final(self).wf(),
            (final(self)@, r) == old(self)@.delete_tax_rate_outcome(tax_rate_id@),
    {
        remove_row(&mut self.tax_rates, tax_rate_id)
    }
}

} // verus!
