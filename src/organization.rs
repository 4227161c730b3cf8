//! Organizations: the tenants that every other row belongs to.

use vstd::prelude::*;

use crate::clock::current_timestamp;
use crate::database::{Database, DbView};
use crate::model::{coalesce, coalesce_exec, DbError, Real};
use crate::table::{
    find_row, has_key, index_of, lemma_lookup_push, lemma_lookup_update, lookup, remove_row,
    sort_rows, sorted, ListOrder, Row,
};
use crate::text::{
    copy_opt_text, lemma_opt_text_le_total, lemma_opt_text_le_trans, opt_text_le, opt_text_le_exec,
};

verus! {

#[derive(Debug, Clone, PartialEq)]
pub struct Organization {
    pub id: String,
    pub name: Option<String>,
    pub country: Option<String>,
    pub address: Option<String>,
    pub email: Option<String>,
    pub phone: Option<String>,
    pub website: Option<String>,
    pub registration_number: Option<String>,
    pub vatin: Option<String>,
    pub bank_name: Option<String>,
    pub iban: Option<String>,
    pub currency: Option<String>,
    pub minimum_fraction_digits: Option<i64>,
    pub due_days: Option<i64>,
    pub overdue_charge: Option<Real>,
    pub customer_notes: Option<String>,
    pub created_at: Option<String>,
    pub logo: Option<Vec<u8>>,
    pub invoice_number_format: Option<String>,
    pub invoice_number_counter: Option<i64>,
    pub date_format: Option<String>,
}

#[derive(Debug, Clone, PartialEq)]
pub struct CreateOrganizationRequest {
    pub id: String,
    pub name: Option<String>,
    pub country: Option<String>,
    pub address: Option<String>,
    pub email: Option<String>,
    pub phone: Option<String>,
    pub website: Option<String>,
    pub registration_number: Option<String>,
    pub vatin: Option<String>,
    pub bank_name: Option<String>,
    pub iban: Option<String>,
    pub currency: Option<String>,
    pub minimum_fraction_digits: Option<i64>,
    pub due_days: Option<i64>,
    pub overdue_charge: Option<Real>,
    pub customer_notes: Option<String>,
    pub logo: Option<Vec<u8>>,
    pub invoice_number_format: Option<String>,
    pub date_format: Option<String>,
}

/// A patch: each field that is present replaces the stored value, each
/// missing one keeps it.
#[derive(Debug, Clone, PartialEq)]
pub struct UpdateOrganizationRequest {
    pub name: Option<String>,
    pub country: Option<String>,
    pub address: Option<String>,
    pub email: Option<String>,
    pub phone: Option<String>,
    pub website: Option<String>,
    pub registration_number: Option<String>,
    pub vatin: Option<String>,
    pub bank_name: Option<String>,
    pub iban: Option<String>,
    pub currency: Option<String>,
    pub minimum_fraction_digits: Option<i64>,
    pub due_days: Option<i64>,
    pub overdue_charge: Option<Real>,
    pub customer_notes: Option<String>,
    pub logo: Option<Vec<u8>>,
    pub invoice_number_format: Option<String>,
    pub invoice_number_counter: Option<i64>,
    pub date_format: Option<String>,
}

pub open spec fn bytes_view(b: Option<Vec<u8>>) -> Option<Seq<u8>> {
    match b {
        Some(v) => Some(v@),
        None => None,
    }
}

fn copy_bytes(b: &Option<Vec<u8>>) -> (r: Option<Vec<u8>>)
    ensures
        bytes_view(r) == bytes_view(*b),
{
    match b {
        None => None,
        Some(v) => {
            let mut out: Vec<u8> = Vec::new();
            let mut i: usize = 0;
            while i < v.len()
                invariant
                    i <= v@.len(),
                    out@ == v@.subrange(0, i as int),
                decreases v@.len() - i,
            {
                out.push(v[i]);
                i = i + 1;
                assert(out@ =~= v@.subrange(0, i as int));
            }
            assert(v@.subrange(0, v@.len() as int) =~= v@);
            Some(out)
        },
    }
}

/// Two organization values hold the same data (the logo compared by its bytes).
pub open spec fn org_matches(a: Organization, b: Organization) -> bool {
    a == (Organization { logo: a.logo, ..b }) && bytes_view(a.logo) == bytes_view(b.logo)
}

/// Some row of `s` holds the same data as `x`.
pub open spec fn org_in(x: Organization, s: Seq<Organization>) -> bool {
    exists|j: int| 0 <= j < s.len() && org_matches(x, s[j])
}

pub open spec fn opt_org_matches(a: Option<Organization>, b: Option<Organization>) -> bool {
    match (a, b) {
        (None, None) => true,
        (Some(x), Some(y)) => org_matches(x, y),
        _ => false,
    }
}

pub open spec fn org_result_matches(
    a: Result<Organization, DbError>,
    b: Result<Organization, DbError>,
) -> bool {
    match (a, b) {
        (Ok(x), Ok(y)) => org_matches(x, y),
        (Err(x), Err(y)) => x == y,
        _ => false,
    }
}

impl Organization {
    /// A copy of this organization.
    pub fn copy_org(&self) -> (r: Organization)
        ensures
            org_matches(r, *self),
    {
        Organization {
            id: self.id.clone(),
            name: copy_opt_text(&self.name),
            country: copy_opt_text(&self.country),
            address: copy_opt_text(&self.address),
            email: copy_opt_text(&self.email),
            phone: copy_opt_text(&self.phone),
            website: copy_opt_text(&self.website),
            registration_number: copy_opt_text(&self.registration_number),
            vatin: copy_opt_text(&self.vatin),
            bank_name: copy_opt_text(&self.bank_name),
            iban: copy_opt_text(&self.iban),
            currency: copy_opt_text(&self.currency),
            minimum_fraction_digits: self.minimum_fraction_digits,
            due_days: self.due_days,
            overdue_charge: self.overdue_charge,
            customer_notes: copy_opt_text(&self.customer_notes),
            created_at: copy_opt_text(&self.created_at),
            logo: copy_bytes(&self.logo),
            invoice_number_format: copy_opt_text(&self.invoice_number_format),
            invoice_number_counter: self.invoice_number_counter,
            date_format: copy_opt_text(&self.date_format),
        }
    }
}

impl Row for Organization {
    open spec fn key(&self) -> Seq<char> {
        self.id@
    }

    fn key_text(&self) -> (r: &str) {
        self.id.as_str()
    }
}

/// Organizations are listed by name, ascending.
impl ListOrder for Organization {
    open spec fn sorts_before(&self, other: &Organization) -> bool {
        opt_text_le(self.name, other.name)
    }

    fn sorts_before_exec(&self, other: &Organization) -> (r: bool) {
        opt_text_le_exec(&self.name, &other.name)
    }

    proof fn lemma_sorts_total(a: &Organization, b: &Organization) {
        lemma_opt_text_le_total(a.name, b.name);
    }

    proof fn lemma_sorts_trans(a: &Organization, b: &Organization, c: &Organization) {
        lemma_opt_text_le_trans(a.name, b.name, c.name);
    }
}

/// The row that `create` writes; the invoice-number counter starts at 0.
pub open spec fn organization_row(req: CreateOrganizationRequest, created_at: String) -> Organization {
    Organization {
        id: req.id,
        name: req.name,
        country: req.country,
        address: req.address,
        email: req.email,
        phone: req.phone,
        website: req.website,
        registration_number: req.registration_number,
        vatin: req.vatin,
        bank_name: req.bank_name,
        iban: req.iban,
        currency: req.currency,
        minimum_fraction_digits: req.minimum_fraction_digits,
        due_days: req.due_days,
        overdue_charge: req.overdue_charge,
        customer_notes: req.customer_notes,
        created_at: Some(created_at),
        logo: req.logo,
        invoice_number_format: req.invoice_number_format,
        invoice_number_counter: Some(0),
        date_format: req.date_format,
    }
}

/// The row after `update`: each field of the patch that is present
/// replaces the stored one.
pub open spec fn organization_updated(o: Organization, u: UpdateOrganizationRequest) -> Organization {
    Organization {
        id: o.id,
        name: coalesce(u.name, o.name),
        country: coalesce(u.country, o.country),
        address: coalesce(u.address, o.address),
        email: coalesce(u.email, o.email),
        phone: coalesce(u.phone, o.phone),
        website: coalesce(u.website, o.website),
        registration_number: coalesce(u.registration_number, o.registration_number),
        vatin: coalesce(u.vatin, o.vatin),
        bank_name: coalesce(u.bank_name, o.bank_name),
        iban: coalesce(u.iban, o.iban),
        currency: coalesce(u.currency, o.currency),
        minimum_fraction_digits: coalesce(u.minimum_fraction_digits, o.minimum_fraction_digits),
        due_days: coalesce(u.due_days, o.due_days),
        overdue_charge: coalesce(u.overdue_charge, o.overdue_charge),
        customer_notes: coalesce(u.customer_notes, o.customer_notes),
        created_at: o.created_at,
        logo: coalesce(u.logo, o.logo),
        invoice_number_format: coalesce(u.invoice_number_format, o.invoice_number_format),
        invoice_number_counter: coalesce(u.invoice_number_counter, o.invoice_number_counter),
        date_format: coalesce(u.date_format, o.date_format),
    }
}

impl DbView {
    pub open spec fn organization(self, id: Seq<char>) -> Option<Organization> {
        lookup(self.organizations, id)
    }

    /// What `create_organization` does, given the creation time.
    pub open spec fn create_organization_outcome(
        self,
        req: CreateOrganizationRequest,
        created_at: String,
    ) -> (DbView, Result<Organization, DbError>) {
        if has_key(self.organizations, req.id@) {
            (self, Err(DbError::Conflict))
        } else {
            let row = organization_row(req, created_at);
            (DbView { organizations: self.organizations.push(row), ..self }, Ok(row))
        }
    }

    /// What `update_organization` does.
    pub open spec fn update_organization_outcome(
        self,
        id: Seq<char>,
        u: UpdateOrganizationRequest,
    ) -> (DbView, Result<Organization, DbError>) {
        if !has_key(self.organizations, id) {
            (self, Err(DbError::NotFound))
        } else {
            let i = index_of(self.organizations, id);
            let row = organization_updated(self.organizations[i], u);
            (DbView { organizations: self.organizations.update(i, row), ..self }, Ok(row))
        }
    }

    /// What `delete_organization` does; dependent rows are left as they are.
    pub open spec fn delete_organization_outcome(self, id: Seq<char>) -> (DbView, bool) {
        if has_key(self.organizations, id) {
            (
                DbView {
                    organizations: self.organizations.remove(index_of(self.organizations, id)),
                    ..self
                },
                true,
            )
        } else {
            (self, false)
        }
    }
}

impl Database {
    /// All organizations, ordered by name.
    pub fn get_organizations(&self) -> (r: Vec<Organization>)
        requires
            self.wf(),
        ensures
            r@.len() == self@.organizations.len(),
            sorted(r@),
            forall|i: int| 0 <= i < r@.len() ==> org_in(#[trigger] r@[i], self@.organizations),
            forall|j: int|
                0 <= j < self@.organizations.len() ==> org_in(#[trigger] self@.organizations[j], r@),
    {
        let mut copies: Vec<Organization> = Vec::new();
        let mut i: usize = 0;
        while i < self.organizations.len()
            invariant
                i <= self.organizations@.len(),
                copies@.len() == i,
                forall|k: int| 0 <= k < i ==> org_matches(#[trigger] copies@[k], self.organizations@[k]),
            decreases self.organizations@.len() - i,
        {
            copies.push(self.organizations[i].copy_org());
            i = i + 1;
        }
        let ghost c = copies@;
        let r = sort_rows(copies);
        proof {
            broadcast use vstd::seq_lib::group_to_multiset_ensures;

            assert forall|i: int| 0 <= i < r@.len() implies org_in(
                #[trigger] r@[i],
                self@.organizations,
            ) by {
                assert(r@.contains(r@[i]));
                assert(r@.to_multiset().count(r@[i]) > 0);
                assert(c.contains(r@[i]));
                let j = choose|j: int| 0 <= j < c.len() && c[j] == r@[i];
                assert(org_matches(c[j], self@.organizations[j]));
                assert(org_matches(r@[i], self@.organizations[j]));
            }
            assert forall|j: int| 0 <= j < self@.organizations.len() implies org_in(
                #[trigger] self@.organizations[j],
                r@,
            ) by {
                assert(c.contains(c[j]));
                assert(c.to_multiset().count(c[j]) > 0);
                assert(r@.contains(c[j]));
                let i = choose|i: int| 0 <= i < r@.len() && r@[i] == c[j];
                assert(org_matches(c[j], self@.organizations[j]));
                assert(org_matches(self@.organizations[j], r@[i]));
            }
        }
        r
    }

    /// The organization with identifier `organization_id`.
    pub fn get_organization(&self, organization_id: &str) -> (r: Option<Organization>)
        requires
            self.wf(),
        ensures
            opt_org_matches(r, self@.organization(organization_id@)),
    {
        match find_row(&self.organizations, organization_id) {
            Some(i) => Some(self.organizations[i].copy_org()),
            None => None,
        }
    }

    /// Inserts an organization, stamped with `created_at`.
    pub fn create_organization_at(
        &mut self,
        organization: CreateOrganizationRequest,
        created_at: String,
    ) -> (r: Result<Organization, DbError>)
        requires
            old(self).wf(),
        ensures
            final(self).wf(),
            final(self)@ == old(self)@.create_organization_outcome(organization, created_at).0,
            org_result_matches(r, old(self)@.create_organization_outcome(organization, created_at).1),
    {
        if find_row(&self.organizations, organization.id.as_str()).is_some() {
            return Err(DbError::Conflict);
        }
        let row = Organization {
            id: organization.id,
            name: organization.name,
            country: organization.country,
            address: organization.address,
            email: organization.email,
            phone: organization.phone,
            website: organization.website,
            registration_number: organization.registration_number,
            vatin: organization.vatin,
            bank_name: organization.bank_name,
            iban: organization.iban,
            currency: organization.currency,
            minimum_fraction_digits: organization.minimum_fraction_digits,
            due_days: organization.due_days,
            overdue_charge: organization.overdue_charge,
            customer_notes: organization.customer_notes,
            created_at: Some(created_at),
            logo: organization.logo,
            invoice_number_format: organization.invoice_number_format,
            invoice_number_counter: Some(0),
            date_format: organization.date_format,
        };
        proof {
            lemma_lookup_push(self.organizations@, row);
        }
        let out = row.copy_org();
        self.organizations.push(row);
        Ok(out)
    }

    /// Inserts an organization, stamped with the current time.
    pub fn create_organization(&mut self, organization: CreateOrganizationRequest) -> (r: Result<
        Organization,
        DbError,
    >)
        requires
            old(self).wf(),
        ensures
            final(self).wf(),
            exists|t: String|
                final(self)@ == old(self)@.create_organization_outcome(organization, t).0
                    && org_result_matches(r, old(self)@.create_organization_outcome(organization, t).1),
    {
        let t = current_timestamp();
        self.create_organization_at(organization, t)
    }

    /// Applies a patch to organization `organization_id`.
    pub fn update_organization(
        &mut self,
        organization_id: &str,
        updates: UpdateOrganizationRequest,
    ) -> (r: Result<Organization, DbError>)
        requires
            old(self).wf(),
        ensures
            final(self).wf(),
            final(self)@ == old(self)@.update_organization_outcome(organization_id@, updates).0,
            org_result_matches(r, old(self)@.update_organization_outcome(organization_id@, updates).1),
    {
        match find_row(&self.organizations, organization_id) {
            None => Err(DbError::NotFound),
            Some(i) => {
                let ghost before = self.organizations@;
                let o = self.organizations.remove(i);
                let row = Organization {
                    id: o.id,
                    name: coalesce_exec(updates.name, o.name),
                    country: coalesce_exec(updates.country, o.country),
                    address: coalesce_exec(updates.address, o.address),
                    email: coalesce_exec(updates.email, o.email),
                    phone: coalesce_exec(updates.phone, o.phone),
                    website: coalesce_exec(updates.website, o.website),
                    registration_number: coalesce_exec(updates.registration_number, o.registration_number),
                    vatin: coalesce_exec(updates.vatin, o.vatin),
                    bank_name: coalesce_exec(updates.bank_name, o.bank_name),
                    iban: coalesce_exec(updates.iban, o.iban),
                    currency: coalesce_exec(updates.currency, o.currency),
                    minimum_fraction_digits: coalesce_exec(
                        updates.minimum_fraction_digits,
                        o.minimum_fraction_digits,
                    ),
                    due_days: coalesce_exec(updates.due_days, o.due_days),
                    overdue_charge: coalesce_exec(updates.overdue_charge, o.overdue_charge),
                    customer_notes: coalesce_exec(updates.customer_notes, o.customer_notes),
                    created_at: o.created_at,
                    logo: coalesce_exec(updates.logo, o.logo),
                    invoice_number_format: coalesce_exec(
                        updates.invoice_number_format,
                        o.invoice_number_format,
                    ),
                    invoice_number_counter: coalesce_exec(
                        updates.invoice_number_counter,
                        o.invoice_number_counter,
                    ),
                    date_format: coalesce_exec(updates.date_format, o.date_format),
                };
                proof {
                    lemma_lookup_update(before, i as int, row);
                }
                let out = row.copy_org();
                self.organizations.insert(i, row);
                assert(self.organizations@ =~= before.update(i as int, row));
                Ok(out)
            },
        }
    }

    /// Deletes organization `organization_id`; true iff a row was removed.
    pub fn delete_organization(&mut self, organization_id: &str) -> (r: bool)
        requires
            old(self).wf(),
        ensures
            final(self).wf(),
            (final(self)@, r) == old(self)@.delete_organization_outcome(organization_id@),
    {
        remove_row(&mut self.organizations, organization_id)
    }
}

} // verus!
