//! Properties that relate several repository operations, proved over the
//! outcomes that the operations' contracts state.

use vstd::prelude::*;

use crate::backup::{restore_next, RestoreAction, RestoreEvent, RestoreFailure, RestoreStage};
use crate::client::{client_updated, CreateClientRequest, UpdateClientRequest};
use crate::database::DbView;
use crate::invoice::{
    invoice_row, invoice_updated, joined_invoice, line_item_rows, CreateInvoiceRequest,
    UpdateInvoiceRequest,
};
use crate::migration::{pending, pending_upto, versions_ascending, versions_of, Migration};
use crate::organization::{
    organization_row, organization_updated, CreateOrganizationRequest, UpdateOrganizationRequest,
};
use crate::project::{
    project_joined, project_row, project_updated, CreateProjectRequest, UpdateProjectRequest,
};
use crate::tax_rate::{
    clear_defaults, defaults_unique, is_default_rate, lemma_clear_keeps_keys,
    lemma_create_tax_rate_one_default, lemma_update_tax_rate_one_default, tax_rate_row,
    tax_rate_updated, CreateTaxRateRequest, TaxRate, UpdateTaxRateRequest,
};
use crate::time_tracking::{
    tag_row, tag_updated, time_entry_joined, time_entry_row, time_entry_updated, CreateTagRequest,
    CreateTimeEntryRequest, UpdateTagRequest, UpdateTimeEntryRequest,
};
use crate::table::{
    has_key, index_of, lemma_index_of, lemma_lookup_push, lemma_lookup_remove, lemma_lookup_update,
    lemma_of_scope_all, lemma_of_scope_append, lemma_of_scope_none, lemma_outside_scope_members,
    lookup, of_scope, outside_scope,
};

verus! {

/// Reading a client back after a successful create gives the written row;
/// every other client reads as before.
pub proof fn client_read_after_create(db: DbView, req: CreateClientRequest, created_at: String)
    requires
        db.wf(),
        db.create_client_outcome(req, created_at).1 is Ok,
    ensures
        ({
            let (next, r) = db.create_client_outcome(req, created_at);
            &&& next.client(req.id@) == Some(r->Ok_0)
            &&& forall|k: Seq<char>| k != req.id@ ==> #[trigger] next.client(k) == db.client(k)
        }),
{
    let row = db.create_client_outcome(req, created_at).1->Ok_0;
    lemma_lookup_push(db.clients, row);
}

/// Reading a client back after a successful update gives the stored row
/// with the declared fields replaced.
pub proof fn client_read_after_update(db: DbView, id: Seq<char>, u: UpdateClientRequest)
    requires
        db.wf(),
        db.update_client_outcome(id, u).1 is Ok,
    ensures
        ({
            let (next, r) = db.update_client_outcome(id, u);
            &&& r->Ok_0 == client_updated(db.client(id).unwrap(), u)
            &&& next.client(id) == Some(r->Ok_0)
            &&& forall|k: Seq<char>| k != id ==> #[trigger] next.client(k) == db.client(k)
        }),
{
    let i = index_of(db.clients, id);
    lemma_index_of(db.clients, i);
    let row = client_updated(db.clients[i], u);
    lemma_lookup_update(db.clients, i, row);
}

/// Deleting a client succeeds once: a second delete of the same
/// identifier reports that nothing was removed.
pub proof fn client_delete_idempotent(db: DbView, id: Seq<char>)
    requires
        db.wf(),
    ensures
        db.delete_client_outcome(id).1 == has_key(db.clients, id),
        db.delete_client_outcome(id).0.delete_client_outcome(id).1 == false,
        db.delete_client_outcome(id).0.client(id) is None,
{
    if has_key(db.clients, id) {
        let i = index_of(db.clients, id);
        lemma_index_of(db.clients, i);
        lemma_lookup_remove(db.clients, i);
        let next = db.delete_client_outcome(id).0;
        assert(lookup(next.clients, id) is None);
    }
}

/// Reading an organization back after a successful create gives the
/// written row, its invoice-number counter at 0.
pub proof fn organization_read_after_create(
    db: DbView,
    req: CreateOrganizationRequest,
    created_at: String,
)
    requires
        db.wf(),
        db.create_organization_outcome(req, created_at).1 is Ok,
    ensures
        ({
            let (next, r) = db.create_organization_outcome(req, created_at);
            &&& next.organization(req.id@) == Some(r->Ok_0)
            &&& r->Ok_0 == organization_row(req, created_at)
            &&& r->Ok_0.invoice_number_counter == Some(0i64)
        }),
{
    lemma_lookup_push(db.organizations, organization_row(req, created_at));
}

/// Reading an organization back after a successful update: the fields
/// present in the patch override, the absent ones are preserved.
pub proof fn organization_read_after_update(db: DbView, id: Seq<char>, u: UpdateOrganizationRequest)
    requires
        db.wf(),
        db.update_organization_outcome(id, u).1 is Ok,
    ensures
        ({
            let (next, r) = db.update_organization_outcome(id, u);
            &&& r->Ok_0 == organization_updated(db.organization(id).unwrap(), u)
            &&& next.organization(id) == Some(r->Ok_0)
        }),
{
    let i = index_of(db.organizations, id);
    lemma_index_of(db.organizations, i);
    lemma_lookup_update(db.organizations, i, organization_updated(db.organizations[i], u));
}

pub proof fn organization_delete_idempotent(db: DbView, id: Seq<char>)
    requires
        db.wf(),
    ensures
        db.delete_organization_outcome(id).1 == has_key(db.organizations, id),
        db.delete_organization_outcome(id).0.delete_organization_outcome(id).1 == false,
{
    if has_key(db.organizations, id) {
        let i = index_of(db.organizations, id);
        lemma_index_of(db.organizations, i);
        lemma_lookup_remove(db.organizations, i);
        let next = db.delete_organization_outcome(id).0;
        assert(lookup(next.organizations, id) is None);
    }
}

/// The line items stored under a fresh invoice identifier are exactly
/// the ones written with it.
proof fn lemma_fresh_invoice_items(
    db: DbView,
    id: Seq<char>,
    items: Seq<crate::invoice::InvoiceLineItem>,
)
    requires
        db.wf(),
        !has_key(db.invoices, id),
        forall|k: int| 0 <= k < items.len() ==> (#[trigger] items[k]).invoice_id@ == id,
    ensures
        of_scope(db.line_items + items, id) == items,
{
    lemma_of_scope_append(db.line_items, items, id);
    assert forall|k: int| 0 <= k < db.line_items.len() implies (
    #[trigger] db.line_items[k]).invoice_id@ != id by {
        assert(has_key(db.invoices, db.line_items[k].invoice_id@));
    }
    lemma_of_scope_none(db.line_items, id);
    lemma_of_scope_all(items, id);
    assert(Seq::<crate::invoice::InvoiceLineItem>::empty() + items =~= items);
}

/// A successful invoice creation: the invoice reads back joined to its
/// client; its line items read back exactly as supplied, in order; the
/// organization's invoice-number counter is one higher, and no other
/// organization changes.
pub proof fn invoice_create_effects(
    db: DbView,
    req: CreateInvoiceRequest,
    created_at: String,
    ids: Seq<String>,
)
    requires
        db.wf(),
        ids.len() == req.line_items@.len(),
        db.create_invoice_outcome(req, created_at, ids).1 is Ok,
    ensures
        ({
            let (next, r) = db.create_invoice_outcome(req, created_at, ids);
            &&& next.invoice(req.id@) == Some(r->Ok_0)
            &&& r->Ok_0 == joined_invoice(invoice_row(req, created_at), db.clients).unwrap()
            &&& next.line_items_of(req.id@) == line_item_rows(req.line_items@, req.id, ids, created_at)
            &&& next.organization(req.organization_id@)->Some_0.invoice_number_counter == Some(
                (db.organization(req.organization_id@)->Some_0.invoice_number_counter->Some_0 + 1) as i64,
            )
            &&& forall|k: Seq<char>|
                k != req.organization_id@ ==> #[trigger] next.organization(k) == db.organization(k)
        }),
{
    let (next, r) = db.create_invoice_outcome(req, created_at, ids);
    let row = invoice_row(req, created_at);
    lemma_lookup_push(db.invoices, row);
    let items = line_item_rows(req.line_items@, req.id, ids, created_at);
    lemma_fresh_invoice_items(db, req.id@, items);
    let j = index_of(db.organizations, req.organization_id@);
    lemma_index_of(db.organizations, j);
    let o = db.organizations[j];
    let o2 = crate::organization::Organization {
        invoice_number_counter: Some((o.invoice_number_counter.unwrap() + 1) as i64),
        ..o
    };
    lemma_lookup_update(db.organizations, j, o2);
}

/// A failed invoice creation changes nothing, the counter included; updates
/// and deletes of invoices never touch organizations.
pub proof fn invoice_counter_only_advances_on_create(
    db: DbView,
    req: CreateInvoiceRequest,
    created_at: String,
    ids: Seq<String>,
    id: Seq<char>,
    u: UpdateInvoiceRequest,
)
    requires
        db.wf(),
    ensures
        db.create_invoice_outcome(req, created_at, ids).1 is Err ==> db.create_invoice_outcome(
            req,
            created_at,
            ids,
        ).0 == db,
        db.update_invoice_outcome(id, u, created_at, ids).0.organizations == db.organizations,
        db.delete_invoice_outcome(id).0.organizations == db.organizations,
{
}

/// A successful invoice update: the header reads back with the patch
/// applied; line items in the patch replace all existing ones, in order;
/// without them the line items stay as they were.
pub proof fn invoice_update_effects(
    db: DbView,
    id: Seq<char>,
    u: UpdateInvoiceRequest,
    created_at: String,
    ids: Seq<String>,
)
    requires
        db.wf(),
        db.update_invoice_outcome(id, u, created_at, ids).1 is Ok,
    ensures
        ({
            let (next, r) = db.update_invoice_outcome(id, u, created_at, ids);
            let stored = lookup(db.invoices, id)->Some_0;
            &&& next.invoice(id) == Some(r->Ok_0)
            &&& r->Ok_0 == joined_invoice(invoice_updated(stored, u), db.clients).unwrap()
            &&& next.line_items_of(id) == match u.line_items {
                Some(items) => line_item_rows(items@, stored.id, ids, created_at),
                None => db.line_items_of(id),
            }
        }),
{
    let (next, r) = db.update_invoice_outcome(id, u, created_at, ids);
    let i = index_of(db.invoices, id);
    lemma_index_of(db.invoices, i);
    let row = invoice_updated(db.invoices[i], u);
    lemma_lookup_update(db.invoices, i, row);
    match u.line_items {
        Some(items) => {
            let kept = outside_scope(db.line_items, id);
            let fresh = line_item_rows(items@, db.invoices[i].id, ids, created_at);
            lemma_outside_scope_members(db.line_items, id);
            lemma_of_scope_append(kept, fresh, id);
            lemma_of_scope_none(kept, id);
            lemma_of_scope_all(fresh, id);
            assert(Seq::<crate::invoice::InvoiceLineItem>::empty() + fresh =~= fresh);
        },
        None => {},
    }
}

/// Deleting an invoice removes it and every one of its line items; a
/// second delete reports that nothing was removed.
pub proof fn invoice_delete_effects(db: DbView, id: Seq<char>)
    requires
        db.wf(),
    ensures
        db.delete_invoice_outcome(id).1 == has_key(db.invoices, id),
        db.delete_invoice_outcome(id).0.invoice(id) is None,
        db.delete_invoice_outcome(id).0.line_items_of(id) == Seq::<
            crate::invoice::InvoiceLineItem,
        >::empty(),
        db.delete_invoice_outcome(id).0.delete_invoice_outcome(id).1 == false,
{
    let next = db.delete_invoice_outcome(id).0;
    lemma_outside_scope_members(db.line_items, id);
    lemma_of_scope_none(outside_scope(db.line_items, id), id);
    if has_key(db.invoices, id) {
        let i = index_of(db.invoices, id);
        lemma_index_of(db.invoices, i);
        lemma_lookup_remove(db.invoices, i);
        assert(lookup(next.invoices, id) is None);
    }
}

/// The number of default tax rates of organization `org`.
pub open spec fn default_count(rows: Seq<TaxRate>, org: Seq<char>) -> nat
    decreases rows.len(),
{
    if rows.len() == 0 {
        0
    } else {
        default_count(rows.drop_last(), org) + if rows.last().organization_id@ == org
            && is_default_rate(rows.last()) {
            1nat
        } else {
            0nat
        }
    }
}

proof fn lemma_default_count_zero(rows: Seq<TaxRate>, org: Seq<char>)
    requires
        forall|i: int|
            0 <= i < rows.len() ==> !((#[trigger] rows[i]).organization_id@ == org
                && is_default_rate(rows[i])),
    ensures
        default_count(rows, org) == 0,
    decreases rows.len(),
{
    if rows.len() > 0 {
        assert(rows[rows.len() - 1] == rows.last());
        lemma_default_count_zero(rows.drop_last(), org);
    }
}

proof fn lemma_default_count_at_most_one(rows: Seq<TaxRate>, org: Seq<char>)
    requires
        defaults_unique(rows),
    ensures
        default_count(rows, org) <= 1,
    decreases rows.len(),
{
    if rows.len() > 0 {
        let p = rows.drop_last();
        assert(defaults_unique(p)) by {
            assert forall|i: int, j: int|
                0 <= i < p.len() && 0 <= j < p.len() && i != j && is_default_rate(#[trigger] p[i])
                    && is_default_rate(#[trigger] p[j]) implies p[i].organization_id@
                != p[j].organization_id@ by {
                assert(p[i] == rows[i] && p[j] == rows[j]);
            }
        }
        lemma_default_count_at_most_one(p, org);
        let n = rows.len() - 1;
        if rows.last().organization_id@ == org && is_default_rate(rows.last()) {
            assert forall|i: int| 0 <= i < p.len() implies !((#[trigger] p[i]).organization_id@ == org
                && is_default_rate(p[i])) by {
                assert(p[i] == rows[i]);
                assert(rows[n] == rows.last());
            }
            lemma_default_count_zero(p, org);
        }
    }
}

/// Every organization has at most one default tax rate, and creating or
/// updating a tax rate keeps it so.
pub proof fn tax_rate_default_unique(
    db: DbView,
    org: Seq<char>,
    req: CreateTaxRateRequest,
    id: Seq<char>,
    u: UpdateTaxRateRequest,
)
    requires
        db.wf(),
    ensures
        default_count(db.tax_rates, org) <= 1,
        default_count(db.create_tax_rate_outcome(req).0.tax_rates, org) <= 1,
        default_count(db.update_tax_rate_outcome(id, u).0.tax_rates, org) <= 1,
{
    lemma_default_count_at_most_one(db.tax_rates, org);
    lemma_create_tax_rate_one_default(db, req);
    lemma_default_count_at_most_one(db.create_tax_rate_outcome(req).0.tax_rates, org);
    lemma_update_tax_rate_one_default(db, id, u);
    lemma_default_count_at_most_one(db.update_tax_rate_outcome(id, u).0.tax_rates, org);
}

/// A created tax rate reads back as written; when it is a default, no
/// other rate of its organization is a default any more.
pub proof fn tax_rate_read_after_create(db: DbView, req: CreateTaxRateRequest)
    requires
        db.wf(),
        db.create_tax_rate_outcome(req).1 is Ok,
    ensures
        ({
            let (next, r) = db.create_tax_rate_outcome(req);
            &&& r->Ok_0 == tax_rate_row(req)
            &&& next.tax_rate(req.id@) == Some(r->Ok_0)
            &&& is_default_rate(r->Ok_0) ==> forall|j: int|
                0 <= j < next.tax_rates.len() && (#[trigger] next.tax_rates[j]).organization_id@
                    == req.organization_id@ && next.tax_rates[j].id@ != req.id@
                    ==> !is_default_rate(next.tax_rates[j])
        }),
{
    let org = req.organization_id@;
    let makes_default = req.is_default == Some(1i64);
    lemma_clear_keeps_keys(db.tax_rates, org, None);
    let base = if makes_default {
        clear_defaults(db.tax_rates, org, None)
    } else {
        db.tax_rates
    };
    lemma_lookup_push(base, tax_rate_row(req));
    let next = db.create_tax_rate_outcome(req).0;
    assert forall|j: int|
        0 <= j < next.tax_rates.len() && (#[trigger] next.tax_rates[j]).organization_id@ == org
            && next.tax_rates[j].id@ != req.id@ && is_default_rate(tax_rate_row(req)) implies !is_default_rate(
        next.tax_rates[j],
    ) by {
        assert(j < base.len());
        assert(next.tax_rates[j] == base[j]);
    }
}

/// An updated tax rate reads back with the patch applied.
pub proof fn tax_rate_read_after_update(db: DbView, id: Seq<char>, u: UpdateTaxRateRequest)
    requires
        db.wf(),
        db.update_tax_rate_outcome(id, u).1 is Ok,
    ensures
        ({
            let (next, r) = db.update_tax_rate_outcome(id, u);
            &&& r->Ok_0 == tax_rate_updated(db.tax_rate(id).unwrap(), u)
            &&& next.tax_rate(id) == Some(r->Ok_0)
        }),
{
    let i = index_of(db.tax_rates, id);
    lemma_index_of(db.tax_rates, i);
    let org = db.tax_rates[i].organization_id@;
    lemma_clear_keeps_keys(db.tax_rates, org, Some(id));
    let base = if u.is_default == Some(1i64) {
        clear_defaults(db.tax_rates, org, Some(id))
    } else {
        db.tax_rates
    };
    lemma_lookup_update(base, i, tax_rate_updated(db.tax_rates[i], u));
}

pub proof fn tax_rate_delete_idempotent(db: DbView, id: Seq<char>)
    requires
        db.wf(),
    ensures
        db.delete_tax_rate_outcome(id).1 == has_key(db.tax_rates, id),
        db.delete_tax_rate_outcome(id).0.delete_tax_rate_outcome(id).1 == false,
{
    if has_key(db.tax_rates, id) {
        let i = index_of(db.tax_rates, id);
        lemma_index_of(db.tax_rates, i);
        lemma_lookup_remove(db.tax_rates, i);
        assert(lookup(db.delete_tax_rate_outcome(id).0.tax_rates, id) is None);
    }
}

/// Tags read back as written and as patched; delete succeeds once.
pub proof fn tag_read_after_write(
    db: DbView,
    req: CreateTagRequest,
    created_at: String,
    id: Seq<char>,
    u: UpdateTagRequest,
)
    requires
        db.wf(),
    ensures
        db.create_tag_outcome(req, created_at).1 is Ok ==> db.create_tag_outcome(
            req,
            created_at,
        ).0.tag(req.id@) == Some(tag_row(req, created_at)),
        db.update_tag_outcome(id, u).1 is Ok ==> db.update_tag_outcome(id, u).0.tag(id) == Some(
            tag_updated(db.tag(id).unwrap(), u),
        ),
        db.delete_tag_outcome(id).1 == has_key(db.tags, id),
        db.delete_tag_outcome(id).0.delete_tag_outcome(id).1 == false,
{
    if db.create_tag_outcome(req, created_at).1 is Ok {
        lemma_lookup_push(db.tags, tag_row(req, created_at));
    }
    if has_key(db.tags, id) {
        let i = index_of(db.tags, id);
        lemma_index_of(db.tags, i);
        lemma_lookup_update(db.tags, i, tag_updated(db.tags[i], u));
        lemma_lookup_remove(db.tags, i);
        assert(lookup(db.delete_tag_outcome(id).0.tags, id) is None);
    }
}

/// Time entries read back as written and as patched (joined to their
/// client); delete succeeds once.
pub proof fn time_entry_read_after_write(
    db: DbView,
    req: CreateTimeEntryRequest,
    created_at: String,
    id: Seq<char>,
    u: UpdateTimeEntryRequest,
)
    requires
        db.wf(),
    ensures
        db.create_time_entry_outcome(req, created_at).1 is Ok ==> db.create_time_entry_outcome(
            req,
            created_at,
        ).0.time_entry(req.id@) == Some(
            time_entry_joined(time_entry_row(req, created_at), db.clients),
        ),
        db.update_time_entry_outcome(id, u).1 is Ok ==> db.update_time_entry_outcome(
            id,
            u,
        ).0.time_entry(id) == Some(
            time_entry_joined(time_entry_updated(lookup(db.time_entries, id)->Some_0, u), db.clients),
        ),
        db.delete_time_entry_outcome(id).1 == has_key(db.time_entries, id),
        db.delete_time_entry_outcome(id).0.delete_time_entry_outcome(id).1 == false,
{
    if db.create_time_entry_outcome(req, created_at).1 is Ok {
        lemma_lookup_push(db.time_entries, time_entry_row(req, created_at));
    }
    if has_key(db.time_entries, id) {
        let i = index_of(db.time_entries, id);
        lemma_index_of(db.time_entries, i);
        lemma_lookup_update(db.time_entries, i, time_entry_updated(db.time_entries[i], u));
        lemma_lookup_remove(db.time_entries, i);
        assert(lookup(db.delete_time_entry_outcome(id).0.time_entries, id) is None);
    }
}

/// Projects read back as written and as patched (joined to their client).
pub proof fn project_read_after_write(
    db: DbView,
    req: CreateProjectRequest,
    created_at: String,
    id: Seq<char>,
    u: UpdateProjectRequest,
)
    requires
        db.wf(),
    ensures
        db.create_project_outcome(req, created_at).1 is Ok ==> db.create_project_outcome(
            req,
            created_at,
        ).0.project(req.id@) == Some(project_joined(project_row(req, created_at), db.clients)),
        db.update_project_outcome(id, u).1 is Ok ==> db.update_project_outcome(id, u).0.project(id)
            == Some(project_joined(project_updated(lookup(db.projects, id)->Some_0, u), db.clients)),
{
    if db.create_project_outcome(req, created_at).1 is Ok {
        lemma_lookup_push(db.projects, project_row(req, created_at));
    }
    if has_key(db.projects, id) {
        let i = index_of(db.projects, id);
        lemma_index_of(db.projects, i);
        lemma_lookup_update(db.projects, i, project_updated(db.projects[i], u));
    }
}

/// Positions `from`, `from + 1`, ..., `to - 1`.
pub open spec fn positions(from: int, to: int) -> Seq<usize> {
    Seq::new((to - from) as nat, |i: int| (from + i) as usize)
}

proof fn lemma_pending_after_prefix(ms: Seq<Migration>, k: int, n: int)
    requires
        versions_ascending(ms),
        0 <= k <= ms.len(),
        0 <= n <= ms.len(),
        ms.len() <= usize::MAX,
    ensures
        pending_upto(ms, versions_of(ms.take(k)), n) == if n <= k {
            Seq::<usize>::empty()
        } else {
            positions(k, n)
        },
    decreases n,
{
    let applied = versions_of(ms.take(k));
    if n > 0 {
        lemma_pending_after_prefix(ms, k, n - 1);
        let v = ms[n - 1].version;
        if n - 1 < k {
            assert(applied[n - 1] == v);
            assert(applied.contains(v));
        } else {
            assert(!applied.contains(v)) by {
                if applied.contains(v) {
                    let j = choose|j: int| 0 <= j < applied.len() && applied[j] == v;
                    assert(ms[j].version < ms[n - 1].version);
                }
            }
            assert(pending_upto(ms, applied, n) =~= positions(k, n));
        }
    }
}

/// Migration determinism: on a store already migrated through any prefix
/// of the ordered migrations, the runner applies exactly the remaining
/// ones, in order. So a fresh store (nothing applied) runs every script in
/// order, a fully migrated one runs none, and a store brought up in
/// several steps has run the same scripts in the same order as a fresh one.
pub proof fn migration_determinism(ms: Seq<Migration>, k: int)
    requires
        versions_ascending(ms),
        0 <= k <= ms.len(),
        ms.len() <= usize::MAX,
    ensures
        pending(ms, versions_of(ms.take(k))) == positions(k, ms.len() as int),
        pending(ms, Seq::<u32>::empty()) == positions(0, ms.len() as int),
        pending(ms, versions_of(ms)) == Seq::<usize>::empty(),
{
    lemma_pending_after_prefix(ms, k, ms.len() as int);
    lemma_pending_after_prefix(ms, 0, ms.len() as int);
    lemma_pending_after_prefix(ms, ms.len() as int, ms.len() as int);
    assert(ms.take(0) =~= Seq::<Migration>::empty());
    assert(versions_of(ms.take(0)) =~= Seq::<u32>::empty());
    assert(ms.take(ms.len() as int) =~= ms);
    if ms.len() == 0 {
        assert(positions(0, 0) =~= Seq::<usize>::empty());
    }
}

/// Restore never overwrites the live file before it is safe to: the source
/// is copied over it only when no live file exists, or right after the live
/// file was copied aside.
pub proof fn restore_sets_live_file_aside_first(stage: RestoreStage, event: RestoreEvent)
    ensures
        restore_next(stage, event).1 == RestoreAction::CopySourceToLive ==> (stage
            == RestoreStage::LiveChecked && event == RestoreEvent::Exists(false)) || (stage
            == RestoreStage::AsideCopied && event == RestoreEvent::Copied(Ok(()))),
{
    match (stage, event) {
        (RestoreStage::AsideCopied, RestoreEvent::Copied(Ok(u))) => {
            assert(u == ());
        },
        (RestoreStage::LiveChecked, RestoreEvent::Exists(found)) => {},
        _ => {},
    }
}

/// A failed replace is rolled back: the aside copy, when there is one, is
/// copied back over the live file, and the restore then reports the
/// replace's error, whatever the copy back gave.
pub proof fn restore_rolls_back_failed_replace(e: String, copy_back: Result<(), String>)
    ensures
        restore_next(RestoreStage::Replaced, RestoreEvent::Copied(Err(e))) == (
            RestoreStage::RollbackChecked(e),
            RestoreAction::CheckAsideExists,
        ),
        restore_next(RestoreStage::RollbackChecked(e), RestoreEvent::Exists(true)) == (
            RestoreStage::RolledBack(e),
            RestoreAction::CopyAsideToLive,
        ),
        restore_next(RestoreStage::RolledBack(e), RestoreEvent::Copied(copy_back)).1
            == RestoreAction::Finish(Err(RestoreFailure::ReplaceFailed(e))),
{
}

} // verus!
