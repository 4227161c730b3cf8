//! Invoices and their line items: an aggregate that spans two tables and
//! the owning organization's invoice-number counter.

use vstd::prelude::*;

use crate::client::Client;
use crate::clock::current_timestamp;
use crate::database::{Database, DbView};
use crate::ids::{is_minted_id, mint_id};
use crate::model::{coalesce, coalesce_exec, DbError, Real};
use crate::organization::Organization;
use crate::table::{
    find_row, has_key, index_of, lemma_lookup_push, lemma_lookup_update, lemma_members_in_scope,
    lemma_of_scope_isolated, lemma_outside_scope_members, lookup, of_scope, outside_scope,
    remove_row, select_outside_scope, select_scope, sort_rows, sorted, ListOrder, Row, RowCopy,
    Scoped,
};
use crate::text::copy_opt_text;

verus! {

#[derive(Debug, Clone, PartialEq)]
pub struct Invoice {
    pub id: String,
    pub organization_id: String,
    pub number: String,
    pub state: String,
    pub client_id: String,
    pub date: i64,
    pub due_date: Option<i64>,
    pub currency: String,
    pub customer_notes: Option<String>,
    /// Grand total, in minor units.
    pub total: i64,
    pub tax_total: i64,
    pub sub_total: i64,
    pub created_at: Option<String>,
    /// The client's name, filled in by reads.
    pub client_name: Option<String>,
}

#[derive(Debug, Clone, PartialEq)]
pub struct InvoiceLineItem {
    pub id: String,
    pub invoice_id: String,
    pub description: Option<String>,
    pub quantity: Real,
    /// Unit price, in minor units.
    pub unit_price: i64,
    pub tax_rate: Option<String>,
    pub created_at: Option<String>,
}

#[derive(Debug, Clone, PartialEq)]
pub struct CreateInvoiceRequest {
    pub id: String,
    pub organization_id: String,
    pub number: String,
    pub state: String,
    pub client_id: String,
    pub date: i64,
    pub due_date: Option<i64>,
    pub currency: String,
    pub customer_notes: Option<String>,
    pub total: i64,
    pub tax_total: i64,
    pub sub_total: i64,
    pub line_items: Vec<CreateInvoiceLineItemRequest>,
}

#[derive(Debug, Clone, PartialEq)]
pub struct CreateInvoiceLineItemRequest {
    pub description: Option<String>,
    pub quantity: Real,
    pub unit_price: i64,
    pub tax_rate: Option<String>,
}

/// A patch of the header; line items, when present, replace all of them.
#[derive(Debug, Clone, PartialEq)]
pub struct UpdateInvoiceRequest {
    pub number: Option<String>,
    pub state: Option<String>,
    pub client_id: Option<String>,
    pub date: Option<i64>,
    pub due_date: Option<i64>,
    pub currency: Option<String>,
    pub customer_notes: Option<String>,
    pub total: Option<i64>,
    pub tax_total: Option<i64>,
    pub sub_total: Option<i64>,
    pub line_items: Option<Vec<CreateInvoiceLineItemRequest>>,
}

impl Row for Invoice {
    open spec fn key(&self) -> Seq<char> {
        self.id@
    }

    fn key_text(&self) -> (r: &str) {
        self.id.as_str()
    }
}

impl Scoped for Invoice {
    open spec fn scope(&self) -> Seq<char> {
        self.organization_id@
    }

    fn scope_text(&self) -> (r: &str) {
        self.organization_id.as_str()
    }
}

impl RowCopy for Invoice {
    fn copy_row(&self) -> (r: Invoice) {
        Invoice {
            id: self.id.clone(),
            organization_id: self.organization_id.clone(),
            number: self.number.clone(),
            state: self.state.clone(),
            client_id: self.client_id.clone(),
            date: self.date,
            due_date: self.due_date,
            currency: self.currency.clone(),
            customer_notes: copy_opt_text(&self.customer_notes),
            total: self.total,
            tax_total: self.tax_total,
            sub_total: self.sub_total,
            created_at: copy_opt_text(&self.created_at),
            client_name: copy_opt_text(&self.client_name),
        }
    }
}

/// Invoices are listed by date, newest first.
impl ListOrder for Invoice {
    open spec fn sorts_before(&self, other: &Invoice) -> bool {
        self.date >= other.date
    }

    fn sorts_before_exec(&self, other: &Invoice) -> (r: bool) {
        self.date >= other.date
    }

    proof fn lemma_sorts_total(a: &Invoice, b: &Invoice) {
    }

    proof fn lemma_sorts_trans(a: &Invoice, b: &Invoice, c: &Invoice) {
    }
}

/// Line items are listed under their invoice.
impl Scoped for InvoiceLineItem {
    open spec fn scope(&self) -> Seq<char> {
        self.invoice_id@
    }

    fn scope_text(&self) -> (r: &str) {
        self.invoice_id.as_str()
    }
}

impl RowCopy for InvoiceLineItem {
    fn copy_row(&self) -> (r: InvoiceLineItem) {
        InvoiceLineItem {
            id: self.id.clone(),
            invoice_id: self.invoice_id.clone(),
            description: copy_opt_text(&self.description),
            quantity: self.quantity,
            unit_price: self.unit_price,
            tax_rate: copy_opt_text(&self.tax_rate),
            created_at: copy_opt_text(&self.created_at),
        }
    }
}

impl RowCopy for CreateInvoiceLineItemRequest {
    fn copy_row(&self) -> (r: CreateInvoiceLineItemRequest) {
        CreateInvoiceLineItemRequest {
            description: copy_opt_text(&self.description),
            quantity: self.quantity,
            unit_price: self.unit_price,
            tax_rate: copy_opt_text(&self.tax_rate),
        }
    }
}

/// The header row that `create` writes (no client name is stored).
pub open spec fn invoice_row(req: CreateInvoiceRequest, created_at: String) -> Invoice {
    Invoice {
        id: req.id,
        organization_id: req.organization_id,
        number: req.number,
        state: req.state,
        client_id: req.client_id,
        date: req.date,
        due_date: req.due_date,
        currency: req.currency,
        customer_notes: req.customer_notes,
        total: req.total,
        tax_total: req.tax_total,
        sub_total: req.sub_total,
        created_at: Some(created_at),
        client_name: None,
    }
}

/// The header after `update`: each field of the patch that is present
/// replaces the stored one.
pub open spec fn invoice_updated(inv: Invoice, u: UpdateInvoiceRequest) -> Invoice {
    Invoice {
        number: coalesce(u.number, Some(inv.number)).unwrap(),
        state: coalesce(u.state, Some(inv.state)).unwrap(),
        client_id: coalesce(u.client_id, Some(inv.client_id)).unwrap(),
        date: coalesce(u.date, Some(inv.date)).unwrap(),
        due_date: coalesce(u.due_date, inv.due_date),
        currency: coalesce(u.currency, Some(inv.currency)).unwrap(),
        customer_notes: coalesce(u.customer_notes, inv.customer_notes),
        total: coalesce(u.total, Some(inv.total)).unwrap(),
        tax_total: coalesce(u.tax_total, Some(inv.tax_total)).unwrap(),
        sub_total: coalesce(u.sub_total, Some(inv.sub_total)).unwrap(),
        ..inv
    }
}

/// The row written for one requested line item.
pub open spec fn line_item_row(
    li: CreateInvoiceLineItemRequest,
    invoice_id: String,
    id: String,
    created_at: String,
) -> InvoiceLineItem {
    InvoiceLineItem {
        id: id,
        invoice_id: invoice_id,
        description: li.description,
        quantity: li.quantity,
        unit_price: li.unit_price,
        tax_rate: li.tax_rate,
        created_at: Some(created_at),
    }
}

/// The rows written for requested line items, in order, with identifiers `ids`.
pub open spec fn line_item_rows(
    items: Seq<CreateInvoiceLineItemRequest>,
    invoice_id: String,
    ids: Seq<String>,
    created_at: String,
) -> Seq<InvoiceLineItem> {
    Seq::new(items.len(), |k: int| line_item_row(items[k], invoice_id, ids[k], created_at))
}

/// An invoice as reads return it: joined to its client for the client's
/// name, absent when the client row is missing (an inner join).
pub open spec fn joined_invoice(inv: Invoice, clients: Seq<Client>) -> Option<Invoice> {
    match lookup(clients, inv.client_id@) {
        Some(c) => Some(Invoice { client_name: c.name, ..inv }),
        None => None,
    }
}

/// The invoices of `rows` that join a client, joined, in order.
pub open spec fn joined_invoices(rows: Seq<Invoice>, clients: Seq<Client>) -> Seq<Invoice>
    decreases rows.len(),
{
    if rows.len() == 0 {
        Seq::empty()
    } else {
        let rest = joined_invoices(rows.drop_last(), clients);
        match joined_invoice(rows.last(), clients) {
            Some(j) => rest.push(j),
            None => rest,
        }
    }
}

/// Joining keeps each invoice's organization.
pub proof fn lemma_joined_invoices_scoped(rows: Seq<Invoice>, clients: Seq<Client>, org: Seq<char>)
    requires
        forall|k: int| 0 <= k < rows.len() ==> (#[trigger] rows[k]).organization_id@ == org,
    ensures
        forall|k: int|
            0 <= k < joined_invoices(rows, clients).len() ==> (#[trigger] joined_invoices(
                rows,
                clients,
            )[k]).organization_id@ == org,
    decreases rows.len(),
{
    if rows.len() > 0 {
        let p = rows.drop_last();
        assert forall|k: int| 0 <= k < p.len() implies (#[trigger] p[k]).organization_id@ == org by {
            assert(p[k] == rows[k]);
        }
        lemma_joined_invoices_scoped(p, clients, org);
        assert(rows[rows.len() - 1] == rows.last());
        let rest = joined_invoices(p, clients);
        assert forall|k: int| 0 <= k < joined_invoices(rows, clients).len() implies (
        #[trigger] joined_invoices(rows, clients)[k]).organization_id@ == org by {
            if k < rest.len() {
                assert(rest[k].organization_id@ == org);
            }
        }
    }
}

/// The number of invoices in `rows` that name client `client_id`.
pub open spec fn invoice_count_of(rows: Seq<Invoice>, client_id: Seq<char>) -> nat
    decreases rows.len(),
{
    if rows.len() == 0 {
        0
    } else {
        invoice_count_of(rows.drop_last(), client_id) + if rows.last().client_id@ == client_id {
            1nat
        } else {
            0nat
        }
    }
}

/// The number of line-item identifiers that an update needs.
pub open spec fn line_items_needed(u: UpdateInvoiceRequest) -> nat {
    match u.line_items {
        Some(items) => items@.len(),
        None => 0,
    }
}

impl DbView {
    /// The invoice with identifier `id`, as reads return it.
    pub open spec fn invoice(self, id: Seq<char>) -> Option<Invoice> {
        match lookup(self.invoices, id) {
            Some(inv) => joined_invoice(inv, self.clients),
            None => None,
        }
    }

    /// The line items of invoice `id`, in insertion order.
    pub open spec fn line_items_of(self, id: Seq<char>) -> Seq<InvoiceLineItem> {
        of_scope(self.line_items, id)
    }

    /// The store with the invoice-number counter of organization `org` one higher.
    pub open spec fn counter_advanced(self, org: Seq<char>) -> DbView {
        let j = index_of(self.organizations, org);
        let o = self.organizations[j];
        DbView {
            organizations: self.organizations.update(
                j,
                crate::organization::Organization {
                    invoice_number_counter: Some((o.invoice_number_counter.unwrap() + 1) as i64),
                    ..o
                },
            ),
            ..self
        }
    }

    /// What `create_invoice` does, given the creation time and the minted
    /// line-item identifiers: `Conflict` for a taken identifier,
    /// `ForeignKey` for a missing organization or client, `Conflict` when
    /// the organization's counter cannot advance any more; else the header,
    /// the line items and the advanced counter, all together.
    pub open spec fn create_invoice_outcome(
        self,
        req: CreateInvoiceRequest,
        created_at: String,
        ids: Seq<String>,
    ) -> (DbView, Result<Invoice, DbError>) {
        if has_key(self.invoices, req.id@) {
            (self, Err(DbError::Conflict))
        } else if !has_key(self.organizations, req.organization_id@) || !has_key(
            self.clients,
            req.client_id@,
        ) {
            (self, Err(DbError::ForeignKey))
        } else if self.organization(req.organization_id@).unwrap().invoice_number_counter
            == Some(i64::MAX) {
            (self, Err(DbError::Conflict))
        } else {
            let row = invoice_row(req, created_at);
            let items = line_item_rows(req.line_items@, req.id, ids, created_at);
            let next = DbView {
                invoices: self.invoices.push(row),
                line_items: self.line_items + items,
                ..self.counter_advanced(req.organization_id@)
            };
            (next, Ok(joined_invoice(row, self.clients).unwrap()))
        }
    }

    /// What `update_invoice` does, given the creation time and the minted
    /// identifiers of replacement line items: `NotFound` for an unknown
    /// invoice, `ForeignKey` when the patched invoice would name a missing
    /// client; else the patched header and, when the patch carries line
    /// items, those in place of all the old ones.
    pub open spec fn update_invoice_outcome(
        self,
        id: Seq<char>,
        u: UpdateInvoiceRequest,
        created_at: String,
        ids: Seq<String>,
    ) -> (DbView, Result<Invoice, DbError>) {
        if !has_key(self.invoices, id) {
            (self, Err(DbError::NotFound))
        } else {
            let i = index_of(self.invoices, id);
            let row = invoice_updated(self.invoices[i], u);
            if !has_key(self.clients, row.client_id@) {
                (self, Err(DbError::ForeignKey))
            } else {
                let items = match u.line_items {
                    Some(new_items) => outside_scope(self.line_items, id) + line_item_rows(
                        new_items@,
                        self.invoices[i].id,
                        ids,
                        created_at,
                    ),
                    None => self.line_items,
                };
                (
                    DbView { invoices: self.invoices.update(i, row), line_items: items, ..self },
                    Ok(joined_invoice(row, self.clients).unwrap()),
                )
            }
        }
    }

    /// What `delete_invoice` does: the line items go first, then the header.
    pub open spec fn delete_invoice_outcome(self, id: Seq<char>) -> (DbView, bool) {
        let items = outside_scope(self.line_items, id);
        if has_key(self.invoices, id) {
            (
                DbView {
                    invoices: self.invoices.remove(index_of(self.invoices, id)),
                    line_items: items,
                    ..self
                },
                true,
            )
        } else {
            (DbView { line_items: items, ..self }, false)
        }
    }
}

/// Appends the rows for `items` under invoice `invoice_id`.
fn insert_line_items(
    table: &mut Vec<InvoiceLineItem>,
    items: &Vec<CreateInvoiceLineItemRequest>,
    invoice_id: &String,
    ids: &Vec<String>,
    created_at: &String,
)
    requires
        ids@.len() == items@.len(),
    ensures
        final(table)@ == old(table)@ + line_item_rows(items@, *invoice_id, ids@, *created_at),
{
    let ghost start = table@;
    let mut k: usize = 0;
    while k < items.len()
        invariant
            k <= items@.len(),
            ids@.len() == items@.len(),
            table@ == start + line_item_rows(items@, *invoice_id, ids@, *created_at).take(k as int),
        decreases items@.len() - k,
    {
        let li = items[k].copy_row();
        let row = InvoiceLineItem {
            id: ids[k].clone(),
            invoice_id: invoice_id.clone(),
            description: li.description,
            quantity: li.quantity,
            unit_price: li.unit_price,
            tax_rate: li.tax_rate,
            created_at: Some(created_at.clone()),
        };
        table.push(row);
        k = k + 1;
        assert(table@ =~= start + line_item_rows(items@, *invoice_id, ids@, *created_at).take(
            k as int,
        ));
    }
    assert(line_item_rows(items@, *invoice_id, ids@, *created_at).take(k as int) =~= line_item_rows(
        items@,
        *invoice_id,
        ids@,
        *created_at,
    ));
}

/// `n` freshly minted line-item identifiers.
fn mint_ids(n: usize) -> (r: Vec<String>)
    ensures
        r@.len() == n,
        forall|k: int| 0 <= k < n ==> is_minted_id(#[trigger] r@[k]@),
{
    let mut ids: Vec<String> = Vec::new();
    while ids.len() < n
        invariant
            ids@.len() <= n,
            forall|k: int| 0 <= k < ids@.len() ==> is_minted_id(#[trigger] ids@[k]@),
        decreases n - ids@.len(),
    {
        ids.push(mint_id());
    }
    ids
}

impl Database {
    /// The invoice with identifier `invoice_id`, joined to its client.
    pub fn get_invoice(&self, invoice_id: &str) -> (r: Option<Invoice>)
        requires
            self.wf(),
        ensures
            r == self@.invoice(invoice_id@),
    {
        match find_row(&self.invoices, invoice_id) {
            None => None,
            Some(i) => self.join_client(&self.invoices[i]),
        }
    }

    /// A copy of `inv` with its client's name, when the client exists.
    fn join_client(&self, inv: &Invoice) -> (r: Option<Invoice>)
        requires
            self.wf(),
        ensures
            r == joined_invoice(*inv, self@.clients),
    {
        match find_row(&self.clients, inv.client_id.as_str()) {
            None => None,
            Some(j) => {
                let mut out = inv.copy_row();
                out.client_name = copy_opt_text(&self.clients[j].name);
                Some(out)
            },
        }
    }

    /// The invoices of organization `organization_id` that join a client,
    /// newest first.
    pub fn get_invoices(&self, organization_id: &str) -> (r: Vec<Invoice>)
        requires
            self.wf(),
        ensures
            r@.to_multiset() == joined_invoices(
                of_scope(self@.invoices, organization_id@),
                self@.clients,
            ).to_multiset(),
            sorted(r@),
            forall|i: int| 0 <= i < r@.len() ==> (#[trigger] r@[i]).organization_id@ == organization_id@,
    {
        let rows = select_scope(&self.invoices, organization_id);
        let mut out: Vec<Invoice> = Vec::new();
        let mut i: usize = 0;
        assert(rows@.subrange(0, 0) =~= Seq::<Invoice>::empty());
        while i < rows.len()
            invariant
                self.wf(),
                i <= rows@.len(),
                out@ == joined_invoices(rows@.subrange(0, i as int), self@.clients),
            decreases rows@.len() - i,
        {
            assert(rows@.subrange(0, i + 1).drop_last() =~= rows@.subrange(0, i as int));
            match self.join_client(&rows[i]) {
                Some(j) => out.push(j),
                None => {},
            }
            i = i + 1;
        }
        assert(rows@.subrange(0, rows@.len() as int) =~= rows@);
        let r = sort_rows(out);
        proof {
            lemma_of_scope_isolated(self@.invoices, organization_id@);
            assert forall|k: int| 0 <= k < rows@.len() implies (#[trigger] rows@[k]).organization_id@
                == organization_id@ by {
                assert(of_scope(self@.invoices, organization_id@)[k].scope() == organization_id@);
            }
            lemma_joined_invoices_scoped(rows@, self@.clients, organization_id@);
            lemma_members_in_scope(
                r@,
                joined_invoices(rows@, self@.clients),
                organization_id@,
            );
        }
        r
    }

    /// The line items of invoice `invoice_id`, in insertion order.
    pub fn get_invoice_line_items(&self, invoice_id: &str) -> (r: Vec<InvoiceLineItem>)
        requires
            self.wf(),
        ensures
            r@ == self@.line_items_of(invoice_id@),
    {
        select_scope(&self.line_items, invoice_id)
    }

    /// How many invoices name client `client_id` (saturating at `i64::MAX`).
    pub fn get_client_invoice_count(&self, client_id: &str) -> (r: i64)
        requires
            self.wf(),
        ensures
            r as int == if invoice_count_of(self@.invoices, client_id@) < i64::MAX {
                invoice_count_of(self@.invoices, client_id@) as int
            } else {
                i64::MAX as int
            },
    {
        let mut count: i64 = 0;
        let mut i: usize = 0;
        assert(self.invoices@.subrange(0, 0) =~= Seq::<Invoice>::empty());
        while i < self.invoices.len()
            invariant
                i <= self.invoices@.len(),
                count as int == if invoice_count_of(self.invoices@.subrange(0, i as int), client_id@)
                    < i64::MAX {
                    invoice_count_of(self.invoices@.subrange(0, i as int), client_id@) as int
                } else {
                    i64::MAX as int
                },
            decreases self.invoices@.len() - i,
        {
            assert(self.invoices@.subrange(0, i + 1).drop_last() =~= self.invoices@.subrange(
                0,
                i as int,
            ));
            if crate::text::text_eq(self.invoices[i].client_id.as_str(), client_id) {
                if count < i64::MAX {
                    count = count + 1;
                }
            }
            i = i + 1;
        }
        assert(self.invoices@.subrange(0, self.invoices@.len() as int) =~= self.invoices@);
        count
    }
}

impl Database {
    /// Creates an invoice with its line items in one step, stamped with
    /// `created_at`, the line items taking the identifiers `line_item_ids`
    /// in order; the organization's invoice-number counter advances by one.
    pub fn create_invoice_at(
        &mut self,
        invoice: CreateInvoiceRequest,
        created_at: String,
        line_item_ids: Vec<String>,
    ) -> (r: Result<Invoice, DbError>)
        requires
            old(self).wf(),
            line_item_ids@.len() == invoice.line_items@.len(),
        ensures
            final(self).wf(),
            (final(self)@, r) == old(self)@.create_invoice_outcome(
                invoice,
                created_at,
                line_item_ids@,
            ),
    {
        let ghost req = invoice;
        let ghost before = self@;
        if find_row(&self.invoices, invoice.id.as_str()).is_some() {
            return Err(DbError::Conflict);
        }
        let oj = match find_row(&self.organizations, invoice.organization_id.as_str()) {
            Some(j) => j,
            None => { return Err(DbError::ForeignKey); },
        };
        let cj = match find_row(&self.clients, invoice.client_id.as_str()) {
            Some(j) => j,
            None => { return Err(DbError::ForeignKey); },
        };
        let counter = match self.organizations[oj].invoice_number_counter {
            Some(c) => c,
            None => { return Err(DbError::Conflict); },
        };
        if counter == i64::MAX {
            return Err(DbError::Conflict);
        }
        insert_line_items(
            &mut self.line_items,
            &invoice.line_items,
            &invoice.id,
            &line_item_ids,
            &created_at,
        );
        let ghost orgs = self.organizations@;
        let o = self.organizations.remove(oj);
        let advanced = Organization { invoice_number_counter: Some(counter + 1), ..o };
        proof {
            lemma_lookup_update(orgs, oj as int, advanced);
        }
        self.organizations.insert(oj, advanced);
        assert(self.organizations@ =~= orgs.update(oj as int, advanced));
        let row = Invoice {
            id: invoice.id,
            organization_id: invoice.organization_id,
            number: invoice.number,
            state: invoice.state,
            client_id: invoice.client_id,
            date: invoice.date,
            due_date: invoice.due_date,
            currency: invoice.currency,
            customer_notes: invoice.customer_notes,
            total: invoice.total,
            tax_total: invoice.tax_total,
            sub_total: invoice.sub_total,
            created_at: Some(created_at),
            client_name: None,
        };
        let mut out = row.copy_row();
        out.client_name = copy_opt_text(&self.clients[cj].name);
        proof {
            lemma_lookup_push(self.invoices@, row);
        }
        self.invoices.push(row);
        proof {
            let next = self@;
            assert forall|i: int| 0 <= i < next.line_items.len() implies has_key(
                next.invoices,
                (#[trigger] next.line_items[i]).invoice_id@,
            ) by {
                if i < before.line_items.len() {
                    assert(next.line_items[i] == before.line_items[i]);
                    let k = before.line_items[i].invoice_id@;
                    assert(lookup(before.invoices, k) is Some);
                    assert(lookup(next.invoices, k) is Some);
                } else {
                    assert(lookup(next.invoices, req.id@) is Some);
                }
            }
            assert forall|i: int| 0 <= i < next.organizations.len() implies (
            #[trigger] next.organizations[i]).invoice_number_counter is Some by {
                if i != oj {
                    assert(next.organizations[i] == before.organizations[i]);
                }
            }
        }
        Ok(out)
    }

    /// Creates an invoice with its line items, stamped with the current
    /// time, each line item under a freshly minted identifier.
    pub fn create_invoice(&mut self, invoice: CreateInvoiceRequest) -> (r: Result<Invoice, DbError>)
        requires
            old(self).wf(),
        ensures
            final(self).wf(),
            exists|t: String, ids: Seq<String>|
                ids.len() == invoice.line_items@.len() && (forall|k: int|
                    0 <= k < ids.len() ==> is_minted_id(#[trigger] ids[k]@)) && (final(self)@, r)
                    == old(self)@.create_invoice_outcome(invoice, t, ids),
    {
        let ids = mint_ids(invoice.line_items.len());
        let t = current_timestamp();
        let ghost g_ids = ids@;
        let ghost g_t = t;
        let r = self.create_invoice_at(invoice, t, ids);
        assert(g_ids.len() == invoice.line_items@.len() && (forall|k: int|
            0 <= k < g_ids.len() ==> is_minted_id(#[trigger] g_ids[k]@)) && (self@, r)
            == old(self)@.create_invoice_outcome(invoice, g_t, g_ids));
        r
    }

    /// Applies a patch to the header of invoice `invoice_id`; when the patch
    /// carries line items, they replace all existing ones, taking the
    /// identifiers `line_item_ids` in order.
    pub fn update_invoice_at(
        &mut self,
        invoice_id: &str,
        updates: UpdateInvoiceRequest,
        created_at: String,
        line_item_ids: Vec<String>,
    ) -> (r: Result<Invoice, DbError>)
        requires
            old(self).wf(),
            line_item_ids@.len() == line_items_needed(updates),
        ensures
            final(self).wf(),
            (final(self)@, r) == old(self)@.update_invoice_outcome(
                invoice_id@,
                updates,
                created_at,
                line_item_ids@,
            ),
    {
        let ghost before = self@;
        let i = match find_row(&self.invoices, invoice_id) {
            Some(i) => i,
            None => { return Err(DbError::NotFound); },
        };
        let old_row = self.invoices[i].copy_row();
        let row = Invoice {
            id: old_row.id,
            organization_id: old_row.organization_id,
            number: match updates.number { Some(v) => v, None => old_row.number },
            state: match updates.state { Some(v) => v, None => old_row.state },
            client_id: match updates.client_id { Some(v) => v, None => old_row.client_id },
            date: match updates.date { Some(v) => v, None => old_row.date },
            due_date: coalesce_exec(updates.due_date, old_row.due_date),
            currency: match updates.currency { Some(v) => v, None => old_row.currency },
            customer_notes: coalesce_exec(updates.customer_notes, old_row.customer_notes),
            total: match updates.total { Some(v) => v, None => old_row.total },
            tax_total: match updates.tax_total { Some(v) => v, None => old_row.tax_total },
            sub_total: match updates.sub_total { Some(v) => v, None => old_row.sub_total },
            created_at: old_row.created_at,
            client_name: old_row.client_name,
        };
        let cj = match find_row(&self.clients, row.client_id.as_str()) {
            Some(j) => j,
            None => { return Err(DbError::ForeignKey); },
        };
        match updates.line_items {
            Some(items) => {
                let mut kept = select_outside_scope(&self.line_items, invoice_id);
                proof {
                    lemma_outside_scope_members(before.line_items, invoice_id@);
                }
                insert_line_items(&mut kept, &items, &row.id, &line_item_ids, &created_at);
                self.line_items = kept;
            },
            None => {},
        }
        let mut out = row.copy_row();
        out.client_name = copy_opt_text(&self.clients[cj].name);
        proof {
            lemma_lookup_update(self.invoices@, i as int, row);
        }
        self.invoices.set(i, row);
        proof {
            let next = self@;
            assert forall|k: int| 0 <= k < next.line_items.len() implies has_key(
                next.invoices,
                (#[trigger] next.line_items[k]).invoice_id@,
            ) by {
                let key = next.line_items[k].invoice_id@;
                if key == invoice_id@ {
                    assert(lookup(next.invoices, key) is Some);
                } else {
                    if updates.line_items is Some {
                        let kept = outside_scope(before.line_items, invoice_id@);
                        if k < kept.len() {
                            assert(before.line_items.contains(kept[k]));
                            let m = choose|m: int|
                                0 <= m < before.line_items.len() && before.line_items[m] == kept[k];
                            assert(has_key(before.invoices, before.line_items[m].invoice_id@));
                        }
                    } else {
                        assert(has_key(before.invoices, before.line_items[k].invoice_id@));
                    }
                    assert(lookup(before.invoices, key) is Some);
                    assert(lookup(next.invoices, key) is Some);
                }
            }
        }
        Ok(out)
    }

    /// Applies a patch to invoice `invoice_id`; replacement line items, if
    /// any, are stamped with the current time and get minted identifiers.
    pub fn update_invoice(&mut self, invoice_id: &str, updates: UpdateInvoiceRequest) -> (r: Result<
        Invoice,
        DbError,
    >)
        requires
            old(self).wf(),
        ensures
            final(self).wf(),
            exists|t: String, ids: Seq<String>|
                ids.len() == line_items_needed(updates) && (forall|k: int|
                    0 <= k < ids.len() ==> is_minted_id(#[trigger] ids[k]@)) && (final(self)@, r)
                    == old(self)@.update_invoice_outcome(invoice_id@, updates, t, ids),
    {
        let n: usize = match &updates.line_items {
            Some(items) => items.len(),
            None => 0,
        };
        let ids = mint_ids(n);
        let t = current_timestamp();
        let ghost g_ids = ids@;
        let ghost g_t = t;
        let r = self.update_invoice_at(invoice_id, updates, t, ids);
        assert(g_ids.len() == line_items_needed(updates) && (forall|k: int|
            0 <= k < g_ids.len() ==> is_minted_id(#[trigger] g_ids[k]@)) && (self@, r)
            == old(self)@.update_invoice_outcome(invoice_id@, updates, g_t, g_ids));
        r
    }

    /// Deletes invoice `invoice_id`: its line items first, then the header.
    /// True iff the header was removed.
    pub fn delete_invoice(&mut self, invoice_id: &str) -> (r: bool)
        requires
            old(self).wf(),
        ensures
            final(self).wf(),
            (final(self)@, r) == old(self)@.delete_invoice_outcome(invoice_id@),
    {
        let ghost before = self@;
        self.line_items = select_outside_scope(&self.line_items, invoice_id);
        proof {
            lemma_outside_scope_members(before.line_items, invoice_id@);
        }
        let r = remove_row(&mut self.invoices, invoice_id);
        proof {
            let next = self@;
            assert forall|k: int| 0 <= k < next.line_items.len() implies has_key(
                next.invoices,
                (#[trigger] next.line_items[k]).invoice_id@,
            ) by {
                let key = next.line_items[k].invoice_id@;
                assert(before.line_items.contains(next.line_items[k]));
                let m = choose|m: int|
                    0 <= m < before.line_items.len() && before.line_items[m] == next.line_items[k];
                assert(has_key(before.invoices, before.line_items[m].invoice_id@));
                assert(lookup(before.invoices, key) is Some);
                assert(lookup(next.invoices, key) is Some);
            }
        }
        r
    }
}

} // verus!
