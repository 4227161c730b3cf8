//! The store: every table of the database, its abstract state and the
//! invariants that all repository operations keep.

use vstd::prelude::*;

use crate::client::Client;
use crate::invoice::{Invoice, InvoiceLineItem};
use crate::organization::Organization;
use crate::project::Project;
use crate::tax_rate::{check_defaults_unique, defaults_unique, TaxRate};
use crate::time_tracking::{Tag, TimeEntry};
use crate::table::{check_keys_unique, contains_key, has_key, keys_unique};

verus! {

/// The abstract state of the store: the rows of each table, in table order.
pub struct DbView {
    pub organizations: Seq<Organization>,
    pub clients: Seq<Client>,
    pub projects: Seq<Project>,
    pub invoices: Seq<Invoice>,
    pub line_items: Seq<InvoiceLineItem>,
    pub tax_rates: Seq<TaxRate>,
    pub tags: Seq<Tag>,
    pub time_entries: Seq<TimeEntry>,
}

impl DbView {
    /// The invariants of the stored data: primary keys are unique in every
    /// table, every organization has an invoice-number counter, every line
    /// item belongs to a stored invoice, and no organization has two
    /// default tax rates.
    pub open spec fn wf(self) -> bool {
        &&& keys_unique(self.organizations)
        &&& forall|i: int|
            0 <= i < self.organizations.len() ==> (#[trigger] self.organizations[i]).invoice_number_counter is Some
        &&& keys_unique(self.clients)
        &&& keys_unique(self.projects)
        &&& keys_unique(self.invoices)
        &&& forall|i: int|
            0 <= i < self.line_items.len() ==> has_key(self.invoices, (#[trigger] self.line_items[i]).invoice_id@)
        &&& keys_unique(self.tax_rates)
        &&& defaults_unique(self.tax_rates)
        &&& keys_unique(self.tags)
        &&& keys_unique(self.time_entries)
    }

    pub open spec fn has_organization(self, id: Seq<char>) -> bool {
        has_key(self.organizations, id)
    }
}

/// The embedded relational store that all repositories share.
pub struct Database {
    pub organizations: Vec<Organization>,
    pub clients: Vec<Client>,
    pub projects: Vec<Project>,
    pub invoices: Vec<Invoice>,
    pub line_items: Vec<InvoiceLineItem>,
    pub tax_rates: Vec<TaxRate>,
    pub tags: Vec<Tag>,
    pub time_entries: Vec<TimeEntry>,
}

impl View for Database {
    type V = DbView;

    open spec fn view(&self) -> DbView {
        DbView {
            organizations: self.organizations@,
            clients: self.clients@,
            projects: self.projects@,
            invoices: self.invoices@,
            line_items: self.line_items@,
            tax_rates: self.tax_rates@,
            tags: self.tags@,
            time_entries: self.time_entries@,
        }
    }
}

impl Database {
    pub open spec fn wf(&self) -> bool {
        self@.wf()
    }

    /// An empty store, every table empty.
    pub fn new() -> (r: Database)
        ensures
            r.wf(),
            r@.organizations.len() == 0,
            r@.clients.len() == 0,
            r@.projects.len() == 0,
            r@.invoices.len() == 0,
            r@.line_items.len() == 0,
            r@.tax_rates.len() == 0,
            r@.tags.len() == 0,
            r@.time_entries.len() == 0,
    {
        Database {
            organizations: Vec::new(),
            clients: Vec::new(),
            projects: Vec::new(),
            invoices: Vec::new(),
            line_items: Vec::new(),
            tax_rates: Vec::new(),
            tags: Vec::new(),
            time_entries: Vec::new(),
        }
    }

    /// Whether the tables hold the store's invariants: for data read from
    /// outside, before any repository operation runs on it.
    pub fn check_wf(&self) -> (r: bool)
        ensures
            r == self.wf(),
    {
        if !check_keys_unique(&self.organizations) || !check_keys_unique(&self.clients)
            || !check_keys_unique(&self.projects) || !check_keys_unique(&self.invoices)
            || !check_keys_unique(&self.tax_rates) || !check_keys_unique(&self.tags)
            || !check_keys_unique(&self.time_entries) || !check_defaults_unique(&self.tax_rates) {
            return false;
        }
        let mut i: usize = 0;
        while i < self.organizations.len()
            invariant
                i <= self.organizations@.len(),
                forall|k: int| 0 <= k < i ==> (#[trigger] self.organizations@[k]).invoice_number_counter is Some,
            decreases self.organizations@.len() - i,
        {
            if self.organizations[i].invoice_number_counter.is_none() {
                return false;
            }
            i = i + 1;
        }
        let mut j: usize = 0;
        while j < self.line_items.len()
            invariant
                j <= self.line_items@.len(),
                forall|k: int|
                    0 <= k < j ==> has_key(self.invoices@, (#[trigger] self.line_items@[k]).invoice_id@),
            decreases self.line_items@.len() - j,
        {
            if !contains_key(&self.invoices, self.line_items[j].invoice_id.as_str()) {
                return false;
            }
            j = j + 1;
        }
        true
    }
}

} // verus!
