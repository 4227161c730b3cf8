//! Clients of an organization.

use vstd::prelude::*;

use crate::clock::current_timestamp;
use crate::database::{Database, DbView};
use crate::model::DbError;
use crate::table::{
    find_row, has_key, index_of, lemma_lookup_push, lemma_lookup_update, lemma_members_in_scope,
    lemma_of_scope_isolated, lookup, of_scope, remove_row, select_scope, sort_rows, sorted,
    ListOrder, Row, RowCopy, Scoped,
};
use crate::text::{
    copy_opt_text, lemma_opt_text_le_total, lemma_opt_text_le_trans, opt_text_le, opt_text_le_exec,
};

verus! {

#[derive(Debug, Clone, PartialEq)]
pub struct Client {
    pub id: String,
    pub organization_id: String,
    pub name: Option<String>,
    pub code: Option<String>,
    pub address: Option<String>,
    pub emails: Option<String>,
    pub phone: Option<String>,
    pub website: Option<String>,
    pub registration_number: Option<String>,
    pub vatin: Option<String>,
    pub created_at: Option<String>,
}

#[derive(Debug, Clone, PartialEq)]
pub struct CreateClientRequest {
    pub id: String,
    pub organization_id: String,
    pub name: Option<String>,
    pub code: Option<String>,
    pub address: Option<String>,
    pub emails: Option<String>,
    pub phone: Option<String>,
    pub website: Option<String>,
    pub registration_number: Option<String>,
    pub vatin: Option<String>,
}

/// A full record of the declared fields: every one is written, a missing
/// value clears the column.
#[derive(Debug, Clone, PartialEq)]
pub struct UpdateClientRequest {
    pub name: Option<String>,
    pub code: Option<String>,
    pub address: Option<String>,
    pub emails: Option<String>,
    pub phone: Option<String>,
    pub website: Option<String>,
    pub registration_number: Option<String>,
    pub vatin: Option<String>,
}

impl Row for Client {
    open spec fn key(&self) -> Seq<char> {
        self.id@
    }

    fn key_text(&self) -> (r: &str) {
        self.id.as_str()
    }
}

impl Scoped for Client {
    open spec fn scope(&self) -> Seq<char> {
        self.organization_id@
    }

    fn scope_text(&self) -> (r: &str) {
        self.organization_id.as_str()
    }
}

impl RowCopy for Client {
    fn copy_row(&self) -> (r: Client) {
        Client {
            id: self.id.clone(),
            organization_id: self.organization_id.clone(),
            name: copy_opt_text(&self.name),
            code: copy_opt_text(&self.code),
            address: copy_opt_text(&self.address),
            emails: copy_opt_text(&self.emails),
            phone: copy_opt_text(&self.phone),
            website: copy_opt_text(&self.website),
            registration_number: copy_opt_text(&self.registration_number),
            vatin: copy_opt_text(&self.vatin),
            created_at: copy_opt_text(&self.created_at),
        }
    }
}

/// Clients are listed by name, ascending.
impl ListOrder for Client {
    open spec fn sorts_before(&self, other: &Client) -> bool {
        opt_text_le(self.name, other.name)
    }

    fn sorts_before_exec(&self, other: &Client) -> (r: bool) {
        opt_text_le_exec(&self.name, &other.name)
    }

    proof fn lemma_sorts_total(a: &Client, b: &Client) {
        lemma_opt_text_le_total(a.name, b.name);
    }

    proof fn lemma_sorts_trans(a: &Client, b: &Client, c: &Client) {
        lemma_opt_text_le_trans(a.name, b.name, c.name);
    }
}

/// The row that `create` writes.
pub open spec fn client_row(req: CreateClientRequest, created_at: String) -> Client {
    Client {
        id: req.id,
        organization_id: req.organization_id,
        name: req.name,
        code: req.code,
        address: req.address,
        emails: req.emails,
        phone: req.phone,
        website: req.website,
        registration_number: req.registration_number,
        vatin: req.vatin,
        created_at: Some(created_at),
    }
}

/// The row after `update`: the declared fields replaced, the keys and the
/// creation time kept.
pub open spec fn client_updated(c: Client, u: UpdateClientRequest) -> Client {
    Client {
        name: u.name,
        code: u.code,
        address: u.address,
        emails: u.emails,
        phone: u.phone,
        website: u.website,
        registration_number: u.registration_number,
        vatin: u.vatin,
        ..c
    }
}

/// The client name that a left join attaches to a row naming `client_id`.
pub open spec fn client_name_of(client_id: Option<String>, clients: Seq<Client>) -> Option<String> {
    match client_id {
        Some(c) => match lookup(clients, c@) {
            Some(row) => row.name,
            None => None,
        },
        None => None,
    }
}

/// A row that names no client, or one that exists.
pub open spec fn client_ref_ok(client_id: Option<String>, clients: Seq<Client>) -> bool {
    match client_id {
        Some(c) => has_key(clients, c@),
        None => true,
    }
}

impl DbView {
    pub open spec fn client(self, id: Seq<char>) -> Option<Client> {
        lookup(self.clients, id)
    }

    /// What `create_client` does, given the creation time.
    pub open spec fn create_client_outcome(self, req: CreateClientRequest, created_at: String) -> (
        DbView,
        Result<Client, DbError>,
    ) {
        if has_key(self.clients, req.id@) {
            (self, Err(DbError::Conflict))
        } else if !self.has_organization(req.organization_id@) {
            (self, Err(DbError::ForeignKey))
        } else {
            let row = client_row(req, created_at);
            (DbView { clients: self.clients.push(row), ..self }, Ok(row))
        }
    }

    /// What `update_client` does.
    pub open spec fn update_client_outcome(self, id: Seq<char>, u: UpdateClientRequest) -> (
        DbView,
        Result<Client, DbError>,
    ) {
        if !has_key(self.clients, id) {
            (self, Err(DbError::NotFound))
        } else {
            let i = index_of(self.clients, id);
            let row = client_updated(self.clients[i], u);
            (DbView { clients: self.clients.update(i, row), ..self }, Ok(row))
        }
    }

    /// What `delete_client` does; dependent rows are left as they are.
    pub open spec fn delete_client_outcome(self, id: Seq<char>) -> (DbView, bool) {
        if has_key(self.clients, id) {
            (DbView { clients: self.clients.remove(index_of(self.clients, id)), ..self }, true)
        } else {
            (self, false)
        }
    }
}

impl Database {
    /// The name of client `client_id`, as a left join finds it.
    pub fn client_name_for(&self, client_id: &Option<String>) -> (r: Option<String>)
        requires
            self.wf(),
        ensures
            r == client_name_of(*client_id, self@.clients),
    {
        match client_id {
            None => None,
            Some(c) => match find_row(&self.clients, c.as_str()) {
                Some(j) => copy_opt_text(&self.clients[j].name),
                None => None,
            },
        }
    }

    /// Whether `client_id` names no client or an existing one.
    pub fn client_ref_exists(&self, client_id: &Option<String>) -> (r: bool)
        requires
            self.wf(),
        ensures
            r == client_ref_ok(*client_id, self@.clients),
    {
        match client_id {
            None => true,
            Some(c) => find_row(&self.clients, c.as_str()).is_some(),
        }
    }

    /// The clients of organization `organization_id`, ordered by name.
    pub fn get_clients(&self, organization_id: &str) -> (r: Vec<Client>)
        requires
            self.wf(),
        ensures
            r@.to_multiset() == of_scope(self@.clients, organization_id@).to_multiset(),
            sorted(r@),
            forall|i: int| 0 <= i < r@.len() ==> (#[trigger] r@[i]).organization_id@ == organization_id@,
    {
        let r = sort_rows(select_scope(&self.clients, organization_id));
        proof {
            lemma_of_scope_isolated(self@.clients, organization_id@);
            lemma_members_in_scope(r@, of_scope(self@.clients, organization_id@), organization_id@);
        }
        r
    }

    /// The client with identifier `client_id`.
    pub fn get_client(&self, client_id: &str) -> (r: Option<Client>)
        requires
            self.wf(),
        ensures
            r == self@.client(client_id@),
    {
        match find_row(&self.clients, client_id) {
            Some(i) => Some(self.clients[i].copy_row()),
            None => None,
        }
    }

    /// Inserts a client, stamped with `created_at`.
    pub fn create_client_at(&mut self, client: CreateClientRequest, created_at: String) -> (r: Result<Client, DbError>)
        requires
            old(self).wf(),
        ensures
            final(self).wf(),
            (final(self)@, r) == old(self)@.create_client_outcome(client, created_at),
    {
        let ghost req = client;
        if find_row(&self.clients, client.id.as_str()).is_some() {
            return Err(DbError::Conflict);
        }
        if find_row(&self.organizations, client.organization_id.as_str()).is_none() {
            return Err(DbError::ForeignKey);
        }
        let row = Client {
            id: client.id,
            organization_id: client.organization_id,
            name: client.name,
            code: client.code,
            address: client.address,
            emails: client.emails,
            phone: client.phone,
            website: client.website,
            registration_number: client.registration_number,
            vatin: client.vatin,
            created_at: Some(created_at),
        };
        proof {
            lemma_lookup_push(self.clients@, row);
        }
        let out = row.copy_row();
        self.clients.push(row);
        Ok(out)
    }

    /// Inserts a client, stamped with the current time.
    pub fn create_client(&mut self, client: CreateClientRequest) -> (r: Result<Client, DbError>)
        requires
            old(self).wf(),
        ensures
            final(self).wf(),
            exists|t: String| (final(self)@, r) == old(self)@.create_client_outcome(client, t),
    {
        let t = current_timestamp();
        self.create_client_at(client, t)
    }

    /// Replaces the declared fields of client `client_id`.
    pub fn update_client(&mut self, client_id: &str, updates: UpdateClientRequest) -> (r: Result<Client, DbError>)
        requires
            old(self).wf(),
        ensures
            final(self).wf(),
            (final(self)@, r) == old(self)@.update_client_outcome(client_id@, updates),
    {
        match find_row(&self.clients, client_id) {
            None => Err(DbError::NotFound),
            Some(i) => {
                let old_row = self.clients[i].copy_row();
                let row = Client {
                    name: updates.name,
                    code: updates.code,
                    address: updates.address,
                    emails: updates.emails,
                    phone: updates.phone,
                    website: updates.website,
                    registration_number: updates.registration_number,
                    vatin: updates.vatin,
                    ..old_row
                };
                proof {
                    lemma_lookup_update(self.clients@, i as int, row);
                }
                let out = row.copy_row();
                self.clients.set(i, row);
                Ok(out)
            },
        }
    }

    /// Deletes client `client_id`; true iff a row was removed.
    pub fn delete_client(&mut self, client_id: &str) -> (r: bool)
        requires
            old(self).wf(),
        ensures
            final(self).wf(),
            (final(self)@, r) == old(self)@.delete_client_outcome(client_id@),
    {
        remove_row(&mut self.clients, client_id)
    }
}

} // verus!
