//! Tags and time entries.

use vstd::prelude::*;

use crate::client::{client_name_of, client_ref_ok, Client};
use crate::clock::current_timestamp;
use crate::database::{Database, DbView};
use crate::model::{coalesce, coalesce_exec, DbError, Real};
use crate::table::{
    find_row, has_key, index_of, lemma_lookup_push, lemma_lookup_update, lemma_members_in_scope,
    lemma_of_scope_isolated, lookup, of_scope, remove_row, select_scope, sort_rows, sorted,
    ListOrder, Row, RowCopy, Scoped,
};
use crate::text::{copy_opt_text, lemma_text_le_total, lemma_text_le_trans, text_le, text_le_exec};

verus! {

#[derive(Debug, Clone, PartialEq)]
pub struct Tag {
    pub id: String,
    pub organization_id: String,
    pub name: String,
    pub color: String,
    pub created_at: Option<String>,
}

#[derive(Debug, Clone, PartialEq)]
pub struct CreateTagRequest {
    pub id: String,
    pub organization_id: String,
    pub name: String,
    pub color: String,
}

#[derive(Debug, Clone, PartialEq)]
pub struct UpdateTagRequest {
    pub name: Option<String>,
    pub color: Option<String>,
}

#[derive(Debug, Clone, PartialEq)]
pub struct TimeEntry {
    pub id: String,
    pub organization_id: String,
    pub client_id: Option<String>,
    pub description: Option<String>,
    /// Epoch milliseconds.
    pub start_time: i64,
    /// Epoch milliseconds; none while the entry is running.
    pub end_time: Option<i64>,
    /// Seconds, as the caller supplied them.
    pub duration: i64,
    /// A JSON array of tag names.
    pub tags: Option<String>,
    pub is_billable: i64,
    pub hourly_rate: Option<Real>,
    pub created_at: Option<String>,
    /// The client's name, filled in by reads.
    pub client_name: Option<String>,
}

#[derive(Debug, Clone, PartialEq)]
pub struct CreateTimeEntryRequest {
    pub id: String,
    pub organization_id: String,
    pub client_id: Option<String>,
    pub description: Option<String>,
    pub start_time: i64,
    pub end_time: Option<i64>,
    pub duration: i64,
    pub tags: Option<String>,
    pub is_billable: i64,
    pub hourly_rate: Option<Real>,
}

#[derive(Debug, Clone, PartialEq)]
pub struct UpdateTimeEntryRequest {
    pub client_id: Option<String>,
    pub description: Option<String>,
    pub start_time: Option<i64>,
    pub end_time: Option<i64>,
    pub duration: Option<i64>,
    pub tags: Option<String>,
    pub is_billable: Option<i64>,
    pub hourly_rate: Option<Real>,
}

impl Row for Tag {
    open spec fn key(&self) -> Seq<char> {
        self.id@
    }

    fn key_text(&self) -> (r: &str) {
        self.id.as_str()
    }
}

impl Scoped for Tag {
    open spec fn scope(&self) -> Seq<char> {
        self.organization_id@
    }

    fn scope_text(&self) -> (r: &str) {
        self.organization_id.as_str()
    }
}

impl RowCopy for Tag {
    fn copy_row(&self) -> (r: Tag) {
        Tag {
            id: self.id.clone(),
            organization_id: self.organization_id.clone(),
            name: self.name.clone(),
            color: self.color.clone(),
            created_at: copy_opt_text(&self.created_at),
        }
    }
}

/// Tags are listed by name, ascending.
impl ListOrder for Tag {
    open spec fn sorts_before(&self, other: &Tag) -> bool {
        text_le(self.name@, other.name@)
    }

    fn sorts_before_exec(&self, other: &Tag) -> (r: bool) {
        text_le_exec(self.name.as_str(), other.name.as_str())
    }

    proof fn lemma_sorts_total(a: &Tag, b: &Tag) {
        lemma_text_le_total(a.name@, b.name@);
    }

    proof fn lemma_sorts_trans(a: &Tag, b: &Tag, c: &Tag) {
        lemma_text_le_trans(a.name@, b.name@, c.name@);
    }
}

impl Row for TimeEntry {
    open spec fn key(&self) -> Seq<char> {
        self.id@
    }

    fn key_text(&self) -> (r: &str) {
        self.id.as_str()
    }
}

impl Scoped for TimeEntry {
    open spec fn scope(&self) -> Seq<char> {
        self.organization_id@
    }

    fn scope_text(&self) -> (r: &str) {
        self.organization_id.as_str()
    }
}

impl RowCopy for TimeEntry {
    fn copy_row(&self) -> (r: TimeEntry) {
        TimeEntry {
            id: self.id.clone(),
            organization_id: self.organization_id.clone(),
            client_id: copy_opt_text(&self.client_id),
            description: copy_opt_text(&self.description),
            start_time: self.start_time,
            end_time: self.end_time,
            duration: self.duration,
            tags: copy_opt_text(&self.tags),
            is_billable: self.is_billable,
            hourly_rate: self.hourly_rate,
            created_at: copy_opt_text(&self.created_at),
            client_name: copy_opt_text(&self.client_name),
        }
    }
}

/// Time entries are listed by start time, latest first.
impl ListOrder for TimeEntry {
    open spec fn sorts_before(&self, other: &TimeEntry) -> bool {
        self.start_time >= other.start_time
    }

    fn sorts_before_exec(&self, other: &TimeEntry) -> (r: bool) {
        self.start_time >= other.start_time
    }

    proof fn lemma_sorts_total(a: &TimeEntry, b: &TimeEntry) {
    }

    proof fn lemma_sorts_trans(a: &TimeEntry, b: &TimeEntry, c: &TimeEntry) {
    }
}

pub open spec fn tag_row(req: CreateTagRequest, created_at: String) -> Tag {
    Tag {
        id: req.id,
        organization_id: req.organization_id,
        name: req.name,
        color: req.color,
        created_at: Some(created_at),
    }
}

pub open spec fn tag_updated(t: Tag, u: UpdateTagRequest) -> Tag {
    Tag {
        name: coalesce(u.name, Some(t.name)).unwrap(),
        color: coalesce(u.color, Some(t.color)).unwrap(),
        ..t
    }
}

/// The stored row that `create` writes (no client name is stored).
pub open spec fn time_entry_row(req: CreateTimeEntryRequest, created_at: String) -> TimeEntry {
    TimeEntry {
        id: req.id,
        organization_id: req.organization_id,
        client_id: req.client_id,
        description: req.description,
        start_time: req.start_time,
        end_time: req.end_time,
        duration: req.duration,
        tags: req.tags,
        is_billable: req.is_billable,
        hourly_rate: req.hourly_rate,
        created_at: Some(created_at),
        client_name: None,
    }
}

pub open spec fn time_entry_updated(t: TimeEntry, u: UpdateTimeEntryRequest) -> TimeEntry {
    TimeEntry {
        client_id: coalesce(u.client_id, t.client_id),
        description: coalesce(u.description, t.description),
        start_time: coalesce(u.start_time, Some(t.start_time)).unwrap(),
        end_time: coalesce(u.end_time, t.end_time),
        duration: coalesce(u.duration, Some(t.duration)).unwrap(),
        tags: coalesce(u.tags, t.tags),
        is_billable: coalesce(u.is_billable, Some(t.is_billable)).unwrap(),
        hourly_rate: coalesce(u.hourly_rate, t.hourly_rate),
        ..t
    }
}

/// A time entry as reads return it, with its client's name (a left join).
pub open spec fn time_entry_joined(t: TimeEntry, clients: Seq<Client>) -> TimeEntry {
    TimeEntry { client_name: client_name_of(t.client_id, clients), ..t }
}

pub open spec fn time_entries_joined(rows: Seq<TimeEntry>, clients: Seq<Client>) -> Seq<TimeEntry> {
    Seq::new(rows.len(), |i: int| time_entry_joined(rows[i], clients))
}

impl DbView {
    pub open spec fn tag(self, id: Seq<char>) -> Option<Tag> {
        lookup(self.tags, id)
    }

    pub open spec fn time_entry(self, id: Seq<char>) -> Option<TimeEntry> {
        match lookup(self.time_entries, id) {
            Some(t) => Some(time_entry_joined(t, self.clients)),
            None => None,
        }
    }

    pub open spec fn create_tag_outcome(self, req: CreateTagRequest, created_at: String) -> (
        DbView,
        Result<Tag, DbError>,
    ) {
        if has_key(self.tags, req.id@) {
            (self, Err(DbError::Conflict))
        } else if !self.has_organization(req.organization_id@) {
            (self, Err(DbError::ForeignKey))
        } else {
            let row = tag_row(req, created_at);
            (DbView { tags: self.tags.push(row), ..self }, Ok(row))
        }
    }

    pub open spec fn update_tag_outcome(self, id: Seq<char>, u: UpdateTagRequest) -> (
        DbView,
        Result<Tag, DbError>,
    ) {
        if !has_key(self.tags, id) {
            (self, Err(DbError::NotFound))
        } else {
            let i = index_of(self.tags, id);
            let row = tag_updated(self.tags[i], u);
            (DbView { tags: self.tags.update(i, row), ..self }, Ok(row))
        }
    }

    pub open spec fn delete_tag_outcome(self, id: Seq<char>) -> (DbView, bool) {
        if has_key(self.tags, id) {
            (DbView { tags: self.tags.remove(index_of(self.tags, id)), ..self }, true)
        } else {
            (self, false)
        }
    }

    pub open spec fn create_time_entry_outcome(
        self,
        req: CreateTimeEntryRequest,
        created_at: String,
    ) -> (DbView, Result<TimeEntry, DbError>) {
        if has_key(self.time_entries, req.id@) {
            (self, Err(DbError::Conflict))
        } else if !self.has_organization(req.organization_id@) || !client_ref_ok(
            req.client_id,
            self.clients,
        ) {
            (self, Err(DbError::ForeignKey))
        } else {
            let row = time_entry_row(req, created_at);
            (
                DbView { time_entries: self.time_entries.push(row), ..self },
                Ok(time_entry_joined(row, self.clients)),
            )
        }
    }

    pub open spec fn update_time_entry_outcome(self, id: Seq<char>, u: UpdateTimeEntryRequest) -> (
        DbView,
        Result<TimeEntry, DbError>,
    ) {
        if !has_key(self.time_entries, id) {
            (self, Err(DbError::NotFound))
        } else {
            let i = index_of(self.time_entries, id);
            let row = time_entry_updated(self.time_entries[i], u);
            (
                DbView { time_entries: self.time_entries.update(i, row), ..self },
                Ok(time_entry_joined(row, self.clients)),
            )
        }
    }

    pub open spec fn delete_time_entry_outcome(self, id: Seq<char>) -> (DbView, bool) {
        if has_key(self.time_entries, id) {
            (
                DbView {
                    time_entries: self.time_entries.remove(index_of(self.time_entries, id)),
                    ..self
                },
                true,
            )
        } else {
            (self, false)
        }
    }
}

impl Database {
    /// The tags of organization `organization_id`, ordered by name.
    pub fn get_tags(&self, organization_id: &str) -> (r: Vec<Tag>)
        requires
            self.wf(),
        ensures
            r@.to_multiset() == of_scope(self@.tags, organization_id@).to_multiset(),
            sorted(r@),
            forall|i: int| 0 <= i < r@.len() ==> (#[trigger] r@[i]).organization_id@ == organization_id@,
    {
        let r = sort_rows(select_scope(&self.tags, organization_id));
        proof {
            lemma_of_scope_isolated(self@.tags, organization_id@);
            lemma_members_in_scope(r@, of_scope(self@.tags, organization_id@), organization_id@);
        }
        r
    }

    /// The tag with identifier `tag_id`.
    pub fn get_tag(&self, tag_id: &str) -> (r: Option<Tag>)
        requires
            self.wf(),
        ensures
            r == self@.tag(tag_id@),
    {
        match find_row(&self.tags, tag_id) {
            Some(i) => Some(self.tags[i].copy_row()),
            None => None,
        }
    }

    /// Inserts a tag, stamped with `created_at`.
    pub fn create_tag_at(&mut self, tag: CreateTagRequest, created_at: String) -> (r: Result<Tag, DbError>)
        requires
            old(self).wf(),
        ensures
            final(self).wf(),
            (final(self)@, r) == old(self)@.create_tag_outcome(tag, created_at),
    {
        if find_row(&self.tags, tag.id.as_str()).is_some() {
            return Err(DbError::Conflict);
        }
        if find_row(&self.organizations, tag.organization_id.as_str()).is_none() {
            return Err(DbError::ForeignKey);
        }
        let row = Tag {
            id: tag.id,
            organization_id: tag.organization_id,
            name: tag.name,
            color: tag.color,
            created_at: Some(created_at),
        };
        proof {
            lemma_lookup_push(self.tags@, row);
        }
        let out = row.copy_row();
        self.tags.push(row);
        Ok(out)
    }

    /// Inserts a tag, stamped with the current time.
    pub fn create_tag(&mut self, tag: CreateTagRequest) -> (r: Result<Tag, DbError>)
        requires
            old(self).wf(),
        ensures
            final(self).wf(),
            exists|t: String| (final(self)@, r) == old(self)@.create_tag_outcome(tag, t),
    {
        let t = current_timestamp();
        self.create_tag_at(tag, t)
    }

    /// Applies a patch to tag `tag_id`.
    pub fn update_tag(&mut self, tag_id: &str, updates: UpdateTagRequest) -> (r: Result<Tag, DbError>)
        requires
            old(self).wf(),
        ensures
            final(self).wf(),
            (final(self)@, r) == old(self)@.update_tag_outcome(tag_id@, updates),
    {
        match find_row(&self.tags, tag_id) {
            None => Err(DbError::NotFound),
            Some(i) => {
                let old_row = self.tags[i].copy_row();
                let row = Tag {
                    name: match updates.name { Some(v) => v, None => old_row.name },
                    color: match updates.color { Some(v) => v, None => old_row.color },
                    ..old_row
                };
                proof {
                    lemma_lookup_update(self.tags@, i as int, row);
                }
                let out = row.copy_row();
                self.tags.set(i, row);
                Ok(out)
            },
        }
    }

    /// Deletes tag `tag_id`; true iff a row was removed.
    pub fn delete_tag(&mut self, tag_id: &str) -> (r: bool)
        requires
            old(self).wf(),
        ensures
            final(self).wf(),
            (final(self)@, r) == old(self)@.delete_tag_outcome(tag_id@),
    {
        remove_row(&mut self.tags, tag_id)
    }

    /// `t` with its client's name (a left join).
    fn join_time_entry(&self, t: &TimeEntry) -> (r: TimeEntry)
        requires
            self.wf(),
        ensures
            r == time_entry_joined(*t, self@.clients),
    {
        let mut out = t.copy_row();
        out.client_name = self.client_name_for(&t.client_id);
        out
    }

    /// The time entries of organization `organization_id`, latest start first.
    pub fn get_time_entries(&self, organization_id: &str) -> (r: Vec<TimeEntry>)
        requires
            self.wf(),
        ensures
            r@.to_multiset() == time_entries_joined(
                of_scope(self@.time_entries, organization_id@),
                self@.clients,
            ).to_multiset(),
            sorted(r@),
            forall|i: int| 0 <= i < r@.len() ==> (#[trigger] r@[i]).organization_id@ == organization_id@,
    {
        let rows = select_scope(&self.time_entries, organization_id);
        let mut out: Vec<TimeEntry> = Vec::new();
        let mut i: usize = 0;
        while i < rows.len()
            invariant
                self.wf(),
                i <= rows@.len(),
                out@ =~= time_entries_joined(rows@, self@.clients).take(i as int),
            decreases rows@.len() - i,
        {
            out.push(self.join_time_entry(&rows[i]));
            i = i + 1;
        }
        assert(out@ =~= time_entries_joined(rows@, self@.clients));
        let r = sort_rows(out);
        proof {
            lemma_of_scope_isolated(self@.time_entries, organization_id@);
            lemma_members_in_scope(r@, time_entries_joined(rows@, self@.clients), organization_id@);
        }
        r
    }

    /// The time entry with identifier `time_entry_id`, joined to its client.
    pub fn get_time_entry(&self, time_entry_id: &str) -> (r: Option<TimeEntry>)
        requires
            self.wf(),
        ensures
            r == self@.time_entry(time_entry_id@),
    {
        match find_row(&self.time_entries, time_entry_id) {
            Some(i) => Some(self.join_time_entry(&self.time_entries[i])),
            None => None,
        }
    }

    /// Inserts a time entry, stamped with `created_at`. The duration is
    /// stored as supplied; an entry without end time is running.
    pub fn create_time_entry_at(&mut self, time_entry: CreateTimeEntryRequest, created_at: String) -> (r:
        Result<TimeEntry, DbError>)
        requires
            old(self).wf(),
        ensures
            final(self).wf(),
            (final(self)@, r) == old(self)@.create_time_entry_outcome(time_entry, created_at),
    {
        if find_row(&self.time_entries, time_entry.id.as_str()).is_some() {
            return Err(DbError::Conflict);
        }
        if find_row(&self.organizations, time_entry.organization_id.as_str()).is_none() {
            return Err(DbError::ForeignKey);
        }
        if !self.client_ref_exists(&time_entry.client_id) {
            return Err(DbError::ForeignKey);
        }
        let row = TimeEntry {
            id: time_entry.id,
            organization_id: time_entry.organization_id,
            client_id: time_entry.client_id,
            description: time_entry.description,
            start_time: time_entry.start_time,
            end_time: time_entry.end_time,
            duration: time_entry.duration,
            tags: time_entry.tags,
            is_billable: time_entry.is_billable,
            hourly_rate: time_entry.hourly_rate,
            created_at: Some(created_at),
            client_name: None,
        };
        proof {
            lemma_lookup_push(self.time_entries@, row);
        }
        let out = self.join_time_entry(&row);
        self.time_entries.push(row);
        Ok(out)
    }

    /// Inserts a time entry, stamped with the current time.
    pub fn create_time_entry(&mut self, time_entry: CreateTimeEntryRequest) -> (r: Result<
        TimeEntry,
        DbError,
    >)
        requires
            old(self).wf(),
        ensures
            final(self).wf(),
            exists|t: String|
                (final(self)@, r) == old(self)@.create_time_entry_outcome(time_entry, t),
    {
        let t = current_timestamp();
        self.create_time_entry_at(time_entry, t)
    }

    /// Applies a patch to time entry `time_entry_id`.
    pub fn update_time_entry(&mut self, time_entry_id: &str, updates: UpdateTimeEntryRequest) -> (r:
        Result<TimeEntry, DbError>)
        requires
            old(self).wf(),
        ensures
            final(self).wf(),
            (final(self)@, r) == old(self)@.update_time_entry_outcome(time_entry_id@, updates),
    {
        match find_row(&self.time_entries, time_entry_id) {
            None => Err(DbError::NotFound),
            Some(i) => {
                let old_row = self.time_entries[i].copy_row();
                let row = TimeEntry {
                    client_id: coalesce_exec(updates.client_id, old_row.client_id),
                    description: coalesce_exec(updates.description, old_row.description),
                    start_time: match updates.start_time { Some(v) => v, None => old_row.start_time },
                    end_time: coalesce_exec(updates.end_time, old_row.end_time),
                    duration: match updates.duration { Some(v) => v, None => old_row.duration },
                    tags: coalesce_exec(updates.tags, old_row.tags),
                    is_billable: match updates.is_billable { Some(v) => v, None => old_row.is_billable },
                    hourly_rate: coalesce_exec(updates.hourly_rate, old_row.hourly_rate),
                    ..old_row
                };
                proof {
                    lemma_lookup_update(self.time_entries@, i as int, row);
                }
                let out = self.join_time_entry(&row);
                self.time_entries.set(i, row);
                Ok(out)
            },
        }
    }

    /// Deletes time entry `time_entry_id`; true iff a row was removed.
    pub fn delete_time_entry(&mut self, time_entry_id: &str) -> (r: bool)
        requires
            old(self).wf(),
        ensures
            final(self).wf(),
            (final(self)@, r) == old(self)@.delete_time_entry_outcome(time_entry_id@),
    {
        remove_row(&mut self.time_entries, time_entry_id)
    }
}

} // verus!
