//! Projects of an organization, optionally for one client.

use vstd::prelude::*;

use crate::client::{client_name_of, client_ref_ok, Client};
use crate::clock::current_timestamp;
use crate::database::{Database, DbView};
use crate::model::{coalesce, coalesce_exec, DbError};
use crate::table::{
    find_row, has_key, index_of, lemma_lookup_push, lemma_lookup_update, lemma_members_in_scope,
    lemma_of_scope_isolated, lookup, of_scope, select_scope, sort_rows, sorted, ListOrder, Row,
    RowCopy, Scoped,
};
use crate::text::{copy_opt_text, lemma_text_le_total, lemma_text_le_trans, text_le, text_le_exec};

verus! {

#[derive(Debug, Clone, PartialEq)]
pub struct Project {
    pub id: String,
    pub organization_id: String,
    pub name: String,
    pub client_id: Option<String>,
    /// The client's name, filled in by reads.
    pub client_name: Option<String>,
    pub start_date: Option<i64>,
    pub end_date: Option<i64>,
    /// Set when the project is archived.
    pub archived_at: Option<i64>,
    pub created_at: Option<String>,
}

#[derive(Debug, Clone, PartialEq)]
pub struct CreateProjectRequest {
    pub id: String,
    pub organization_id: String,
    pub name: String,
    pub client_id: Option<String>,
    pub start_date: Option<i64>,
    pub end_date: Option<i64>,
    pub archived_at: Option<i64>,
}

/// Each field that is present is written; the others keep their value.
#[derive(Debug, Clone, PartialEq)]
pub struct UpdateProjectRequest {
    pub name: Option<String>,
    pub client_id: Option<String>,
    pub start_date: Option<i64>,
    pub end_date: Option<i64>,
    pub archived_at: Option<i64>,
}

impl Row for Project {
    open spec fn key(&self) -> Seq<char> {
        self.id@
    }

    fn key_text(&self) -> (r: &str) {
        self.id.as_str()
    }
}

impl Scoped for Project {
    open spec fn scope(&self) -> Seq<char> {
        self.organization_id@
    }

    fn scope_text(&self) -> (r: &str) {
        self.organization_id.as_str()
    }
}

impl RowCopy for Project {
    fn copy_row(&self) -> (r: Project) {
        Project {
            id: self.id.clone(),
            organization_id: self.organization_id.clone(),
            name: self.name.clone(),
            client_id: copy_opt_text(&self.client_id),
            client_name: copy_opt_text(&self.client_name),
            start_date: self.start_date,
            end_date: self.end_date,
            archived_at: self.archived_at,
            created_at: copy_opt_text(&self.created_at),
        }
    }
}

/// Projects are listed by name, ascending.
impl ListOrder for Project {
    open spec fn sorts_before(&self, other: &Project) -> bool {
        text_le(self.name@, other.name@)
    }

    fn sorts_before_exec(&self, other: &Project) -> (r: bool) {
        text_le_exec(self.name.as_str(), other.name.as_str())
    }

    proof fn lemma_sorts_total(a: &Project, b: &Project) {
        lemma_text_le_total(a.name@, b.name@);
    }

    proof fn lemma_sorts_trans(a: &Project, b: &Project, c: &Project) {
        lemma_text_le_trans(a.name@, b.name@, c.name@);
    }
}

/// The stored row that `create` writes (no client name is stored).
pub open spec fn project_row(req: CreateProjectRequest, created_at: String) -> Project {
    Project {
        id: req.id,
        organization_id: req.organization_id,
        name: req.name,
        client_id: req.client_id,
        client_name: None,
        start_date: req.start_date,
        end_date: req.end_date,
        archived_at: req.archived_at,
        created_at: Some(created_at),
    }
}

pub open spec fn project_updated(p: Project, u: UpdateProjectRequest) -> Project {
    Project {
        name: coalesce(u.name, Some(p.name)).unwrap(),
        client_id: coalesce(u.client_id, p.client_id),
        start_date: coalesce(u.start_date, p.start_date),
        end_date: coalesce(u.end_date, p.end_date),
        archived_at: coalesce(u.archived_at, p.archived_at),
        ..p
    }
}

/// A project as reads return it, with its client's name (a left join).
pub open spec fn project_joined(p: Project, clients: Seq<Client>) -> Project {
    Project { client_name: client_name_of(p.client_id, clients), ..p }
}

pub open spec fn projects_joined(rows: Seq<Project>, clients: Seq<Client>) -> Seq<Project> {
    Seq::new(rows.len(), |i: int| project_joined(rows[i], clients))
}

impl DbView {
    pub open spec fn project(self, id: Seq<char>) -> Option<Project> {
        match lookup(self.projects, id) {
            Some(p) => Some(project_joined(p, self.clients)),
            None => None,
        }
    }

    pub open spec fn create_project_outcome(self, req: CreateProjectRequest, created_at: String) -> (
        DbView,
        Result<Project, DbError>,
    ) {
        if has_key(self.projects, req.id@) {
            (self, Err(DbError::Conflict))
        } else if !self.has_organization(req.organization_id@) || !client_ref_ok(
            req.client_id,
            self.clients,
        ) {
            (self, Err(DbError::ForeignKey))
        } else {
            let row = project_row(req, created_at);
            (
                DbView { projects: self.projects.push(row), ..self },
                Ok(project_joined(row, self.clients)),
            )
        }
    }

    pub open spec fn update_project_outcome(self, id: Seq<char>, u: UpdateProjectRequest) -> (
        DbView,
        Result<Project, DbError>,
    ) {
        if !has_key(self.projects, id) {
            (self, Err(DbError::NotFound))
        } else {
            let i = index_of(self.projects, id);
            let row = project_updated(self.projects[i], u);
            (
                DbView { projects: self.projects.update(i, row), ..self },
                Ok(project_joined(row, self.clients)),
            )
        }
    }
}

impl Database {
    /// `p` with its client's name (a left join).
    fn join_project(&self, p: &Project) -> (r: Project)
        requires
            self.wf(),
        ensures
            r == project_joined(*p, self@.clients),
    {
        let mut out = p.copy_row();
        out.client_name = self.client_name_for(&p.client_id);
        out
    }

    /// The projects of organization `organization_id`, ordered by name.
    pub fn get_projects(&self, organization_id: &str) -> (r: Vec<Project>)
        requires
            self.wf(),
        ensures
            r@.to_multiset() == projects_joined(
                of_scope(self@.projects, organization_id@),
                self@.clients,
            ).to_multiset(),
            sorted(r@),
            forall|i: int| 0 <= i < r@.len() ==> (#[trigger] r@[i]).organization_id@ == organization_id@,
    {
        let rows = select_scope(&self.projects, organization_id);
        let mut out: Vec<Project> = Vec::new();
        let mut i: usize = 0;
        while i < rows.len()
            invariant
                self.wf(),
                i <= rows@.len(),
                out@ =~= projects_joined(rows@, self@.clients).take(i as int),
            decreases rows@.len() - i,
        {
            out.push(self.join_project(&rows[i]));
            i = i + 1;
        }
        assert(out@ =~= projects_joined(rows@, self@.clients));
        let r = sort_rows(out);
        proof {
            lemma_of_scope_isolated(self@.projects, organization_id@);
            lemma_members_in_scope(r@, projects_joined(rows@, self@.clients), organization_id@);
        }
        r
    }

    /// The project with identifier `project_id`, joined to its client.
    pub fn get_project(&self, project_id: &str) -> (r: Option<Project>)
        requires
            self.wf(),
        ensures
            r == self@.project(project_id@),
    {
        match find_row(&self.projects, project_id) {
            Some(i) => Some(self.join_project(&self.projects[i])),
            None => None,
        }
    }

    /// Inserts a project, stamped with `created_at`.
    pub fn create_project_at(&mut self, project: CreateProjectRequest, created_at: String) -> (r:
        Result<Project, DbError>)
        requires
            old(self).wf(),
        ensures
            final(self).wf(),
            (final(self)@, r) == old(self)@.create_project_outcome(project, created_at),
    {
        if find_row(&self.projects, project.id.as_str()).is_some() {
            return Err(DbError::Conflict);
        }
        if find_row(&self.organizations, project.organization_id.as_str()).is_none() {
            return Err(DbError::ForeignKey);
        }
        if !self.client_ref_exists(&project.client_id) {
            return Err(DbError::ForeignKey);
        }
        let row = Project {
            id: project.id,
            organization_id: project.organization_id,
            name: project.name,
            client_id: project.client_id,
            client_name: None,
            start_date: project.start_date,
            end_date: project.end_date,
            archived_at: project.archived_at,
            created_at: Some(created_at),
        };
        proof {
            lemma_lookup_push(self.projects@, row);
        }
        let out = self.join_project(&row);
        self.projects.push(row);
        Ok(out)
    }

    /// Inserts a project, stamped with the current time.
    pub fn create_project(&mut self, project: CreateProjectRequest) -> (r: Result<Project, DbError>)
        requires
            old(self).wf(),
        ensures
            final(self).wf(),
            exists|t: String| (final(self)@, r) == old(self)@.create_project_outcome(project, t),
    {
        let t = current_timestamp();
        self.create_project_at(project, t)
    }

    /// Writes the fields present in `updates` to project `project_id`.
    pub fn update_project(&mut self, project_id: &str, updates: UpdateProjectRequest) -> (r: Result<
        Project,
        DbError,
    >)
        requires
            old(self).wf(),
        ensures
            final(self).wf(),
            (final(self)@, r) == old(self)@.update_project_outcome(project_id@, updates),
    {
        match find_row(&self.projects, project_id) {
            None => Err(DbError::NotFound),
            Some(i) => {
                let old_row = self.projects[i].copy_row();
                let row = Project {
                    name: match updates.name { Some(v) => v, None => old_row.name },
                    client_id: coalesce_exec(updates.client_id, old_row.client_id),
                    start_date: coalesce_exec(updates.start_date, old_row.start_date),
                    end_date: coalesce_exec(updates.end_date, old_row.end_date),
                    archived_at: coalesce_exec(updates.archived_at, old_row.archived_at),
                    ..old_row
                };
                proof {
                    lemma_lookup_update(self.projects@, i as int, row);
                }
                let out = self.join_project(&row);
                self.projects.set(i, row);
                Ok(out)
            },
        }
    }
}

} // verus!
