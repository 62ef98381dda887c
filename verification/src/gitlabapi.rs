//! The plain data types of the remote issue tracker, the decisions made
//! over its listings — project lookup, assignee lookup, label existence —
//! and the request payload of a new issue. The network client itself
//! lives outside the library and hands values of these types in and out.

use vstd::prelude::*;
use crate::records::IssueFromFile;
use crate::text::{dec_str, u64_to_string};

verus! {

/// A member of a remote project.
#[derive(Debug, Clone, PartialEq, Eq)]
pub struct GitLabProjectMember {
    pub id: u64,
    pub username: String,
    pub name: String,
}

impl GitLabProjectMember {
    pub fn new(id: u64, username: String, name: String) -> (m: GitLabProjectMember)
        ensures
            m.id == id,
            m.username == username,
            m.name == name,
    {
        GitLabProjectMember { id, username, name }
    }
}

/// A label of a remote project.
#[derive(Debug, Clone, PartialEq, Eq)]
pub struct GitLabProjectLabel {
    pub id: u64,
    pub name: String,
}

impl GitLabProjectLabel {
    pub fn new(id: u64, name: String) -> (l: GitLabProjectLabel)
        ensures
            l.id == id,
            l.name == name,
    {
        GitLabProjectLabel { id, name }
    }
}

/// A remote project, with its members and labels once they were fetched.
#[derive(Debug)]
pub struct GitLabProject {
    pub id: u64,
    pub name: String,
    pub path_with_namespace: String,
    pub members: Option<Vec<GitLabProjectMember>>,
    pub labels: Option<Vec<GitLabProjectLabel>>,
}

impl GitLabProject {
    pub fn new(id: u64, name: String, path_with_namespace: String) -> (p: GitLabProject)
        ensures
            p.id == id,
            p.name == name,
            p.path_with_namespace == path_with_namespace,
            p.members is None,
            p.labels is None,
    {
        GitLabProject { id, name, path_with_namespace, members: None, labels: None }
    }

    /// Attaches the fetched member list; nothing else changes.
    pub fn set_members(&mut self, members: Vec<GitLabProjectMember>)
        ensures
            final (self).members == Some(members),
            final (self).labels == old(self).labels,
            final (self).id == old(self).id,
            final (self).name == old(self).name,
            final (self).path_with_namespace == old(self).path_with_namespace,
    {
        self.members = Some(members);
    }

    /// Attaches the fetched label list; nothing else changes.
    pub fn set_labels(&mut self, labels: Vec<GitLabProjectLabel>)
        ensures
            final (self).labels == Some(labels),
            final (self).members == old(self).members,
            final (self).id == old(self).id,
            final (self).name == old(self).name,
            final (self).path_with_namespace == old(self).path_with_namespace,
    {
        self.labels = Some(labels);
    }
}

/// Why no usable project id could be picked.
#[derive(Debug, Clone, PartialEq, Eq)]
pub enum ProjectLookupError {
    /// No project has the wanted name or namespace path.
    NoneWithName(String),
    /// More than one listed project matches the wanted name.
    ManyWithName(String),
    /// No project has the wanted id.
    NoneWithId(u64),
}

/// The mathematical value of a [`ProjectLookupError`].
pub enum ProjectLookupErrorView {
    NoneWithName(Seq<char>),
    ManyWithName(Seq<char>),
    NoneWithId(u64),
}

impl View for ProjectLookupError {
    type V = ProjectLookupErrorView;

    open spec fn view(&self) -> ProjectLookupErrorView {
        match self {
            ProjectLookupError::NoneWithName(n) => ProjectLookupErrorView::NoneWithName(n@),
            ProjectLookupError::ManyWithName(n) => ProjectLookupErrorView::ManyWithName(n@),
            ProjectLookupError::NoneWithId(i) => ProjectLookupErrorView::NoneWithId(*i),
        }
    }
}

/// The ids of the projects matching a wanted name, from position `i` on:
/// one entry for a name match and one for a namespace-path match, so a
/// project matching both counts twice and is reported as ambiguous.
pub open spec fn spec_name_matches(projects: Seq<GitLabProject>, w: Seq<char>, i: int) -> Seq<u64>
    decreases projects.len() - i,
{
    if i < 0 || i >= projects.len() {
        Seq::empty()
    } else {
        let by_name: Seq<u64> = if projects[i].name@ == w {
            seq![projects[i].id]
        } else {
            Seq::empty()
        };
        let by_path: Seq<u64> = if projects[i].path_with_namespace@ == w {
            seq![projects[i].id]
        } else {
            Seq::empty()
        };
        by_name + by_path + spec_name_matches(projects, w, i + 1)
    }
}

/// Whether some listed project has the wanted id.
pub open spec fn spec_has_id(projects: Seq<GitLabProject>, wanted: u64) -> bool {
    exists|j: int| 0 <= j < projects.len() && projects[j].id == wanted
}

/// Picks the project id to upload to: a wanted name must match exactly
/// one listing (by name or namespace path), a wanted id must be listed.
/// A name, when given, wins over an id.
pub fn get_valid_project_id(
    project_name: &Option<String>,
    project_id: Option<u64>,
    projects: &Vec<GitLabProject>,
) -> (r: Result<u64, ProjectLookupError>)
    requires
        project_name is Some || project_id is Some,
    ensures
        (match project_name {
            Some(w) => {
                let ms = spec_name_matches(projects@, w@, 0);
                match r {
                    Ok(id) => ms.len() == 1 && id == ms[0],
                    Err(e) => (ms.len() == 0 && e@ == ProjectLookupErrorView::NoneWithName(w@)) || (
                    ms.len() > 1 && e@ == ProjectLookupErrorView::ManyWithName(w@)),
                }
            },
            None => {
                let wanted = project_id->0;
                match r {
                    Ok(id) => id == wanted && spec_has_id(projects@, wanted),
                    Err(e) => !spec_has_id(projects@, wanted) && e@
                        == ProjectLookupErrorView::NoneWithId(wanted),
                }
            },
        }),
{
    match project_name {
        Some(w) => {
            let ghost pv = projects@;
            let mut matching: Vec<u64> = Vec::new();
            let mut i: usize = 0;
            while i < projects.len()
                invariant
                    i <= projects.len(),
                    pv == projects@,
                    spec_name_matches(pv, w@, 0) == matching@ + spec_name_matches(
                        pv,
                        w@,
                        i as int,
                    ),
                decreases projects.len() - i,
            {
                let ghost before = matching@;
                let p = &projects[i];
                if p.name == *w {
                    matching.push(p.id);
                }
                if p.path_with_namespace == *w {
                    matching.push(p.id);
                }
                proof {
                    let by_name: Seq<u64> = if pv[i as int].name@ == w@ {
                        seq![pv[i as int].id]
                    } else {
                        Seq::empty()
                    };
                    let by_path: Seq<u64> = if pv[i as int].path_with_namespace@ == w@ {
                        seq![pv[i as int].id]
                    } else {
                        Seq::empty()
                    };
                    assert(matching@ =~= before + by_name + by_path);
                    assert(matching@ + spec_name_matches(pv, w@, i + 1) =~= before + (by_name
                        + by_path + spec_name_matches(pv, w@, i + 1)));
                }
                i = i + 1;
            }
            proof {
                assert(spec_name_matches(pv, w@, pv.len() as int) =~= Seq::<u64>::empty());
                assert(matching@ + Seq::<u64>::empty() =~= matching@);
            }
            if matching.len() == 0 {
                Err(ProjectLookupError::NoneWithName(w.clone()))
            } else if matching.len() == 1 {
                Ok(matching[0])
            } else {
                Err(ProjectLookupError::ManyWithName(w.clone()))
            }
        },
        None => {
            let wanted = match project_id {
                Some(id) => id,
                None => 0,  // unreachable: one of the two is always given
            };
            let mut i: usize = 0;
            while i < projects.len()
                invariant
                    i <= projects.len(),
                    project_name is None,
                    project_id == Some(wanted),
                    forall|j: int| 0 <= j < i ==> projects@[j].id != wanted,
                decreases projects.len() - i,
            {
                if projects[i].id == wanted {
                    proof {
                        assert(spec_has_id(projects@, wanted));
                    }
                    return Ok(wanted);
                }
                i = i + 1;
            }
            Err(ProjectLookupError::NoneWithId(wanted))
        },
    }
}

/// The id of the first member with the wanted username, from position
/// `i` on.
pub open spec fn spec_find_member(
    members: Seq<GitLabProjectMember>,
    username: Seq<char>,
    i: int,
) -> Option<u64>
    decreases members.len() - i,
{
    if i < 0 || i >= members.len() {
        None
    } else if members[i].username@ == username {
        Some(members[i].id)
    } else {
        spec_find_member(members, username, i + 1)
    }
}

/// Looks the assignee up among the project's members: the id of the
/// first member whose username matches exactly, if any does.
pub fn find_member_id(members: &Vec<GitLabProjectMember>, username: &String) -> (r: Option<u64>)
    ensures
        r == spec_find_member(members@, username@, 0),
{
    let mut i: usize = 0;
    while i < members.len()
        invariant
            i <= members.len(),
            spec_find_member(members@, username@, 0) == spec_find_member(
                members@,
                username@,
                i as int,
            ),
        decreases members.len() - i,
    {
        if members[i].username == *username {
            return Some(members[i].id);
        }
        i = i + 1;
    }
    None
}

/// Whether some project label carries exactly this name.
pub open spec fn spec_label_exists(labels: Seq<GitLabProjectLabel>, w: Seq<char>) -> bool {
    exists|j: int| 0 <= j < labels.len() && labels[j].name@ == w
}

/// The first wanted label that no project label matches, from position
/// `i` on.
pub open spec fn spec_first_missing(
    labels: Seq<GitLabProjectLabel>,
    wanted: Seq<Seq<char>>,
    i: int,
) -> Option<Seq<char>>
    decreases wanted.len() - i,
{
    if i < 0 || i >= wanted.len() {
        None
    } else if !spec_label_exists(labels, wanted[i]) {
        Some(wanted[i])
    } else {
        spec_first_missing(labels, wanted, i + 1)
    }
}

fn label_exists(labels: &Vec<GitLabProjectLabel>, w: &String) -> (r: bool)
    ensures
        r == spec_label_exists(labels@, w@),
{
    let mut j: usize = 0;
    while j < labels.len()
        invariant
            j <= labels.len(),
            forall|k: int| 0 <= k < j ==> labels@[k].name@ != w@,
        decreases labels.len() - j,
    {
        if labels[j].name == *w {
            return true;
        }
        j = j + 1;
    }
    false
}

/// Checks every wanted label against the project's labels and returns
/// the first one that does not exist, or nothing when all do.
pub fn first_missing_label(labels: &Vec<GitLabProjectLabel>, wanted: &Vec<String>) -> (r: Option<
    String,
>)
    ensures
        r.deep_view() == spec_first_missing(labels@, wanted.deep_view(), 0),
{
    let ghost wv = wanted.deep_view();
    let mut i: usize = 0;
    while i < wanted.len()
        invariant
            i <= wanted.len(),
            wv == wanted.deep_view(),
            spec_first_missing(labels@, wv, 0) == spec_first_missing(labels@, wv, i as int),
        decreases wanted.len() - i,
    {
        proof {
            assert(wv[i as int] == wanted@[i as int]@);
        }
        if !label_exists(labels, &wanted[i]) {
            return Some(wanted[i].clone());
        }
        i = i + 1;
    }
    None
}

/// The API root under a server's base URL.
pub fn api_base(base_url: &str) -> (r: String)
    ensures
        r@ == base_url@ + "/api/v4"@,
{
    let mut r = base_url.to_owned();
    r.append("/api/v4");
    r
}

/// The URL of one API request: the base, a slash, and the path with any
/// leading slash stripped first (so it is never doubled).
pub fn request_url(base: &String, path: &str) -> (r: String)
    requires
        path@.len() > 0,
    ensures
        r@ == base@ + "/"@ + (if path@[0] == '/' {
            path@.drop_first()
        } else {
            path@
        }),
{
    let stripped: String = if path.get_char(0) == '/' {
        let n = path.unicode_len();
        let s = path.substring_char(1, n).to_owned();
        proof {
            assert(path@.subrange(1, path@.len() as int) =~= path@.drop_first());
        }
        s
    } else {
        path.to_owned()
    };
    let mut r = base.clone();
    r.append("/");
    r.append(stripped.as_str());
    r
}

/// Relies on `uuid::Uuid::new_v4` and its `Display` implementation: a
/// fresh random version-4 UUID, rendered in the hyphenated form, which
/// is always 36 characters long.
#[verifier::external_body]
fn fresh_uuid() -> (r: String)
    ensures
        r@.len() == 36,
{
    uuid::Uuid::new_v4().to_string()
}

/// The request payload of one issue to create remotely.
#[derive(Debug)]
pub struct GitLabProjectIssue {
    pub id: String,
    pub project_id: u64,
    pub title: String,
    pub description: Option<String>,
    pub labels: Option<String>,
    pub assignee_id: Option<u64>,
}

/// The key/value pairs of the create-issue request body: the id and the
/// title always, then the description, the label list and the assignee
/// id, each only when present, the assignee id rendered in decimal.
pub open spec fn spec_issue_body(iss: GitLabProjectIssue) -> Seq<(Seq<char>, Seq<char>)> {
    seq![("id"@, iss.id@), ("title"@, iss.title@)] + (match iss.description {
        Some(d) => seq![("description"@, d@)],
        None => Seq::empty(),
    }) + (match iss.labels {
        Some(l) => seq![("labels"@, l@)],
        None => Seq::empty(),
    }) + (match iss.assignee_id {
        Some(a) => seq![("assignee_id"@, dec_str(a as int))],
        None => Seq::empty(),
    })
}

impl GitLabProjectIssue {
    /// Builds the payload from an extracted record, the chosen project,
    /// the caller-supplied label list and the resolved assignee; a fresh
    /// random id is attached.
    pub fn new(
        project_id: u64,
        issue: &IssueFromFile,
        labels: &Option<String>,
        assignee_id: Option<u64>,
    ) -> (r: GitLabProjectIssue)
        ensures
            r.project_id == project_id,
            r.title == issue.title,
            r.description == issue.description,
            r.labels == *labels,
            r.assignee_id == assignee_id,
            r.id@.len() == 36,
    {
        let description = match &issue.description {
            Some(d) => Some(d.clone()),
            None => None,
        };
        let labels_c = match labels {
            Some(l) => Some(l.clone()),
            None => None,
        };
        GitLabProjectIssue {
            id: fresh_uuid(),
            project_id,
            title: issue.title.clone(),
            description,
            labels: labels_c,
            assignee_id,
        }
    }

    /// Renders the request body as ordered key/value pairs.
    pub fn create_issue_body(&self) -> (body: Vec<(String, String)>)
        ensures
            body.deep_view() == spec_issue_body(*self),
    {
        let mut body: Vec<(String, String)> = Vec::new();
        body.push(("id".to_owned(), self.id.clone()));
        body.push(("title".to_owned(), self.title.clone()));
        match &self.description {
            Some(d) => body.push(("description".to_owned(), d.clone())),
            None => (),
        }
        match &self.labels {
            Some(l) => body.push(("labels".to_owned(), l.clone())),
            None => (),
        }
        match self.assignee_id {
            Some(a) => body.push(("assignee_id".to_owned(), u64_to_string(a))),
            None => (),
        }
        proof {
            assert(body.deep_view() =~= spec_issue_body(*self));
        }
        body
    }
}

} // verus!
