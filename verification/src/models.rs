//! Data model: canonical issue records, board items before classification,
//! and the shape of a graph-query response that the engine consumes.
//!
//! Timestamps are Unix seconds (UTC); the transport layer converts to and
//! from its own wire representation at the boundary.

use vstd::prelude::*;

verus! {

/// An accepted work item.
#[derive(Debug, Clone)]
pub struct Issue {
    pub number: u64,
    pub title: String,
    pub url: String,
    /// Unix seconds of the close event, if the issue is closed.
    pub closed_at: Option<i64>,
    pub parent: Option<ParentIssue>,
    /// Repository identifier in `owner/name` form.
    pub repository: String,
}

/// Lightweight reference to a grouping issue; informational only.
#[derive(Debug, Clone)]
pub struct ParentIssue {
    pub number: u64,
    pub title: String,
    pub url: String,
}

pub ghost struct ParentIssueView {
    pub number: u64,
    pub title: Seq<char>,
    pub url: Seq<char>,
}

pub ghost struct IssueView {
    pub number: u64,
    pub title: Seq<char>,
    pub url: Seq<char>,
    pub closed_at: Option<i64>,
    pub parent: Option<ParentIssueView>,
    pub repository: Seq<char>,
}

impl View for ParentIssue {
    type V = ParentIssueView;

    open spec fn view(&self) -> ParentIssueView {
        ParentIssueView { number: self.number, title: self.title@, url: self.url@ }
    }
}

impl View for Issue {
    type V = IssueView;

    open spec fn view(&self) -> IssueView {
        IssueView {
            number: self.number,
            title: self.title@,
            url: self.url@,
            closed_at: self.closed_at,
            parent: match self.parent {
                Some(p) => Some(p@),
                None => None,
            },
            repository: self.repository@,
        }
    }
}

// Graph-query response structures.

/// Top level of every graph-query response: optional payload, optional
/// error list.
#[derive(Debug)]
pub struct GraphQLResponse<T> {
    pub data: Option<T>,
    pub errors: Option<Vec<GraphQLError>>,
}

#[derive(Debug, Clone)]
pub struct GraphQLError {
    pub message: String,
}

/// Payload of the page-fetch query.
#[derive(Debug)]
pub struct ProjectData {
    pub node: Option<ProjectNode>,
}

#[derive(Debug)]
pub struct ProjectNode {
    pub items: ItemConnection,
}

#[derive(Debug)]
pub struct ItemConnection {
    pub nodes: Vec<ProjectItem>,
    pub page_info: PageInfo,
}

/// Pagination cursor state; the cursor is opaque and must be handed back
/// verbatim to request the next page.
#[derive(Debug, Clone)]
pub struct PageInfo {
    pub has_next_page: bool,
    pub end_cursor: Option<String>,
}

/// A board item before classification.
#[derive(Debug)]
pub struct ProjectItem {
    pub id: String,
    pub is_archived: bool,
    pub field_value_by_name: Option<FieldValue>,
    pub iteration: Option<IterationValue>,
    pub content: Option<ItemContent>,
}

/// Polymorphic board field value; only the single-select variant carries a
/// usable name.
#[derive(Debug)]
pub enum FieldValue {
    ProjectV2ItemFieldSingleSelectValue { name: Option<String> },
    Other,
}

impl FieldValue {
    /// The resolved column name, when this is a single-select value.
    pub open spec fn spec_name(&self) -> Option<Seq<char>> {
        match self {
            FieldValue::ProjectV2ItemFieldSingleSelectValue { name: Some(n) } => Some(n@),
            _ => None,
        }
    }

    pub fn name(&self) -> (r: Option<&str>)
        ensures
            r is Some <==> self.spec_name() is Some,
            r matches Some(s) ==> Some(s@) == self.spec_name(),
    {
        match self {
            FieldValue::ProjectV2ItemFieldSingleSelectValue { name: Some(n) } => Some(n.as_str()),
            _ => None,
        }
    }
}

/// Polymorphic iteration field value; only the iteration variant carries a
/// usable title and start date.
#[derive(Debug)]
pub enum IterationValue {
    ProjectV2ItemFieldIterationValue { title: Option<String>, start_date: Option<String> },
    Other,
}

impl IterationValue {
    pub open spec fn spec_title(&self) -> Option<Seq<char>> {
        match self {
            IterationValue::ProjectV2ItemFieldIterationValue { title: Some(t), .. } => Some(t@),
            _ => None,
        }
    }

    pub open spec fn spec_start_date(&self) -> Option<Seq<char>> {
        match self {
            IterationValue::ProjectV2ItemFieldIterationValue { start_date: Some(s), .. } => Some(
                s@,
            ),
            _ => None,
        }
    }

    pub fn title(&self) -> (r: Option<&str>)
        ensures
            r is Some <==> self.spec_title() is Some,
            r matches Some(s) ==> Some(s@) == self.spec_title(),
    {
        match self {
            IterationValue::ProjectV2ItemFieldIterationValue { title: Some(t), .. } => Some(
                t.as_str(),
            ),
            _ => None,
        }
    }

    pub fn start_date(&self) -> (r: Option<&str>)
        ensures
            r is Some <==> self.spec_start_date() is Some,
            r matches Some(s) ==> Some(s@) == self.spec_start_date(),
    {
        match self {
            IterationValue::ProjectV2ItemFieldIterationValue { start_date: Some(s), .. } => Some(
                s.as_str(),
            ),
            _ => None,
        }
    }
}

/// Polymorphic content union; anything but the issue variant is opaque.
#[derive(Debug)]
pub enum ItemContent {
    Issue(IssueContent),
    Other,
}

#[derive(Debug)]
pub struct IssueContent {
    pub number: u64,
    pub title: String,
    pub url: String,
    /// Unix seconds of the close event, if closed.
    pub closed_at: Option<i64>,
    pub repository: RepositoryInfo,
    pub parent: Option<ParentIssueContent>,
}

#[derive(Debug)]
pub struct RepositoryInfo {
    pub name_with_owner: String,
}

#[derive(Debug)]
pub struct ParentIssueContent {
    pub number: u64,
    pub title: String,
    pub url: String,
}

/// The canonical `Issue` record that an accepted item's content becomes.
pub open spec fn issue_view_of(c: IssueContent) -> IssueView {
    IssueView {
        number: c.number,
        title: c.title@,
        url: c.url@,
        closed_at: c.closed_at,
        parent: match c.parent {
            Some(p) => Some(ParentIssueView { number: p.number, title: p.title@, url: p.url@ }),
            None => None,
        },
        repository: c.repository.name_with_owner@,
    }
}

/// Builds the canonical record, copying number, title, url, close time and
/// repository, and carrying the parent reference over if present.
pub fn issue_from_content(c: IssueContent) -> (i: Issue)
    ensures
        i@ == issue_view_of(c),
{
    let parent = match c.parent {
        Some(p) => Some(ParentIssue { number: p.number, title: p.title, url: p.url }),
        None => None,
    };
    Issue {
        number: c.number,
        title: c.title,
        url: c.url,
        closed_at: c.closed_at,
        parent,
        repository: c.repository.name_with_owner,
    }
}

/// A response fails as a whole when it carries a non-empty error list.
pub open spec fn has_api_errors<T>(resp: GraphQLResponse<T>) -> bool {
    resp.errors matches Some(v) && v.len() > 0
}

/// The error messages of a response, as sequences of characters.
pub open spec fn api_error_messages<T>(resp: GraphQLResponse<T>) -> Seq<Seq<char>> {
    match resp.errors {
        Some(v) => v@.map_values(|e: GraphQLError| e.message@),
        None => Seq::empty(),
    }
}

/// Collects the error messages of a response into owned strings.
pub fn collect_error_messages(errors: &Vec<GraphQLError>) -> (r: Vec<String>)
    ensures
        r@.map_values(|s: String| s@) == errors@.map_values(|e: GraphQLError| e.message@),
{
    let mut out: Vec<String> = Vec::new();
    let mut i: usize = 0;
    while i < errors.len()
        invariant
            i <= errors@.len(),
            out@.len() == i,
            forall|j: int| 0 <= j < i ==> out@[j]@ == errors@[j].message@,
        decreases errors@.len() - i,
    {
        out.push(errors[i].message.clone());
        i = i + 1;
    }
    proof {
        assert(out@.map_values(|s: String| s@) =~= errors@.map_values(
            |e: GraphQLError| e.message@,
        ));
    }
    out
}

} // verus!
