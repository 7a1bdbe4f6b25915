//! Item classification and cursor-based page accumulation.
//!
//! Per item, the pipeline decides in a fixed order: archived, wrong
//! column, filtered by iteration, not an issue, filtered by time; the
//! first failing predicate is the rejection reason recorded in the stats.
//! Accepted items become canonical `Issue` records in arrival order.

use vstd::prelude::*;
use crate::iteration::{iteration_matches, matches_iteration_filter};
use crate::models::{
    GraphQLResponse,
    Issue,
    IssueContent,
    IssueView,
    ItemContent,
    PageInfo,
    ProjectData,
    ProjectItem,
    issue_from_content,
    issue_view_of,
};
use crate::models::{api_error_messages, collect_error_messages, has_api_errors};
use crate::strutil::str_eq;

verus! {

/// Options of one fetch run.
#[derive(Debug)]
pub struct FetchConfig {
    /// Column an item must be in.
    pub column_name: String,
    /// Optional cutoff: only issues closed at or after this instant pass.
    pub since_unix: Option<i64>,
    /// Optional iteration filter expression.
    pub iteration_filter: Option<String>,
    /// Record the observed column and iteration names.
    pub collect_stats: bool,
    /// Today's civil date as a day number, for the iteration windows.
    pub today: i64,
}

impl FetchConfig {
    /// The iteration filter as a sequence of characters, when present.
    pub open spec fn filter_view(&self) -> Option<Seq<char>> {
        match self.iteration_filter {
            Some(f) => Some(f@),
            None => None,
        }
    }
}

/// Diagnostics of one fetch run. The counters partition the total; the
/// two name lists are sets: each observed name appears once.
#[derive(Debug)]
pub struct FetchStats {
    pub total_items: usize,
    pub archived: usize,
    pub wrong_column: usize,
    pub not_issue: usize,
    pub filtered_by_time: usize,
    pub filtered_by_iteration: usize,
    pub columns_seen: Vec<String>,
    pub iterations_seen: Vec<String>,
}

/// No two entries read the same.
pub open spec fn distinct_views(v: Seq<String>) -> bool {
    forall|i: int, j: int| 0 <= i < j < v.len() ==> v[i]@ != v[j]@
}

/// Some entry reads `s`.
pub open spec fn has_view(v: Seq<String>, s: Seq<char>) -> bool {
    exists|i: int| 0 <= i < v.len() && v[i]@ == s
}

impl FetchStats {
    /// The name lists hold no duplicates.
    pub open spec fn wf(&self) -> bool {
        distinct_views(self.columns_seen@) && distinct_views(self.iterations_seen@)
    }

    /// Every rejection counter stays within the total.
    pub open spec fn counters_bounded(&self) -> bool {
        &&& self.archived <= self.total_items
        &&& self.wrong_column <= self.total_items
        &&& self.not_issue <= self.total_items
        &&& self.filtered_by_time <= self.total_items
        &&& self.filtered_by_iteration <= self.total_items
    }
}

impl Default for FetchStats {
    /// A fresh accumulator: all counters zero, nothing observed.
    fn default() -> (r: Self)
        ensures
            r.wf(),
            r.counters_bounded(),
            r.total_items == 0,
            r.archived == 0,
            r.wrong_column == 0,
            r.not_issue == 0,
            r.filtered_by_time == 0,
            r.filtered_by_iteration == 0,
            r.columns_seen@.len() == 0,
            r.iterations_seen@.len() == 0,
    {
        FetchStats {
            total_items: 0,
            archived: 0,
            wrong_column: 0,
            not_issue: 0,
            filtered_by_time: 0,
            filtered_by_iteration: 0,
            columns_seen: Vec::new(),
            iterations_seen: Vec::new(),
        }
    }
}

/// The item's resolved column name: only a single-select field value
/// carries one.
pub open spec fn column_of(item: ProjectItem) -> Option<Seq<char>> {
    match item.field_value_by_name {
        Some(fv) => fv.spec_name(),
        None => None,
    }
}

/// The item's iteration title, when it has one.
pub open spec fn iteration_title_of(item: ProjectItem) -> Option<Seq<char>> {
    match item.iteration {
        Some(iv) => iv.spec_title(),
        None => None,
    }
}

/// The item's iteration start date, when it has one.
pub open spec fn iteration_start_of(item: ProjectItem) -> Option<Seq<char>> {
    match item.iteration {
        Some(iv) => iv.spec_start_date(),
        None => None,
    }
}

/// What the diagnostics record for the item's column.
pub open spec fn column_display(item: ProjectItem) -> Seq<char> {
    match column_of(item) {
        Some(n) => n,
        None => "<no status>"@,
    }
}

/// What the diagnostics record for the item's iteration.
pub open spec fn iteration_display(item: ProjectItem) -> Seq<char> {
    match iteration_title_of(item) {
        Some(t) => t,
        None => "<no iteration>"@,
    }
}

/// An active cutoff rejects an item with no close time, and one closed
/// before the cutoff.
pub open spec fn time_filtered(closed_at: Option<i64>, since: Option<i64>) -> bool {
    match since {
        None => false,
        Some(cut) => match closed_at {
            None => true,
            Some(t) => t < cut,
        },
    }
}

/// The issue content of an item known to carry one.
pub open spec fn content_issue_of(item: ProjectItem) -> IssueContent {
    match item.content {
        Some(ItemContent::Issue(c)) => c,
        _ => arbitrary(),
    }
}

/// How one item fares in the pipeline.
#[derive(Debug, PartialEq, Eq, Structural)]
pub enum ItemClass {
    Archived,
    WrongColumn,
    FilteredByIteration,
    NotIssue,
    FilteredByTime,
    Accepted,
}

/// The per-item decision, in pipeline order; the first failing predicate
/// names the class.
pub open spec fn classify(
    item: ProjectItem,
    column: Seq<char>,
    ifilter: Option<Seq<char>>,
    since: Option<i64>,
    today: int,
) -> ItemClass {
    if item.is_archived {
        ItemClass::Archived
    } else if column_of(item) != Some(column) {
        ItemClass::WrongColumn
    } else if ifilter matches Some(f) && !iteration_matches(
        iteration_title_of(item),
        iteration_start_of(item),
        f,
        today,
    ) {
        ItemClass::FilteredByIteration
    } else if !(item.content matches Some(ItemContent::Issue(_))) {
        ItemClass::NotIssue
    } else if time_filtered(content_issue_of(item).closed_at, since) {
        ItemClass::FilteredByTime
    } else {
        ItemClass::Accepted
    }
}

/// Records `name` in a duplicate-free list, once.
fn note_name(names: &mut Vec<String>, name: &str)
    requires
        distinct_views(old(names)@),
    ensures
        distinct_views(final(names)@),
        forall|s: Seq<char>|
            has_view(final(names)@, s) <==> (has_view(old(names)@, s) || s == name@),
{
    let mut i: usize = 0;
    while i < names.len()
        invariant
            i <= names@.len(),
            names@ == old(names)@,
            distinct_views(names@),
            forall|j: int| 0 <= j < i ==> names@[j]@ != name@,
        decreases names@.len() - i,
    {
        if str_eq(names[i].as_str(), name) {
            proof {
                assert(has_view(names@, name@));
            }
            return;
        }
        i = i + 1;
    }
    let ghost before = names@;
    names.push(name.to_owned());
    proof {
        assert forall|s: Seq<char>|
            has_view(names@, s) <==> (has_view(before, s) || s == name@) by {
            if has_view(names@, s) {
                let w = choose|w: int| 0 <= w < names@.len() && names@[w]@ == s;
                if w < before.len() {
                    assert(has_view(before, s));
                } else {
                    assert(s == name@);
                }
            }
            if has_view(before, s) {
                let w = choose|w: int| 0 <= w < before.len() && before[w]@ == s;
                assert(names@[w]@ == s);
            }
            if s == name@ {
                assert(names@[before.len() as int]@ == s);
            }
        }
        assert forall|i2: int, j2: int|
            0 <= i2 < j2 < names@.len() implies names@[i2]@ != names@[j2]@ by {
            if j2 < before.len() {
            } else {
                assert(names@[j2]@ == name@);
            }
        }
    }
}

/// Classifies one item, updates the stats, and hands back the canonical
/// record when the item is accepted.
pub fn classify_item(item: ProjectItem, config: &FetchConfig, stats: &mut FetchStats) -> (r: Option<
    Issue,
>)
    requires
        old(stats).wf(),
        old(stats).counters_bounded(),
        old(stats).total_items < usize::MAX,
    ensures
        final(stats).wf(),
        final(stats).counters_bounded(),
        ({
            let c = classify(
                item,
                config.column_name@,
                config.filter_view(),
                config.since_unix,
                config.today as int,
            );
            &&& (r is Some <==> c == ItemClass::Accepted)
            &&& (r matches Some(i) ==> i@ == issue_view_of(content_issue_of(item)))
            &&& final(stats).total_items == old(stats).total_items + 1
            &&& final(stats).archived == old(stats).archived + (if c == ItemClass::Archived {
                1int
            } else {
                0int
            })
            &&& final(stats).wrong_column == old(stats).wrong_column + (if c
                == ItemClass::WrongColumn {
                1int
            } else {
                0int
            })
            &&& final(stats).filtered_by_iteration == old(stats).filtered_by_iteration + (if c
                == ItemClass::FilteredByIteration {
                1int
            } else {
                0int
            })
            &&& final(stats).not_issue == old(stats).not_issue + (if c == ItemClass::NotIssue {
                1int
            } else {
                0int
            })
            &&& final(stats).filtered_by_time == old(stats).filtered_by_time + (if c
                == ItemClass::FilteredByTime {
                1int
            } else {
                0int
            })
        }),
        forall|s: Seq<char>|
            has_view(final(stats).columns_seen@, s) <==> (has_view(old(stats).columns_seen@, s) || (
            config.collect_stats && !item.is_archived && s == column_display(item))),
        forall|s: Seq<char>|
            has_view(final(stats).iterations_seen@, s) <==> (has_view(
                old(stats).iterations_seen@,
                s,
            ) || (config.collect_stats && !item.is_archived && column_of(item) == Some(
                config.column_name@,
            ) && s == iteration_display(item))),
{
    stats.total_items = stats.total_items + 1;
    if item.is_archived {
        stats.archived = stats.archived + 1;
        return None;
    }
    let item_column: Option<&str> = match &item.field_value_by_name {
        Some(fv) => fv.name(),
        None => None,
    };
    if config.collect_stats {
        match item_column {
            Some(col) => note_name(&mut stats.columns_seen, col),
            None => note_name(&mut stats.columns_seen, "<no status>"),
        }
    }
    let column_ok = match item_column {
        Some(col) => str_eq(col, config.column_name.as_str()),
        None => false,
    };
    if !column_ok {
        stats.wrong_column = stats.wrong_column + 1;
        return None;
    }
    let item_iteration: Option<&str> = match &item.iteration {
        Some(iv) => iv.title(),
        None => None,
    };
    let item_start: Option<&str> = match &item.iteration {
        Some(iv) => iv.start_date(),
        None => None,
    };
    if config.collect_stats {
        match item_iteration {
            Some(t) => note_name(&mut stats.iterations_seen, t),
            None => note_name(&mut stats.iterations_seen, "<no iteration>"),
        }
    }
    if let Some(f) = &config.iteration_filter {
        if !matches_iteration_filter(item_iteration, item_start, f.as_str(), config.today) {
            stats.filtered_by_iteration = stats.filtered_by_iteration + 1;
            return None;
        }
    }
    match item.content {
        Some(ItemContent::Issue(content)) => {
            if let Some(cut) = config.since_unix {
                let keep = match content.closed_at {
                    Some(t) => t >= cut,
                    None => false,
                };
                if !keep {
                    stats.filtered_by_time = stats.filtered_by_time + 1;
                    return None;
                }
            }
            Some(issue_from_content(content))
        },
        _ => {
            stats.not_issue = stats.not_issue + 1;
            None
        },
    }
}

// --- one page ---

/// The items of a page response, when it carries a project node.
pub open spec fn page_items(resp: GraphQLResponse<ProjectData>) -> Seq<ProjectItem> {
    match resp.data {
        Some(pd) => match pd.node {
            Some(pn) => pn.items.nodes@,
            None => Seq::empty(),
        },
        None => Seq::empty(),
    }
}

/// The pagination state of a page response.
pub open spec fn page_info_of(resp: GraphQLResponse<ProjectData>) -> PageInfo {
    match resp.data {
        Some(pd) => match pd.node {
            Some(pn) => pn.items.page_info,
            None => arbitrary(),
        },
        None => arbitrary(),
    }
}

/// The response carries no project node at all.
pub open spec fn page_missing(resp: GraphQLResponse<ProjectData>) -> bool {
    !(resp.data matches Some(ProjectData { node: Some(_) }))
}

/// The whole fetch fails on this page.
pub open spec fn page_fails(resp: GraphQLResponse<ProjectData>) -> bool {
    has_api_errors(resp) || page_missing(resp)
}

/// The canonical records of the accepted items, in arrival order.
pub open spec fn accepted_views(
    items: Seq<ProjectItem>,
    column: Seq<char>,
    ifilter: Option<Seq<char>>,
    since: Option<i64>,
    today: int,
) -> Seq<IssueView>
    decreases items.len(),
{
    if items.len() == 0 {
        Seq::empty()
    } else {
        let prefix = accepted_views(items.drop_last(), column, ifilter, since, today);
        if classify(items.last(), column, ifilter, since, today) == ItemClass::Accepted {
            prefix.push(issue_view_of(content_issue_of(items.last())))
        } else {
            prefix
        }
    }
}

/// How many items of the page fall in one class.
pub open spec fn count_class(
    items: Seq<ProjectItem>,
    column: Seq<char>,
    ifilter: Option<Seq<char>>,
    since: Option<i64>,
    today: int,
    c: ItemClass,
) -> int
    decreases items.len(),
{
    if items.len() == 0 {
        0
    } else {
        count_class(items.drop_last(), column, ifilter, since, today, c) + (if classify(
            items.last(),
            column,
            ifilter,
            since,
            today,
        ) == c {
            1int
        } else {
            0int
        })
    }
}

/// Some non-archived item of the page shows this column name (or the
/// no-value sentinel).
pub open spec fn observed_column(items: Seq<ProjectItem>, s: Seq<char>) -> bool {
    exists|i: int|
        0 <= i < items.len() && !items[i].is_archived && column_display(items[i]) == s
}

/// Some non-archived item of the page in the requested column shows this
/// iteration name (or the no-value sentinel).
pub open spec fn observed_iteration(items: Seq<ProjectItem>, column: Seq<char>, s: Seq<char>) -> bool {
    exists|i: int|
        0 <= i < items.len() && !items[i].is_archived && column_of(items[i]) == Some(column)
            && iteration_display(items[i]) == s
}

#[derive(Debug, Clone, PartialEq, Eq)]
pub enum FetchError {
    /// The response carried error messages.
    ApiErrors { messages: Vec<String> },
    /// The response carried no project node; the project id may be wrong.
    ProjectNotFound,
    /// The page supply ran out while the last page still reported a next
    /// page.
    PageUnavailable,
}

/// What one successfully processed page yields.
#[derive(Debug)]
pub struct PageOutcome {
    /// The page's accepted issues, already past the time cutoff.
    pub issues: Vec<Issue>,
    /// The page's pagination state; the fetch continues while it reports a
    /// next page.
    pub page_info: PageInfo,
}

/// Processes one page response: rejects it whole on API errors or a
/// missing node, otherwise classifies every item and accumulates stats.
pub fn process_page_response(
    resp: GraphQLResponse<ProjectData>,
    config: &FetchConfig,
    stats: &mut FetchStats,
) -> (r: Result<PageOutcome, FetchError>)
    requires
        old(stats).wf(),
        old(stats).counters_bounded(),
        old(stats).total_items + page_items(resp).len() <= usize::MAX,
    ensures
        final(stats).wf(),
        final(stats).counters_bounded(),
        has_api_errors(resp) ==> (r matches Err(FetchError::ApiErrors { messages }) && messages@
            .map_values(|s: String| s@) == api_error_messages(resp) && *final(stats) == *old(stats)),
        !has_api_errors(resp) && page_missing(resp) ==> (r == Err::<PageOutcome, FetchError>(
            FetchError::ProjectNotFound,
        ) && *final(stats) == *old(stats)),
        !page_fails(resp) ==> (r matches Ok(out) && {
            let items = page_items(resp);
            let column = config.column_name@;
            let ifilter = config.filter_view();
            let since = config.since_unix;
            let today = config.today as int;
            &&& out.issues@.map_values(|x: Issue| x@) == accepted_views(
                items,
                column,
                ifilter,
                since,
                today,
            )
            &&& out.page_info == page_info_of(resp)
            &&& final(stats).total_items == old(stats).total_items + items.len()
            &&& final(stats).archived == old(stats).archived + count_class(
                items,
                column,
                ifilter,
                since,
                today,
                ItemClass::Archived,
            )
            &&& final(stats).wrong_column == old(stats).wrong_column + count_class(
                items,
                column,
                ifilter,
                since,
                today,
                ItemClass::WrongColumn,
            )
            &&& final(stats).filtered_by_iteration == old(stats).filtered_by_iteration
                + count_class(items, column, ifilter, since, today, ItemClass::FilteredByIteration)
            &&& final(stats).not_issue == old(stats).not_issue + count_class(
                items,
                column,
                ifilter,
                since,
                today,
                ItemClass::NotIssue,
            )
            &&& final(stats).filtered_by_time == old(stats).filtered_by_time + count_class(
                items,
                column,
                ifilter,
                since,
                today,
                ItemClass::FilteredByTime,
            )
            &&& (forall|s: Seq<char>|
                has_view(final(stats).columns_seen@, s) <==> (has_view(
                    old(stats).columns_seen@,
                    s,
                ) || (config.collect_stats && observed_column(items, s))))
            &&& (forall|s: Seq<char>|
                has_view(final(stats).iterations_seen@, s) <==> (has_view(
                    old(stats).iterations_seen@,
                    s,
                ) || (config.collect_stats && observed_iteration(items, column, s))))
        }),
{
    if let Some(errors) = &resp.errors {
        if errors.len() > 0 {
            let messages = collect_error_messages(errors);
            return Err(FetchError::ApiErrors { messages });
        }
    }
    let pd = match resp.data {
        Some(pd) => pd,
        None => {
            return Err(FetchError::ProjectNotFound);
        },
    };
    let pn = match pd.node {
        Some(pn) => pn,
        None => {
            return Err(FetchError::ProjectNotFound);
        },
    };
    let page_info = pn.items.page_info;
    let mut nodes = pn.items.nodes;
    let ghost all_items = nodes@;
    let ghost column = config.column_name@;
    let ghost ifilter = config.filter_view();
    let ghost since = config.since_unix;
    let ghost today = config.today as int;
    let mut issues: Vec<Issue> = Vec::new();
    let ghost mut k: int = 0;
    while nodes.len() > 0
        invariant
            0 <= k <= all_items.len(),
            nodes@ == all_items.skip(k),
            issues@.map_values(|x: Issue| x@) == accepted_views(
                all_items.take(k),
                column,
                ifilter,
                since,
                today,
            ),
            column == config.column_name@,
            ifilter == config.filter_view(),
            since == config.since_unix,
            today == config.today as int,
            stats.wf(),
            stats.counters_bounded(),
            old(stats).total_items + all_items.len() <= usize::MAX,
            old(stats).wf(),
            stats.total_items == old(stats).total_items + k,
            stats.archived == old(stats).archived + count_class(
                all_items.take(k),
                column,
                ifilter,
                since,
                today,
                ItemClass::Archived,
            ),
            stats.wrong_column == old(stats).wrong_column + count_class(
                all_items.take(k),
                column,
                ifilter,
                since,
                today,
                ItemClass::WrongColumn,
            ),
            stats.filtered_by_iteration == old(stats).filtered_by_iteration + count_class(
                all_items.take(k),
                column,
                ifilter,
                since,
                today,
                ItemClass::FilteredByIteration,
            ),
            stats.not_issue == old(stats).not_issue + count_class(
                all_items.take(k),
                column,
                ifilter,
                since,
                today,
                ItemClass::NotIssue,
            ),
            stats.filtered_by_time == old(stats).filtered_by_time + count_class(
                all_items.take(k),
                column,
                ifilter,
                since,
                today,
                ItemClass::FilteredByTime,
            ),
            forall|s: Seq<char>|
                has_view(stats.columns_seen@, s) <==> (has_view(old(stats).columns_seen@, s) || (
                config.collect_stats && observed_column(all_items.take(k), s))),
            forall|s: Seq<char>|
                has_view(stats.iterations_seen@, s) <==> (has_view(
                    old(stats).iterations_seen@,
                    s,
                ) || (config.collect_stats && observed_iteration(all_items.take(k), column, s))),
        decreases nodes@.len(),
    {
        let ghost cols_before = stats.columns_seen@;
        let ghost iters_before = stats.iterations_seen@;
        let item = nodes.remove(0);
        proof {
            assert(all_items.skip(k)[0] == all_items[k]);
            assert(all_items.skip(k).subrange(1, all_items.skip(k).len() as int) =~= all_items.skip(
                k + 1,
            ));
        }
        let accepted = classify_item(item, config, stats);
        let ghost issues_before = issues@;
        match accepted {
            Some(issue) => issues.push(issue),
            None => (),
        }
        proof {
            let itemg = all_items[k];
            let cls = classify(itemg, column, ifilter, since, today);
            assert(all_items.take(k + 1).drop_last() =~= all_items.take(k));
            assert(all_items.take(k + 1).last() == itemg);
            assert(issues@.map_values(|x: Issue| x@) =~= accepted_views(
                all_items.take(k + 1),
                column,
                ifilter,
                since,
                today,
            ));
            assert forall|s: Seq<char>|
                observed_column(all_items.take(k + 1), s) <==> (observed_column(
                    all_items.take(k),
                    s,
                ) || (!itemg.is_archived && s == column_display(itemg))) by {
                if observed_column(all_items.take(k + 1), s) {
                    let w = choose|w: int|
                        #![trigger all_items.take(k + 1)[w]]
                        0 <= w < all_items.take(k + 1).len() && !all_items.take(k + 1)[w].is_archived
                            && column_display(all_items.take(k + 1)[w]) == s;
                    if w < k {
                        assert(all_items.take(k)[w] == all_items.take(k + 1)[w]);
                        assert(observed_column(all_items.take(k), s));
                    } else {
                        assert(all_items.take(k + 1)[w] == itemg);
                    }
                }
                if observed_column(all_items.take(k), s) {
                    let w = choose|w: int|
                        #![trigger all_items.take(k)[w]]
                        0 <= w < all_items.take(k).len() && !all_items.take(k)[w].is_archived
                            && column_display(all_items.take(k)[w]) == s;
                    assert(all_items.take(k + 1)[w] == all_items.take(k)[w]);
                    assert(observed_column(all_items.take(k + 1), s));
                }
                if !itemg.is_archived && s == column_display(itemg) {
                    assert(all_items.take(k + 1)[k] == itemg);
                    assert(observed_column(all_items.take(k + 1), s));
                }
            }
            assert forall|s: Seq<char>|
                observed_iteration(all_items.take(k + 1), column, s) <==> (observed_iteration(
                    all_items.take(k),
                    column,
                    s,
                ) || (!itemg.is_archived && column_of(itemg) == Some(column) && s
                    == iteration_display(itemg))) by {
                if observed_iteration(all_items.take(k + 1), column, s) {
                    let w = choose|w: int|
                        #![trigger all_items.take(k + 1)[w]]
                        0 <= w < all_items.take(k + 1).len() && !all_items.take(k + 1)[w].is_archived
                            && column_of(all_items.take(k + 1)[w]) == Some(column)
                            && iteration_display(all_items.take(k + 1)[w]) == s;
                    if w < k {
                        assert(all_items.take(k)[w] == all_items.take(k + 1)[w]);
                        assert(observed_iteration(all_items.take(k), column, s));
                    } else {
                        assert(all_items.take(k + 1)[w] == itemg);
                    }
                }
                if observed_iteration(all_items.take(k), column, s) {
                    let w = choose|w: int|
                        #![trigger all_items.take(k)[w]]
                        0 <= w < all_items.take(k).len() && !all_items.take(k)[w].is_archived
                            && column_of(all_items.take(k)[w]) == Some(column) && iteration_display(
                            all_items.take(k)[w],
                        ) == s;
                    assert(all_items.take(k + 1)[w] == all_items.take(k)[w]);
                    assert(observed_iteration(all_items.take(k + 1), column, s));
                }
                if !itemg.is_archived && column_of(itemg) == Some(column) && s
                    == iteration_display(itemg) {
                    assert(all_items.take(k + 1)[k] == itemg);
                    assert(observed_iteration(all_items.take(k + 1), column, s));
                }
            }
            k = k + 1;
        }
    }
    proof {
        assert(all_items.take(k) =~= all_items);
    }
    Ok(PageOutcome { issues, page_info })
}

// --- the whole fetch ---

/// The run goes on past this page: it is good and reports a next page.
pub open spec fn page_continues(resp: GraphQLResponse<ProjectData>) -> bool {
    !page_fails(resp) && page_info_of(resp).has_next_page
}

/// Index of the page at which a run over this page sequence stops: the
/// first that fails or reports no next page, or the length when every
/// page asks for another.
pub open spec fn stop_index(responses: Seq<GraphQLResponse<ProjectData>>) -> int
    decreases responses.len(),
{
    if responses.len() == 0 {
        0
    } else if !page_continues(responses[0]) {
        0
    } else {
        1 + stop_index(responses.drop_first())
    }
}

pub proof fn lemma_stop_index_at(responses: Seq<GraphQLResponse<ProjectData>>, i: int)
    requires
        0 <= i <= responses.len(),
        forall|p: int| 0 <= p < i ==> page_continues(#[trigger] responses[p]),
        i < responses.len() ==> !page_continues(responses[i]),
    ensures
        stop_index(responses) == i,
    decreases i,
{
    if i == 0 {
    } else {
        assert(page_continues(responses[0]));
        assert forall|p: int| 0 <= p < i - 1 implies page_continues(
            #[trigger] responses.drop_first()[p],
        ) by {
            assert(responses.drop_first()[p] == responses[p + 1]);
        }
        if i - 1 < responses.drop_first().len() {
            assert(responses.drop_first()[i - 1] == responses[i]);
        }
        lemma_stop_index_at(responses.drop_first(), i - 1);
    }
}

/// Law: in a synthetic run where every page but the last reports a next
/// page and the last reports none, the fetch stops exactly at the last
/// page, so it makes one request per page.
pub proof fn lemma_stop_at_last_page(responses: Seq<GraphQLResponse<ProjectData>>)
    requires
        responses.len() >= 1,
        forall|p: int| 0 <= p < responses.len() - 1 ==> page_continues(#[trigger] responses[p]),
        !page_fails(responses[responses.len() - 1]),
        !page_info_of(responses[responses.len() - 1]).has_next_page,
    ensures
        stop_index(responses) == responses.len() - 1,
{
    lemma_stop_index_at(responses, responses.len() - 1);
}

/// The accepted records of the first `n` pages, in page order.
pub open spec fn pages_accepted_views(
    responses: Seq<GraphQLResponse<ProjectData>>,
    n: int,
    column: Seq<char>,
    ifilter: Option<Seq<char>>,
    since: Option<i64>,
    today: int,
) -> Seq<IssueView>
    decreases n,
{
    if n <= 0 {
        Seq::empty()
    } else {
        pages_accepted_views(responses, n - 1, column, ifilter, since, today) + accepted_views(
            page_items(responses[n - 1]),
            column,
            ifilter,
            since,
            today,
        )
    }
}

/// How many items of the first `n` pages fall in one class.
pub open spec fn pages_count_class(
    responses: Seq<GraphQLResponse<ProjectData>>,
    n: int,
    column: Seq<char>,
    ifilter: Option<Seq<char>>,
    since: Option<i64>,
    today: int,
    c: ItemClass,
) -> int
    decreases n,
{
    if n <= 0 {
        0
    } else {
        pages_count_class(responses, n - 1, column, ifilter, since, today, c) + count_class(
            page_items(responses[n - 1]),
            column,
            ifilter,
            since,
            today,
            c,
        )
    }
}

/// Total item count of the first `n` pages.
pub open spec fn pages_total_items(responses: Seq<GraphQLResponse<ProjectData>>, n: int) -> int
    decreases n,
{
    if n <= 0 {
        0
    } else {
        pages_total_items(responses, n - 1) + page_items(responses[n - 1]).len()
    }
}

pub proof fn lemma_pages_total_mono(responses: Seq<GraphQLResponse<ProjectData>>, n: int, m: int)
    requires
        0 <= n <= m,
    ensures
        pages_total_items(responses, n) <= pages_total_items(responses, m),
    decreases m,
{
    if n < m {
        lemma_pages_total_mono(responses, n, m - 1);
    }
}

pub open spec fn observed_column_in_pages(
    responses: Seq<GraphQLResponse<ProjectData>>,
    n: int,
    s: Seq<char>,
) -> bool {
    exists|p: int| 0 <= p < n && observed_column(page_items(#[trigger] responses[p]), s)
}

pub open spec fn observed_iteration_in_pages(
    responses: Seq<GraphQLResponse<ProjectData>>,
    n: int,
    column: Seq<char>,
    s: Seq<char>,
) -> bool {
    exists|p: int|
        0 <= p < n && observed_iteration(page_items(#[trigger] responses[p]), column, s)
}

/// Law: the stats counters partition the total: every item of a page
/// falls in exactly one class, so the rejection counts and the accepted
/// count sum to the item count.
pub proof fn lemma_counts_partition(
    items: Seq<ProjectItem>,
    column: Seq<char>,
    ifilter: Option<Seq<char>>,
    since: Option<i64>,
    today: int,
)
    ensures
        count_class(items, column, ifilter, since, today, ItemClass::Archived) + count_class(
            items,
            column,
            ifilter,
            since,
            today,
            ItemClass::WrongColumn,
        ) + count_class(items, column, ifilter, since, today, ItemClass::FilteredByIteration)
            + count_class(items, column, ifilter, since, today, ItemClass::NotIssue) + count_class(
            items,
            column,
            ifilter,
            since,
            today,
            ItemClass::FilteredByTime,
        ) + accepted_views(items, column, ifilter, since, today).len() == items.len(),
    decreases items.len(),
{
    if items.len() > 0 {
        lemma_counts_partition(items.drop_last(), column, ifilter, since, today);
    }
}

/// Law: the partition carries over to a whole run, page by page.
pub proof fn lemma_pages_counts_partition(
    responses: Seq<GraphQLResponse<ProjectData>>,
    n: int,
    column: Seq<char>,
    ifilter: Option<Seq<char>>,
    since: Option<i64>,
    today: int,
)
    ensures
        pages_count_class(responses, n, column, ifilter, since, today, ItemClass::Archived)
            + pages_count_class(responses, n, column, ifilter, since, today, ItemClass::WrongColumn)
            + pages_count_class(
            responses,
            n,
            column,
            ifilter,
            since,
            today,
            ItemClass::FilteredByIteration,
        ) + pages_count_class(responses, n, column, ifilter, since, today, ItemClass::NotIssue)
            + pages_count_class(
            responses,
            n,
            column,
            ifilter,
            since,
            today,
            ItemClass::FilteredByTime,
        ) + pages_accepted_views(responses, n, column, ifilter, since, today).len()
            == pages_total_items(responses, n),
    decreases n,
{
    if n > 0 {
        lemma_pages_counts_partition(responses, n - 1, column, ifilter, since, today);
        lemma_counts_partition(page_items(responses[n - 1]), column, ifilter, since, today);
    }
}

/// Law: an accepted item passed every predicate of the pipeline: it is
/// not archived, sits in the requested column, matches the iteration
/// filter when one is set, carries issue content, and passes the time
/// cutoff when one is set.
pub proof fn lemma_accepted_means(
    item: ProjectItem,
    column: Seq<char>,
    ifilter: Option<Seq<char>>,
    since: Option<i64>,
    today: int,
)
    requires
        classify(item, column, ifilter, since, today) == ItemClass::Accepted,
    ensures
        !item.is_archived,
        column_of(item) == Some(column),
        ifilter matches Some(f) ==> iteration_matches(
            iteration_title_of(item),
            iteration_start_of(item),
            f,
            today,
        ),
        item.content matches Some(ItemContent::Issue(_)),
        !time_filtered(content_issue_of(item).closed_at, since),
{
}

/// Law: every record among a page's accepted views is the view of some
/// item of the page that the pipeline accepted.
pub proof fn lemma_accepted_views_witness(
    items: Seq<ProjectItem>,
    column: Seq<char>,
    ifilter: Option<Seq<char>>,
    since: Option<i64>,
    today: int,
    k: int,
)
    requires
        0 <= k < accepted_views(items, column, ifilter, since, today).len(),
    ensures
        exists|j: int|
            0 <= j < items.len() && classify(#[trigger] items[j], column, ifilter, since, today)
                == ItemClass::Accepted && accepted_views(items, column, ifilter, since, today)[k]
                == issue_view_of(content_issue_of(items[j])),
    decreases items.len(),
{
    if items.len() > 0 {
        let prefix = accepted_views(items.drop_last(), column, ifilter, since, today);
        if classify(items.last(), column, ifilter, since, today) == ItemClass::Accepted && k
            == prefix.len() {
            assert(items[items.len() - 1] == items.last());
        } else {
            lemma_accepted_views_witness(items.drop_last(), column, ifilter, since, today, k);
            let j = choose|j: int|
                0 <= j < items.drop_last().len() && classify(
                    #[trigger] items.drop_last()[j],
                    column,
                    ifilter,
                    since,
                    today,
                ) == ItemClass::Accepted && accepted_views(
                    items.drop_last(),
                    column,
                    ifilter,
                    since,
                    today,
                )[k] == issue_view_of(content_issue_of(items.drop_last()[j]));
            assert(items[j] == items.drop_last()[j]);
        }
    }
}

/// Law: every record a whole run returns is the view of some item, on
/// some processed page, that the pipeline accepted.
pub proof fn lemma_run_issue_witness(
    responses: Seq<GraphQLResponse<ProjectData>>,
    n: int,
    column: Seq<char>,
    ifilter: Option<Seq<char>>,
    since: Option<i64>,
    today: int,
    k: int,
)
    requires
        0 <= k < pages_accepted_views(responses, n, column, ifilter, since, today).len(),
    ensures
        exists|p: int, j: int|
            0 <= p < n && 0 <= j < page_items(responses[p]).len() && classify(
                #[trigger] page_items(responses[p])[j],
                column,
                ifilter,
                since,
                today,
            ) == ItemClass::Accepted && pages_accepted_views(
                responses,
                n,
                column,
                ifilter,
                since,
                today,
            )[k] == issue_view_of(content_issue_of(page_items(responses[p])[j])),
    decreases n,
{
    if n > 0 {
        let prefix = pages_accepted_views(responses, n - 1, column, ifilter, since, today);
        if k < prefix.len() {
            lemma_run_issue_witness(responses, n - 1, column, ifilter, since, today, k);
        } else {
            lemma_accepted_views_witness(
                page_items(responses[n - 1]),
                column,
                ifilter,
                since,
                today,
                k - prefix.len(),
            );
        }
    }
}

/// What a whole run yields.
#[derive(Debug)]
pub struct FetchResult {
    /// Accepted issues, in page-arrival order, not re-sorted.
    pub issues: Vec<Issue>,
    pub stats: FetchStats,
    /// How many page requests the run made.
    pub pages_fetched: usize,
}

/// Runs the fetch over an in-order supply of page responses, following
/// the pages until one reports no next page. The first bad page aborts
/// the whole run with its error; running out of pages while more are
/// expected is an error of its own.
pub fn fetch_from_pages(responses: Vec<GraphQLResponse<ProjectData>>, config: &FetchConfig) -> (r:
    Result<FetchResult, FetchError>)
    requires
        pages_total_items(responses@, responses@.len() as int) <= usize::MAX,
    ensures
        ({
            let stop = stop_index(responses@);
            let column = config.column_name@;
            let ifilter = config.filter_view();
            let since = config.since_unix;
            let today = config.today as int;
            &&& (stop == responses@.len() ==> r == Err::<FetchResult, FetchError>(
                FetchError::PageUnavailable,
            ))
            &&& (stop < responses@.len() && has_api_errors(responses@[stop]) ==> (r matches Err(
                FetchError::ApiErrors { messages },
            ) && messages@.map_values(|s: String| s@) == api_error_messages(responses@[stop])))
            &&& (stop < responses@.len() && !has_api_errors(responses@[stop]) && page_missing(
                responses@[stop],
            ) ==> r == Err::<FetchResult, FetchError>(FetchError::ProjectNotFound))
            &&& (stop < responses@.len() && !page_fails(responses@[stop]) ==> (r matches Ok(out)
                && {
                &&& out.pages_fetched == stop + 1
                &&& out.issues@.map_values(|x: Issue| x@) == pages_accepted_views(
                    responses@,
                    stop + 1,
                    column,
                    ifilter,
                    since,
                    today,
                )
                &&& out.stats.total_items == pages_total_items(responses@, stop + 1)
                &&& out.stats.archived == pages_count_class(
                    responses@,
                    stop + 1,
                    column,
                    ifilter,
                    since,
                    today,
                    ItemClass::Archived,
                )
                &&& out.stats.wrong_column == pages_count_class(
                    responses@,
                    stop + 1,
                    column,
                    ifilter,
                    since,
                    today,
                    ItemClass::WrongColumn,
                )
                &&& out.stats.filtered_by_iteration == pages_count_class(
                    responses@,
                    stop + 1,
                    column,
                    ifilter,
                    since,
                    today,
                    ItemClass::FilteredByIteration,
                )
                &&& out.stats.not_issue == pages_count_class(
                    responses@,
                    stop + 1,
                    column,
                    ifilter,
                    since,
                    today,
                    ItemClass::NotIssue,
                )
                &&& out.stats.filtered_by_time == pages_count_class(
                    responses@,
                    stop + 1,
                    column,
                    ifilter,
                    since,
                    today,
                    ItemClass::FilteredByTime,
                )
                &&& out.stats.total_items == out.stats.archived + out.stats.wrong_column
                    + out.stats.filtered_by_iteration + out.stats.not_issue
                    + out.stats.filtered_by_time + out.issues@.len()
                &&& out.stats.wf()
                &&& (forall|s: Seq<char>|
                    has_view(out.stats.columns_seen@, s) <==> (config.collect_stats
                        && observed_column_in_pages(responses@, stop + 1, s)))
                &&& (forall|s: Seq<char>|
                    has_view(out.stats.iterations_seen@, s) <==> (config.collect_stats
                        && observed_iteration_in_pages(responses@, stop + 1, column, s)))
            }))
        }),
{
    let ghost all_resp = responses@;
    let ghost column = config.column_name@;
    let ghost ifilter = config.filter_view();
    let ghost since = config.since_unix;
    let ghost today = config.today as int;
    let mut remaining = responses;
    let n_pages_given = remaining.len();
    let mut stats = FetchStats::default();
    let mut issues: Vec<Issue> = Vec::new();
    let mut pages: usize = 0;
    while remaining.len() > 0
        invariant
            all_resp == responses@,
            all_resp.len() == n_pages_given,
            pages <= all_resp.len(),
            remaining@ == all_resp.skip(pages as int),
            forall|p: int| 0 <= p < pages ==> page_continues(#[trigger] all_resp[p]),
            column == config.column_name@,
            ifilter == config.filter_view(),
            since == config.since_unix,
            today == config.today as int,
            stats.wf(),
            stats.counters_bounded(),
            pages_total_items(all_resp, all_resp.len() as int) <= usize::MAX,
            stats.total_items == pages_total_items(all_resp, pages as int),
            stats.archived == pages_count_class(
                all_resp,
                pages as int,
                column,
                ifilter,
                since,
                today,
                ItemClass::Archived,
            ),
            stats.wrong_column == pages_count_class(
                all_resp,
                pages as int,
                column,
                ifilter,
                since,
                today,
                ItemClass::WrongColumn,
            ),
            stats.filtered_by_iteration == pages_count_class(
                all_resp,
                pages as int,
                column,
                ifilter,
                since,
                today,
                ItemClass::FilteredByIteration,
            ),
            stats.not_issue == pages_count_class(
                all_resp,
                pages as int,
                column,
                ifilter,
                since,
                today,
                ItemClass::NotIssue,
            ),
            stats.filtered_by_time == pages_count_class(
                all_resp,
                pages as int,
                column,
                ifilter,
                since,
                today,
                ItemClass::FilteredByTime,
            ),
            issues@.map_values(|x: Issue| x@) == pages_accepted_views(
                all_resp,
                pages as int,
                column,
                ifilter,
                since,
                today,
            ),
            forall|s: Seq<char>| #![trigger has_view(stats.columns_seen@, s)]
                has_view(stats.columns_seen@, s) <==> (config.collect_stats
                    && observed_column_in_pages(all_resp, pages as int, s)),
            forall|s: Seq<char>| #![trigger has_view(stats.iterations_seen@, s)]
                has_view(stats.iterations_seen@, s) <==> (config.collect_stats
                    && observed_iteration_in_pages(all_resp, pages as int, column, s)),
        decreases remaining@.len(),
    {
        let ghost pg = pages as int;
        let resp = remaining.remove(0);
        proof {
            assert(all_resp.skip(pg)[0] == all_resp[pg]);
            assert(resp == all_resp[pg]);
            assert(all_resp.skip(pg).subrange(1, all_resp.skip(pg).len() as int) =~= all_resp.skip(
                pg + 1,
            ));
            lemma_pages_total_mono(all_resp, pg + 1, all_resp.len() as int);
        }
        let ghost cols_before = stats.columns_seen@;
        let ghost iters_before = stats.iterations_seen@;
        let out = match process_page_response(resp, config, &mut stats) {
            Ok(o) => o,
            Err(e) => {
                proof {
                    lemma_stop_index_at(all_resp, pg);
                }
                return Err(e);
            },
        };
        proof {
            assert forall|s: Seq<char>|
                has_view(stats.columns_seen@, s) <==> (config.collect_stats
                    && observed_column_in_pages(all_resp, pg + 1, s)) by {
                assert(has_view(cols_before, s) <==> (config.collect_stats
                    && observed_column_in_pages(all_resp, pg, s)));
                if has_view(stats.columns_seen@, s) {
                    if has_view(cols_before, s) {
                        assert(observed_column_in_pages(all_resp, pg, s));
                        let w = choose|w: int|
                            0 <= w < pg && observed_column(page_items(#[trigger] all_resp[w]), s);
                        assert(0 <= w < pg + 1 && observed_column(page_items(all_resp[w]), s));
                        assert(observed_column_in_pages(all_resp, pg + 1, s));
                    } else {
                        assert(observed_column(page_items(all_resp[pg]), s));
                        assert(observed_column_in_pages(all_resp, pg + 1, s));
                    }
                }
                if config.collect_stats && observed_column_in_pages(all_resp, pg + 1, s) {
                    let w = choose|w: int|
                        0 <= w < pg + 1 && observed_column(page_items(#[trigger] all_resp[w]), s);
                    if w < pg {
                        assert(observed_column_in_pages(all_resp, pg, s));
                        assert(has_view(cols_before, s));
                    } else {
                        assert(observed_column(page_items(all_resp[pg]), s));
                    }
                    assert(has_view(stats.columns_seen@, s));
                }
            }
            assert forall|s: Seq<char>|
                has_view(stats.iterations_seen@, s) <==> (config.collect_stats
                    && observed_iteration_in_pages(all_resp, pg + 1, column, s)) by {
                assert(has_view(iters_before, s) <==> (config.collect_stats
                    && observed_iteration_in_pages(all_resp, pg, column, s)));
                if has_view(stats.iterations_seen@, s) {
                    if has_view(iters_before, s) {
                        assert(observed_iteration_in_pages(all_resp, pg, column, s));
                        let w = choose|w: int|
                            0 <= w < pg && observed_iteration(
                                page_items(#[trigger] all_resp[w]),
                                column,
                                s,
                            );
                        assert(0 <= w < pg + 1 && observed_iteration(
                            page_items(all_resp[w]),
                            column,
                            s,
                        ));
                        assert(observed_iteration_in_pages(all_resp, pg + 1, column, s));
                    } else {
                        assert(observed_iteration(page_items(all_resp[pg]), column, s));
                        assert(observed_iteration_in_pages(all_resp, pg + 1, column, s));
                    }
                }
                if config.collect_stats && observed_iteration_in_pages(all_resp, pg + 1, column, s) {
                    let w = choose|w: int|
                        0 <= w < pg + 1 && observed_iteration(
                            page_items(#[trigger] all_resp[w]),
                            column,
                            s,
                        );
                    if w < pg {
                        assert(observed_iteration_in_pages(all_resp, pg, column, s));
                        assert(has_view(iters_before, s));
                    } else {
                        assert(observed_iteration(page_items(all_resp[pg]), column, s));
                    }
                    assert(has_view(stats.iterations_seen@, s));
                }
            }
        }
        let ghost base = issues@;
        let mut add = out.issues;
        let ghost added = add@;
        let ghost mut j: int = 0;
        while add.len() > 0
            invariant
                0 <= j <= added.len(),
                add@ == added.skip(j),
                issues@ == base + added.take(j),
            decreases add@.len(),
        {
            let x = add.remove(0);
            proof {
                assert(added.skip(j)[0] == added[j]);
                assert(added.skip(j).subrange(1, added.skip(j).len() as int) =~= added.skip(j + 1));
            }
            issues.push(x);
            proof {
                assert(issues@ =~= base + added.take(j + 1));
                j = j + 1;
            }
        }
        proof {
            assert(added.take(j) =~= added);
            assert(issues@ == base + added);
            assert(issues@.map_values(|x: Issue| x@) =~= base.map_values(|x: Issue| x@)
                + added.map_values(|x: Issue| x@));
            assert(issues@.map_values(|x: Issue| x@) =~= pages_accepted_views(
                all_resp,
                pg + 1,
                column,
                ifilter,
                since,
                today,
            ));
        }
        pages = pages + 1;
        if !out.page_info.has_next_page {
            proof {
                lemma_stop_index_at(all_resp, pg);
                lemma_pages_counts_partition(all_resp, pg + 1, column, ifilter, since, today);
            }
            return Ok(FetchResult { issues, stats, pages_fetched: pages });
        }
    }
    proof {
        lemma_stop_index_at(all_resp, all_resp.len() as int);
    }
    Err(FetchError::PageUnavailable)
}

} // verus!
