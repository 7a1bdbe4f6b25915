use doner::dates::day_number_from_ymd;
use doner::fetcher::{
    classify_item, fetch_from_pages, FetchConfig, FetchError, FetchStats,
};
use doner::models::{
    FieldValue, GraphQLError, GraphQLResponse, IssueContent, ItemConnection, ItemContent,
    IterationValue, PageInfo, ProjectData, ProjectItem, ProjectNode, RepositoryInfo,
};

fn sprint_item(archived: bool, column: &str, title: &str, start: &str, number: u64) -> ProjectItem {
    ProjectItem {
        id: format!("item-{}", number),
        is_archived: archived,
        field_value_by_name: Some(FieldValue::ProjectV2ItemFieldSingleSelectValue {
            name: Some(column.to_string()),
        }),
        iteration: Some(IterationValue::ProjectV2ItemFieldIterationValue {
            title: Some(title.to_string()),
            start_date: Some(start.to_string()),
        }),
        content: Some(ItemContent::Issue(IssueContent {
            number,
            title: format!("Task {}", number),
            url: format!("https://example.test/issues/{}", number),
            closed_at: Some(1_700_000_000),
            repository: RepositoryInfo { name_with_owner: "acme/widgets".to_string() },
            parent: None,
        })),
    }
}

fn config(column: &str, filter: Option<&str>, since: Option<i64>, debug: bool) -> FetchConfig {
    FetchConfig {
        column_name: column.to_string(),
        since_unix: since,
        iteration_filter: filter.map(|f| f.to_string()),
        collect_stats: debug,
        today: day_number_from_ymd(2024, 1, 10),
    }
}

fn page(items: Vec<ProjectItem>, has_next: bool, cursor: Option<&str>) -> GraphQLResponse<ProjectData> {
    GraphQLResponse {
        data: Some(ProjectData {
            node: Some(ProjectNode {
                items: ItemConnection {
                    nodes: items,
                    page_info: PageInfo {
                        has_next_page: has_next,
                        end_cursor: cursor.map(|c| c.to_string()),
                    },
                },
            }),
        }),
        errors: None,
    }
}

#[test]
fn current_sprint_item_in_requested_column_is_accepted() {
    // Column "Done", filter "@current,@previous", item in "Done" with a
    // sprint started 2024-01-01, today mocked to 2024-01-10: within the
    // current fourteen-day window.
    let cfg = config("Done", Some("@current,@previous"), None, false);
    let mut stats = FetchStats::default();
    let item = sprint_item(false, "Done", "Sprint 5", "2024-01-01", 7);
    let accepted = classify_item(item, &cfg, &mut stats);
    let issue = accepted.expect("the item should be accepted");
    assert_eq!(issue.number, 7);
    assert_eq!(issue.title, "Task 7");
    assert_eq!(issue.repository, "acme/widgets");
    assert_eq!(stats.total_items, 1);
    assert_eq!(stats.archived, 0);
    assert_eq!(stats.wrong_column, 0);
    assert_eq!(stats.filtered_by_iteration, 0);
}

#[test]
fn wrong_column_is_rejected_and_recorded() {
    // The same item in "In Progress" is rejected, the wrong-column counter
    // moves, and the observed-columns set records the name.
    let cfg = config("Done", Some("@current,@previous"), None, true);
    let mut stats = FetchStats::default();
    let item = sprint_item(false, "In Progress", "Sprint 5", "2024-01-01", 7);
    let accepted = classify_item(item, &cfg, &mut stats);
    assert!(accepted.is_none());
    assert_eq!(stats.wrong_column, 1);
    assert!(stats.columns_seen.contains(&"In Progress".to_string()));
}

#[test]
fn rejection_reasons_follow_pipeline_order() {
    let cfg = config("Done", Some("@current"), None, true);
    let mut stats = FetchStats::default();

    let archived = sprint_item(true, "Done", "Sprint 5", "2024-01-01", 1);
    assert!(classify_item(archived, &cfg, &mut stats).is_none());
    assert_eq!(stats.archived, 1);

    let stale = sprint_item(false, "Done", "Sprint 1", "2023-10-01", 2);
    assert!(classify_item(stale, &cfg, &mut stats).is_none());
    assert_eq!(stats.filtered_by_iteration, 1);

    let mut draft = sprint_item(false, "Done", "Sprint 5", "2024-01-01", 3);
    draft.content = Some(ItemContent::Other);
    assert!(classify_item(draft, &cfg, &mut stats).is_none());
    assert_eq!(stats.not_issue, 1);

    let mut no_content = sprint_item(false, "Done", "Sprint 5", "2024-01-01", 4);
    no_content.content = None;
    assert!(classify_item(no_content, &cfg, &mut stats).is_none());
    assert_eq!(stats.not_issue, 2);

    assert_eq!(stats.total_items, 4);
}

#[test]
fn missing_field_values_use_sentinels() {
    let cfg = config("Done", Some("@all"), None, true);
    let mut stats = FetchStats::default();
    let mut item = sprint_item(false, "Done", "Sprint 5", "2024-01-01", 1);
    item.field_value_by_name = None;
    item.iteration = None;
    assert!(classify_item(item, &cfg, &mut stats).is_none());
    assert_eq!(stats.wrong_column, 1);
    assert!(stats.columns_seen.contains(&"<no status>".to_string()));
    // Recorded once only.
    let mut item2 = sprint_item(false, "Other", "Sprint 5", "2024-01-01", 2);
    item2.field_value_by_name = Some(FieldValue::Other);
    assert!(classify_item(item2, &cfg, &mut stats).is_none());
    assert_eq!(stats.columns_seen.iter().filter(|c| *c == "<no status>").count(), 1);
}

#[test]
fn time_cutoff_rejects_old_and_unclosed_issues() {
    let cfg = config("Done", None, Some(1_600_000_000), false);
    let mut stats = FetchStats::default();

    let recent = sprint_item(false, "Done", "Sprint 5", "2024-01-01", 1);
    assert!(classify_item(recent, &cfg, &mut stats).is_some());

    let mut old = sprint_item(false, "Done", "Sprint 5", "2024-01-01", 2);
    if let Some(ItemContent::Issue(c)) = &mut old.content {
        c.closed_at = Some(1_500_000_000);
    }
    assert!(classify_item(old, &cfg, &mut stats).is_none());
    assert_eq!(stats.filtered_by_time, 1);

    let mut open = sprint_item(false, "Done", "Sprint 5", "2024-01-01", 3);
    if let Some(ItemContent::Issue(c)) = &mut open.content {
        c.closed_at = None;
    }
    assert!(classify_item(open, &cfg, &mut stats).is_none());
    assert_eq!(stats.filtered_by_time, 2);

    // An issue closed exactly at the cutoff passes.
    let mut boundary = sprint_item(false, "Done", "Sprint 5", "2024-01-01", 4);
    if let Some(ItemContent::Issue(c)) = &mut boundary.content {
        c.closed_at = Some(1_600_000_000);
    }
    assert!(classify_item(boundary, &cfg, &mut stats).is_some());
}

#[test]
fn pagination_concatenates_pages_in_order() {
    // Three synthetic pages, the last reporting no next page: the fetch
    // makes exactly three page requests and returns the concatenation.
    let cfg = config("Done", Some("@all"), None, false);
    let pages = vec![
        page(
            vec![
                sprint_item(false, "Done", "Sprint 5", "2024-01-01", 1),
                sprint_item(true, "Done", "Sprint 5", "2024-01-01", 2),
            ],
            true,
            Some("c1"),
        ),
        page(vec![sprint_item(false, "Done", "Sprint 5", "2024-01-01", 3)], true, Some("c2")),
        page(
            vec![
                sprint_item(false, "Backlog", "Sprint 5", "2024-01-01", 4),
                sprint_item(false, "Done", "Sprint 5", "2024-01-01", 5),
            ],
            false,
            None,
        ),
    ];
    let out = fetch_from_pages(pages, &cfg).expect("the fetch should succeed");
    assert_eq!(out.pages_fetched, 3);
    let numbers: Vec<u64> = out.issues.iter().map(|i| i.number).collect();
    assert_eq!(numbers, vec![1, 3, 5]);
    assert_eq!(out.stats.total_items, 5);
    assert_eq!(out.stats.archived, 1);
    assert_eq!(out.stats.wrong_column, 1);
    // The counters partition the total.
    assert_eq!(
        out.stats.total_items,
        out.stats.archived
            + out.stats.wrong_column
            + out.stats.filtered_by_iteration
            + out.stats.not_issue
            + out.stats.filtered_by_time
            + out.issues.len()
    );
}

#[test]
fn fetch_stops_at_first_page_without_next() {
    let cfg = config("Done", Some("@all"), None, false);
    let pages = vec![
        page(vec![sprint_item(false, "Done", "Sprint 5", "2024-01-01", 1)], false, None),
        page(vec![sprint_item(false, "Done", "Sprint 5", "2024-01-01", 2)], false, None),
    ];
    let out = fetch_from_pages(pages, &cfg).expect("the fetch should succeed");
    assert_eq!(out.pages_fetched, 1);
    assert_eq!(out.issues.len(), 1);
    assert_eq!(out.issues[0].number, 1);
}

#[test]
fn api_errors_abort_the_whole_fetch() {
    let cfg = config("Done", Some("@all"), None, false);
    let bad_page = GraphQLResponse {
        data: None,
        errors: Some(vec![GraphQLError { message: "boom".to_string() }]),
    };
    let pages = vec![
        page(vec![sprint_item(false, "Done", "Sprint 5", "2024-01-01", 1)], true, Some("c1")),
        bad_page,
    ];
    match fetch_from_pages(pages, &cfg) {
        Err(FetchError::ApiErrors { messages }) => assert_eq!(messages, vec!["boom".to_string()]),
        other => panic!("expected API errors, got {:?}", other),
    }
}

#[test]
fn missing_node_and_missing_page_are_distinct_errors() {
    let cfg = config("Done", Some("@all"), None, false);
    let no_node: GraphQLResponse<ProjectData> =
        GraphQLResponse { data: Some(ProjectData { node: None }), errors: None };
    assert!(matches!(fetch_from_pages(vec![no_node], &cfg), Err(FetchError::ProjectNotFound)));

    let endless =
        vec![page(vec![sprint_item(false, "Done", "Sprint 5", "2024-01-01", 1)], true, Some("c"))];
    assert!(matches!(fetch_from_pages(endless, &cfg), Err(FetchError::PageUnavailable)));
}

#[test]
fn iterations_seen_only_for_items_in_the_requested_column() {
    let cfg = config("Done", Some("@all"), None, true);
    let pages = vec![page(
        vec![
            sprint_item(false, "Done", "Sprint 5", "2024-01-01", 1),
            sprint_item(false, "Backlog", "Sprint 9", "2024-01-01", 2),
        ],
        false,
        None,
    )];
    let out = fetch_from_pages(pages, &cfg).expect("the fetch should succeed");
    assert!(out.stats.iterations_seen.contains(&"Sprint 5".to_string()));
    assert!(!out.stats.iterations_seen.contains(&"Sprint 9".to_string()));
    assert!(out.stats.columns_seen.contains(&"Done".to_string()));
    assert!(out.stats.columns_seen.contains(&"Backlog".to_string()));
}
