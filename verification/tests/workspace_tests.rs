use which_workspace::variable::variables_url;
use which_workspace::workspace::assemble_pages;
use which_workspace::workspace::continuation;
use which_workspace::workspace::workspace_page_url;
use which_workspace::workspace::Attributes;
use which_workspace::workspace::Meta;
use which_workspace::workspace::Pagination;
use which_workspace::workspace::Workspace;

fn meta(next_page: Option<u32>, total_pages: u32) -> Meta {
    Meta {
        pagination: Pagination {
            current_page: 1,
            page_size: 20,
            prev_page: None,
            next_page,
            total_pages,
            total_count: total_pages * 20,
        },
    }
}

fn item(id: &str) -> Workspace {
    Workspace { id: id.to_string(), attributes: Attributes { name: id.to_string() } }
}

fn ids(items: &[Workspace]) -> Vec<String> {
    items.iter().map(|w| w.id.clone()).collect()
}

#[test]
fn no_meta_means_no_continuation() {
    assert_eq!(continuation(&None, 0), None);
    assert_eq!(continuation(&None, 7), None);
}

#[test]
fn no_next_page_means_no_continuation() {
    assert_eq!(continuation(&Some(meta(None, 5)), 0), None);
    assert_eq!(continuation(&Some(meta(None, 5)), 3), None);
}

#[test]
fn depth_one_never_continues() {
    assert_eq!(continuation(&Some(meta(Some(2), 5)), 1), None);
}

#[test]
fn unbounded_depth_runs_to_total_pages() {
    assert_eq!(continuation(&Some(meta(Some(2), 5)), 0), Some((2, 5)));
}

#[test]
fn depth_below_total_caps_the_range() {
    assert_eq!(continuation(&Some(meta(Some(2), 5)), 3), Some((2, 3)));
}

#[test]
fn depth_at_or_above_total_runs_to_total_pages() {
    assert_eq!(continuation(&Some(meta(Some(2), 5)), 5), Some((2, 5)));
    assert_eq!(continuation(&Some(meta(Some(2), 5)), 9), Some((2, 5)));
}

#[test]
fn exhausted_cursor_means_no_continuation() {
    assert_eq!(continuation(&Some(meta(Some(6), 5)), 0), None);
}

#[test]
fn assemble_preserves_page_order_and_item_order() {
    let first = vec![item("a"), item("b")];
    let rest = vec![vec![item("c")], vec![], vec![item("d"), item("e")]];
    let all = assemble_pages(first, rest);
    assert_eq!(ids(&all), vec!["a", "b", "c", "d", "e"]);
}

#[test]
fn assemble_with_no_continuation_pages_is_the_first_page() {
    let all = assemble_pages(vec![item("a")], vec![]);
    assert_eq!(ids(&all), vec!["a"]);
}

#[test]
fn unbounded_fetch_concatenates_all_pages() {
    let pages = vec![vec![item("p1")], vec![item("p2")], vec![item("p3")]];
    let plan = continuation(&Some(meta(Some(2), 3)), 0);
    assert_eq!(plan, Some((2, 3)));
    let (lo, hi) = plan.unwrap();
    let rest: Vec<Vec<Workspace>> =
        (lo..=hi).map(|n| pages[(n - 1) as usize].clone()).collect();
    let all = assemble_pages(pages[0].clone(), rest);
    assert_eq!(ids(&all), vec!["p1", "p2", "p3"]);
}

#[test]
fn bounded_fetch_stops_at_the_depth() {
    let pages = vec![vec![item("p1")], vec![item("p2")], vec![item("p3")]];
    let plan = continuation(&Some(meta(Some(2), 3)), 2);
    assert_eq!(plan, Some((2, 2)));
    let (lo, hi) = plan.unwrap();
    let rest: Vec<Vec<Workspace>> =
        (lo..=hi).map(|n| pages[(n - 1) as usize].clone()).collect();
    let all = assemble_pages(pages[0].clone(), rest);
    assert_eq!(ids(&all), vec!["p1", "p2"]);
}

#[test]
fn single_page_response_is_returned_as_is() {
    let pages = vec![vec![item("p1"), item("p2")]];
    let plan = continuation(&None, 0);
    assert_eq!(plan, None);
    let all = assemble_pages(pages[0].clone(), vec![]);
    assert_eq!(ids(&all), vec!["p1", "p2"]);
}

#[test]
fn workspace_url_carries_page_parameters() {
    let u = workspace_page_url("acme", "2", "20", &None).unwrap();
    assert!(u.starts_with("https://app.terraform.io/api/v2/organizations/acme/workspaces/?"));
    assert!(u.contains("=2"));
    assert!(u.contains("=20"));
}

#[test]
fn workspace_url_carries_the_name_search() {
    let u = workspace_page_url("acme", "1", "20", &Some("front".to_string())).unwrap();
    assert!(u.contains("front"));
    let without = workspace_page_url("acme", "1", "20", &None).unwrap();
    assert!(!without.contains("front"));
}

#[test]
fn variables_url_names_the_workspace() {
    let u = variables_url("ws-123").unwrap();
    assert_eq!(u, "https://app.terraform.io/api/v2/workspaces/ws-123/vars/");
}

#[test]
fn variables_url_escapes_what_needs_escaping() {
    let u = variables_url("my ws").unwrap();
    assert!(u.contains("my%20ws"));
}
