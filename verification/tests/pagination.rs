use shopify_ingest::fetch::{disputes_body_is_empty, fetch_all_from, Fetcher, Page};
use shopify_ingest::model::Disputes;

fn page(items: Vec<u64>, next: Option<&str>) -> Page<u64> {
    Page { items, next: next.map(|s| s.to_string()) }
}

#[test]
fn three_pages_of_two_items_yield_six_in_order() {
    let pages = vec![
        page(vec![1, 2], Some("p2")),
        page(vec![3, 4], Some("p3")),
        page(vec![5, 6], None),
    ];
    let items = fetch_all_from(pages).unwrap();
    assert_eq!(items, vec![1, 2, 3, 4, 5, 6]);
}

#[test]
fn single_terminal_page_yields_exactly_its_items() {
    let pages = vec![page(vec![7, 8, 9], None)];
    let items = fetch_all_from(pages).unwrap();
    assert_eq!(items, vec![7, 8, 9]);
}

#[test]
fn run_ending_with_pending_link_yields_nothing() {
    let pages = vec![page(vec![1], Some("p2"))];
    assert!(fetch_all_from(pages).is_none());
    assert!(fetch_all_from(Vec::<Page<u64>>::new()).is_none());
}

#[test]
fn pages_after_the_first_terminal_page_are_not_consumed() {
    let pages = vec![page(vec![1], None), page(vec![2], None)];
    let items = fetch_all_from(pages).unwrap();
    assert_eq!(items, vec![1]);
}

#[test]
fn fetcher_accumulates_in_page_order() {
    let mut f: Fetcher<u64> = Fetcher::new("start".to_string());
    assert!(!f.done());
    assert_eq!(f.next, Some("start".to_string()));
    f.ingest(page(vec![1, 2], Some("p2")));
    assert_eq!(f.next, Some("p2".to_string()));
    f.ingest(page(vec![3], None));
    assert!(f.done());
    assert_eq!(f.items, vec![1, 2, 3]);
}

#[test]
fn non_json_content_type_means_zero_disputes_not_an_error() {
    assert!(disputes_body_is_empty(&Some("text/html; charset=utf-8".to_string())));
    assert!(disputes_body_is_empty(&None));
    let d: Disputes = Disputes::empty();
    assert_eq!(d.disputes.len(), 0);
}

#[test]
fn json_content_type_is_decoded_normally() {
    assert!(!disputes_body_is_empty(&Some("application/json; charset=utf-8".to_string())));
    assert!(!disputes_body_is_empty(&Some("application/json".to_string())));
}
