use jobsearch::models::{ListQuery, Platform, Rating, Sort};
use jobsearch::server::{list_window, page_of, query_filter, window_is_defined};

fn query(page: usize, page_size: usize) -> ListQuery {
    ListQuery {
        platform: Some(Platform::Upwork),
        rating: Some(Rating::Liked),
        applied: None,
        sort_by: Sort::Created,
        page,
        page_size,
    }
}

#[test]
fn page_windows() {
    assert_eq!(list_window(&query(1, 20)), (0, 20));
    assert_eq!(list_window(&query(0, 20)), (0, 20));
    assert_eq!(list_window(&query(3, 500)), (200, 100));
    assert_eq!(list_window(&query(2, 0)), (1, 1));
    assert!(window_is_defined(&query(usize::MAX, 1)));
    assert!(!window_is_defined(&query(usize::MAX, 2)));
    let f = query_filter(&query(1, 1));
    assert_eq!(f.platform, Some(Platform::Upwork));
    assert_eq!(f.rating, Some(Rating::Liked));
    assert_eq!(f.remote, None);
}

#[test]
fn ranked_pages() {
    let ids = vec![5, 4, 3, 2, 1];
    assert_eq!(page_of(&ids, 0, 2), vec![5, 4]);
    assert_eq!(page_of(&ids, 4, 2), vec![1]);
    assert_eq!(page_of(&ids, 9, 2), Vec::<i64>::new());
    assert_eq!(page_of(&ids, 1, usize::MAX), vec![4, 3, 2, 1]);
}
