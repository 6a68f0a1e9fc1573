use reader_state::domain::{Bitmap, Page};
use reader_state::page_cache::PageCache;
use std::sync::Arc;

fn rendered(index: i32) -> Arc<Page> {
    let image = Bitmap::new(1000, 1414, format!("image-{index}"), vec![0xff00_0000]);
    Arc::new(Page { index, image: Some(image) })
}

fn render_all(indices: &[i32]) -> Vec<Arc<Page>> {
    let mut pages = Vec::new();
    for index in indices {
        pages.push(rendered(*index));
    }
    pages
}

#[test]
fn window_reaches_five_pages_to_either_side() {
    let cache = PageCache::new();
    assert_eq!(cache.missing_pages(10, 100), vec![5, 6, 7, 8, 9, 10, 11, 12, 13, 14]);
    assert_eq!(cache.missing_pages(5, 100), vec![0, 1, 2, 3, 4, 5, 6, 7, 8, 9]);
    assert_eq!(cache.missing_pages(6, 100), vec![1, 2, 3, 4, 5, 6, 7, 8, 9, 10]);
}

#[test]
fn window_stops_at_the_first_and_last_page() {
    let cache = PageCache::new();
    assert_eq!(cache.missing_pages(0, 20), vec![0, 1, 2, 3, 4]);
    assert_eq!(cache.missing_pages(2, 20), vec![0, 1, 2, 3, 4, 5, 6]);
    assert_eq!(cache.missing_pages(18, 20), vec![13, 14, 15, 16, 17, 18, 19]);
    assert_eq!(cache.missing_pages(15, 20), vec![10, 11, 12, 13, 14, 15, 16, 17, 18, 19]);
    assert_eq!(cache.missing_pages(0, 3), vec![0, 1, 2]);
}

#[test]
fn window_is_empty_outside_the_document() {
    let cache = PageCache::new();
    assert_eq!(cache.missing_pages(0, 0), Vec::<i32>::new());
    assert_eq!(cache.missing_pages(3, -1), Vec::<i32>::new());
    assert_eq!(cache.missing_pages(25, 20), Vec::<i32>::new());
    assert_eq!(cache.missing_pages(24, 20), vec![19]);
    assert_eq!(cache.missing_pages(-5, 20), Vec::<i32>::new());
    assert_eq!(cache.missing_pages(-4, 20), vec![0]);
    assert_eq!(cache.missing_pages(i32::MIN, 20), Vec::<i32>::new());
    assert_eq!(cache.missing_pages(i32::MAX, 20), Vec::<i32>::new());
    assert_eq!(
        cache.missing_pages(i32::MAX, i32::MAX),
        vec![i32::MAX - 5, i32::MAX - 4, i32::MAX - 3, i32::MAX - 2, i32::MAX - 1]
    );
}

#[test]
fn held_pages_are_not_rendered_again() {
    let mut cache = PageCache::new();
    cache.record(&render_all(&[3, 4, 7]));
    assert!(cache.contains(3));
    assert!(cache.contains(7));
    assert!(!cache.contains(5));
    assert_eq!(cache.missing_pages(5, 20), vec![0, 1, 2, 5, 6, 8, 9]);
}

#[test]
fn a_repeated_request_finds_nothing_missing() {
    let mut cache = PageCache::new();
    let first = cache.missing_pages(7, 50);
    assert_eq!(first, vec![2, 3, 4, 5, 6, 7, 8, 9, 10, 11]);
    cache.record(&render_all(&first));
    assert_eq!(cache.missing_pages(7, 50), Vec::<i32>::new());
}

#[test]
fn a_page_that_failed_to_render_is_asked_for_again() {
    let mut cache = PageCache::new();
    cache.record(&render_all(&[0, 1, 3, 4]));
    assert_eq!(cache.missing_pages(0, 20), vec![2]);
}

#[test]
fn a_page_without_an_image_is_not_kept() {
    let mut cache = PageCache::new();
    cache.record(&vec![Arc::new(Page { index: 2, image: None }), rendered(3)]);
    assert!(!cache.contains(2));
    assert!(cache.contains(3));
}

#[test]
fn clearing_forgets_every_page() {
    let mut cache = PageCache::new();
    cache.record(&render_all(&[0, 1, 2, 3, 4]));
    cache.clear();
    assert!(!cache.contains(0));
    assert_eq!(cache.missing_pages(0, 20), vec![0, 1, 2, 3, 4]);
}

#[test]
fn windows_over_a_twenty_page_document() {
    let mut cache = PageCache::new();
    let first = cache.missing_pages(0, 20);
    assert_eq!(first, vec![0, 1, 2, 3, 4]);
    cache.record(&render_all(&first));
    let second = cache.missing_pages(2, 20);
    assert_eq!(second, vec![5, 6]);
    cache.record(&render_all(&second));
    assert_eq!(cache.missing_pages(2, 20), Vec::<i32>::new());
    let third = cache.missing_pages(15, 20);
    assert_eq!(third, vec![10, 11, 12, 13, 14, 15, 16, 17, 18, 19]);
    cache.record(&render_all(&third));
    assert_eq!(cache.missing_pages(12, 20), vec![7, 8, 9]);
}
