use reader_state::domain::{
    books_match, clone_books, clone_pages, images_match, pages_match, share_image, Bitmap, Book,
    Page, PdfLoadingState,
};
use std::sync::Arc;

fn bitmap(uid: &str, pixels: Vec<u32>) -> Arc<Bitmap> {
    Bitmap::new(2, 3, uid.to_string(), pixels)
}

fn valid_book(uuid: &str, thumbnail_uid: &str) -> Book {
    Book {
        uuid: uuid.to_string(),
        thumbnail: Some(bitmap(thumbnail_uid, vec![1])),
        loading_state: PdfLoadingState::ValidPdf {
            title: "Title".to_string(),
            author: "Author".to_string(),
            thumbnail: Some(bitmap(thumbnail_uid, vec![1])),
            page_count: 4,
        },
    }
}

#[test]
fn bitmap_getters_return_what_was_given() {
    let image = Bitmap::new(640, 480, "uid-1".to_string(), vec![7, 8, 9]);
    assert_eq!(image.width(), 640);
    assert_eq!(image.height(), 480);
    assert_eq!(image.uid(), "uid-1");
    assert_eq!(image.copy_pixels(), vec![7, 8, 9]);
}

#[test]
fn bitmaps_are_compared_by_content_id_only() {
    let a = bitmap("same", vec![1, 2, 3]);
    let b = bitmap("same", vec![]);
    let c = bitmap("other", vec![1, 2, 3]);
    assert!(*a == *b);
    assert!(*a != *c);
    assert!(images_match(&Some(a.clone()), &Some(b)));
    assert!(!images_match(&Some(a.clone()), &Some(c)));
    assert!(!images_match(&Some(a), &None));
    assert!(images_match(&None, &None));
}

#[test]
fn sharing_an_image_gives_the_same_allocation() {
    let image = Some(bitmap("shared", vec![5, 6]));
    let second = share_image(&image);
    assert!(Arc::ptr_eq(image.as_ref().unwrap(), second.as_ref().unwrap()));
    assert!(share_image(&None).is_none());
}

#[test]
fn page_getters_and_identity() {
    let image = bitmap("third", vec![1]);
    let page = Page { index: 3, image: Some(image.clone()) };
    assert_eq!(page.index(), 3);
    assert!(Arc::ptr_eq(&page.image().unwrap(), &image));
    let empty = Page { index: 3, image: None };
    assert!(empty.image().is_none());
    assert!(page != empty);
    assert!(page == Page { index: 3, image: Some(bitmap("third", vec![])) });
    assert!(page != Page { index: 4, image: Some(image) });
    let copy = page.clone();
    assert_eq!(copy.index, 3);
    assert!(Arc::ptr_eq(copy.image.as_ref().unwrap(), page.image.as_ref().unwrap()));
}

#[test]
fn loading_states_are_compared_by_variant_and_fields() {
    let loading = PdfLoadingState::LoadingPdf;
    let error = PdfLoadingState::ErrorPdf;
    assert!(loading == PdfLoadingState::LoadingPdf);
    assert!(error == PdfLoadingState::ErrorPdf);
    assert!(loading != error);
    let valid = valid_book("a", "t").loading_state;
    assert!(valid == valid_book("b", "t").loading_state);
    assert!(valid != valid_book("a", "u").loading_state);
    assert!(valid != loading);
    let other_count = PdfLoadingState::ValidPdf {
        title: "Title".to_string(),
        author: "Author".to_string(),
        thumbnail: Some(bitmap("t", vec![])),
        page_count: 5,
    };
    assert!(valid != other_count);
    assert!(valid.clone() == valid);
}

#[test]
fn books_are_compared_by_id_thumbnail_and_state() {
    let book = valid_book("a", "t");
    assert!(book == valid_book("a", "t"));
    assert!(book != valid_book("b", "t"));
    assert!(book != valid_book("a", "u"));
    let copy = book.clone();
    assert_eq!(copy.uuid, "a");
    assert!(copy == book);
}

#[test]
fn book_lists_match_position_by_position() {
    let a = vec![valid_book("a", "t"), valid_book("b", "u")];
    let same = vec![valid_book("a", "t"), valid_book("b", "u")];
    let swapped = vec![valid_book("b", "u"), valid_book("a", "t")];
    let shorter = vec![valid_book("a", "t")];
    assert!(books_match(&a, &same));
    assert!(!books_match(&a, &swapped));
    assert!(!books_match(&a, &shorter));
    assert!(books_match(&Vec::new(), &Vec::new()));
    assert!(books_match(&a, &clone_books(&a)));
    assert_eq!(clone_books(&a).len(), 2);
}

#[test]
fn page_lists_match_position_by_position() {
    let a = vec![
        Arc::new(Page { index: 0, image: None }),
        Arc::new(Page { index: 1, image: Some(bitmap("x", vec![1])) }),
    ];
    let same = vec![
        Arc::new(Page { index: 0, image: None }),
        Arc::new(Page { index: 1, image: Some(bitmap("x", vec![2])) }),
    ];
    let rendered = vec![
        Arc::new(Page { index: 0, image: Some(bitmap("y", vec![1])) }),
        Arc::new(Page { index: 1, image: Some(bitmap("x", vec![1])) }),
    ];
    assert!(pages_match(&a, &same));
    assert!(!pages_match(&a, &rendered));
    assert!(!pages_match(&a, &Vec::new()));
    let copy = clone_pages(&a);
    assert_eq!(copy.len(), 2);
    assert!(Arc::ptr_eq(&copy[1], &a[1]));
}
