use reader_state::books_state::{
    books_listener_id, BooksAction, BooksResult, BooksSideEffect, BooksState, BooksStore,
};
use reader_state::domain::{Bitmap, Book, Page, PdfLoadingState};
use reader_state::global_state::{GlobalResult, GlobalState, GlobalStore};
use reader_state::pages_state::{
    pages_listener_id, PagesAction, PagesResult, PagesState, PagesStore,
};
use std::sync::Arc;

fn book(uuid: &str) -> Book {
    Book { uuid: uuid.to_string(), thumbnail: None, loading_state: PdfLoadingState::LoadingPdf }
}

fn slot(index: i32, uid: Option<&str>) -> Arc<Page> {
    let image = uid.map(|uid| Bitmap::new(1000, 1414, uid.to_string(), vec![1]));
    Arc::new(Page { index, image })
}

fn root(text: &str, books: Vec<Book>, pages: Vec<Arc<Page>>) -> GlobalState {
    GlobalState {
        some_text: text.to_string(),
        books,
        current_book: None,
        current_book_pages: pages,
    }
}

fn ids(state: &BooksState) -> Vec<String> {
    state.books.iter().map(|book| book.uuid.clone()).collect()
}

fn rendered(state: &PagesState) -> Vec<i32> {
    state
        .current_book_pages
        .iter()
        .filter(|page| page.image.is_some())
        .map(|page| page.index)
        .collect()
}

#[test]
fn listener_ids_of_the_derived_stores() {
    assert_eq!(books_listener_id(), "BOOKS_GLOBAL_STORE_LISTENER_ID");
    assert_eq!(pages_listener_id(), "PAGES_GLOBAL_STORE_LISTENER_ID");
}

#[test]
fn a_new_books_store_is_in_its_initial_state() {
    let store = BooksStore::new();
    assert_eq!(store.state().some_text, "initial_text");
    assert!(store.state().books.is_empty());
    assert_eq!(store.listeners().len(), 0);
}

#[test]
fn books_store_tells_of_the_first_root_state_it_sees() {
    let mut store = BooksStore::new();
    store.add_listener("ui".to_string());
    let deliveries = store.new_state(root("t", Vec::new(), Vec::new()));
    assert_eq!(deliveries.len(), 1);
    assert_eq!(deliveries[0].listener_id, "ui");
    assert!(deliveries[0].payload.books.is_empty());
    assert_eq!(deliveries[0].payload.some_text, "initial_text");
}

#[test]
fn books_store_tells_only_when_the_documents_changed() {
    let mut store = BooksStore::new();
    store.add_listener("ui".to_string());
    assert_eq!(store.new_state(root("t", vec![book("a")], Vec::new())).len(), 1);
    assert!(store.new_state(root("t", vec![book("a")], Vec::new())).is_empty());
    assert!(store.new_state(root("other", vec![book("a")], vec![slot(0, None)])).is_empty());
    assert_eq!(ids(store.state()), vec!["a"]);
    let deliveries = store.new_state(root("other", vec![book("a"), book("b")], Vec::new()));
    assert_eq!(deliveries.len(), 1);
    assert_eq!(ids(&deliveries[0].payload), vec!["a", "b"]);
    assert_eq!(ids(store.state()), vec!["a", "b"]);
    assert!(store.new_state(root("x", vec![book("a"), book("b")], Vec::new())).is_empty());
    let mut failed = book("b");
    failed.loading_state = PdfLoadingState::ErrorPdf;
    assert_eq!(store.new_state(root("x", vec![book("a"), failed], Vec::new())).len(), 1);
    assert_eq!(store.new_state(root("x", vec![book("a")], Vec::new())).len(), 1);
    assert_eq!(ids(store.state()), vec!["a"]);
}

#[test]
fn books_store_compares_with_the_root_state_it_saw_last() {
    let mut store = BooksStore::new();
    store.add_listener("ui".to_string());
    assert_eq!(store.new_state(root("t", vec![book("a")], Vec::new())).len(), 1);
    assert_eq!(store.new_state(root("t", vec![book("b")], Vec::new())).len(), 1);
    assert!(store.new_state(root("t", vec![book("b")], Vec::new())).is_empty());
    assert_eq!(store.new_state(root("t", vec![book("a")], Vec::new())).len(), 1);
}

#[test]
fn books_store_without_listeners_still_follows_the_root() {
    let mut store = BooksStore::new();
    assert!(store.new_state(root("t", vec![book("a")], Vec::new())).is_empty());
    assert_eq!(ids(store.state()), vec!["a"]);
}

#[test]
fn books_store_hands_new_listeners_its_state() {
    let mut store = BooksStore::new();
    store.new_state(root("t", vec![book("a")], Vec::new()));
    let delivery = store.add_listener("ui".to_string());
    assert_eq!(delivery.listener_id, "ui");
    assert_eq!(ids(&delivery.payload), vec!["a"]);
    store.add_listener("ui".to_string());
    assert_eq!(store.listeners().len(), 1);
    store.remove_listener("ui".to_string());
    store.remove_listener("ui".to_string());
    assert_eq!(store.listeners().len(), 0);
}

#[test]
fn books_store_reduces_a_new_list() {
    let state = BooksState { some_text: "kept".to_string(), books: vec![book("a")] };
    let reduced = BooksStore::reduce(state, BooksResult::BooksListUpdated { books: vec![book("b"), book("c")] });
    assert_eq!(reduced.some_text, "kept");
    assert_eq!(ids(&reduced), vec!["b", "c"]);
    let mut store = BooksStore::new();
    store.add_listener("one".to_string());
    store.add_listener("two".to_string());
    let deliveries = store.process_result(BooksResult::BooksListUpdated { books: vec![book("z")] });
    assert_eq!(deliveries.len(), 2);
    assert_eq!(deliveries[0].listener_id, "one");
    assert_eq!(deliveries[1].listener_id, "two");
    assert_eq!(ids(&deliveries[1].payload), vec!["z"]);
    assert_eq!(ids(&store.state().clone()), vec!["z"]);
}

#[test]
fn add_clicked_asks_every_listener_for_the_file_picker() {
    let mut store = BooksStore::new();
    assert!(store.dispatch_action(BooksAction::AddClicked).is_empty());
    store.add_listener("one".to_string());
    store.add_listener("two".to_string());
    let deliveries = store.dispatch_action(BooksAction::AddClicked);
    assert_eq!(deliveries.len(), 2);
    assert_eq!(deliveries[0].listener_id, "one");
    assert_eq!(deliveries[0].payload, BooksSideEffect::OpenFilePicker);
    assert_eq!(deliveries[1].listener_id, "two");
    assert_eq!(deliveries[1].payload, BooksSideEffect::OpenFilePicker);
    assert!(store.state().books.is_empty());
    let again = store.dispatch_side_effect(BooksSideEffect::OpenFilePicker);
    assert_eq!(again.len(), 2);
}

#[test]
fn books_store_subscribes_to_the_root_store_and_leaves_it() {
    let mut root_store = GlobalStore::new();
    root_store.process_result(GlobalResult::PdfLoading { uuid: "a1".to_string() });
    let mut store = BooksStore::new();
    store.add_listener("ui".to_string());
    let deliveries = store.init(&mut root_store);
    assert!(root_store.listeners().contains(&books_listener_id()));
    assert_eq!(deliveries.len(), 1);
    assert_eq!(ids(&deliveries[0].payload), vec!["a1"]);
    let told = root_store.process_result(GlobalResult::PdfLoading { uuid: "b1".to_string() });
    assert_eq!(told.len(), 1);
    assert_eq!(told[0].listener_id, books_listener_id());
    let mut passed_on = Vec::new();
    for delivery in told {
        passed_on = store.new_state(delivery.payload);
    }
    assert_eq!(passed_on.len(), 1);
    assert_eq!(ids(&passed_on[0].payload), vec!["a1", "b1"]);
    store.dispose(&mut root_store);
    assert_eq!(root_store.listeners().len(), 0);
    assert!(root_store.process_result(GlobalResult::PdfLoading { uuid: "c1".to_string() }).is_empty());
}

#[test]
fn a_new_pages_store_is_in_its_initial_state() {
    let store = PagesStore::new();
    assert!(store.state().current_book.is_none());
    assert!(store.state().current_book_pages.is_empty());
    assert_eq!(store.listeners().len(), 0);
}

#[test]
fn pages_store_tells_only_when_the_page_slots_changed() {
    let mut store = PagesStore::new();
    store.add_listener("ui".to_string());
    let empty = vec![slot(0, None), slot(1, None)];
    assert_eq!(store.new_state(root("t", Vec::new(), empty.clone())).len(), 1);
    assert!(store.new_state(root("t", Vec::new(), empty.clone())).is_empty());
    assert!(store.new_state(root("u", vec![book("a")], empty)).is_empty());
    let one = vec![slot(0, Some("front")), slot(1, None)];
    let deliveries = store.new_state(root("u", vec![book("a")], one));
    assert_eq!(deliveries.len(), 1);
    assert_eq!(deliveries[0].listener_id, "ui");
    assert_eq!(rendered(&deliveries[0].payload), vec![0]);
    let same_image = vec![slot(0, Some("front")), slot(1, None)];
    assert!(store.new_state(root("u", vec![book("a")], same_image)).is_empty());
    let other_image = vec![slot(0, Some("other")), slot(1, None)];
    assert_eq!(store.new_state(root("u", vec![book("a")], other_image)).len(), 1);
    assert_eq!(store.new_state(root("u", vec![book("a")], Vec::new())).len(), 1);
    assert!(store.state().current_book_pages.is_empty());
}

#[test]
fn pages_store_reduces_a_new_list() {
    let state = PagesState { current_book: Some(book("a")), current_book_pages: Vec::new() };
    let reduced = PagesStore::reduce(
        state,
        PagesResult::PagesListUpdated { pages: vec![slot(0, Some("front")), slot(1, None)] },
    );
    assert_eq!(reduced.current_book.as_ref().unwrap().uuid, "a");
    assert_eq!(rendered(&reduced), vec![0]);
    assert_eq!(reduced.clone().current_book_pages.len(), 2);
    let mut store = PagesStore::new();
    store.add_listener("one".to_string());
    let deliveries = store.process_result(PagesResult::PagesListUpdated { pages: vec![slot(0, None)] });
    assert_eq!(deliveries.len(), 1);
    assert_eq!(deliveries[0].payload.current_book_pages.len(), 1);
}

#[test]
fn showing_another_page_changes_nothing() {
    let mut store = PagesStore::new();
    let first = store.add_listener("ui".to_string());
    assert!(first.payload.current_book_pages.is_empty());
    store.new_state(root("t", Vec::new(), vec![slot(0, None)]));
    store.dispatch_action(PagesAction::CurrentPage { page_index: 0 });
    assert_eq!(store.state().current_book_pages.len(), 1);
    assert_eq!(store.listeners().len(), 1);
    store.remove_listener("ui".to_string());
    assert_eq!(store.listeners().len(), 0);
}

#[test]
fn pages_store_subscribes_to_the_root_store_and_leaves_it() {
    let mut root_store = GlobalStore::new();
    let mut books = BooksStore::new();
    let mut pages = PagesStore::new();
    pages.add_listener("ui".to_string());
    books.init(&mut root_store);
    let deliveries = pages.init(&mut root_store);
    assert_eq!(deliveries.len(), 1);
    assert_eq!(root_store.listeners().len(), 2);
    assert_eq!(root_store.listeners().id_at(0), books_listener_id());
    assert_eq!(root_store.listeners().id_at(1), pages_listener_id());
    let told = root_store.process_result(GlobalResult::PdfLoading { uuid: "a1".to_string() });
    assert_eq!(told.len(), 2);
    let mut to_books = 0;
    let mut to_pages = 0;
    for delivery in told {
        if delivery.listener_id == books_listener_id() {
            to_books += books.new_state(delivery.payload).len();
        } else {
            to_pages += pages.new_state(delivery.payload).len();
        }
    }
    assert_eq!(to_books, 0);
    assert_eq!(to_pages, 0);
    assert_eq!(books.state().books.len(), 1);
    pages.dispose(&mut root_store);
    assert_eq!(root_store.listeners().len(), 1);
    assert!(root_store.listeners().contains(&books_listener_id()));
}
