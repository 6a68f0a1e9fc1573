//! The root store: the list of documents, the current document and its page
//! slots, the reducer that folds worker results into them, and the listener
//! registry that says who is told of each new state.

use crate::domain::{
    books_view, clone_books, clone_pages, image_view, pages_view, share, share_image, Bitmap,
    BitmapView, Book, BookView, LoadingStateView, Page, PageView, PdfLoadingState,
};
use crate::pdfium_manager::{PdfiumAction, PdfiumActionView};
use crate::registry::{
    deliveries_view, for_listener, lemma_for_listener_concat, lemma_other_ids_stay,
    lemma_to_all_reaches_each_once, to_all, with_id, without_id, Delivery, DeliveryView,
    ListenerRegistry,
};
use std::sync::Arc;
use vstd::prelude::*;

verus! {

/// The root state.
pub struct GlobalState {
    pub some_text: String,
    pub books: Vec<Book>,
    pub current_book: Option<Book>,
    pub current_book_pages: Vec<Arc<Page>>,
}

/// What a [`GlobalState`] holds.
pub struct GlobalStateView {
    pub some_text: Seq<char>,
    pub books: Seq<BookView>,
    pub current_book: Option<BookView>,
    pub current_book_pages: Seq<PageView>,
}

/// The view of an optional document record.
pub open spec fn book_option_view(book: Option<Book>) -> Option<BookView> {
    match book {
        None => None,
        Some(book) => Some(book@),
    }
}

impl View for GlobalState {
    type V = GlobalStateView;

    open spec fn view(&self) -> GlobalStateView {
        GlobalStateView {
            some_text: self.some_text@,
            books: books_view(self.books@),
            current_book: book_option_view(self.current_book),
            current_book_pages: pages_view(self.current_book_pages@),
        }
    }
}

/// The view of an optional root snapshot.
pub open spec fn snapshot_view(snapshot: Option<GlobalState>) -> Option<GlobalStateView> {
    match snapshot {
        Some(state) => Some(state@),
        None => None,
    }
}

impl Clone for GlobalState {
    fn clone(&self) -> (state: Self)
        ensures
            state@ == self@,
    {
        let current_book = match &self.current_book {
            None => None,
            Some(book) => Some(book.clone()),
        };
        GlobalState {
            some_text: self.some_text.clone(),
            books: clone_books(&self.books),
            current_book,
            current_book_pages: clone_pages(&self.current_book_pages),
        }
    }
}

/// What the root store is asked to do.
pub enum GlobalAction {
    MarkPdfLoading { uuid: String },
    LoadPdf { uuid: String, file_name: String, bytes: Vec<u8> },
    MarkPdfLoadingFailed { uuid: String },
    LoadPage { page_index: i32 },
}

/// What the reducer folds into the root state.
pub enum GlobalResult {
    PdfLoading { uuid: String },
    PdfLoadingFailed { uuid: String },
    PdfLoaded {
        id: String,
        title: String,
        author: String,
        thumbnail: Option<Arc<Bitmap>>,
        page_count: i32,
    },
    PagesLoaded { pages: Vec<Arc<Page>> },
}

/// What a [`GlobalResult`] holds.
pub enum GlobalResultView {
    PdfLoading { uuid: Seq<char> },
    PdfLoadingFailed { uuid: Seq<char> },
    PdfLoaded {
        id: Seq<char>,
        title: Seq<char>,
        author: Seq<char>,
        thumbnail: Option<BitmapView>,
        page_count: i32,
    },
    PagesLoaded { pages: Seq<PageView> },
}

impl View for GlobalResult {
    type V = GlobalResultView;

    open spec fn view(&self) -> GlobalResultView {
        match *self {
            GlobalResult::PdfLoading { uuid } => GlobalResultView::PdfLoading { uuid: uuid@ },
            GlobalResult::PdfLoadingFailed { uuid } => GlobalResultView::PdfLoadingFailed {
                uuid: uuid@,
            },
            GlobalResult::PdfLoaded { id, title, author, thumbnail, page_count } => {
                GlobalResultView::PdfLoaded {
                    id: id@,
                    title: title@,
                    author: author@,
                    thumbnail: image_view(thumbnail),
                    page_count,
                }
            },
            GlobalResult::PagesLoaded { pages } => GlobalResultView::PagesLoaded {
                pages: pages_view(pages@),
            },
        }
    }
}

/// A receiver of the root store's deliveries. The store never calls it: it
/// reports each delivery, and whoever holds the listeners hands the payload
/// of a delivery to the listener registered under the delivery's id.
pub trait GlobalStateListener: Send + Sync {
    fn new_state(&self, state: GlobalState);
}

/// Something that results can be handed to for reduction.
pub trait GlobalDispatch {
    fn dispatch_action(self, action: GlobalResult);
}

/// The record of a document whose loading has just been requested.
pub open spec fn loading_book(uuid: Seq<char>) -> BookView {
    BookView { uuid, thumbnail: None, loading_state: LoadingStateView::LoadingPdf }
}

/// The record of a document that was opened.
pub open spec fn loaded_book(
    id: Seq<char>,
    title: Seq<char>,
    author: Seq<char>,
    thumbnail: Option<BitmapView>,
    page_count: i32,
) -> BookView {
    BookView {
        uuid: id,
        thumbnail,
        loading_state: LoadingStateView::ValidPdf { title, author, thumbnail, page_count },
    }
}

/// `book` once the loading of the document `uuid` has failed.
pub open spec fn after_failure(book: BookView, uuid: Seq<char>) -> BookView {
    if book.uuid == uuid {
        BookView { loading_state: LoadingStateView::ErrorPdf, ..book }
    } else {
        book
    }
}

/// `book` once the document `loaded.uuid` has been opened.
pub open spec fn after_success(book: BookView, loaded: BookView) -> BookView {
    if book.uuid == loaded.uuid {
        loaded
    } else {
        book
    }
}

/// Whether some record in `books` carries the id `uuid`.
pub open spec fn knows(books: Seq<BookView>, uuid: Seq<char>) -> bool {
    exists|i: int| 0 <= i < books.len() && (#[trigger] books[i]).uuid == uuid
}

/// The number of page slots of a document with `page_count` pages.
pub open spec fn slot_count(page_count: i32) -> nat {
    if page_count > 0 {
        page_count as nat
    } else {
        0
    }
}

/// The empty page slots of a document with `page_count` pages.
pub open spec fn empty_slots(page_count: i32) -> Seq<PageView> {
    Seq::new(slot_count(page_count), |i: int| PageView { index: i as i32, image: None })
}

/// `slots` with `page` put into the slot of its index; a page whose index
/// names no slot is left out.
pub open spec fn place_page(slots: Seq<PageView>, page: PageView) -> Seq<PageView> {
    if 0 <= page.index < slots.len() {
        slots.update(page.index as int, page)
    } else {
        slots
    }
}

/// `slots` with each of `pages` put into the slot of its index, in order.
pub open spec fn place_pages(slots: Seq<PageView>, pages: Seq<PageView>) -> Seq<PageView>
    decreases pages.len(),
{
    if pages.len() == 0 {
        slots
    } else {
        place_page(place_pages(slots, pages.drop_last()), pages.last())
    }
}

/// The root state after `result`.
///
/// A result that names a document no record carries, and a page whose index
/// names no slot, change nothing.
pub open spec fn spec_reduce(state: GlobalStateView, result: GlobalResultView) -> GlobalStateView {
    match result {
        GlobalResultView::PdfLoading { uuid } => GlobalStateView {
            books: state.books.push(loading_book(uuid)),
            ..state
        },
        GlobalResultView::PdfLoadingFailed { uuid } => GlobalStateView {
            books: state.books.map_values(|book: BookView| after_failure(book, uuid)),
            ..state
        },
        GlobalResultView::PdfLoaded { id, title, author, thumbnail, page_count } => {
            let loaded = loaded_book(id, title, author, thumbnail, page_count);
            if knows(state.books, id) {
                GlobalStateView {
                    some_text: state.some_text,
                    books: state.books.map_values(|book: BookView| after_success(book, loaded)),
                    current_book: Some(loaded),
                    current_book_pages: empty_slots(page_count),
                }
            } else {
                state
            }
        },
        GlobalResultView::PagesLoaded { pages } => GlobalStateView {
            current_book_pages: place_pages(state.current_book_pages, pages),
            ..state
        },
    }
}

impl GlobalStateView {
    /// The root state before any action: no document, no current document.
    pub open spec fn initial() -> GlobalStateView {
        GlobalStateView {
            some_text: "initial_text"@,
            books: Seq::empty(),
            current_book: None,
            current_book_pages: Seq::empty(),
        }
    }

    /// What every reachable root state satisfies: each page slot carries its
    /// own position as index; without a current document there are no slots;
    /// a current document is a valid one whose id some record carries, with
    /// one slot for each of its pages.
    pub open spec fn wf(self) -> bool {
        &&& forall|i: int|
            0 <= i < self.current_book_pages.len() ==> (#[trigger] self.current_book_pages[i]).index
                == i
        &&& match self.current_book {
            None => self.current_book_pages.len() == 0,
            Some(book) => {
                &&& knows(self.books, book.uuid)
                &&& book.loading_state matches LoadingStateView::ValidPdf { page_count, .. }
                &&& self.current_book_pages.len() == slot_count(page_count)
            },
        }
    }
}

/// The record of a document that was opened.
fn loaded_record(
    id: &String,
    title: &String,
    author: &String,
    thumbnail: &Option<Arc<Bitmap>>,
    page_count: i32,
) -> (book: Book)
    ensures
        book@ == loaded_book(id@, title@, author@, image_view(*thumbnail), page_count),
{
    Book {
        uuid: id.clone(),
        thumbnail: share_image(thumbnail),
        loading_state: PdfLoadingState::ValidPdf {
            title: title.clone(),
            author: author.clone(),
            thumbnail: share_image(thumbnail),
            page_count,
        },
    }
}

/// Marks every record with the id `uuid` as failed.
fn mark_failed(books: &mut Vec<Book>, uuid: &String)
    ensures
        books_view(final(books)@) == books_view(old(books)@).map_values(
            |book: BookView| after_failure(book, uuid@),
        ),
{
    let ghost before = books_view(books@);
    let mut i: usize = 0;
    while i < books.len()
        invariant
            i <= books.len(),
            books.len() == before.len(),
            forall|j: int| 0 <= j < i ==> (#[trigger] books@[j])@ == after_failure(before[j], uuid@),
            forall|j: int| i <= j < books.len() ==> (#[trigger] books@[j])@ == before[j],
        decreases books.len() - i,
    {
        if books[i].uuid == *uuid {
            let failed = Book {
                uuid: books[i].uuid.clone(),
                thumbnail: share_image(&books[i].thumbnail),
                loading_state: PdfLoadingState::ErrorPdf,
            };
            books.set(i, failed);
        }
        i += 1;
    }
    assert(books_view(books@) =~= before.map_values(|book: BookView| after_failure(book, uuid@)));
}

/// Puts `loaded` in the place of every record that carries its id, and says
/// whether there was one.
fn mark_loaded(books: &mut Vec<Book>, loaded: &Book) -> (found: bool)
    ensures
        books_view(final(books)@) == books_view(old(books)@).map_values(
            |book: BookView| after_success(book, loaded@),
        ),
        found == knows(books_view(old(books)@), loaded@.uuid),
{
    let ghost before = books_view(books@);
    let mut found = false;
    let mut i: usize = 0;
    while i < books.len()
        invariant
            i <= books.len(),
            books.len() == before.len(),
            forall|j: int| 0 <= j < i ==> (#[trigger] books@[j])@ == after_success(before[j], loaded@),
            forall|j: int| i <= j < books.len() ==> (#[trigger] books@[j])@ == before[j],
            found == knows(before.subrange(0, i as int), loaded@.uuid),
        decreases books.len() - i,
    {
        let ghost seen = before.subrange(0, i as int);
        let ghost seen_next = before.subrange(0, i + 1);
        if books[i].uuid == loaded.uuid {
            books.set(i, loaded.clone());
            found = true;
            assert(seen_next[i as int].uuid == loaded@.uuid);
        } else {
            proof {
                if knows(seen_next, loaded@.uuid) {
                    let j = choose|j: int|
                        0 <= j < seen_next.len() && (#[trigger] seen_next[j]).uuid == loaded@.uuid;
                    assert(seen[j].uuid == loaded@.uuid);
                }
                if knows(seen, loaded@.uuid) {
                    let j = choose|j: int|
                        0 <= j < seen.len() && (#[trigger] seen[j]).uuid == loaded@.uuid;
                    assert(seen_next[j].uuid == loaded@.uuid);
                }
            }
        }
        i += 1;
    }
    assert(before.subrange(0, i as int) =~= before);
    assert(books_view(books@) =~= before.map_values(|book: BookView| after_success(book, loaded@)));
    found
}

/// The empty page slots of a document with `page_count` pages.
fn make_empty_slots(page_count: i32) -> (slots: Vec<Arc<Page>>)
    ensures
        pages_view(slots@) == empty_slots(page_count),
{
    let mut slots: Vec<Arc<Page>> = Vec::new();
    let mut index: i32 = 0;
    while index < page_count
        invariant
            0 <= index,
            index <= page_count || index == 0,
            slots.len() == index,
            forall|j: int|
                0 <= j < index ==> (#[trigger] slots@[j])@ == (PageView {
                    index: j as i32,
                    image: None,
                }),
        decreases page_count - index,
    {
        slots.push(Arc::new(Page { index, image: None }));
        index += 1;
    }
    assert(pages_view(slots@) =~= empty_slots(page_count));
    slots
}

/// Puts each of `pages` into the slot of its index, in order.
fn fill_slots(slots: &mut Vec<Arc<Page>>, pages: &Vec<Arc<Page>>)
    ensures
        pages_view(final(slots)@) == place_pages(pages_view(old(slots)@), pages_view(pages@)),
{
    let ghost before = pages_view(slots@);
    let ghost incoming = pages_view(pages@);
    let mut k: usize = 0;
    while k < pages.len()
        invariant
            k <= pages.len(),
            incoming == pages_view(pages@),
            pages_view(slots@) == place_pages(before, incoming.subrange(0, k as int)),
        decreases pages.len() - k,
    {
        let page = share(&pages[k]);
        let index = page.index;
        proof {
            assert(incoming.subrange(0, k + 1).drop_last() =~= incoming.subrange(0, k as int));
            assert(incoming.subrange(0, k + 1).last() == page@);
        }
        if 0 <= index && (index as usize) < slots.len() {
            let ghost filled = pages_view(slots@);
            slots.set(index as usize, page);
            assert(pages_view(slots@) =~= filled.update(index as int, page@));
        }
        k += 1;
    }
    assert(incoming.subrange(0, k as int) =~= incoming);
}

/// Placing pages keeps the number of slots, and keeps every slot's index at
/// its position where that held before.
pub proof fn lemma_place_pages_keeps_slots(slots: Seq<PageView>, pages: Seq<PageView>)
    ensures
        place_pages(slots, pages).len() == slots.len(),
        (forall|i: int| 0 <= i < slots.len() ==> (#[trigger] slots[i]).index == i) ==> (forall|
            i: int,
        |
            0 <= i < slots.len() ==> (#[trigger] place_pages(slots, pages)[i]).index == i),
    decreases pages.len(),
{
    if pages.len() > 0 {
        lemma_place_pages_keeps_slots(slots, pages.drop_last());
    }
}

/// Every result leaves a well-formed root state well-formed.
pub proof fn lemma_reduce_keeps_wf(state: GlobalStateView, result: GlobalResultView)
    requires
        state.wf(),
    ensures
        spec_reduce(state, result).wf(),
{
    let next = spec_reduce(state, result);
    match result {
        GlobalResultView::PdfLoading { uuid } => {
            if let Some(book) = state.current_book {
                let i = choose|i: int|
                    0 <= i < state.books.len() && (#[trigger] state.books[i]).uuid == book.uuid;
                assert(next.books[i].uuid == book.uuid);
            }
        },
        GlobalResultView::PdfLoadingFailed { uuid } => {
            if let Some(book) = state.current_book {
                let i = choose|i: int|
                    0 <= i < state.books.len() && (#[trigger] state.books[i]).uuid == book.uuid;
                assert(next.books[i].uuid == book.uuid);
            }
        },
        GlobalResultView::PdfLoaded { id, title, author, thumbnail, page_count } => {
            if knows(state.books, id) {
                let i = choose|i: int|
                    0 <= i < state.books.len() && (#[trigger] state.books[i]).uuid == id;
                assert(next.books[i].uuid == id);
            }
        },
        GlobalResultView::PagesLoaded { pages } => {
            lemma_place_pages_keeps_slots(state.current_book_pages, pages);
        },
    }
}

/// The view of an optional worker command.
pub open spec fn command_view(command: Option<PdfiumAction>) -> Option<PdfiumActionView> {
    match command {
        Some(action) => Some(action@),
        None => None,
    }
}

/// What the root store's dispatch leaves for its caller to do.
pub enum Routed {
    /// The action was reduced; each listener is owed the new state.
    Reduced { deliveries: Vec<Delivery<GlobalState>> },
    /// The action is work for the page worker.
    Forwarded { command: PdfiumAction },
    /// The action is work for the page worker, and none is attached.
    Dropped,
}

/// What a [`Routed`] holds.
pub enum RoutedView {
    Reduced { deliveries: Seq<DeliveryView<GlobalStateView>> },
    Forwarded { command: PdfiumActionView },
    Dropped,
}

impl View for Routed {
    type V = RoutedView;

    open spec fn view(&self) -> RoutedView {
        match *self {
            Routed::Reduced { deliveries } => RoutedView::Reduced {
                deliveries: deliveries_view(deliveries@),
            },
            Routed::Forwarded { command } => RoutedView::Forwarded { command: command@ },
            Routed::Dropped => RoutedView::Dropped,
        }
    }
}

/// What a [`GlobalAction`] holds.
pub enum GlobalActionView {
    MarkPdfLoading { uuid: Seq<char> },
    LoadPdf { uuid: Seq<char>, file_name: Seq<char>, bytes: Seq<u8> },
    MarkPdfLoadingFailed { uuid: Seq<char> },
    LoadPage { page_index: i32 },
}

impl View for GlobalAction {
    type V = GlobalActionView;

    open spec fn view(&self) -> GlobalActionView {
        match *self {
            GlobalAction::MarkPdfLoading { uuid } => GlobalActionView::MarkPdfLoading { uuid: uuid@ },
            GlobalAction::LoadPdf { uuid, file_name, bytes } => GlobalActionView::LoadPdf {
                uuid: uuid@,
                file_name: file_name@,
                bytes: bytes@,
            },
            GlobalAction::MarkPdfLoadingFailed { uuid } => GlobalActionView::MarkPdfLoadingFailed {
                uuid: uuid@,
            },
            GlobalAction::LoadPage { page_index } => GlobalActionView::LoadPage { page_index },
        }
    }
}

/// What a [`GlobalStore`] holds.
pub struct GlobalStoreView {
    pub state: GlobalStateView,
    pub listeners: Seq<Seq<char>>,
    pub worker_attached: bool,
}

impl GlobalStoreView {
    /// The store before anything was done to it.
    pub open spec fn initial() -> GlobalStoreView {
        GlobalStoreView {
            state: GlobalStateView::initial(),
            listeners: Seq::empty(),
            worker_attached: false,
        }
    }

    /// The store after `result` was folded into its state.
    pub open spec fn after_result(self, result: GlobalResultView) -> GlobalStoreView {
        GlobalStoreView { state: spec_reduce(self.state, result), ..self }
    }

    /// The store after `action`: an action that marks a document is reduced,
    /// one for the page worker leaves the store as it is.
    pub open spec fn after_action(self, action: GlobalActionView) -> GlobalStoreView {
        match action {
            GlobalActionView::MarkPdfLoading { uuid } => self.after_result(
                GlobalResultView::PdfLoading { uuid },
            ),
            GlobalActionView::MarkPdfLoadingFailed { uuid } => self.after_result(
                GlobalResultView::PdfLoadingFailed { uuid },
            ),
            _ => self,
        }
    }

    /// The command that `action` is forwarded as, where it is work for the
    /// page worker.
    pub open spec fn command_for(action: GlobalActionView) -> Option<PdfiumActionView> {
        match action {
            GlobalActionView::LoadPdf { uuid, file_name, bytes } => Some(
                PdfiumActionView::LoadPdf { uuid, file_name, bytes },
            ),
            GlobalActionView::LoadPage { page_index } => Some(
                PdfiumActionView::PageLoadRequested { page_index },
            ),
            _ => None,
        }
    }

    /// What dispatching `action` leaves for the caller to do.
    pub open spec fn routed(self, action: GlobalActionView) -> RoutedView {
        match Self::command_for(action) {
            Some(command) => if self.worker_attached {
                RoutedView::Forwarded { command }
            } else {
                RoutedView::Dropped
            },
            None => RoutedView::Reduced {
                deliveries: to_all(self.listeners, self.after_action(action).state),
            },
        }
    }
}

/// The root store: the root state, the ids of its listeners, and whether a
/// page worker is attached.
pub struct GlobalStore {
    state: GlobalState,
    listeners: ListenerRegistry,
    worker_attached: bool,
}

impl View for GlobalStore {
    type V = GlobalStoreView;

    closed spec fn view(&self) -> GlobalStoreView {
        GlobalStoreView {
            state: self.state@,
            listeners: self.listeners@,
            worker_attached: self.worker_attached,
        }
    }
}

impl GlobalStore {
    #[verifier::type_invariant]
    spec fn inv(self) -> bool {
        self.state@.wf()
    }

    /// A store in its initial state, with no listener and no page worker.
    pub fn new() -> (store: Self)
        ensures
            store@ == GlobalStoreView::initial(),
    {
        let state = GlobalState {
            some_text: "initial_text".to_string(),
            books: Vec::new(),
            current_book: None,
            current_book_pages: Vec::new(),
        };
        assert(state@.books =~= Seq::empty());
        assert(state@.current_book_pages =~= Seq::empty());
        GlobalStore { state, listeners: ListenerRegistry::new(), worker_attached: false }
    }

    /// Attaches the page worker: from now on actions for it are forwarded.
    pub fn init(&mut self)
        ensures
            final(self)@ == (GlobalStoreView { worker_attached: true, ..old(self)@ }),
    {
        proof {
            use_type_invariant(&*self);
        }
        self.worker_attached = true;
    }

    /// The current root state, which is well-formed.
    pub fn state(&self) -> (state: &GlobalState)
        ensures
            state@ == self@.state,
            state@.wf(),
    {
        proof {
            use_type_invariant(self);
        }
        &self.state
    }

    /// The ids of the registered listeners.
    pub fn listeners(&self) -> (listeners: &ListenerRegistry)
        ensures
            listeners@ == self@.listeners,
    {
        &self.listeners
    }

    /// One delivery of the current state to each listener, in their order.
    fn notify_all(&self) -> (deliveries: Vec<Delivery<GlobalState>>)
        ensures
            deliveries_view(deliveries@) == to_all(self@.listeners, self@.state),
    {
        let mut deliveries: Vec<Delivery<GlobalState>> = Vec::new();
        let mut i: usize = 0;
        while i < self.listeners.len()
            invariant
                i <= self.listeners@.len(),
                deliveries_view(deliveries@) == to_all(
                    self@.listeners.subrange(0, i as int),
                    self@.state,
                ),
            decreases self.listeners@.len() - i,
        {
            let ghost sent = deliveries_view(deliveries@);
            let delivery = Delivery { listener_id: self.listeners.id_at(i), payload: self.state.clone() };
            deliveries.push(delivery);
            assert(deliveries_view(deliveries@) =~= sent.push(delivery@));
            assert(deliveries_view(deliveries@) =~= to_all(
                self@.listeners.subrange(0, i + 1),
                self@.state,
            ));
            i += 1;
        }
        assert(self@.listeners.subrange(0, i as int) =~= self@.listeners);
        deliveries
    }

    /// Registers a listener under `id` and hands it the current state at
    /// once. An id that is registered already keeps its place.
    pub fn add_listener(&mut self, id: String) -> (delivery: Delivery<GlobalState>)
        ensures
            final(self)@ == (GlobalStoreView {
                listeners: with_id(old(self)@.listeners, id@),
                ..old(self)@
            }),
            delivery@ == (DeliveryView { listener_id: id@, payload: old(self)@.state }),
    {
        proof {
            use_type_invariant(&*self);
        }
        let delivery = Delivery { listener_id: id.clone(), payload: self.state.clone() };
        let mut listeners = ListenerRegistry::new();
        std::mem::swap(&mut listeners, &mut self.listeners);
        listeners.register(id);
        self.listeners = listeners;
        delivery
    }

    /// Takes the listener `id` out; nothing changes if there is none.
    pub fn remove_listener(&mut self, id: String)
        ensures
            final(self)@ == (GlobalStoreView {
                listeners: without_id(old(self)@.listeners, id@),
                ..old(self)@
            }),
    {
        proof {
            use_type_invariant(&*self);
        }
        let mut listeners = ListenerRegistry::new();
        std::mem::swap(&mut listeners, &mut self.listeners);
        listeners.unregister(&id);
        self.listeners = listeners;
    }

    /// Folds `action` into the state, then reports one delivery of the new
    /// state for each listener, in their order.
    pub fn process_result(&mut self, action: GlobalResult) -> (deliveries: Vec<
        Delivery<GlobalState>,
    >)
        ensures
            final(self)@ == old(self)@.after_result(action@),
            deliveries_view(deliveries@) == to_all(final(self)@.listeners, final(self)@.state),
    {
        proof {
            use_type_invariant(&*self);
            lemma_reduce_keeps_wf(self.state@, action@);
        }
        let mut state = GlobalState {
            some_text: String::new(),
            books: Vec::new(),
            current_book: None,
            current_book_pages: Vec::new(),
        };
        std::mem::swap(&mut state, &mut self.state);
        self.state = Self::reduce(state, action);
        self.notify_all()
    }

    /// The command that loads a document, where a page worker is attached.
    pub fn load_pdf(&self, uuid: String, file_name: String, bytes: Vec<u8>) -> (command: Option<
        PdfiumAction,
    >)
        ensures
            command_view(command) == if self@.worker_attached {
                Some(PdfiumActionView::LoadPdf { uuid: uuid@, file_name: file_name@, bytes: bytes@ })
            } else {
                None
            },
    {
        if self.worker_attached {
            Some(PdfiumAction::LoadPdf { uuid, file_name, bytes })
        } else {
            None
        }
    }

    /// The command that asks for the pages around `page_index`, where a page
    /// worker is attached.
    pub fn load_page(&self, page_index: i32) -> (command: Option<PdfiumAction>)
        ensures
            command_view(command) == if self@.worker_attached {
                Some(PdfiumActionView::PageLoadRequested { page_index })
            } else {
                None
            },
    {
        if self.worker_attached {
            Some(PdfiumAction::PageLoadRequested { page_index })
        } else {
            None
        }
    }

    /// Routes one action: an action that marks a document is reduced here and
    /// every listener is owed the new state; an action for the page worker is
    /// handed back as the worker's command, or dropped where no worker is
    /// attached. Only a reduced action changes the store.
    pub fn dispatch_action(&mut self, action: GlobalAction) -> (routed: Routed)
        ensures
            final(self)@ == old(self)@.after_action(action@),
            routed@ == old(self)@.routed(action@),
    {
        match action {
            GlobalAction::MarkPdfLoading { uuid } => Routed::Reduced {
                deliveries: self.process_result(GlobalResult::PdfLoading { uuid }),
            },
            GlobalAction::LoadPdf { uuid, file_name, bytes } => match self.load_pdf(
                uuid,
                file_name,
                bytes,
            ) {
                Some(command) => Routed::Forwarded { command },
                None => Routed::Dropped,
            },
            GlobalAction::MarkPdfLoadingFailed { uuid } => Routed::Reduced {
                deliveries: self.process_result(GlobalResult::PdfLoadingFailed { uuid }),
            },
            GlobalAction::LoadPage { page_index } => match self.load_page(page_index) {
                Some(command) => Routed::Forwarded { command },
                None => Routed::Dropped,
            },
        }
    }

    /// Folds one result into the root state.
    pub fn reduce(state: GlobalState, action: GlobalResult) -> (new_state: GlobalState)
        ensures
            new_state@ == spec_reduce(state@, action@),
            state@.wf() ==> new_state@.wf(),
    {
        proof {
            if state@.wf() {
                lemma_reduce_keeps_wf(state@, action@);
            }
        }
        let mut new_state = state;
        match action {
            GlobalResult::PdfLoading { uuid } => {
                let ghost before = books_view(new_state.books@);
                new_state.books.push(
                    Book { uuid, thumbnail: None, loading_state: PdfLoadingState::LoadingPdf },
                );
                assert(books_view(new_state.books@) =~= before.push(loading_book(uuid@)));
            },
            GlobalResult::PdfLoadingFailed { uuid } => {
                mark_failed(&mut new_state.books, &uuid);
            },
            GlobalResult::PdfLoaded { id, title, author, thumbnail, page_count } => {
                let loaded = loaded_record(&id, &title, &author, &thumbnail, page_count);
                if mark_loaded(&mut new_state.books, &loaded) {
                    new_state.current_book = Some(loaded);
                    new_state.current_book_pages = make_empty_slots(page_count);
                } else {
                    assert(books_view(new_state.books@) =~= state@.books);
                }
            },
            GlobalResult::PagesLoaded { pages } => {
                fill_slots(&mut new_state.current_book_pages, &pages);
            },
        }
        new_state
    }
}

/// One thing that is done to the root store.
pub enum StoreEvent {
    /// A listener is registered under `id`.
    ListenerAdded { id: Seq<char> },
    /// The listener `id` is taken out.
    ListenerRemoved { id: Seq<char> },
    /// A worker's result is processed.
    Processed { result: GlobalResultView },
    /// An action is dispatched.
    Dispatched { action: GlobalActionView },
}

impl StoreEvent {
    /// Whether the event registers or takes out the listener `id`.
    pub open spec fn concerns(self, id: Seq<char>) -> bool {
        match self {
            StoreEvent::ListenerAdded { id: added } => added == id,
            StoreEvent::ListenerRemoved { id: removed } => removed == id,
            _ => false,
        }
    }

    /// Whether the event is reduced into the state.
    pub open spec fn reduces(self) -> bool {
        match self {
            StoreEvent::Processed { .. } => true,
            StoreEvent::Dispatched { action } => GlobalStoreView::command_for(action) is None,
            _ => false,
        }
    }
}

impl GlobalStoreView {
    /// The store after `event`, as the store's operations leave it.
    pub open spec fn after_event(self, event: StoreEvent) -> GlobalStoreView {
        match event {
            StoreEvent::ListenerAdded { id } => GlobalStoreView {
                listeners: with_id(self.listeners, id),
                ..self
            },
            StoreEvent::ListenerRemoved { id } => GlobalStoreView {
                listeners: without_id(self.listeners, id),
                ..self
            },
            StoreEvent::Processed { result } => self.after_result(result),
            StoreEvent::Dispatched { action } => self.after_action(action),
        }
    }

    /// The deliveries that the store's operation reports for `event`.
    pub open spec fn told_at(self, event: StoreEvent) -> Seq<DeliveryView<GlobalStateView>> {
        match event {
            StoreEvent::ListenerAdded { id } => seq![
                DeliveryView { listener_id: id, payload: self.state },
            ],
            StoreEvent::ListenerRemoved { id } => Seq::empty(),
            StoreEvent::Processed { result } => to_all(
                self.listeners,
                self.after_result(result).state,
            ),
            StoreEvent::Dispatched { action } => match self.routed(action) {
                RoutedView::Reduced { deliveries } => deliveries,
                _ => Seq::empty(),
            },
        }
    }

    /// The store after `events`, in order.
    pub open spec fn after_events(self, events: Seq<StoreEvent>) -> GlobalStoreView
        decreases events.len(),
    {
        if events.len() == 0 {
            self
        } else {
            self.after_events(events.drop_last()).after_event(events.last())
        }
    }

    /// Every delivery reported during `events`, in the order of the reports.
    pub open spec fn told_during(self, events: Seq<StoreEvent>) -> Seq<
        DeliveryView<GlobalStateView>,
    >
        decreases events.len(),
    {
        if events.len() == 0 {
            Seq::empty()
        } else {
            self.told_during(events.drop_last()) + self.after_events(events.drop_last()).told_at(
                events.last(),
            )
        }
    }

    /// The state after each of `events` that is reduced, in order.
    pub open spec fn states_during(self, events: Seq<StoreEvent>) -> Seq<GlobalStateView>
        decreases events.len(),
    {
        if events.len() == 0 {
            Seq::empty()
        } else if events.last().reduces() {
            self.states_during(events.drop_last()).push(self.after_events(events).state)
        } else {
            self.states_during(events.drop_last())
        }
    }
}

/// A listener is told of every change of state, once, in the order in which
/// the changes were made: whatever is done to the store while a listener stays
/// registered, the states delivered to it are exactly the states after each
/// reduced event, in the events' order.
pub proof fn lemma_listener_is_told_every_state_in_order(
    store: GlobalStoreView,
    events: Seq<StoreEvent>,
    id: Seq<char>,
)
    requires
        store.listeners.no_duplicates(),
        store.listeners.contains(id),
        forall|k: int| 0 <= k < events.len() ==> !(#[trigger] events[k]).concerns(id),
    ensures
        for_listener(store.told_during(events), id) == store.states_during(events),
        store.after_events(events).listeners.no_duplicates(),
        store.after_events(events).listeners.contains(id),
    decreases events.len(),
{
    if events.len() > 0 {
        let earlier = events.drop_last();
        let event = events.last();
        let before = store.after_events(earlier);
        assert forall|k: int| 0 <= k < earlier.len() implies !(#[trigger] earlier[k]).concerns(
            id,
        ) by {
            assert(earlier[k] == events[k]);
        }
        assert(!events[events.len() - 1].concerns(id));
        lemma_listener_is_told_every_state_in_order(store, earlier, id);
        lemma_for_listener_concat(store.told_during(earlier), before.told_at(event), id);
        let told = before.told_at(event);
        match event {
            StoreEvent::ListenerAdded { id: added } => {
                lemma_other_ids_stay(before.listeners, added, id);
                assert(told.last().listener_id == added);
                assert(for_listener(told.drop_last(), id) =~= Seq::empty());
                assert(for_listener(told, id) =~= Seq::empty());
            },
            StoreEvent::ListenerRemoved { id: removed } => {
                lemma_other_ids_stay(before.listeners, removed, id);
            },
            StoreEvent::Processed { result } => {
                lemma_to_all_reaches_each_once(
                    before.listeners,
                    before.after_result(result).state,
                    id,
                );
            },
            StoreEvent::Dispatched { action } => {
                if event.reduces() {
                    lemma_to_all_reaches_each_once(
                        before.listeners,
                        before.after_action(action).state,
                        id,
                    );
                }
            },
        }
        assert(for_listener(store.told_during(events), id) =~= store.states_during(events));
    }
}

/// A failed load touches nothing but the records of the document that failed:
/// they turn to the error state, every other record stays as it is, and so do
/// the current document and its page slots.
pub proof fn lemma_failure_leaves_the_rest(state: GlobalStateView, uuid: Seq<char>)
    ensures
        ({
            let next = spec_reduce(state, GlobalResultView::PdfLoadingFailed { uuid });
            &&& next.books.len() == state.books.len()
            &&& forall|i: int|
                0 <= i < state.books.len() ==> (#[trigger] next.books[i]) == (if state.books[i].uuid
                    == uuid {
                    BookView { loading_state: LoadingStateView::ErrorPdf, ..state.books[i] }
                } else {
                    state.books[i]
                })
            &&& next.current_book == state.current_book
            &&& next.current_book_pages == state.current_book_pages
            &&& next.some_text == state.some_text
        }),
{
}

} // verus!
