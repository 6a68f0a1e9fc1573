//! The pages store: a derived store that follows the root store's page slots
//! and tells its own listeners only when those slots have changed.

use crate::domain::{
    clone_pages, lemma_same_pages_is_equivalence, pages_match, pages_view, same_pages, Book,
    BookView, Page, PageView,
};
use crate::global_state::{
    book_option_view, snapshot_view, GlobalState, GlobalStateView, GlobalStore, GlobalStoreView,
};
use crate::registry::{
    deliveries_view, to_all, with_id, without_id, Delivery, DeliveryView, ListenerRegistry,
};
use std::sync::Arc;
use vstd::prelude::*;

verus! {

/// The state of the pages store.
pub struct PagesState {
    pub current_book: Option<Book>,
    pub current_book_pages: Vec<Arc<Page>>,
}

/// What a [`PagesState`] holds.
pub struct PagesStateView {
    pub current_book: Option<BookView>,
    pub current_book_pages: Seq<PageView>,
}

impl View for PagesState {
    type V = PagesStateView;

    open spec fn view(&self) -> PagesStateView {
        PagesStateView {
            current_book: book_option_view(self.current_book),
            current_book_pages: pages_view(self.current_book_pages@),
        }
    }
}

impl Clone for PagesState {
    fn clone(&self) -> (state: Self)
        ensures
            state@ == self@,
    {
        let current_book = match &self.current_book {
            None => None,
            Some(book) => Some(book.clone()),
        };
        PagesState { current_book, current_book_pages: clone_pages(&self.current_book_pages) }
    }
}

/// A receiver of the pages store's deliveries. The store never calls it: it
/// reports each delivery, and whoever holds the listeners hands the payload
/// of a delivery to the listener registered under the delivery's id.
pub trait PagesStateListener: Send + Sync {
    fn new_state(&self, state: PagesState);
}

/// What the pages store is asked to do.
pub enum PagesAction {
    CurrentPage { page_index: i32 },
}

/// What the pages store's reducer folds into its state.
pub enum PagesResult {
    PagesListUpdated { pages: Vec<Arc<Page>> },
}

/// What a [`PagesResult`] holds.
pub enum PagesResultView {
    PagesListUpdated { pages: Seq<PageView> },
}

impl View for PagesResult {
    type V = PagesResultView;

    open spec fn view(&self) -> PagesResultView {
        match *self {
            PagesResult::PagesListUpdated { pages } => PagesResultView::PagesListUpdated {
                pages: pages_view(pages@),
            },
        }
    }
}

/// The state of the pages store after `result`.
pub open spec fn spec_reduce(state: PagesStateView, result: PagesResultView) -> PagesStateView {
    match result {
        PagesResultView::PagesListUpdated { pages } => PagesStateView {
            current_book_pages: pages,
            ..state
        },
    }
}

/// What a [`PagesStore`] holds.
pub struct PagesStoreView {
    pub state: PagesStateView,
    pub listeners: Seq<Seq<char>>,
    pub last_global_state: Option<GlobalStateView>,
}

impl PagesStoreView {
    /// The store before anything was done to it.
    pub open spec fn initial() -> PagesStoreView {
        PagesStoreView {
            state: PagesStateView { current_book: None, current_book_pages: Seq::empty() },
            listeners: Seq::empty(),
            last_global_state: None,
        }
    }

    /// The store after `result` was folded into its state.
    pub open spec fn after_result(self, result: PagesResultView) -> PagesStoreView {
        PagesStoreView { state: spec_reduce(self.state, result), ..self }
    }

    /// Whether `root` is news to this store: it has seen no root state yet,
    /// or the page slots are not the same as in the last one it saw.
    pub open spec fn is_news(self, root: GlobalStateView) -> bool {
        match self.last_global_state {
            None => true,
            Some(last) => !same_pages(last.current_book_pages, root.current_book_pages),
        }
    }

    /// The store after it was shown `root`: it takes over the page slots
    /// where that is news, and remembers `root` in any case.
    pub open spec fn after_root_state(self, root: GlobalStateView) -> PagesStoreView {
        let shown = PagesStoreView { last_global_state: Some(root), ..self };
        if self.is_news(root) {
            shown.after_result(PagesResultView::PagesListUpdated { pages: root.current_book_pages })
        } else {
            shown
        }
    }

    /// What the listeners are told when the store is shown `root`: the new
    /// state where `root` is news, nothing where it is not.
    pub open spec fn told_of(self, root: GlobalStateView) -> Seq<DeliveryView<PagesStateView>> {
        if self.is_news(root) {
            to_all(self.listeners, self.after_root_state(root).state)
        } else {
            Seq::empty()
        }
    }
}

/// The id under which the pages store listens to the root store.
pub fn pages_listener_id() -> (id: String)
    ensures
        id@ == "PAGES_GLOBAL_STORE_LISTENER_ID"@,
{
    "PAGES_GLOBAL_STORE_LISTENER_ID".to_string()
}

/// The pages store.
pub struct PagesStore {
    state: PagesState,
    listeners: ListenerRegistry,
    last_global_state: Option<GlobalState>,
}

impl View for PagesStore {
    type V = PagesStoreView;

    closed spec fn view(&self) -> PagesStoreView {
        PagesStoreView {
            state: self.state@,
            listeners: self.listeners@,
            last_global_state: snapshot_view(self.last_global_state),
        }
    }
}

impl PagesStore {
    /// A store in its initial state, with no listener, that has seen no root
    /// state.
    pub fn new() -> (store: Self)
        ensures
            store@ == PagesStoreView::initial(),
    {
        let state = PagesState { current_book: None, current_book_pages: Vec::new() };
        assert(state@.current_book_pages =~= Seq::empty());
        PagesStore { state, listeners: ListenerRegistry::new(), last_global_state: None }
    }

    /// Subscribes to the root store under this store's own id. The root store
    /// hands over its current state at once, and this store's listeners are
    /// told what they would be told of any root state.
    pub fn init(&mut self, global_store: &mut GlobalStore) -> (deliveries: Vec<
        Delivery<PagesState>,
    >)
        ensures
            final(global_store)@ == (GlobalStoreView {
                listeners: with_id(old(global_store)@.listeners, "PAGES_GLOBAL_STORE_LISTENER_ID"@),
                ..old(global_store)@
            }),
            final(self)@ == old(self)@.after_root_state(old(global_store)@.state),
            deliveries_view(deliveries@) == old(self)@.told_of(old(global_store)@.state),
    {
        let first = global_store.add_listener(pages_listener_id());
        self.new_state(first.payload)
    }

    /// Ends the subscription to the root store.
    pub fn dispose(self, global_store: &mut GlobalStore)
        ensures
            final(global_store)@ == (GlobalStoreView {
                listeners: without_id(
                    old(global_store)@.listeners,
                    "PAGES_GLOBAL_STORE_LISTENER_ID"@,
                ),
                ..old(global_store)@
            }),
    {
        global_store.remove_listener(pages_listener_id());
    }

    /// The current state.
    pub fn state(&self) -> (state: &PagesState)
        ensures
            state@ == self@.state,
    {
        &self.state
    }

    /// The ids of the registered listeners.
    pub fn listeners(&self) -> (listeners: &ListenerRegistry)
        ensures
            listeners@ == self@.listeners,
    {
        &self.listeners
    }

    /// One delivery of the current state to each listener, in their order.
    fn notify_all(&self) -> (deliveries: Vec<Delivery<PagesState>>)
        ensures
            deliveries_view(deliveries@) == to_all(self@.listeners, self@.state),
    {
        let mut deliveries: Vec<Delivery<PagesState>> = Vec::new();
        let mut i: usize = 0;
        while i < self.listeners.len()
            invariant
                i <= self.listeners@.len(),
                deliveries_view(deliveries@) == to_all(
                    self@.listeners.subrange(0, i as int),
                    self@.state,
                ),
            decreases self.listeners@.len() - i,
        {
            let ghost sent = deliveries_view(deliveries@);
            let delivery = Delivery { listener_id: self.listeners.id_at(i), payload: self.state.clone() };
            deliveries.push(delivery);
            assert(deliveries_view(deliveries@) =~= sent.push(delivery@));
            assert(deliveries_view(deliveries@) =~= to_all(
                self@.listeners.subrange(0, i + 1),
                self@.state,
            ));
            i += 1;
        }
        assert(self@.listeners.subrange(0, i as int) =~= self@.listeners);
        deliveries
    }

    /// Registers a listener under `id` and hands it the current state at
    /// once. An id that is registered already keeps its place.
    pub fn add_listener(&mut self, id: String) -> (delivery: Delivery<PagesState>)
        ensures
            final(self)@ == (PagesStoreView {
                listeners: with_id(old(self)@.listeners, id@),
                ..old(self)@
            }),
            delivery@ == (DeliveryView { listener_id: id@, payload: old(self)@.state }),
    {
        let delivery = Delivery { listener_id: id.clone(), payload: self.state.clone() };
        self.listeners.register(id);
        delivery
    }

    /// Takes the listener `id` out; nothing changes if there is none.
    pub fn remove_listener(&mut self, id: String)
        ensures
            final(self)@ == (PagesStoreView {
                listeners: without_id(old(self)@.listeners, id@),
                ..old(self)@
            }),
    {
        self.listeners.unregister(&id);
    }

    /// Carries out a user's action. Showing another page asks nothing of
    /// this store: its state and its listeners are left alone.
    pub fn dispatch_action(&self, action: PagesAction) {
        match action {
            PagesAction::CurrentPage { page_index } => {},
        }
    }

    /// Folds one result into the state.
    pub fn reduce(state: PagesState, action: PagesResult) -> (new_state: PagesState)
        ensures
            new_state@ == spec_reduce(state@, action@),
    {
        match action {
            PagesResult::PagesListUpdated { pages } => {
                let mut new_state = state;
                new_state.current_book_pages = pages;
                new_state
            },
        }
    }

    /// Folds `result` into the state, then reports one delivery of the new
    /// state for each listener, in their order.
    pub fn process_result(&mut self, result: PagesResult) -> (deliveries: Vec<Delivery<PagesState>>)
        ensures
            final(self)@ == old(self)@.after_result(result@),
            deliveries_view(deliveries@) == to_all(final(self)@.listeners, final(self)@.state),
    {
        let mut state = PagesState { current_book: None, current_book_pages: Vec::new() };
        std::mem::swap(&mut state, &mut self.state);
        self.state = Self::reduce(state, result);
        self.notify_all()
    }

    /// Takes a new root state. Where its page slots are not the same as in the
    /// last root state seen, or none was seen, the store takes the slots over
    /// and its listeners are told; else nothing is told. Either way the new
    /// root state is the one seen last from now on.
    pub fn new_state(&mut self, state: GlobalState) -> (deliveries: Vec<Delivery<PagesState>>)
        ensures
            final(self)@ == old(self)@.after_root_state(state@),
            deliveries_view(deliveries@) == old(self)@.told_of(state@),
    {
        let is_news = match &self.last_global_state {
            None => true,
            Some(last_global_state) => !pages_match(
                &last_global_state.current_book_pages,
                &state.current_book_pages,
            ),
        };
        let deliveries = if is_news {
            self.process_result(
                PagesResult::PagesListUpdated { pages: clone_pages(&state.current_book_pages) },
            )
        } else {
            let none: Vec<Delivery<PagesState>> = Vec::new();
            assert(deliveries_view(none@) =~= Seq::empty());
            none
        };
        self.last_global_state = Some(state);
        deliveries
    }
}

impl PagesStoreView {
    /// The store after it was shown each of `roots`, in order.
    pub open spec fn after_root_states(self, roots: Seq<GlobalStateView>) -> PagesStoreView
        decreases roots.len(),
    {
        if roots.len() == 0 {
            self
        } else {
            self.after_root_states(roots.drop_last()).after_root_state(roots.last())
        }
    }

    /// The page slots that the listeners were told of last while the store was
    /// shown `roots`, if they were told at all.
    pub open spec fn last_told(self, roots: Seq<GlobalStateView>) -> Option<Seq<PageView>>
        decreases roots.len(),
    {
        if roots.len() == 0 {
            None
        } else if self.after_root_states(roots.drop_last()).is_news(roots.last()) {
            Some(roots.last().current_book_pages)
        } else {
            self.last_told(roots.drop_last())
        }
    }
}

/// The listeners are told of a root state if and only if its page slots differ
/// from the ones they were told of last, or they were told of none yet: a root
/// state that changes something else is passed over, and no change of the
/// page slots is.
pub proof fn lemma_told_iff_pages_changed(
    store: PagesStoreView,
    roots: Seq<GlobalStateView>,
    root: GlobalStateView,
)
    requires
        store.last_global_state is None,
    ensures
        store.after_root_states(roots).is_news(root) <==> match store.last_told(roots) {
            None => true,
            Some(told) => !same_pages(told, root.current_book_pages),
        },
        store.last_told(roots) is None <==> roots.len() == 0,
        store.last_told(roots) matches Some(told) ==> {
            &&& store.after_root_states(roots).state.current_book_pages == told
            &&& store.after_root_states(roots).last_global_state matches Some(last)
            &&& same_pages(last.current_book_pages, told)
        },
    decreases roots.len(),
{
    if roots.len() > 0 {
        let earlier = roots.drop_last();
        let shown = roots.last();
        lemma_told_iff_pages_changed(store, earlier, shown);
        let before = store.after_root_states(earlier);
        lemma_same_pages_is_equivalence(shown.current_book_pages, shown.current_book_pages, shown.current_book_pages);
        if !before.is_news(shown) {
            let last = before.last_global_state->0;
            let told = store.last_told(earlier)->0;
            lemma_same_pages_is_equivalence(last.current_book_pages, shown.current_book_pages, told);
        }
        let told = store.last_told(roots)->0;
        let last = store.after_root_states(roots).last_global_state->0;
        lemma_same_pages_is_equivalence(last.current_book_pages, told, root.current_book_pages);
        lemma_same_pages_is_equivalence(last.current_book_pages, root.current_book_pages, told);
    }
}

} // verus!
