//! The books store: a derived store that follows the root store's list of
//! documents and tells its own listeners only when that list has changed.

use crate::domain::{
    books_match, books_view, clone_books, lemma_same_books_is_equivalence, same_books, Book,
    BookView,
};
use crate::global_state::{
    snapshot_view, GlobalState, GlobalStateView, GlobalStore, GlobalStoreView,
};
use crate::registry::{
    deliveries_view, to_all, with_id, without_id, Delivery, DeliveryView, ListenerRegistry,
};
use vstd::prelude::*;

verus! {

/// The state of the books store.
pub struct BooksState {
    pub some_text: String,
    pub books: Vec<Book>,
}

/// What a [`BooksState`] holds.
pub struct BooksStateView {
    pub some_text: Seq<char>,
    pub books: Seq<BookView>,
}

impl View for BooksState {
    type V = BooksStateView;

    open spec fn view(&self) -> BooksStateView {
        BooksStateView { some_text: self.some_text@, books: books_view(self.books@) }
    }
}

impl Clone for BooksState {
    fn clone(&self) -> (state: Self)
        ensures
            state@ == self@,
    {
        BooksState { some_text: self.some_text.clone(), books: clone_books(&self.books) }
    }
}

/// Something for the listeners to do that changes no state.
#[derive(Clone, Copy, Debug, PartialEq, Eq, Structural)]
pub enum BooksSideEffect {
    OpenFilePicker,
}

impl View for BooksSideEffect {
    type V = BooksSideEffect;

    open spec fn view(&self) -> BooksSideEffect {
        *self
    }
}

/// A receiver of the books store's deliveries: of its states and of its side
/// effects. The store never calls it: it reports each delivery, and whoever
/// holds the listeners hands the payload of a delivery to the listener
/// registered under the delivery's id.
pub trait BooksStateListener: Send + Sync {
    fn new_state(&self, state: BooksState);

    fn new_side_effect(&self, event: BooksSideEffect);
}

/// What the books store is asked to do.
pub enum BooksAction {
    AddClicked,
}

/// What the books store's reducer folds into its state.
pub enum BooksResult {
    BooksListUpdated { books: Vec<Book> },
}

/// What a [`BooksResult`] holds.
pub enum BooksResultView {
    BooksListUpdated { books: Seq<BookView> },
}

impl View for BooksResult {
    type V = BooksResultView;

    open spec fn view(&self) -> BooksResultView {
        match *self {
            BooksResult::BooksListUpdated { books } => BooksResultView::BooksListUpdated {
                books: books_view(books@),
            },
        }
    }
}

/// The state of the books store after `result`.
pub open spec fn spec_reduce(state: BooksStateView, result: BooksResultView) -> BooksStateView {
    match result {
        BooksResultView::BooksListUpdated { books } => BooksStateView { books, ..state },
    }
}

/// The side effect that `action` asks of every listener.
pub open spec fn side_effect_of(action: BooksAction) -> BooksSideEffect {
    match action {
        BooksAction::AddClicked => BooksSideEffect::OpenFilePicker,
    }
}

/// What a [`BooksStore`] holds.
pub struct BooksStoreView {
    pub state: BooksStateView,
    pub listeners: Seq<Seq<char>>,
    pub last_global_state: Option<GlobalStateView>,
}

impl BooksStoreView {
    /// The store before anything was done to it.
    pub open spec fn initial() -> BooksStoreView {
        BooksStoreView {
            state: BooksStateView { some_text: "initial_text"@, books: Seq::empty() },
            listeners: Seq::empty(),
            last_global_state: None,
        }
    }

    /// The store after `result` was folded into its state.
    pub open spec fn after_result(self, result: BooksResultView) -> BooksStoreView {
        BooksStoreView { state: spec_reduce(self.state, result), ..self }
    }

    /// Whether `root` is news to this store: it has seen no root state yet,
    /// or the list of documents is not the same as in the last one it saw.
    pub open spec fn is_news(self, root: GlobalStateView) -> bool {
        match self.last_global_state {
            None => true,
            Some(last) => !same_books(last.books, root.books),
        }
    }

    /// The store after it was shown `root`: it takes over the list of
    /// documents where that is news, and remembers `root` in any case.
    pub open spec fn after_root_state(self, root: GlobalStateView) -> BooksStoreView {
        let shown = BooksStoreView { last_global_state: Some(root), ..self };
        if self.is_news(root) {
            shown.after_result(BooksResultView::BooksListUpdated { books: root.books })
        } else {
            shown
        }
    }

    /// What the listeners are told when the store is shown `root`: the new
    /// state where `root` is news, nothing where it is not.
    pub open spec fn told_of(self, root: GlobalStateView) -> Seq<DeliveryView<BooksStateView>> {
        if self.is_news(root) {
            to_all(self.listeners, self.after_root_state(root).state)
        } else {
            Seq::empty()
        }
    }
}

/// The id under which the books store listens to the root store.
pub fn books_listener_id() -> (id: String)
    ensures
        id@ == "BOOKS_GLOBAL_STORE_LISTENER_ID"@,
{
    "BOOKS_GLOBAL_STORE_LISTENER_ID".to_string()
}

/// The books store.
pub struct BooksStore {
    state: BooksState,
    listeners: ListenerRegistry,
    last_global_state: Option<GlobalState>,
}

impl View for BooksStore {
    type V = BooksStoreView;

    closed spec fn view(&self) -> BooksStoreView {
        BooksStoreView {
            state: self.state@,
            listeners: self.listeners@,
            last_global_state: snapshot_view(self.last_global_state),
        }
    }
}

impl BooksStore {
    /// A store in its initial state, with no listener, that has seen no root
    /// state.
    pub fn new() -> (store: Self)
        ensures
            store@ == BooksStoreView::initial(),
    {
        let state = BooksState { some_text: "initial_text".to_string(), books: Vec::new() };
        assert(state@.books =~= Seq::empty());
        BooksStore { state, listeners: ListenerRegistry::new(), last_global_state: None }
    }

    /// Subscribes to the root store under this store's own id. The root store
    /// hands over its current state at once, and this store's listeners are
    /// told what they would be told of any root state.
    pub fn init(&mut self, global_store: &mut GlobalStore) -> (deliveries: Vec<
        Delivery<BooksState>,
    >)
        ensures
            final(global_store)@ == (GlobalStoreView {
                listeners: with_id(old(global_store)@.listeners, "BOOKS_GLOBAL_STORE_LISTENER_ID"@),
                ..old(global_store)@
            }),
            final(self)@ == old(self)@.after_root_state(old(global_store)@.state),
            deliveries_view(deliveries@) == old(self)@.told_of(old(global_store)@.state),
    {
        let first = global_store.add_listener(books_listener_id());
        self.new_state(first.payload)
    }

    /// Ends the subscription to the root store.
    pub fn dispose(self, global_store: &mut GlobalStore)
        ensures
            final(global_store)@ == (GlobalStoreView {
                listeners: without_id(
                    old(global_store)@.listeners,
                    "BOOKS_GLOBAL_STORE_LISTENER_ID"@,
                ),
                ..old(global_store)@
            }),
    {
        global_store.remove_listener(books_listener_id());
    }

    /// The current state.
    pub fn state(&self) -> (state: &BooksState)
        ensures
            state@ == self@.state,
    {
        &self.state
    }

    /// The ids of the registered listeners.
    pub fn listeners(&self) -> (listeners: &ListenerRegistry)
        ensures
            listeners@ == self@.listeners,
    {
        &self.listeners
    }

    /// One delivery of the current state to each listener, in their order.
    fn notify_all(&self) -> (deliveries: Vec<Delivery<BooksState>>)
        ensures
            deliveries_view(deliveries@) == to_all(self@.listeners, self@.state),
    {
        let mut deliveries: Vec<Delivery<BooksState>> = Vec::new();
        let mut i: usize = 0;
        while i < self.listeners.len()
            invariant
                i <= self.listeners@.len(),
                deliveries_view(deliveries@) == to_all(
                    self@.listeners.subrange(0, i as int),
                    self@.state,
                ),
            decreases self.listeners@.len() - i,
        {
            let ghost sent = deliveries_view(deliveries@);
            let delivery = Delivery { listener_id: self.listeners.id_at(i), payload: self.state.clone() };
            deliveries.push(delivery);
            assert(deliveries_view(deliveries@) =~= sent.push(delivery@));
            assert(deliveries_view(deliveries@) =~= to_all(
                self@.listeners.subrange(0, i + 1),
                self@.state,
            ));
            i += 1;
        }
        assert(self@.listeners.subrange(0, i as int) =~= self@.listeners);
        deliveries
    }

    /// Registers a listener under `id` and hands it the current state at
    /// once. An id that is registered already keeps its place.
    pub fn add_listener(&mut self, id: String) -> (delivery: Delivery<BooksState>)
        ensures
            final(self)@ == (BooksStoreView {
                listeners: with_id(old(self)@.listeners, id@),
                ..old(self)@
            }),
            delivery@ == (DeliveryView { listener_id: id@, payload: old(self)@.state }),
    {
        let delivery = Delivery { listener_id: id.clone(), payload: self.state.clone() };
        self.listeners.register(id);
        delivery
    }

    /// Takes the listener `id` out; nothing changes if there is none.
    pub fn remove_listener(&mut self, id: String)
        ensures
            final(self)@ == (BooksStoreView {
                listeners: without_id(old(self)@.listeners, id@),
                ..old(self)@
            }),
    {
        self.listeners.unregister(&id);
    }

    /// One delivery of `side_effect` to each listener, in their order. The
    /// state is not touched.
    pub fn dispatch_side_effect(&self, side_effect: BooksSideEffect) -> (deliveries: Vec<
        Delivery<BooksSideEffect>,
    >)
        ensures
            deliveries_view(deliveries@) == to_all(self@.listeners, side_effect),
    {
        let mut deliveries: Vec<Delivery<BooksSideEffect>> = Vec::new();
        let mut i: usize = 0;
        while i < self.listeners.len()
            invariant
                i <= self.listeners@.len(),
                deliveries_view(deliveries@) == to_all(
                    self@.listeners.subrange(0, i as int),
                    side_effect,
                ),
            decreases self.listeners@.len() - i,
        {
            let ghost sent = deliveries_view(deliveries@);
            let delivery = Delivery { listener_id: self.listeners.id_at(i), payload: side_effect };
            deliveries.push(delivery);
            assert(deliveries_view(deliveries@) =~= sent.push(delivery@));
            assert(deliveries_view(deliveries@) =~= to_all(
                self@.listeners.subrange(0, i + 1),
                side_effect,
            ));
            i += 1;
        }
        assert(self@.listeners.subrange(0, i as int) =~= self@.listeners);
        deliveries
    }

    /// Carries out a user's action: every listener is asked for the side
    /// effect that belongs to it.
    pub fn dispatch_action(&self, action: BooksAction) -> (deliveries: Vec<
        Delivery<BooksSideEffect>,
    >)
        ensures
            deliveries_view(deliveries@) == to_all(self@.listeners, side_effect_of(action)),
    {
        match action {
            BooksAction::AddClicked => self.dispatch_side_effect(BooksSideEffect::OpenFilePicker),
        }
    }

    /// Folds one result into the state.
    pub fn reduce(state: BooksState, action: BooksResult) -> (new_state: BooksState)
        ensures
            new_state@ == spec_reduce(state@, action@),
    {
        match action {
            BooksResult::BooksListUpdated { books } => {
                let mut new_state = state;
                new_state.books = books;
                new_state
            },
        }
    }

    /// Folds `result` into the state, then reports one delivery of the new
    /// state for each listener, in their order.
    pub fn process_result(&mut self, result: BooksResult) -> (deliveries: Vec<Delivery<BooksState>>)
        ensures
            final(self)@ == old(self)@.after_result(result@),
            deliveries_view(deliveries@) == to_all(final(self)@.listeners, final(self)@.state),
    {
        let mut state = BooksState { some_text: String::new(), books: Vec::new() };
        std::mem::swap(&mut state, &mut self.state);
        self.state = Self::reduce(state, result);
        self.notify_all()
    }

    /// Takes a new root state. Where its list of documents is not the same as
    /// in the last root state seen, or none was seen, the store takes the list
    /// over and its listeners are told; else nothing is told. Either way the
    /// new root state is the one seen last from now on.
    pub fn new_state(&mut self, state: GlobalState) -> (deliveries: Vec<Delivery<BooksState>>)
        ensures
            final(self)@ == old(self)@.after_root_state(state@),
            deliveries_view(deliveries@) == old(self)@.told_of(state@),
    {
        let is_news = match &self.last_global_state {
            None => true,
            Some(last_global_state) => !books_match(&last_global_state.books, &state.books),
        };
        let deliveries = if is_news {
            self.process_result(BooksResult::BooksListUpdated { books: clone_books(&state.books) })
        } else {
            let none: Vec<Delivery<BooksState>> = Vec::new();
            assert(deliveries_view(none@) =~= Seq::empty());
            none
        };
        self.last_global_state = Some(state);
        deliveries
    }
}

impl BooksStoreView {
    /// The store after it was shown each of `roots`, in order.
    pub open spec fn after_root_states(self, roots: Seq<GlobalStateView>) -> BooksStoreView
        decreases roots.len(),
    {
        if roots.len() == 0 {
            self
        } else {
            self.after_root_states(roots.drop_last()).after_root_state(roots.last())
        }
    }

    /// The documents that the listeners were told of last while the store was
    /// shown `roots`, if they were told at all.
    pub open spec fn last_told(self, roots: Seq<GlobalStateView>) -> Option<Seq<BookView>>
        decreases roots.len(),
    {
        if roots.len() == 0 {
            None
        } else if self.after_root_states(roots.drop_last()).is_news(roots.last()) {
            Some(roots.last().books)
        } else {
            self.last_told(roots.drop_last())
        }
    }
}

/// The listeners are told of a root state if and only if its documents differ
/// from the ones they were told of last, or they were told of none yet: a root
/// state that changes something else is passed over, and no change of the
/// documents is.
pub proof fn lemma_told_iff_documents_changed(
    store: BooksStoreView,
    roots: Seq<GlobalStateView>,
    root: GlobalStateView,
)
    requires
        store.last_global_state is None,
    ensures
        store.after_root_states(roots).is_news(root) <==> match store.last_told(roots) {
            None => true,
            Some(told) => !same_books(told, root.books),
        },
        store.last_told(roots) is None <==> roots.len() == 0,
        store.last_told(roots) matches Some(told) ==> {
            &&& store.after_root_states(roots).state.books == told
            &&& store.after_root_states(roots).last_global_state matches Some(last)
            &&& same_books(last.books, told)
        },
    decreases roots.len(),
{
    if roots.len() > 0 {
        let earlier = roots.drop_last();
        let shown = roots.last();
        lemma_told_iff_documents_changed(store, earlier, shown);
        let before = store.after_root_states(earlier);
        lemma_same_books_is_equivalence(shown.books, shown.books, shown.books);
        if !before.is_news(shown) {
            let last = before.last_global_state->0;
            let told = store.last_told(earlier)->0;
            lemma_same_books_is_equivalence(last.books, shown.books, told);
        }
        let told = store.last_told(roots)->0;
        let last = store.after_root_states(roots).last_global_state->0;
        lemma_same_books_is_equivalence(last.books, told, root.books);
        lemma_same_books_is_equivalence(last.books, root.books, told);
    }
}

} // verus!
