//! The subscriber registry every store keeps: the ids under which listeners
//! are registered, in the order of their first registration, none twice.

use vstd::prelude::*;

verus! {

/// The ids left when `id` is taken out of `ids`; the others keep their order.
pub open spec fn without_id(ids: Seq<Seq<char>>, id: Seq<char>) -> Seq<Seq<char>> {
    ids.filter(|other: Seq<char>| other != id)
}

/// The ids after `id` is registered: an id already present keeps its place, a
/// new one goes to the end.
pub open spec fn with_id(ids: Seq<Seq<char>>, id: Seq<char>) -> Seq<Seq<char>> {
    if ids.contains(id) {
        ids
    } else {
        ids.push(id)
    }
}

/// Taking an id out of a list without repetitions leaves a list without
/// repetitions that no longer holds the id and still holds every other id.
pub proof fn lemma_without_id(ids: Seq<Seq<char>>, id: Seq<char>)
    ensures
        !without_id(ids, id).contains(id),
        forall|other: Seq<char>|
            other != id ==> (#[trigger] without_id(ids, id).contains(other) <==> ids.contains(other)),
        ids.no_duplicates() ==> without_id(ids, id).no_duplicates(),
        !ids.contains(id) ==> without_id(ids, id) == ids,
        without_id(ids, id).len() <= ids.len(),
    decreases ids.len(),
{
    reveal(Seq::filter);
    if ids.len() > 0 {
        let front = ids.drop_last();
        let last = ids.last();
        lemma_without_id(front, id);
        let kept = without_id(front, id);
        assert forall|other: Seq<char>| other != id implies (#[trigger] without_id(
            ids,
            id,
        ).contains(other) <==> ids.contains(other)) by {
            if ids.contains(other) {
                let i = choose|i: int| 0 <= i < ids.len() && ids[i] == other;
                if i < front.len() {
                    assert(front[i] == other);
                    assert(front.contains(other));
                    assert(kept.contains(other));
                    let k = choose|k: int| 0 <= k < kept.len() && kept[k] == other;
                    assert(without_id(ids, id)[k] == other);
                } else {
                    assert(last == other);
                    assert(without_id(ids, id)[kept.len() as int] == other);
                }
            }
            if without_id(ids, id).contains(other) {
                let k = choose|k: int|
                    0 <= k < without_id(ids, id).len() && without_id(ids, id)[k] == other;
                if k < kept.len() {
                    assert(kept[k] == other);
                    assert(kept.contains(other));
                    let i = choose|i: int| 0 <= i < front.len() && front[i] == other;
                    assert(ids[i] == other);
                } else {
                    assert(ids[ids.len() - 1] == other);
                }
            }
        }
        if ids.no_duplicates() {
            assert forall|i: int, j: int|
                0 <= i < front.len() && 0 <= j < front.len() && i != j implies front[i]
                != front[j] by {
                assert(ids[i] != ids[j]);
            }
            if last != id {
                if kept.contains(last) {
                    let i = choose|i: int| 0 <= i < front.len() && front[i] == last;
                    assert(ids[i] == ids[ids.len() - 1]);
                }
                assert(!kept.contains(last));
            }
        }
        if !ids.contains(id) {
            assert(last == ids[ids.len() - 1]);
            if front.contains(id) {
                let i = choose|i: int| 0 <= i < front.len() && front[i] == id;
                assert(ids[i] == id);
            }
            assert(without_id(ids, id) =~= ids);
        }
    }
}

/// The ids under which listeners are registered with one store.
pub struct ListenerRegistry {
    ids: Vec<String>,
}

impl View for ListenerRegistry {
    type V = Seq<Seq<char>>;

    closed spec fn view(&self) -> Seq<Seq<char>> {
        self.ids@.map_values(|id: String| id@)
    }
}

impl ListenerRegistry {
    #[verifier::type_invariant]
    spec fn unique(self) -> bool {
        self@.no_duplicates()
    }

    /// A registry with no listener.
    pub fn new() -> (registry: Self)
        ensures
            registry@ == Seq::<Seq<char>>::empty(),
    {
        let registry = ListenerRegistry { ids: Vec::new() };
        assert(registry@ =~= Seq::<Seq<char>>::empty());
        registry
    }

    /// The number of registered listeners.
    pub fn len(&self) -> (n: usize)
        ensures
            n == self@.len(),
    {
        self.ids.len()
    }

    /// The id registered at position `i`.
    pub fn id_at(&self, i: usize) -> (id: String)
        requires
            i < self@.len(),
        ensures
            id@ == self@[i as int],
    {
        self.ids[i].clone()
    }

    /// Whether a listener is registered under `id`.
    pub fn contains(&self, id: &String) -> (found: bool)
        ensures
            found == self@.contains(id@),
    {
        let mut i: usize = 0;
        while i < self.ids.len()
            invariant
                i <= self.ids.len(),
                forall|j: int| 0 <= j < i ==> self@[j] != id@,
            decreases self.ids.len() - i,
        {
            if self.ids[i] == *id {
                assert(self@[i as int] == id@);
                return true;
            }
            i += 1;
        }
        false
    }

    /// Registers `id`. Registering an id a second time changes nothing here:
    /// the id keeps its place.
    pub fn register(&mut self, id: String)
        ensures
            final(self)@ == with_id(old(self)@, id@),
            final(self)@.no_duplicates(),
    {
        proof {
            use_type_invariant(&*self);
        }
        if !self.contains(&id) {
            let ghost before = self@;
            let mut ids: Vec<String> = Vec::new();
            std::mem::swap(&mut ids, &mut self.ids);
            ids.push(id);
            assert(ids@.map_values(|id: String| id@) =~= before.push(id@));
            self.ids = ids;
        }
    }

    /// Takes `id` out of the registry; nothing changes if it is not there.
    pub fn unregister(&mut self, id: &String)
        ensures
            final(self)@ == without_id(old(self)@, id@),
            final(self)@.no_duplicates(),
    {
        proof {
            use_type_invariant(&*self);
        }
        let ghost before = self@;
        let mut kept: Vec<String> = Vec::new();
        let mut i: usize = 0;
        while i < self.ids.len()
            invariant
                i <= self.ids.len(),
                self@ == before,
                kept@.map_values(|id: String| id@) == without_id(before.subrange(0, i as int), id@),
            decreases self.ids.len() - i,
        {
            proof {
                reveal(Seq::filter);
                assert(before.subrange(0, i + 1).drop_last() =~= before.subrange(0, i as int));
            }
            if !(self.ids[i] == *id) {
                kept.push(self.ids[i].clone());
                assert(kept@.map_values(|id: String| id@) =~= without_id(
                    before.subrange(0, i as int),
                    id@,
                ).push(before[i as int]));
            }
            i += 1;
        }
        proof {
            assert(before.subrange(0, i as int) =~= before);
            lemma_without_id(before, id@);
        }
        self.ids = kept;
    }
}

/// One message addressed to one listener. A store hands these out in place of
/// calling its listeners; whoever holds the listeners hands each its payload.
pub struct Delivery<S> {
    pub listener_id: String,
    pub payload: S,
}

/// What a [`Delivery`] holds.
pub struct DeliveryView<V> {
    pub listener_id: Seq<char>,
    pub payload: V,
}

impl<S: View> View for Delivery<S> {
    type V = DeliveryView<S::V>;

    open spec fn view(&self) -> DeliveryView<S::V> {
        DeliveryView { listener_id: self.listener_id@, payload: self.payload@ }
    }
}

/// The views of a list of deliveries, in order.
pub open spec fn deliveries_view<S: View>(deliveries: Seq<Delivery<S>>) -> Seq<DeliveryView<S::V>> {
    deliveries.map_values(|delivery: Delivery<S>| delivery@)
}

/// One delivery of `payload` to each of `listeners`, in their order.
pub open spec fn to_all<V>(listeners: Seq<Seq<char>>, payload: V) -> Seq<DeliveryView<V>> {
    listeners.map_values(|id: Seq<char>| DeliveryView { listener_id: id, payload })
}

/// The payloads among `deliveries` that are addressed to `id`, in order.
pub open spec fn for_listener<V>(deliveries: Seq<DeliveryView<V>>, id: Seq<char>) -> Seq<V>
    decreases deliveries.len(),
{
    if deliveries.len() == 0 {
        Seq::empty()
    } else {
        let earlier = for_listener(deliveries.drop_last(), id);
        if deliveries.last().listener_id == id {
            earlier.push(deliveries.last().payload)
        } else {
            earlier
        }
    }
}

/// What a listener gets from two batches of deliveries, one after the other,
/// is what it gets from the first followed by what it gets from the second.
pub proof fn lemma_for_listener_concat<V>(
    first: Seq<DeliveryView<V>>,
    second: Seq<DeliveryView<V>>,
    id: Seq<char>,
)
    ensures
        for_listener(first + second, id) == for_listener(first, id) + for_listener(second, id),
    decreases second.len(),
{
    if second.len() == 0 {
        assert(first + second =~= first);
        assert(for_listener(first, id) + for_listener(second, id) =~= for_listener(first, id));
    } else {
        lemma_for_listener_concat(first, second.drop_last(), id);
        assert((first + second).drop_last() =~= first + second.drop_last());
        assert((first + second).last() == second.last());
        assert(for_listener(first + second, id) =~= for_listener(first, id) + for_listener(
            second,
            id,
        ));
    }
}

/// A delivery to all reaches every registered listener exactly once, and no
/// one else.
pub proof fn lemma_to_all_reaches_each_once<V>(listeners: Seq<Seq<char>>, payload: V, id: Seq<char>)
    requires
        listeners.no_duplicates(),
    ensures
        for_listener(to_all(listeners, payload), id) == if listeners.contains(id) {
            seq![payload]
        } else {
            Seq::<V>::empty()
        },
    decreases listeners.len(),
{
    if listeners.len() > 0 {
        let front = listeners.drop_last();
        lemma_to_all_reaches_each_once(front, payload, id);
        assert(to_all(listeners, payload).drop_last() =~= to_all(front, payload));
        if front.contains(id) {
            let i = choose|i: int| 0 <= i < front.len() && front[i] == id;
            assert(listeners[i] == id);
            assert(listeners[listeners.len() - 1] != listeners[i]);
        } else if listeners.contains(id) {
            let i = choose|i: int| 0 <= i < listeners.len() && listeners[i] == id;
            if i < front.len() {
                assert(front[i] == id);
            }
            assert(for_listener(to_all(listeners, payload), id) =~= seq![payload]);
        } else {
            assert(listeners[listeners.len() - 1] != id);
        }
    }
}

/// Registering or taking out another id leaves a registered id registered,
/// and a list without repetitions without repetitions.
pub proof fn lemma_other_ids_stay(ids: Seq<Seq<char>>, other: Seq<char>, id: Seq<char>)
    requires
        ids.no_duplicates(),
        other != id,
    ensures
        with_id(ids, other).no_duplicates(),
        without_id(ids, other).no_duplicates(),
        with_id(ids, other).contains(id) <==> ids.contains(id),
        without_id(ids, other).contains(id) <==> ids.contains(id),
{
    lemma_without_id(ids, other);
    if !ids.contains(other) {
        let grown = ids.push(other);
        assert forall|i: int, j: int| 0 <= i < grown.len() && 0 <= j < grown.len() && i
            != j implies grown[i] != grown[j] by {
            if i < ids.len() {
                assert(ids.contains(ids[i]));
            }
            if j < ids.len() {
                assert(ids.contains(ids[j]));
            }
        }
        if ids.contains(id) {
            let i = choose|i: int| 0 <= i < ids.len() && ids[i] == id;
            assert(grown[i] == id);
        }
        if grown.contains(id) {
            let i = choose|i: int| 0 <= i < grown.len() && grown[i] == id;
            assert(ids[i] == id);
        }
    }
}

} // verus!
