//! Where tokens are kept between runs, and the record of what was asked of it.

use vstd::prelude::*;

use crate::token_store::StoredAuth;

verus! {

/// Why a storage operation failed.
#[derive(Debug, PartialEq, Eq)]
pub struct StoreError {
    pub message: String,
}

impl View for StoreError {
    type V = Seq<char>;

    open spec fn view(&self) -> Seq<char> {
        self.message@
    }
}

/// One operation on a store together with what came of it. A sequence of them is the
/// record of what was asked of a store.
pub enum StoreEvent<V> {
    Loaded(Result<Option<V>, Seq<char>>),
    Saved(V, Result<(), Seq<char>>),
    Cleared(Result<(), Seq<char>>),
}

/// What a load returned, in terms of views.
pub open spec fn load_view<T: View>(r: Result<Option<T>, StoreError>) -> Result<
    Option<T::V>,
    Seq<char>,
> {
    match r {
        Ok(Some(value)) => Ok(Some(value@)),
        Ok(None) => Ok(None),
        Err(e) => Err(e@),
    }
}

/// What a save or a clear returned, in terms of views.
pub open spec fn write_view(r: Result<(), StoreError>) -> Result<(), Seq<char>> {
    match r {
        Ok(_) => Ok(()),
        Err(e) => Err(e@),
    }
}

/// A place that keeps at most one value.
///
/// Other processes may share it, so in general nothing is promised about what an
/// operation returns: two loads in a row may differ, and any operation may fail. Only a
/// `faithful` store promises more. An implementation in plain Rust has nothing to write
/// for the two spec functions: it is not faithful, and promises nothing.
pub trait AuthStorage<T: View> {
    /// The store belongs to this handle alone and never fails: a load gives back what the
    /// writes before it have left.
    closed spec fn faithful(&self) -> bool {
        false
    }

    /// What a faithful store holds.
    closed spec fn contents(&self) -> Option<T::V> {
        None
    }

    /// Reads the kept value, if there is one.
    fn load(&mut self) -> (r: Result<Option<T>, StoreError>)
        ensures
            old(self).faithful() ==> {
                &&& final(self).faithful()
                &&& final(self).contents() == old(self).contents()
                &&& load_view(r) == Ok::<_, Seq<char>>(old(self).contents())
            },
    ;

    /// Replaces the kept value.
    fn save(&mut self, value: T) -> (r: Result<(), StoreError>)
        ensures
            old(self).faithful() ==> {
                &&& final(self).faithful()
                &&& final(self).contents() == Some(value@)
                &&& r is Ok
            },
    ;

    /// Forgets the kept value.
    fn clear(&mut self) -> (r: Result<(), StoreError>)
        ensures
            old(self).faithful() ==> {
                &&& final(self).faithful()
                &&& final(self).contents() is None
                &&& r is Ok
            },
    ;
}

/// What a store that held `initial` holds after `history`, if nothing else wrote to it.
pub open spec fn held<V>(initial: Option<V>, history: Seq<StoreEvent<V>>) -> Option<V>
    decreases history.len(),
{
    if history.len() == 0 {
        initial
    } else {
        match history.last() {
            StoreEvent::Saved(value, Ok(_)) => Some(value),
            StoreEvent::Cleared(Ok(_)) => None,
            _ => held(initial, history.drop_last()),
        }
    }
}

/// What one more event does to what the store holds, and that it leaves a sole writer's
/// record one unless it is a load that tells something else.
pub(crate) proof fn lemma_held_push<V>(
    initial: Option<V>,
    history: Seq<StoreEvent<V>>,
    event: StoreEvent<V>,
)
    ensures
        held(initial, history.push(event)) == (match event {
            StoreEvent::Saved(value, Ok(_)) => Some(value),
            StoreEvent::Cleared(Ok(_)) => None,
            _ => held(initial, history),
        }),
        sole_writer(initial, history) && (event matches StoreEvent::Loaded(r) ==> r == Ok::<
            Option<V>,
            Seq<char>,
        >(held(initial, history))) ==> sole_writer(initial, history.push(event)),
{
    assert(history.push(event).drop_last() =~= history);
}

/// Every load in `history` gave back what the operations before it had left in a store
/// that held `initial`: the reads succeeded and nothing else wrote.
pub open spec fn sole_writer<V>(initial: Option<V>, history: Seq<StoreEvent<V>>) -> bool
    decreases history.len(),
{
    history.len() > 0 ==> {
        &&& sole_writer(initial, history.drop_last())
        &&& history.last() matches StoreEvent::Loaded(r) ==> r == Ok::<Option<V>, Seq<char>>(
            held(initial, history.drop_last()),
        )
    }
}

/// A store that lives in memory and belongs to one handle.
pub struct InMemoryAuthStore<T: View> {
    value: Option<T>,
}

impl<T: View> InMemoryAuthStore<T> {
    /// What the store holds.
    pub closed spec fn kept(&self) -> Option<T::V> {
        match self.value {
            Some(value) => Some(value@),
            None => None,
        }
    }

    /// An empty store.
    pub fn new() -> (store: Self)
        ensures
            store.kept() is None,
    {
        InMemoryAuthStore { value: None }
    }
}

impl AuthStorage<StoredAuth> for InMemoryAuthStore<StoredAuth> {
    open spec fn faithful(&self) -> bool {
        true
    }

    open spec fn contents(&self) -> Option<<StoredAuth as View>::V> {
        self.kept()
    }

    fn load(&mut self) -> (r: Result<Option<StoredAuth>, StoreError>) {
        let value = match &self.value {
            Some(auth) => Some(auth.clone()),
            None => None,
        };
        Ok(value)
    }

    fn save(&mut self, value: StoredAuth) -> (r: Result<(), StoreError>) {
        self.value = Some(value);
        Ok(())
    }

    fn clear(&mut self) -> (r: Result<(), StoreError>) {
        self.value = None;
        Ok(())
    }
}

} // verus!
