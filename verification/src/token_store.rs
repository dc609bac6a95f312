//! The stored credentials and the store that keeps them.

use vstd::prelude::*;

use crate::storage::{
    AuthStorage, StoreError, StoreEvent, held, lemma_held_push, load_view, sole_writer, write_view,
};

verus! {

/// A set of tokens as it is persisted.
#[derive(Debug, PartialEq, Eq)]
pub struct StoredAuth {
    pub access: String,
    pub refresh: String,
    /// When the access token expires, in milliseconds since the Unix epoch.
    pub expires: u64,
    pub account_id: Option<String>,
}

/// The mathematical content of a [`StoredAuth`].
#[verifier::ext_equal]
pub struct AuthView {
    pub access: Seq<char>,
    pub refresh: Seq<char>,
    pub expires: nat,
    pub account_id: Option<Seq<char>>,
}

/// The characters of an optional string.
pub open spec fn text_view(text: Option<String>) -> Option<Seq<char>> {
    match text {
        Some(s) => Some(s@),
        None => None,
    }
}

impl View for StoredAuth {
    type V = AuthView;

    open spec fn view(&self) -> AuthView {
        AuthView {
            access: self.access@,
            refresh: self.refresh@,
            expires: self.expires as nat,
            account_id: text_view(self.account_id),
        }
    }
}

/// Copies an optional string.
pub(crate) fn clone_text(text: &Option<String>) -> (r: Option<String>)
    ensures
        r == *text,
{
    match text {
        Some(s) => Some(s.clone()),
        None => None,
    }
}

impl Clone for StoredAuth {
    fn clone(&self) -> (r: Self)
        ensures
            r == *self,
    {
        StoredAuth {
            access: self.access.clone(),
            refresh: self.refresh.clone(),
            expires: self.expires,
            account_id: clone_text(&self.account_id),
        }
    }
}

/// The Codex credentials in some storage, with a ghost record of what was asked of it.
pub struct CodexTokenStore<S: AuthStorage<StoredAuth>> {
    storage: S,
    log: Ghost<Seq<StoreEvent<AuthView>>>,
    origin: Ghost<Option<AuthView>>,
}

impl<S: AuthStorage<StoredAuth>> CodexTokenStore<S> {
    /// The storage underneath.
    pub closed spec fn storage(&self) -> S {
        self.storage
    }

    /// The operations performed on the storage so far, each with what the storage returned.
    pub closed spec fn history(&self) -> Seq<StoreEvent<AuthView>> {
        self.log@
    }

    /// What the storage held when the record began, if it is faithful.
    pub closed spec fn initial(&self) -> Option<AuthView> {
        self.origin@
    }

    /// What the storage holds by the record.
    pub open spec fn contents(&self) -> Option<AuthView> {
        held(self.initial(), self.history())
    }

    /// The storage is faithful, and the record bears it out.
    pub open spec fn faithful(&self) -> bool {
        &&& self.storage().faithful()
        &&& self.storage().contents() == self.contents()
        &&& sole_writer(self.initial(), self.history())
    }

    /// A token store over `storage`.
    pub fn new(storage: S) -> (store: Self)
        ensures
            store.storage() == storage,
            store.initial() == storage.contents(),
            store.history() == Seq::<StoreEvent<AuthView>>::empty(),
            store.contents() == storage.contents(),
            store.faithful() == storage.faithful(),
    {
        let origin: Ghost<Option<AuthView>> = Ghost(storage.contents());
        CodexTokenStore { storage, log: Ghost(Seq::empty()), origin }
    }

    /// Reads the persisted credentials, if there are any.
    pub fn load_auth(&mut self) -> (r: Result<Option<StoredAuth>, StoreError>)
        ensures
            final(self).initial() == old(self).initial(),
            final(self).history() == old(self).history().push(StoreEvent::Loaded(load_view(r))),
            final(self).contents() == old(self).contents(),
            old(self).faithful() ==> final(self).faithful() && load_view(r) == Ok::<_, Seq<char>>(
                old(self).contents(),
            ),
    {
        let r = self.storage.load();
        proof {
            lemma_held_push(self.origin@, self.log@, StoreEvent::Loaded(load_view(r)));
        }
        self.log = Ghost(self.log@.push(StoreEvent::Loaded(load_view(r))));
        r
    }

    /// Persists `auth` in place of what was there.
    pub fn save_auth(&mut self, auth: StoredAuth) -> (r: Result<(), StoreError>)
        ensures
            final(self).initial() == old(self).initial(),
            final(self).history() == old(self).history().push(
                StoreEvent::Saved(auth@, write_view(r)),
            ),
            final(self).contents() == (if r is Ok {
                Some(auth@)
            } else {
                old(self).contents()
            }),
            old(self).faithful() ==> final(self).faithful() && r is Ok,
    {
        let ghost value = auth@;
        let r = self.storage.save(auth);
        proof {
            lemma_held_push(self.origin@, self.log@, StoreEvent::Saved(value, write_view(r)));
        }
        self.log = Ghost(self.log@.push(StoreEvent::Saved(value, write_view(r))));
        r
    }

    /// Forgets the persisted credentials.
    pub fn clear_auth(&mut self) -> (r: Result<(), StoreError>)
        ensures
            final(self).initial() == old(self).initial(),
            final(self).history() == old(self).history().push(StoreEvent::Cleared(write_view(r))),
            final(self).contents() == (if r is Ok {
                None
            } else {
                old(self).contents()
            }),
            old(self).faithful() ==> final(self).faithful() && r is Ok,
    {
        let r = self.storage.clear();
        proof {
            lemma_held_push(self.origin@, self.log@, StoreEvent::Cleared(write_view(r)));
        }
        self.log = Ghost(self.log@.push(StoreEvent::Cleared(write_view(r))));
        r
    }
}

} // verus!
