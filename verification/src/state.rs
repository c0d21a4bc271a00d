//! Shared application state: a registry that holds at most one value of
//! each type, filled at startup and only read afterwards.

use vstd::prelude::*;
use core::marker::PhantomData;
use std::any::Any;
use std::any::TypeId;
use std::rc::Rc;

verus! {

/// `std::any::TypeId`, the identifier that the language gives each type.
/// Nothing inside it is looked at.
#[verifier::external_type_specification]
#[verifier::external_body]
pub struct ExTypeId(TypeId);

/// The identity of a type, as a value.
#[derive(Clone, Copy, Debug, PartialEq, Eq)]
pub struct TypeKey {
    id: TypeId,
}

/// Stands for the type `T` in specifications; no value of it is ever made.
pub struct KeyOf<T> {
    key: TypeKey,
    of: PhantomData<T>,
}

/// The key of the type `T`. Nothing is known of it but that each type has
/// one, always the same.
pub closed spec fn key_of<T>() -> TypeKey {
    arbitrary::<KeyOf<T>>().key
}

/// A shared value whose type is known only at run time. What it holds,
/// an `Rc<dyn Any>`, is looked at only by the functions below that say so.
#[verifier::external_body]
pub struct Handle {
    inner: Rc<dyn Any>,
}

/// The key of the type of the value behind a handle.
pub uninterp spec fn handle_key(handle: Handle) -> TypeKey;

/// The value behind a handle, read as a `T`. It is meaningful only where
/// `handle_key(handle)` is the key of `T`.
pub closed spec fn handle_value<T>(handle: Handle) -> T {
    (arbitrary::<spec_fn(Handle) -> T>())(handle)
}

/// The key of `T`.
///
/// Calls `TypeId::of`, which gives each type one identifier and gives it
/// on every call; the contract says no more than that.
#[verifier::external_body]
fn type_id_of<T: 'static>() -> (key: TypeKey)
    ensures
        key == key_of::<T>(),
{
    TypeKey { id: TypeId::of::<T>() }
}

/// Whether two keys are the same.
///
/// Calls `TypeId`'s `==`, which holds of two identifiers exactly where
/// they are the same identifier.
#[verifier::external_body]
fn same_type_id(a: &TypeKey, b: &TypeKey) -> (r: bool)
    ensures
        r == (*a == *b),
{
    a.id == b.id
}

/// Forgets the type of a shared value.
///
/// The body is the coercion of `Rc<T>` to `Rc<dyn Any>`: the pointer and
/// the value behind it stay what they were.
#[verifier::external_body]
fn erase<T: 'static>(value: Rc<T>) -> (handle: Handle)
    ensures
        handle_key(handle) == key_of::<T>(),
        handle_value::<T>(handle) == *value,
{
    Handle { inner: value }
}

/// The value behind a handle as a `T`, where it is one.
///
/// Calls `Rc::downcast` on a clone of the pointer: it succeeds exactly
/// where the value's type is `T`, and then gives a pointer to the same
/// value.
#[verifier::external_body]
fn downcast<T: 'static>(handle: &Handle) -> (r: Option<Rc<T>>)
    ensures
        r is Some <==> handle_key(*handle) == key_of::<T>(),
        r matches Some(value) ==> *value == handle_value::<T>(*handle),
{
    handle.inner.clone().downcast::<T>().ok()
}

/// Another handle to the same value.
///
/// Calls `Rc::clone` on the pointer inside, which copies the pointer and
/// not the value.
#[verifier::external_body]
fn share_handle(handle: &Handle) -> (r: Handle)
    ensures
        r == *handle,
{
    Handle { inner: handle.inner.clone() }
}

/// Another pointer to the same value.
///
/// Calls `Rc::clone`, which copies the pointer and not the value.
#[verifier::external_body]
fn share_rc<T>(value: &Rc<T>) -> (r: Rc<T>)
    ensures
        r == *value,
{
    value.clone()
}

impl TypeKey {
    /// The key of `T`.
    pub fn of<T: 'static>() -> (key: TypeKey)
        ensures
            key == key_of::<T>(),
    {
        type_id_of::<T>()
    }

    /// Whether two keys are the same.
    pub fn same(&self, other: &TypeKey) -> (r: bool)
        ensures
            r == (*self == *other),
    {
        same_type_id(self, other)
    }
}

impl Handle {
    /// A handle to `value` that no longer tells its type.
    pub fn new<T: 'static>(value: T) -> (handle: Handle)
        ensures
            handle_key(handle) == key_of::<T>(),
            handle_value::<T>(handle) == value,
    {
        erase(Rc::new(value))
    }

    /// The value behind the handle as a `T`: there where the handle was
    /// made for a `T`, and nowhere else.
    pub fn typed<T: 'static>(&self) -> (r: Option<State<T>>)
        ensures
            r is Some <==> handle_key(*self) == key_of::<T>(),
            r matches Some(state) ==> state@ == handle_value::<T>(*self),
    {
        match downcast::<T>(self) {
            Some(value) => Some(State::wrap(value)),
            None => None,
        }
    }
}

impl Clone for Handle {
    /// Another handle to the same value.
    fn clone(&self) -> (r: Handle)
        ensures
            r == *self,
    {
        share_handle(self)
    }
}

/// A shared handle to a value of the state container.
#[derive(Debug)]
pub struct State<T>(Rc<T>);

impl<T> View for State<T> {
    type V = T;

    closed spec fn view(&self) -> T {
        *self.0
    }
}

impl<T: 'static> State<T> {
    /// The handle that shares the value behind `i`.
    pub fn wrap(i: Rc<T>) -> (s: State<T>)
        ensures
            s@ == *i,
    {
        State(i)
    }
}

impl<T: 'static> Clone for State<T> {
    /// A second handle to the same value.
    fn clone(&self) -> (s: Self)
        ensures
            s@ == self@,
    {
        State(share_rc(&self.0))
    }
}

impl<T> std::ops::Deref for State<T> {
    type Target = T;

    /// The value behind the handle.
    fn deref(&self) -> (r: &T)
        ensures
            *r == self@,
    {
        &*self.0
    }
}

/// One registered value with the key of its type.
struct Entry {
    key: TypeKey,
    handle: Handle,
}

/// The state container: for each type at most one value, found again by
/// its type. It is filled through `&mut` at startup; whoever holds it
/// shared can only read it.
pub struct Container {
    entries: Vec<Entry>,
}

impl Container {
    /// The keys of the registered types, in the order of registration.
    pub closed spec fn keys(&self) -> Seq<TypeKey> {
        Seq::new(self.entries@.len(), |i: int| self.entries@[i].key)
    }

    /// The handles of the registered values, in the order of registration.
    pub closed spec fn handles(&self) -> Seq<Handle> {
        Seq::new(self.entries@.len(), |i: int| self.entries@[i].handle)
    }

    /// What holds of every container: no type is registered twice, and
    /// each handle is to a value of the type it is registered under.
    #[verifier::type_invariant]
    closed spec fn well_formed(&self) -> bool {
        &&& self.keys().no_duplicates()
        &&& forall|i: int|
            0 <= i < self.keys().len() ==> handle_key(#[trigger] self.handles()[i])
                == self.keys()[i]
    }

    /// Whether a value is registered under `key`.
    pub open spec fn has_key(&self, key: TypeKey) -> bool {
        self.keys().contains(key)
    }

    /// The handle registered under `key`.
    pub open spec fn handle_of(&self, key: TypeKey) -> Handle {
        self.handles()[self.keys().index_of(key)]
    }

    /// Whether a value of type `T` is registered.
    pub open spec fn has<T>(&self) -> bool {
        self.has_key(key_of::<T>())
    }

    /// The registered value of type `T`.
    pub open spec fn value<T>(&self) -> T {
        handle_value::<T>(self.handle_of(key_of::<T>()))
    }

    /// The empty container: no type is registered and no value is held.
    pub fn new() -> (c: Container)
        ensures
            c.keys() == Seq::<TypeKey>::empty(),
            c.handles() == Seq::<Handle>::empty(),
    {
        let c = Container { entries: Vec::new() };
        assert(c.keys() =~= Seq::empty());
        assert(c.handles() =~= Seq::empty());
        c
    }

    /// Where `key` stands among the entries.
    fn position(&self, key: &TypeKey) -> (r: Option<usize>)
        ensures
            r is Some <==> self.has_key(*key),
            r matches Some(i) ==> i < self.keys().len() && self.keys()[i as int] == *key,
    {
        let mut i: usize = 0;
        while i < self.entries.len()
            invariant
                i <= self.entries.len(),
                forall|k: int| 0 <= k < i ==> self.keys()[k] != *key,
            decreases self.entries.len() - i,
        {
            if self.entries[i].key.same(key) {
                assert(self.keys()[i as int] == *key);
                return Some(i);
            }
            i += 1;
        }
        None
    }

    /// Whether a value is registered under `key`.
    pub fn contains_key(&self, key: &TypeKey) -> (r: bool)
        ensures
            r == self.has_key(*key),
    {
        self.position(key).is_some()
    }

    /// A handle to the value registered under `key`, if there is one.
    pub fn lookup(&self, key: &TypeKey) -> (r: Option<Handle>)
        ensures
            r is Some <==> self.has_key(*key),
            r matches Some(h) ==> h == self.handle_of(*key) && handle_key(h) == *key,
    {
        match self.position(key) {
            Some(i) => {
                proof {
                    use_type_invariant(self);
                    let j = self.keys().index_of(*key);
                    assert(self.keys()[i as int] == *key);
                    assert(0 <= j < self.keys().len() && self.keys()[j] == *key);
                    assert(j == i);
                    assert(self.handles()[i as int] == self.entries@[i as int].handle);
                }
                Some(self.entries[i].handle.clone())
            },
            None => None,
        }
    }

    /// Registers `v` as the value of type `T`, unless a value of that
    /// type is registered already: then the container stays as it is.
    /// Returns whether `v` was registered.
    pub fn set<T: 'static>(&mut self, v: T) -> (fresh: bool)
        ensures
            fresh == !old(self).has::<T>(),
            final(self).has::<T>(),
            fresh ==> final(self).value::<T>() == v,
            fresh ==> final(self).keys() == old(self).keys().push(key_of::<T>()),
            !fresh ==> final(self).keys() == old(self).keys(),
            forall|k: TypeKey|
                old(self).has_key(k) ==> final(self).has_key(k) && final(self).handle_of(k) == old(
                    self,
                ).handle_of(k),
    {
        let key = TypeKey::of::<T>();
        if self.contains_key(&key) {
            return false;
        }
        proof {
            use_type_invariant(&*self);
        }
        let handle = Handle::new(v);
        // The entries are taken out, extended and put back as a whole, so
        // that the container is well formed at every moment.
        let mut taken = Container::new();
        core::mem::swap(self, &mut taken);
        let mut entries = taken.entries;
        entries.push(Entry { key, handle });
        let ghost keys = Seq::new(entries@.len(), |i: int| entries@[i].key);
        let ghost handles = Seq::new(entries@.len(), |i: int| entries@[i].handle);
        proof {
            let n = old(self).keys().len() as int;
            assert(keys =~= old(self).keys().push(key));
            assert(handles =~= old(self).handles().push(handle));
            assert(keys[n] == key);
            assert(keys.no_duplicates());
            assert(keys.index_of(key) == n);
            assert forall|k: TypeKey| old(self).has_key(k) implies keys.contains(k)
                && handles[keys.index_of(k)] == old(self).handle_of(k) by {
                let i = old(self).keys().index_of(k);
                assert(keys[i] == k);
                assert(keys.index_of(k) == i);
            }
        }
        *self = Container { entries };
        true
    }

    /// A handle to the registered value of type `T`, if there is one.
    pub fn get<T: 'static>(&self) -> (r: Option<State<T>>)
        ensures
            r is Some <==> self.has::<T>(),
            r matches Some(s) ==> s@ == self.value::<T>(),
    {
        let key = TypeKey::of::<T>();
        match self.lookup(&key) {
            Some(handle) => handle.typed::<T>(),
            None => None,
        }
    }

    /// Whether a value of type `T` is registered.
    pub fn contains<T: 'static>(&self) -> (r: bool)
        ensures
            r == self.has::<T>(),
    {
        let key = TypeKey::of::<T>();
        self.contains_key(&key)
    }

    /// How many values are registered.
    pub fn len(&self) -> (n: usize)
        ensures
            n == self.keys().len(),
    {
        self.entries.len()
    }
}

impl Clone for Container {
    /// A container that shares every value with this one.
    fn clone(&self) -> (c: Self)
        ensures
            c.keys() == self.keys(),
            c.handles() == self.handles(),
    {
        let mut entries: Vec<Entry> = Vec::new();
        let mut i: usize = 0;
        while i < self.entries.len()
            invariant
                i <= self.entries.len(),
                entries.len() == i,
                forall|k: int| 0 <= k < i ==> entries@[k] == self.entries@[k],
            decreases self.entries.len() - i,
        {
            let entry = &self.entries[i];
            entries.push(Entry { key: entry.key, handle: entry.handle.clone() });
            i += 1;
        }
        proof {
            use_type_invariant(self);
            let keys = Seq::new(entries@.len(), |i: int| entries@[i].key);
            let handles = Seq::new(entries@.len(), |i: int| entries@[i].handle);
            assert(keys =~= self.keys());
            assert(handles =~= self.handles());
        }
        Container { entries }
    }
}

} // verus!
