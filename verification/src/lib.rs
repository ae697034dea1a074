//! A nullable, owning slot for a single heap-allocated value.
//!
//! A [`StaticSlot<T>`] is either empty or holds exactly one value of type
//! `T`. The value always lives on the heap behind the slot's single
//! pointer-sized word, so the slot's own footprint does not depend on the
//! size of `T`. Every mutation goes through one exchange primitive that
//! installs a new content and hands the previous content back, so that after
//! each exchange the previous value is owned by exactly one party: the
//! caller of the exchange.
use vstd::prelude::*;

verus! {

/// A container for at most one owned value of type `T`.
///
/// The slot starts out empty and can be populated and emptied any number of
/// times. Its content is always boxed, which keeps the slot itself one
/// pointer wide regardless of `T`. Think of it as an `Option<Box<T>>` whose
/// operations are phrased as a single swap protocol: every state change
/// exchanges the whole content at once and returns the previous content.
pub struct StaticSlot<T> {
    value: Option<Box<T>>,
}

impl<T> View for StaticSlot<T> {
    type V = Option<T>;

    /// A slot is abstractly the value it holds, if any.
    closed spec fn view(&self) -> Option<T> {
        match self.value {
            Some(b) => Some(*b),
            None => None,
        }
    }
}

impl<T> StaticSlot<T> {
    /// Create a slot that holds nothing.
    pub fn empty() -> (s: Self)
        ensures
            s@ is None,
    {
        StaticSlot { value: None }
    }

    /// Create a slot that already contains the given value.
    pub fn new(value: T) -> (s: Self)
        ensures
            s@ == Some(value),
    {
        StaticSlot { value: Some(Box::new(value)) }
    }

    /// Check whether the slot is empty.
    pub fn is_null(&self) -> (r: bool)
        ensures
            r == (self@ is None),
    {
        self.value.is_none()
    }

    /// Get a reference to the value in the slot, if set.
    pub fn get(&self) -> (r: Option<&T>)
        ensures
            match r {
                Some(v) => self@ == Some(*v),
                None => self@ is None,
            },
    {
        match &self.value {
            Some(b) => Some(&**b),
            None => None,
        }
    }

    /// Get a reference to the value in the slot, which must be set.
    ///
    /// Where the slot may be empty, use [`Self::get`] instead: this variant
    /// skips the emptiness check and therefore demands a non-empty slot from
    /// every caller.
    pub fn get_unchecked(&self) -> (r: &T)
        requires
            self@ is Some,
        ensures
            self@ == Some(*r),
    {
        match &self.value {
            Some(b) => &**b,
            None => unreached(),
        }
    }

    /// Set the current content, returning the old content.
    ///
    /// This is the one primitive every state change goes through: the new
    /// content goes in and the previous content comes out in a single
    /// exchange, so the previous value ends up owned by exactly one party.
    fn swap(&mut self, value: Option<T>) -> (r: Option<T>)
        ensures
            final(self)@ == value,
            r == old(self)@,
    {
        let new_value = match value {
            Some(v) => Some(Box::new(v)),
            None => None,
        };
        let previous = self.value.take();
        self.value = new_value;
        match previous {
            Some(b) => Some(*b),
            None => None,
        }
    }

    /// Set the slot to a new value. If the slot was already set, the old
    /// value is dropped.
    pub fn set(&mut self, value: T)
        ensures
            final(self)@ == Some(value),
    {
        self.swap(Some(value));
    }

    /// Take the value out of the slot if it exists, leaving the slot empty.
    ///
    /// The caller receives sole ownership of whatever was present.
    pub fn take(&mut self) -> (r: Option<T>)
        ensures
            r == old(self)@,
            final(self)@ is None,
    {
        self.swap(None)
    }

    /// Invoke a closure, with the slot set to a given value.
    ///
    /// The given value is installed before the closure runs and handed to
    /// the closure through the slot; whatever was present before is saved
    /// and put back once the closure returns, so the call leaves the slot
    /// exactly as it found it, no matter what the closure did to it.
    /// Nested calls therefore restore their saved values in reverse order
    /// of installation. The closure's return value is passed through
    /// unchanged.
    pub fn with<R, F: FnOnce(&mut Self) -> R>(&mut self, value: T, f: F) -> (r: R)
        requires
            forall|s: &mut Self|
                mut_ref_current(s)@ == Some(value) ==> #[trigger] call_requires(f, (s,)),
        ensures
            final(self)@ == old(self)@,
            exists|s: &mut Self|
                mut_ref_current(s)@ == Some(value) && #[trigger] call_ensures(f, (s,), r),
    {
        let previous = self.swap(Some(value));
        let result = f(self);
        self.swap(previous);
        result
    }

    /// Drop the value in the slot if any, and return whether a value was
    /// dropped.
    pub fn drop(&mut self) -> (r: bool)
        ensures
            r == (old(self)@ is Some),
            final(self)@ is None,
    {
        self.swap(None).is_some()
    }
}

impl<T> Default for StaticSlot<T> {
    /// A freshly constructed slot holds nothing.
    fn default() -> (s: Self)
        ensures
            s@ is None,
    {
        StaticSlot::empty()
    }
}

/// Law: after `set(v)` on a slot, a read of that slot yields a reference to
/// exactly the installed value.
pub proof fn lemma_set_then_get<T>(s: &mut StaticSlot<T>, v: T, r: Option<&T>)
    requires
        call_ensures(StaticSlot::<T>::set, (s, v), ()),
        call_ensures(StaticSlot::<T>::get, (&mut_ref_future(s),), r),
    ensures
        r is Some,
        *r.unwrap() == v,
{
}

/// Law: `take` empties the slot. After `set(v)`, a `take` returns exactly
/// `Some(v)` and leaves the slot empty, so a second `take` returns `None`
/// and the slot stays empty: the stored value is handed out at most once.
pub proof fn lemma_take_empties<T>(
    s: &mut StaticSlot<T>,
    t1: &mut StaticSlot<T>,
    t2: &mut StaticSlot<T>,
    v: T,
    r1: Option<T>,
    r2: Option<T>,
)
    requires
        call_ensures(StaticSlot::<T>::set, (s, v), ()),
        mut_ref_current(t1) == mut_ref_future(s),
        call_ensures(StaticSlot::<T>::take, (t1,), r1),
        mut_ref_current(t2) == mut_ref_future(t1),
        call_ensures(StaticSlot::<T>::take, (t2,), r2),
    ensures
        r1 == Some(v),
        mut_ref_future(t1)@ is None,
        r2 is None,
        mut_ref_future(t2)@ is None,
{
}

/// Law: a second `set` replaces the first destructively. After `set(v1)`
/// then `set(v2)`, the slot holds exactly `v2`; neither call returned `v1`,
/// and when the two values differ the slot no longer holds `v1`.
pub proof fn lemma_set_replaces<T>(
    s1: &mut StaticSlot<T>,
    s2: &mut StaticSlot<T>,
    v1: T,
    v2: T,
)
    requires
        call_ensures(StaticSlot::<T>::set, (s1, v1), ()),
        mut_ref_current(s2) == mut_ref_future(s1),
        call_ensures(StaticSlot::<T>::set, (s2, v2), ()),
    ensures
        mut_ref_future(s2)@ == Some(v2),
        v1 != v2 ==> mut_ref_future(s2)@ != Some(v1),
{
}

/// Law: a scoped install restores what it found. Starting from an empty
/// slot, `with(v, f)` runs `f` on the slot holding exactly `v`, returns
/// `f`'s result unchanged, and leaves the slot empty again.
pub proof fn lemma_with_restores_empty<T, R, F: FnOnce(&mut StaticSlot<T>) -> R>(
    s: &mut StaticSlot<T>,
    v: T,
    f: F,
    r: R,
)
    requires
        mut_ref_current(s)@ is None,
        call_ensures(StaticSlot::<T>::with::<R, F>, (s, v, f), r),
    ensures
        mut_ref_future(s)@ is None,
        exists|s2: &mut StaticSlot<T>|
            mut_ref_current(s2)@ == Some(v) && #[trigger] call_ensures(f, (s2,), r),
{
}

/// Law: scoped installs stack. Starting from a slot holding `v1`,
/// `with(v2, f)` runs `f` on the slot holding exactly `v2` and afterwards
/// the slot holds exactly `v1` again — the saved values come back in
/// reverse order of installation, one level at a time.
pub proof fn lemma_with_restores_previous<T, R, F: FnOnce(&mut StaticSlot<T>) -> R>(
    s: &mut StaticSlot<T>,
    v1: T,
    v2: T,
    f: F,
    r: R,
)
    requires
        mut_ref_current(s)@ == Some(v1),
        call_ensures(StaticSlot::<T>::with::<R, F>, (s, v2, f), r),
    ensures
        mut_ref_future(s)@ == Some(v1),
        exists|s2: &mut StaticSlot<T>|
            mut_ref_current(s2)@ == Some(v2) && #[trigger] call_ensures(f, (s2,), r),
{
}

/// One step of the exchange protocol as `take` observes it, over slot
/// views: the caller receives everything the slot held and the slot is
/// left empty.
pub open spec fn take_step<T>(before: Option<T>, after: Option<T>, result: Option<T>) -> bool {
    result == before && after is None
}

/// Every behaviour `take` admits is one such exchange step.
pub proof fn lemma_take_is_take_step<T>(t: &mut StaticSlot<T>, r: Option<T>)
    requires
        call_ensures(StaticSlot::<T>::take, (t,), r),
    ensures
        take_step(mut_ref_current(t)@, mut_ref_future(t)@, r),
{
}

/// Law: the exchange is exclusive. In any total order of `take` calls on
/// one slot — such as the order the atomic exchange would have serialized
/// concurrent callers into — `states` are the slot views between calls and
/// `results[i]` is what the `i`-th caller received. If the slot initially
/// held `v`, the first caller receives `Some(v)` and every later caller
/// receives `None`: the value is neither duplicated nor lost.
pub proof fn lemma_take_exclusive<T>(states: Seq<Option<T>>, results: Seq<Option<T>>, v: T)
    requires
        states.len() == results.len() + 1,
        results.len() >= 1,
        states[0] == Some(v),
        forall|i: int|
            0 <= i < results.len() ==> #[trigger] take_step(states[i], states[i + 1], results[i]),
    ensures
        results[0] == Some(v),
        forall|i: int| 1 <= i < results.len() ==> results[i] is None,
{
    assert(take_step(states[0int], states[0int + 1], results[0int]));
    assert forall|i: int| 1 <= i < results.len() implies results[i] is None by {
        let j = i - 1;
        assert(take_step(states[j], states[j + 1], results[j]));
        assert(take_step(states[i], states[i + 1], results[i]));
    }
}

} // verus!
