//! Opaque handles and the registry that tracks them.
//!
//! The registry is the single source of truth for which handles are alive
//! and what type of native object each one denotes. An object is moved into
//! the registry when its handle is minted, recovered by reference under a
//! type-tag check on every reentry from the client, and moved back out for
//! destruction exactly once. A handle with no entry — never issued, forged,
//! or already dropped — always fails, and all such failures are reported to
//! the client identically as [`InvalidHandleError`].

use std::collections::HashMap;
use vstd::prelude::*;

verus! {

broadcast use vstd::std_specs::hash::group_hash_axioms;

/// An opaque token standing in for exactly one native object across the FFI
/// boundary. It is transported as a fixed-width integer; the newtype has no
/// public field, so native code cannot accidentally build a handle out of an
/// arbitrary integer. A value a client forged or retained after a drop is
/// still caught by the registry lookup on every use.
#[derive(Clone, Copy, PartialEq, Eq, Structural, Debug, Hash)]
pub struct Handle {
    id: u64,
}

impl Handle {
    /// The integer that crosses the FFI boundary.
    pub closed spec fn id(self) -> u64 {
        self.id
    }

    /// Hands the raw integer out for transport to the client, which must
    /// treat it as opaque from this point on.
    pub fn as_raw(&self) -> (r: u64)
        ensures
            r == self.id(),
    {
        self.id
    }

    /// Rebuilds the token from the integer a client presented at reentry.
    /// Only the FFI decoding layer should call this; whatever integer it was
    /// given, every use is validated against the registry.
    pub fn from_raw(id: u64) -> (h: Handle)
        ensures
            h.id() == id,
    {
        Handle { id }
    }
}

/// Client-visible failure: the handle is unknown, already dropped, or names
/// an object of another type. The cases are deliberately reported
/// identically, so a misbehaving caller learns nothing about the registry's
/// internal state.
#[derive(Clone, Copy, PartialEq, Eq, Structural, Debug)]
pub struct InvalidHandleError;

impl InvalidHandleError {
    /// Diagnostic text for translation into the client's error
    /// representation.
    pub fn message(&self) -> (r: String)
        ensures
            r@ == "Invalid handle value: unknown, already dropped, or of the wrong type"@,
    {
        String::from_str("Invalid handle value: unknown, already dropped, or of the wrong type")
    }
}

/// Registry-internal lookup failure. `cast_handle` folds both variants into
/// one [`InvalidHandleError`] before anything reaches the client.
#[derive(Clone, Copy, PartialEq, Eq, Structural, Debug)]
pub enum LookupError {
    /// No live entry carries the handle: never issued or already dropped.
    InvalidHandle,
    /// A live entry exists, but it was minted under a different type tag.
    TypeMismatch,
}

/// One registry entry: the type tag the object was minted under, and the
/// object itself, owned exclusively by the registry while the entry lives.
struct Entry<T> {
    tag: u64,
    object: T,
}

/// Process-wide bookkeeping mapping each live handle to the type tag and the
/// native object it owns. Handle values come from a monotonic counter, so a
/// retired value is never reissued within the registry's lifetime.
pub struct ResourceRegistry<T> {
    table: HashMap<u64, Entry<T>>,
    next_id: u64,
}

impl<T> View for ResourceRegistry<T> {
    type V = Map<u64, (u64, T)>;

    /// The live entries: each handle id maps to the type tag it was minted
    /// under and the object it owns.
    closed spec fn view(&self) -> Map<u64, (u64, T)> {
        self.table@.map_values(|e: Entry<T>| (e.tag, e.object))
    }
}

impl<T> ResourceRegistry<T> {
    /// The next handle id the counter will hand out.
    pub closed spec fn next(self) -> u64 {
        self.next_id
    }

    /// Every live handle id lies below the counter, so a freshly minted
    /// handle can never collide with a live one.
    pub open spec fn wf(self) -> bool {
        forall|k: u64| self@.contains_key(k) ==> k < self.next()
    }

    /// An empty registry.
    pub fn new() -> (r: ResourceRegistry<T>)
        ensures
            r@ == Map::<u64, (u64, T)>::empty(),
            r.wf(),
            r.next() == 0,
    {
        ResourceRegistry { table: HashMap::new(), next_id: 0 }
    }

    /// How many handles are currently live.
    pub fn len(&self) -> (n: usize)
        ensures
            n == self@.dom().len(),
    {
        proof {
            assert(self@.dom() =~= self.table@.dom());
        }
        self.table.len()
    }

    /// Takes ownership of `object`, allocates a handle value distinct from
    /// every currently registered one, and stores the `(tag, object)` pair
    /// under it.
    pub fn register(&mut self, object: T, tag: u64) -> (h: Handle)
        requires
            old(self).wf(),
            old(self).next() < u64::MAX,
        ensures
            final(self).wf(),
            minted(*old(self), tag, object, *final(self), h),
            !old(self)@.contains_key(h.id()),
    {
        let ghost stored = object;
        let id: u64 = self.next_id;
        self.next_id = self.next_id + 1;
        self.table.insert(id, Entry { tag, object });
        let h = Handle { id };
        proof {
            assert(self@ =~= old(self)@.insert(h.id(), (tag, stored)));
        }
        h
    }

    /// Recovers a reference to the object `handle` owns, provided the entry
    /// is live and was minted under `expected_tag`. An absent entry and a
    /// wrong tag are reported as distinct variants for the registry's own
    /// callers, which must not let clients tell them apart.
    pub fn lookup(&self, handle: Handle, expected_tag: u64) -> (r: Result<&T, LookupError>)
        ensures
            r matches Ok(object) ==> casts_to(*self, handle, expected_tag, *object),
            r is Ok <==> self@.contains_key(handle.id()) && self@[handle.id()].0 == expected_tag,
            r == Err::<&T, LookupError>(LookupError::InvalidHandle) <==> !self@.contains_key(
                handle.id(),
            ),
            r == Err::<&T, LookupError>(LookupError::TypeMismatch) <==> self@.contains_key(
                handle.id(),
            ) && self@[handle.id()].0 != expected_tag,
    {
        match self.table.get(&handle.id) {
            None => Err(LookupError::InvalidHandle),
            Some(entry) => {
                if entry.tag == expected_tag {
                    Ok(&entry.object)
                } else {
                    Err(LookupError::TypeMismatch)
                }
            },
        }
    }

    /// Removes the entry for `handle` and returns ownership of its object,
    /// so the caller can destroy it; fails without touching the table if the
    /// handle is not live. The counter never moves backwards, so the retired
    /// value is not reissued.
    pub fn unregister(&mut self, handle: Handle) -> (r: Result<T, InvalidHandleError>)
        requires
            old(self).wf(),
        ensures
            final(self).wf(),
            final(self).next() == old(self).next(),
            r is Ok <==> old(self)@.contains_key(handle.id()),
            r matches Ok(object) ==> object == old(self)@[handle.id()].1 && dropped(
                *old(self),
                handle,
                *final(self),
            ),
            r is Err ==> final(self)@ == old(self)@,
    {
        match self.table.remove(&handle.id) {
            None => {
                proof {
                    assert(self@ =~= old(self)@);
                }
                Err(InvalidHandleError)
            },
            Some(entry) => {
                proof {
                    assert(self@ =~= old(self)@.remove(handle.id()));
                }
                Ok(entry.object)
            },
        }
    }
}

/// One successful mint: `post` and `h` are the outcome of `register` (or
/// `to_handle`) on `pre` with `object` under `tag`.
pub open spec fn minted<T>(
    pre: ResourceRegistry<T>,
    tag: u64,
    object: T,
    post: ResourceRegistry<T>,
    h: Handle,
) -> bool {
    &&& h.id() == pre.next()
    &&& post.next() == pre.next() + 1
    &&& post@ == pre@.insert(h.id(), (tag, object))
}

/// What a successful cast finds: `h` is live in `r`, was minted under `tag`,
/// and owns `object`.
pub open spec fn casts_to<T>(r: ResourceRegistry<T>, h: Handle, tag: u64, object: T) -> bool {
    &&& r@.contains_key(h.id())
    &&& r@[h.id()].0 == tag
    &&& r@[h.id()].1 == object
}

/// One successful drop: `post` is the outcome of a successful
/// `drop_handle(h)` (or `unregister(h)`) on `pre`.
pub open spec fn dropped<T>(pre: ResourceRegistry<T>, h: Handle, post: ResourceRegistry<T>) -> bool {
    &&& pre@.contains_key(h.id())
    &&& post@ == pre@.remove(h.id())
    &&& post.next() == pre.next()
}

/// Converts an owned native object into a handle safe to hand across the
/// FFI boundary: the registry takes ownership and the returned integer token
/// is guaranteed fresh. `tag` identifies the concrete native type of
/// `object` and is checked again on every cast.
pub fn to_handle<T>(registry: &mut ResourceRegistry<T>, object: T, tag: u64) -> (h: Handle)
    requires
        old(registry).wf(),
        old(registry).next() < u64::MAX,
    ensures
        final(registry).wf(),
        minted(*old(registry), tag, object, *final(registry), h),
        !old(registry)@.contains_key(h.id()),
{
    registry.register(object, tag)
}

/// Validates a handle presented by the client and recovers a typed reference
/// to the object it owns. This is the safety checkpoint on every reentry:
/// an unknown handle, a dropped handle, and a handle minted under a
/// different type tag all fail with the same [`InvalidHandleError`].
pub fn cast_handle<'a, T>(
    registry: &'a ResourceRegistry<T>,
    handle: Handle,
    expected_tag: u64,
) -> (r: Result<&'a T, InvalidHandleError>)
    ensures
        r matches Ok(object) ==> casts_to(*registry, handle, expected_tag, *object),
        r is Ok <==> registry@.contains_key(handle.id()) && registry@[handle.id()].0
            == expected_tag,
        r is Err ==> r == Err::<&'a T, InvalidHandleError>(InvalidHandleError),
{
    match registry.lookup(handle, expected_tag) {
        Ok(object) => Ok(object),
        Err(_) => Err(InvalidHandleError),
    }
}

/// Invalidates `handle` and destroys the object it owned, by moving the
/// object out of the registry and letting it drop. Succeeds at most once per
/// handle: a second call fails with [`InvalidHandleError`] rather than being
/// a silent no-op, because it means the client retained a stale handle.
pub fn drop_handle<T>(registry: &mut ResourceRegistry<T>, handle: Handle) -> (r: Result<
    (),
    InvalidHandleError,
>)
    requires
        old(registry).wf(),
    ensures
        final(registry).wf(),
        final(registry).next() == old(registry).next(),
        r is Ok <==> old(registry)@.contains_key(handle.id()),
        r is Ok ==> dropped(*old(registry), handle, *final(registry)),
        r is Err ==> final(registry)@ == old(registry)@ && r == Err::<(), InvalidHandleError>(
            InvalidHandleError,
        ),
{
    match registry.unregister(handle) {
        Ok(_object) => Ok(()),
        Err(e) => Err(e),
    }
}

/// The two registries are indistinguishable to every operation: same live
/// entries and same counter. A failed operation leaves its registry in this
/// relation to the old one.
pub open spec fn same_state<T>(a: ResourceRegistry<T>, b: ResourceRegistry<T>) -> bool {
    b@ == a@ && b.next() == a.next()
}

/// A run of consecutive mints with no interleaved drops: `steps[i]` records
/// the tag, the object, and the returned handle of the i-th `to_handle`
/// call.
pub open spec fn minted_all<T>(
    pre: ResourceRegistry<T>,
    steps: Seq<(u64, T, Handle)>,
    post: ResourceRegistry<T>,
) -> bool
    decreases steps.len(),
{
    if steps.len() == 0 {
        same_state(pre, post)
    } else {
        exists|mid: ResourceRegistry<T>|
            #[trigger] minted(pre, steps[0].0, steps[0].1, mid, steps[0].2) && minted_all(
                mid,
                steps.drop_first(),
                post,
            )
    }
}

proof fn lemma_minted_all_bounds<T>(
    pre: ResourceRegistry<T>,
    steps: Seq<(u64, T, Handle)>,
    post: ResourceRegistry<T>,
)
    requires
        minted_all(pre, steps, post),
    ensures
        pre.next() <= post.next(),
        forall|k: int|
            0 <= k < steps.len() ==> pre.next() <= (#[trigger] steps[k].2).id() < post.next(),
        forall|i: int, j: int|
            0 <= i < j < steps.len() ==> (#[trigger] steps[i].2).id() < (#[trigger] steps[j].2).id(),
    decreases steps.len(),
{
    if steps.len() > 0 {
        let mid = choose|mid: ResourceRegistry<T>|
            #[trigger] minted(pre, steps[0].0, steps[0].1, mid, steps[0].2) && minted_all(
                mid,
                steps.drop_first(),
                post,
            );
        let rest = steps.drop_first();
        lemma_minted_all_bounds(mid, rest, post);
        assert forall|k: int|
            0 <= k < steps.len() implies pre.next() <= (#[trigger] steps[k].2).id()
            < post.next() by {
            if k > 0 {
                assert(rest[k - 1] == steps[k]);
            }
        }
        assert forall|i: int, j: int|
            0 <= i < j < steps.len() implies (#[trigger] steps[i].2).id() < (
        #[trigger] steps[j].2).id() by {
            assert(rest[j - 1] == steps[j]);
            if i > 0 {
                assert(rest[i - 1] == steps[i]);
            }
        }
    }
}

/// Uniqueness: over any run of `to_handle` calls with no interleaved drops,
/// the returned handles are pairwise distinct. Each mint returns the
/// counter's value and advances it, so the ids strictly increase along the
/// run.
pub proof fn lemma_handle_uniqueness<T>(
    pre: ResourceRegistry<T>,
    steps: Seq<(u64, T, Handle)>,
    post: ResourceRegistry<T>,
)
    requires
        minted_all(pre, steps, post),
    ensures
        forall|i: int, j: int|
            0 <= i < j < steps.len() ==> (#[trigger] steps[i].2) != (#[trigger] steps[j].2),
{
    lemma_minted_all_bounds(pre, steps, post);
}

/// Round-trip: an object minted under a tag is found again by a cast with
/// the same tag — the entry is live, carries that tag, and holds that very
/// object, so `cast_handle(post, h, tag)` must return `Ok` with a reference
/// to a value equal to the one registered.
pub proof fn lemma_cast_round_trip<T>(
    pre: ResourceRegistry<T>,
    tag: u64,
    object: T,
    post: ResourceRegistry<T>,
    h: Handle,
)
    requires
        minted(pre, tag, object, post, h),
    ensures
        casts_to(post, h, tag, object),
{
}

/// Type safety: a cast under any tag other than the one the handle was
/// minted for finds nothing, so `cast_handle` must fail on it.
pub proof fn lemma_cast_type_safety<T>(
    pre: ResourceRegistry<T>,
    tag: u64,
    object: T,
    post: ResourceRegistry<T>,
    h: Handle,
    other_tag: u64,
)
    requires
        minted(pre, tag, object, post, h),
        other_tag != tag,
    ensures
        post@[h.id()].0 != other_tag,
        forall|o: T| !casts_to(post, h, other_tag, o),
{
}

/// Single destruction, the immediate step: after a successful drop the entry
/// is gone, so the very next `drop_handle(h)` and any `cast_handle(h, _)`
/// must fail with `InvalidHandleError`.
pub proof fn lemma_single_destruction<T>(
    pre: ResourceRegistry<T>,
    h: Handle,
    post: ResourceRegistry<T>,
)
    requires
        dropped(pre, h, post),
    ensures
        !post@.contains_key(h.id()),
        forall|tag: u64, o: T| !casts_to(post, h, tag, o),
{
}

/// Unknown handle: in a well-formed registry every issued id lies below the
/// counter, so a handle at or above it was never returned by `to_handle`,
/// is not live, and both `cast_handle` and `drop_handle` must fail on it.
pub proof fn lemma_unknown_handle<T>(r: ResourceRegistry<T>, h: Handle)
    requires
        r.wf(),
        h.id() >= r.next(),
    ensures
        !r@.contains_key(h.id()),
        forall|tag: u64, o: T| !casts_to(r, h, tag, o),
{
}

/// One serialized registry operation, as the contracts describe the
/// possible outcomes: a successful mint, a successful drop, or a failed
/// operation, which changes nothing.
pub open spec fn steps_to<T>(pre: ResourceRegistry<T>, post: ResourceRegistry<T>) -> bool {
    ||| exists|tag: u64, object: T, h: Handle| #[trigger] minted(pre, tag, object, post, h)
    ||| exists|h: Handle| #[trigger] dropped(pre, h, post)
    ||| same_state(pre, post)
}

/// A serialized run of registry operations: each adjacent pair of states is
/// one operation's outcome.
pub open spec fn run<T>(states: Seq<ResourceRegistry<T>>) -> bool {
    forall|i: int| 0 <= i < states.len() - 1 ==> steps_to(#[trigger] states[i], states[i + 1])
}

proof fn lemma_step_preserves_retired<T>(
    pre: ResourceRegistry<T>,
    post: ResourceRegistry<T>,
    h: Handle,
)
    requires
        pre.wf(),
        !pre@.contains_key(h.id()),
        h.id() < pre.next(),
        steps_to(pre, post),
    ensures
        post.wf(),
        !post@.contains_key(h.id()),
        h.id() < post.next(),
{
    if exists|tag: u64, object: T, h2: Handle| #[trigger] minted(pre, tag, object, post, h2) {
        let (tag, object, h2) = choose|tag: u64, object: T, h2: Handle|
            #[trigger] minted(pre, tag, object, post, h2);
        assert(h2.id() == pre.next());
    } else if exists|h2: Handle| #[trigger] dropped(pre, h2, post) {
        let h2 = choose|h2: Handle| #[trigger] dropped(pre, h2, post);
        assert(post@ == pre@.remove(h2.id()));
    }
}

/// A retired handle value is never reissued and never becomes live again:
/// once its entry is gone, every later state of any serialized run still
/// rejects it, whatever mints and drops happen in between. This is what
/// makes the double-drop and use-after-drop failures of `drop_handle` and
/// `cast_handle` permanent.
pub proof fn lemma_retired_stays_retired<T>(states: Seq<ResourceRegistry<T>>, h: Handle)
    requires
        states.len() > 0,
        states[0].wf(),
        !states[0]@.contains_key(h.id()),
        h.id() < states[0].next(),
        run(states),
    ensures
        forall|i: int| 0 <= i < states.len() ==> !(#[trigger] states[i])@.contains_key(h.id()),
    decreases states.len(),
{
    if states.len() > 1 {
        lemma_step_preserves_retired(states[0], states[1], h);
        let rest = states.drop_first();
        assert forall|i: int| 0 <= i < rest.len() - 1 implies steps_to(
            #[trigger] rest[i],
            rest[i + 1],
        ) by {
            assert(rest[i] == states[i + 1]);
            assert(rest[i + 1] == states[i + 2]);
        }
        lemma_retired_stays_retired(rest, h);
        assert forall|i: int|
            0 <= i < states.len() implies !(#[trigger] states[i])@.contains_key(h.id()) by {
            if i > 0 {
                assert(rest[i - 1] == states[i]);
            }
        }
    }
}

/// Outcome of one `drop_handle(h)` call in a serialized interleaving:
/// either it succeeded and removed the entry, or the handle was not live and
/// it failed, changing nothing.
pub open spec fn drop_attempt<T>(
    pre: ResourceRegistry<T>,
    h: Handle,
    post: ResourceRegistry<T>,
    ok: bool,
) -> bool {
    if ok {
        dropped(pre, h, post)
    } else {
        !pre@.contains_key(h.id()) && same_state(pre, post)
    }
}

/// A serialized sequence of `drop_handle(h)` calls on one handle, with the
/// outcome each caller observed.
pub open spec fn drop_attempts<T>(
    pre: ResourceRegistry<T>,
    h: Handle,
    outcomes: Seq<bool>,
    post: ResourceRegistry<T>,
) -> bool
    decreases outcomes.len(),
{
    if outcomes.len() == 0 {
        same_state(pre, post)
    } else {
        exists|mid: ResourceRegistry<T>|
            #[trigger] drop_attempt(pre, h, mid, outcomes[0]) && drop_attempts(
                mid,
                h,
                outcomes.drop_first(),
                post,
            )
    }
}

proof fn lemma_drop_attempts_all_fail<T>(
    pre: ResourceRegistry<T>,
    h: Handle,
    outcomes: Seq<bool>,
    post: ResourceRegistry<T>,
)
    requires
        !pre@.contains_key(h.id()),
        drop_attempts(pre, h, outcomes, post),
    ensures
        forall|i: int| 0 <= i < outcomes.len() ==> !outcomes[i],
    decreases outcomes.len(),
{
    if outcomes.len() > 0 {
        let mid = choose|mid: ResourceRegistry<T>|
            #[trigger] drop_attempt(pre, h, mid, outcomes[0]) && drop_attempts(
                mid,
                h,
                outcomes.drop_first(),
                post,
            );
        let rest = outcomes.drop_first();
        lemma_drop_attempts_all_fail(mid, h, rest, post);
        assert forall|i: int| 0 <= i < outcomes.len() implies !outcomes[i] by {
            if i > 0 {
                assert(rest[i - 1] == outcomes[i]);
            }
        }
    }
}

/// Exactly-once destruction: of any number of `drop_handle` calls racing on
/// one live handle, serialized by the registry's mutual-exclusion
/// discipline, the first in the serialization succeeds and every other
/// fails with `InvalidHandleError` — so the object is moved out for
/// destruction exactly once.
pub proof fn lemma_exactly_once_destruction<T>(
    pre: ResourceRegistry<T>,
    h: Handle,
    outcomes: Seq<bool>,
    post: ResourceRegistry<T>,
)
    requires
        pre@.contains_key(h.id()),
        outcomes.len() > 0,
        drop_attempts(pre, h, outcomes, post),
    ensures
        outcomes[0],
        forall|i: int| 1 <= i < outcomes.len() ==> !outcomes[i],
{
    let mid = choose|mid: ResourceRegistry<T>|
        #[trigger] drop_attempt(pre, h, mid, outcomes[0]) && drop_attempts(
            mid,
            h,
            outcomes.drop_first(),
            post,
        );
    let rest = outcomes.drop_first();
    lemma_drop_attempts_all_fail(mid, h, rest, post);
    assert forall|i: int| 1 <= i < outcomes.len() implies !outcomes[i] by {
        assert(rest[i - 1] == outcomes[i]);
    }
}

} // verus!
