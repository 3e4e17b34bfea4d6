//! A growable array that is handed its allocator on each call.

use crate::allocator::{AllocError, Allocator, Block};
use crate::layout::{valid_layout, Layout};
use vstd::layout::{align_of, size_of};
use vstd::prelude::*;

verus! {

/// Capacity asked for by the first push into an array with no capacity.
pub const BASELINE_CAPACITY: usize = 16;

/// A block for `n` elements of `T` can be described by a layout.
pub open spec fn array_layout_ok<T>(n: int) -> bool {
    valid_layout(size_of::<T>() * n, align_of::<T>() as int)
}

/// The layout of a block for `n` elements of `T`.
pub open spec fn array_layout_spec<T>(n: int) -> Layout {
    Layout::spec_from(size_of::<T>() * n, align_of::<T>() as int)
}

/// The result an allocator call gave, read back from the array after it:
/// the array's new block on success.
pub open spec fn block_result<T>(t: RawArray<T>, ok: bool) -> Result<Block, AllocError> {
    if ok {
        Ok(t.spec_block())
    } else {
        Err(AllocError)
    }
}

/// The one request made of the allocator when `s` grows to `target`
/// elements, ending in `t`: a first block comes from `allocate`, a later one
/// from `grow` of the current block. No block is ever released.
pub open spec fn grow_request<T, A: Allocator>(
    s: RawArray<T>,
    t: RawArray<T>,
    a0: A,
    a1: A,
    target: int,
    ok: bool,
) -> bool {
    if s.spec_capacity() == 0 {
        a0.allocates(a1, array_layout_spec::<T>(target), block_result(t, ok))
    } else {
        a0.grows(
            a1,
            s.spec_block(),
            array_layout_spec::<T>(s.spec_capacity() as int),
            array_layout_spec::<T>(target),
            block_result(t, ok),
        )
    }
}

/// `block` has room for `n` elements of `T` and is aligned for them.
pub open spec fn holds_elements<T>(block: Block, n: int) -> bool {
    &&& block.len >= size_of::<T>() * n
    &&& block.addr as int % align_of::<T>() as int == 0
}

/// The capacity an array grows to when `needed` elements must fit: exactly
/// `needed` on the first allocation, at least double afterwards.
pub open spec fn target_capacity(capacity: int, needed: int) -> int {
    if capacity == 0 {
        needed
    } else if needed <= 2 * capacity {
        2 * capacity
    } else {
        needed
    }
}

/// How many elements a push asks room for when the array is full: the
/// baseline on the first allocation, one more afterwards.
pub open spec fn push_needed(capacity: int, len: int) -> int {
    if capacity == 0 {
        len + BASELINE_CAPACITY
    } else {
        len + 1
    }
}

/// `s` cut down to its first `n` elements, when it is longer.
pub open spec fn truncated<T>(s: Seq<T>, n: int) -> Seq<T> {
    if n < s.len() {
        s.subrange(0, n)
    } else {
        s
    }
}

/// `s` without the element at `i`, the last element taking its place.
pub open spec fn swap_removed<T>(s: Seq<T>, i: int) -> Seq<T> {
    s.update(i, s.last()).drop_last()
}

/// Growing to hold `needed` elements has a valid target.
pub open spec fn can_grow_to<T>(capacity: int, needed: int) -> bool {
    &&& needed <= usize::MAX
    &&& target_capacity(capacity, needed) <= usize::MAX
    &&& array_layout_ok::<T>(target_capacity(capacity, needed))
}

/// What [`RawArray::reserve`] does: nothing when `additional` more elements
/// already fit; otherwise the capacity grows to `target_capacity`, or the call
/// fails and changes nothing. The elements are kept either way.
pub open spec fn reserved<T, A: Allocator>(
    s: RawArray<T>,
    t: RawArray<T>,
    a0: A,
    a1: A,
    additional: int,
    r: Result<(), AllocError>,
) -> bool {
    &&& t@ == s@
    &&& s.has_room(additional) ==> r is Ok && t == s && a1 == a0
    &&& !s.has_room(additional) && !can_grow_to::<T>(s.spec_capacity() as int, s@.len() + additional)
        ==> r is Err && a1 == a0
    &&& r is Ok ==> t.has_room(additional)
    &&& r is Ok && !s.has_room(additional) ==> t.spec_capacity() == target_capacity(
        s.spec_capacity() as int,
        s@.len() + additional,
    )
    &&& r is Err ==> t == s
    &&& !s.has_room(additional) && can_grow_to::<T>(s.spec_capacity() as int, s@.len() + additional)
        ==> grow_request(
        s,
        t,
        a0,
        a1,
        target_capacity(s.spec_capacity() as int, s@.len() + additional),
        r is Ok,
    )
}

/// Room for one more element is made as [`RawArray::push`] makes it: without
/// touching the allocator when there is room, by growing towards
/// `push_needed` elements otherwise.
pub open spec fn made_room<T, A: Allocator>(
    s: RawArray<T>,
    t: RawArray<T>,
    a0: A,
    a1: A,
    ok: bool,
) -> bool {
    &&& s.has_room(1) ==> ok && a1 == a0 && t.spec_capacity() == s.spec_capacity()
        && t.spec_block() == s.spec_block()
    &&& !s.has_room(1) && !can_grow_to::<T>(
        s.spec_capacity() as int,
        push_needed(s.spec_capacity() as int, s@.len() as int),
    ) ==> !ok && a1 == a0
    &&& ok && !s.has_room(1) ==> t.spec_capacity() == target_capacity(
        s.spec_capacity() as int,
        push_needed(s.spec_capacity() as int, s@.len() as int),
    )
    &&& !s.has_room(1) && can_grow_to::<T>(
        s.spec_capacity() as int,
        push_needed(s.spec_capacity() as int, s@.len() as int),
    ) ==> grow_request(
        s,
        t,
        a0,
        a1,
        target_capacity(
            s.spec_capacity() as int,
            push_needed(s.spec_capacity() as int, s@.len() as int),
        ),
        ok,
    )
}

/// What [`RawArray::pop`] does: the last element comes out, or `None` from
/// an empty array; the block and capacity stay.
pub open spec fn popped_last<T>(s: RawArray<T>, t: RawArray<T>, r: Option<T>) -> bool {
    &&& t.spec_capacity() == s.spec_capacity()
    &&& t.spec_block() == s.spec_block()
    &&& s@.len() == 0 ==> r is None && t@ == s@
    &&& s@.len() > 0 ==> r == Some(s@.last()) && t@ == s@.drop_last()
}

/// What [`RawArray::push`] does.
pub open spec fn pushed<T, A: Allocator>(
    s: RawArray<T>,
    t: RawArray<T>,
    a0: A,
    a1: A,
    value: T,
    r: Result<(), AllocError>,
) -> bool {
    &&& r is Ok ==> t@ == s@.push(value)
    &&& r is Err ==> t == s
    &&& made_room(s, t, a0, a1, r is Ok)
}

/// What [`RawArray::insert_unchecked`] does.
pub open spec fn inserted<T, A: Allocator>(
    s: RawArray<T>,
    t: RawArray<T>,
    a0: A,
    a1: A,
    index: int,
    value: T,
    r: Result<(), AllocError>,
) -> bool {
    &&& r is Ok ==> t@ == s@.insert(index, value)
    &&& r is Err ==> t == s
    &&& made_room(s, t, a0, a1, r is Ok)
}

/// What [`RawArray::append`] does: `o`'s elements move to the end of `s`,
/// leaving `o` empty with its block and capacity; on failure neither changes.
pub open spec fn appended<T, A: Allocator>(
    s: RawArray<T>,
    t: RawArray<T>,
    o: RawArray<T>,
    u: RawArray<T>,
    a0: A,
    a1: A,
    r: Result<(), AllocError>,
) -> bool {
    &&& r is Ok ==> t@ == s@ + o@ && u@ == Seq::<T>::empty()
    &&& r is Err ==> t == s && u == o
    &&& u.spec_capacity() == o.spec_capacity()
    &&& u.spec_block() == o.spec_block()
    &&& s.has_room(o@.len() as int) ==> r is Ok && a1 == a0
    &&& !s.has_room(o@.len() as int) && !can_grow_to::<T>(
        s.spec_capacity() as int,
        (s@.len() + o@.len()) as int,
    ) ==> r is Err && a1 == a0
    &&& r is Ok && !s.has_room(o@.len() as int) ==> t.spec_capacity() == target_capacity(
        s.spec_capacity() as int,
        (s@.len() + o@.len()) as int,
    )
    &&& !s.has_room(o@.len() as int) && can_grow_to::<T>(
        s.spec_capacity() as int,
        (s@.len() + o@.len()) as int,
    ) ==> grow_request(
        s,
        t,
        a0,
        a1,
        target_capacity(s.spec_capacity() as int, (s@.len() + o@.len()) as int),
        r is Ok,
    )
}

/// Inserting at `i` and then removing at `i` gives back the same elements
/// in the same order.
pub proof fn lemma_insert_then_remove<T>(s: Seq<T>, i: int, v: T)
    requires
        0 <= i <= s.len(),
    ensures
        s.insert(i, v).remove(i) == s,
{
    assert(s.insert(i, v).remove(i) =~= s);
}

/// Removing by swapping takes out exactly one element, the one at `i`, and
/// leaves the same elements, counted with multiplicity, as an ordered
/// removal.
pub proof fn lemma_swap_remove_as_remove<T>(s: Seq<T>, i: int)
    requires
        0 <= i < s.len(),
    ensures
        swap_removed(s, i).len() == s.len() - 1,
        swap_removed(s, i).to_multiset() == s.remove(i).to_multiset(),
        s.to_multiset() == swap_removed(s, i).to_multiset().insert(s[i]),
{
    broadcast use vstd::multiset::group_multiset_axioms;
    broadcast use vstd::seq_lib::to_multiset_remove, vstd::seq_lib::to_multiset_update;

    let n = s.len();
    let last = s[n - 1];
    let u = s.update(i, last);
    assert(u.drop_last() =~= u.remove(n - 1));
    if i == n - 1 {
        assert(u =~= s);
    } else {
        assert(u[n - 1] == last);
        assert(u.remove(n - 1).to_multiset() == u.to_multiset().remove(last));
        assert(u.to_multiset() == s.to_multiset().insert(last).remove(s[i]));
        assert(s.to_multiset().insert(last).remove(s[i]).remove(last) =~= s.to_multiset().remove(
            s[i],
        ));
    }
    assert(s.to_multiset().count(s[i]) > 0) by {
        broadcast use vstd::seq_lib::to_multiset_contains;

        assert(s.contains(s[i]));
    }
    assert(s.to_multiset() =~= s.to_multiset().remove(s[i]).insert(s[i]));
}

/// Truncating twice to the same length changes no more than truncating
/// once.
pub proof fn lemma_truncate_idempotent<T>(s: Seq<T>, n: int)
    requires
        n >= 0,
    ensures
        truncated(truncated(s, n), n) == truncated(s, n),
{
}

/// After a successful `reserve(n)`, the next `n` pushes never call the
/// allocator: in a run that starts with `reserve(values.len())` returning
/// `Ok` and continues with a push of each value, every push succeeds, the
/// allocator and the capacity stay as `reserve` left them, and the values end
/// up after the old elements.
pub proof fn lemma_reserved_pushes_do_not_allocate<T, A: Allocator>(
    arrays: Seq<RawArray<T>>,
    allocs: Seq<A>,
    values: Seq<T>,
    results: Seq<Result<(), AllocError>>,
)
    requires
        arrays.len() == values.len() + 2,
        allocs.len() == values.len() + 2,
        results.len() == values.len(),
        reserved(arrays[0], arrays[1], allocs[0], allocs[1], values.len() as int, Ok(())),
        forall|k: int|
            0 <= k < values.len() ==> pushed(
                #[trigger] arrays[k + 1],
                arrays[k + 2],
                allocs[k + 1],
                allocs[k + 2],
                values[k],
                results[k],
            ),
    ensures
        forall|k: int| 0 <= k < values.len() ==> #[trigger] results[k] is Ok,
        forall|k: int| 1 <= k < allocs.len() ==> #[trigger] allocs[k] == allocs[1],
        forall|k: int|
            1 <= k < arrays.len() ==> #[trigger] arrays[k].spec_capacity()
                == arrays[1].spec_capacity(),
        arrays[values.len() + 1int]@ == arrays[0]@ + values,
{
    let tail = arrays.subrange(1, arrays.len() as int);
    let atail = allocs.subrange(1, allocs.len() as int);
    assert forall|k: int| 0 <= k < values.len() implies pushed(
        #[trigger] tail[k],
        tail[k + 1],
        atail[k],
        atail[k + 1],
        values[k],
        results[k],
    ) by {
        assert(tail[k] == arrays[k + 1]);
        assert(tail[k + 1] == arrays[k + 2]);
    }
    lemma_reserved_pushes_prefix(tail, atail, values, results, values.len() as int);
    assert forall|k: int| 1 <= k < allocs.len() implies #[trigger] allocs[k] == allocs[1] by {
        assert(atail[k - 1] == allocs[k]);
    }
    assert forall|k: int| 1 <= k < arrays.len() implies #[trigger] arrays[k].spec_capacity()
        == arrays[1].spec_capacity() by {
        assert(tail[k - 1] == arrays[k]);
    }
    assert(values.subrange(0, values.len() as int) =~= values);
}

/// Pops return what pushes put in, last first: in a run of `n` successful
/// pushes of `values` followed by `n` pops, the pops return `values` from the
/// last to the first and the array ends with the elements it started with
/// (none, when it started empty).
pub proof fn lemma_pushes_then_pops<T, A: Allocator>(
    arrays: Seq<RawArray<T>>,
    allocs: Seq<A>,
    values: Seq<T>,
    pushes: Seq<Result<(), AllocError>>,
    pops: Seq<Option<T>>,
)
    requires
        arrays.len() == 2 * values.len() + 1,
        allocs.len() == values.len() + 1,
        pushes.len() == values.len(),
        pops.len() == values.len(),
        forall|k: int|
            0 <= k < values.len() ==> pushed(
                #[trigger] arrays[k],
                arrays[k + 1],
                allocs[k],
                allocs[k + 1],
                values[k],
                pushes[k],
            ) && pushes[k] is Ok,
        forall|k: int|
            0 <= k < values.len() ==> popped_last(
                #[trigger] arrays[values.len() + k],
                arrays[values.len() + k + 1],
                pops[k],
            ),
    ensures
        forall|k: int|
            0 <= k < values.len() ==> #[trigger] pops[k] == Some(values[values.len() - 1 - k]),
        arrays[2 * values.len() as int]@ == arrays[0]@,
{
    let n = values.len() as int;
    lemma_pushes_prefix(arrays, allocs, values, pushes, n);
    assert(values.subrange(0, n) =~= values);
    lemma_pops_prefix(arrays, values, pops, n);
    assert forall|k: int| 0 <= k < n implies #[trigger] pops[k] == Some(values[n - 1 - k]) by {
        lemma_pops_prefix(arrays, values, pops, k + 1);
    }
    assert(arrays[0]@ + values.subrange(0, 0) =~= arrays[0]@);
}

proof fn lemma_pushes_prefix<T, A: Allocator>(
    arrays: Seq<RawArray<T>>,
    allocs: Seq<A>,
    values: Seq<T>,
    pushes: Seq<Result<(), AllocError>>,
    m: int,
)
    requires
        arrays.len() == 2 * values.len() + 1,
        allocs.len() == values.len() + 1,
        pushes.len() == values.len(),
        forall|k: int|
            0 <= k < values.len() ==> pushed(
                #[trigger] arrays[k],
                arrays[k + 1],
                allocs[k],
                allocs[k + 1],
                values[k],
                pushes[k],
            ) && pushes[k] is Ok,
        0 <= m <= values.len(),
    ensures
        arrays[m]@ == arrays[0]@ + values.subrange(0, m),
    decreases m,
{
    if m == 0 {
        assert(arrays[0]@ + values.subrange(0, 0) =~= arrays[0]@);
    } else {
        lemma_pushes_prefix(arrays, allocs, values, pushes, m - 1);
        assert(pushed(arrays[m - 1], arrays[m], allocs[m - 1], allocs[m], values[m - 1], pushes[m - 1]));
        assert(arrays[0]@ + values.subrange(0, m) =~= (arrays[0]@ + values.subrange(0, m - 1)).push(
            values[m - 1],
        ));
    }
}

proof fn lemma_pops_prefix<T>(arrays: Seq<RawArray<T>>, values: Seq<T>, pops: Seq<Option<T>>, m: int)
    requires
        arrays.len() == 2 * values.len() + 1,
        pops.len() == values.len(),
        arrays[values.len() as int]@ == arrays[0]@ + values,
        forall|k: int|
            0 <= k < values.len() ==> popped_last(
                #[trigger] arrays[values.len() + k],
                arrays[values.len() + k + 1],
                pops[k],
            ),
        0 <= m <= values.len(),
    ensures
        arrays[values.len() + m]@ == arrays[0]@ + values.subrange(0, values.len() - m),
        m > 0 ==> pops[m - 1] == Some(values[values.len() - m]),
    decreases m,
{
    let n = values.len() as int;
    if m == 0 {
        assert(values.subrange(0, n) =~= values);
    } else {
        lemma_pops_prefix(arrays, values, pops, m - 1);
        assert(popped_last(arrays[n + (m - 1)], arrays[n + (m - 1) + 1], pops[m - 1]));
        let before = arrays[0]@ + values.subrange(0, n - (m - 1));
        assert(before.len() > 0);
        assert(before.last() == values[n - m]);
        assert(before.drop_last() =~= arrays[0]@ + values.subrange(0, n - m));
    }
}

proof fn lemma_reserved_pushes_prefix<T, A: Allocator>(
    arrays: Seq<RawArray<T>>,
    allocs: Seq<A>,
    values: Seq<T>,
    results: Seq<Result<(), AllocError>>,
    m: int,
)
    requires
        arrays.len() == values.len() + 1,
        allocs.len() == values.len() + 1,
        results.len() == values.len(),
        arrays[0].has_room(values.len() as int),
        forall|k: int|
            0 <= k < values.len() ==> pushed(
                #[trigger] arrays[k],
                arrays[k + 1],
                allocs[k],
                allocs[k + 1],
                values[k],
                results[k],
            ),
        0 <= m <= values.len(),
    ensures
        forall|k: int| 0 <= k < m ==> #[trigger] results[k] is Ok,
        forall|k: int| 0 <= k <= m ==> #[trigger] allocs[k] == allocs[0],
        forall|k: int| 0 <= k <= m ==> #[trigger] arrays[k].spec_capacity() == arrays[0].spec_capacity(),
        arrays[m]@ == arrays[0]@ + values.subrange(0, m),
    decreases m,
{
    if m == 0 {
        assert(arrays[0]@ + values.subrange(0, 0) =~= arrays[0]@);
    } else {
        lemma_reserved_pushes_prefix(arrays, allocs, values, results, m - 1);
        assert(pushed(arrays[m - 1], arrays[m], allocs[m - 1], allocs[m], values[m - 1], results[m - 1]));
        assert(arrays[m - 1]@.len() == arrays[0]@.len() + m - 1);
        assert(arrays[m - 1].has_room(1));
        assert(arrays[0]@ + values.subrange(0, m) =~= (arrays[0]@ + values.subrange(0, m - 1)).push(
            values[m - 1],
        ));
    }
}

/// A block of `n` bytes can be described by a layout exactly when `n` is at
/// most `isize::MAX`.
pub proof fn lemma_byte_array_layout(n: int)
    requires
        0 <= n,
    ensures
        array_layout_ok::<u8>(n) <==> n <= crate::layout::MAX_SIZE,
{
    broadcast use vstd::layout::align_of_u8;
    broadcast use vstd::layout::layout_of_primitives;

    assert(vstd::arithmetic::power2::is_pow2(1)) by {
        reveal(vstd::arithmetic::power2::is_pow2);
    }
}

/// The layout of a block for `n` elements of `T`, or `AllocError` when it
/// cannot be described.
pub fn array_layout<T>(n: usize) -> (r: Result<Layout, AllocError>)
    ensures
        match r {
            Ok(l) => array_layout_ok::<T>(n as int) && l.wf() && l.spec_size() == size_of::<T>()
                * n && l.spec_align() == align_of::<T>() && l == array_layout_spec::<T>(n as int),
            Err(_) => !array_layout_ok::<T>(n as int),
        },
{
    vstd::layout::layout_for_type_is_valid::<T>();
    let size = core::mem::size_of::<T>();
    let bytes = match size.checked_mul(n) {
        Some(b) => b,
        None => {
            proof {
                assert(size * n > usize::MAX);
                crate::layout::lemma_align_up(size * n, align_of::<T>() as int);
            }
            return Err(AllocError);
        },
    };
    match Layout::from_size_align(bytes, core::mem::align_of::<T>()) {
        Ok(l) => Ok(l),
        Err(_) => Err(AllocError),
    }
}

/// A growable sequence of `T` that stores no allocator: each call that may
/// allocate is given one, and it must be the same allocator every time. The
/// allocator supplies the block that accounts for the array's capacity and
/// decides whether growth succeeds; the elements themselves are held in a
/// `Vec` beside it, so the block's bytes are never written.
pub struct RawArray<T> {
    /// The block holding the elements; irrelevant while `capacity` is 0.
    data: Block,
    capacity: usize,
    items: Vec<T>,
}

impl<T> View for RawArray<T> {
    type V = Seq<T>;

    closed spec fn view(&self) -> Seq<T> {
        self.items@
    }
}

impl<T> RawArray<T> {
    pub closed spec fn spec_capacity(&self) -> nat {
        self.capacity as nat
    }

    /// The block the elements live in.
    pub closed spec fn spec_block(&self) -> Block {
        self.data
    }

    /// The length never exceeds the capacity (so no capacity means no
    /// elements), a block for the capacity can be described, and while there
    /// is capacity the block has room for it and is aligned for `T`.
    pub open spec fn wf(&self) -> bool {
        &&& self@.len() <= self.spec_capacity()
        &&& array_layout_ok::<T>(self.spec_capacity() as int)
        &&& self.spec_capacity() > 0 ==> holds_elements::<T>(
            self.spec_block(),
            self.spec_capacity() as int,
        )
    }

    /// Whether `additional` more elements fit without allocating.
    pub open spec fn has_room(&self, additional: int) -> bool {
        self@.len() + additional <= self.spec_capacity()
    }

    /// Builds an array from its parts: `block` holds room for `capacity`
    /// elements, and `items` are its first elements.
    pub fn from_raw_parts(data: Block, capacity: usize, items: Vec<T>) -> (r: RawArray<T>)
        requires
            items@.len() <= capacity,
            array_layout_ok::<T>(capacity as int),
            capacity > 0 ==> holds_elements::<T>(data, capacity as int),
        ensures
            r.wf(),
            r@ == items@,
            r.spec_capacity() == capacity,
            r.spec_block() == data,
    {
        RawArray { data, capacity, items }
    }

    /// An empty array with no capacity; nothing is allocated.
    pub fn new() -> (r: RawArray<T>)
        ensures
            r.wf(),
            r@ == Seq::<T>::empty(),
            r.spec_capacity() == 0,
    {
        vstd::layout::layout_for_type_is_valid::<T>();
        proof {
            assert(size_of::<T>() * 0 == 0);
            crate::layout::lemma_zero_size_valid(align_of::<T>() as int);
        }
        RawArray { data: Block { addr: core::mem::align_of::<T>(), len: 0 }, capacity: 0, items: Vec::new() }
    }

    /// An empty array with room for `capacity` elements, accounted for by
    /// one block requested from `alloc` with a single `allocate`.
    pub fn with_capacity<A: Allocator>(capacity: usize, alloc: &mut A) -> (r: Result<
        RawArray<T>,
        AllocError,
    >)
        requires
            old(alloc).inv(),
        ensures
            final(alloc).inv(),
            !array_layout_ok::<T>(capacity as int) ==> r is Err && *final(alloc) == *old(alloc),
            r matches Ok(a) ==> a.wf() && a@ == Seq::<T>::empty() && a.spec_capacity()
                == capacity && holds_elements::<T>(a.spec_block(), capacity as int),
            array_layout_ok::<T>(capacity as int) ==> (*old(alloc)).allocates(
                *final(alloc),
                array_layout_spec::<T>(capacity as int),
                match r {
                    Ok(a) => Ok(a.spec_block()),
                    Err(e) => Err(e),
                },
            ),
    {
        let layout = match array_layout::<T>(capacity) {
            Ok(l) => l,
            Err(e) => return Err(e),
        };
        match alloc.allocate(layout) {
            Ok(b) => Ok(RawArray { data: b, capacity, items: Vec::new() }),
            Err(e) => Err(e),
        }
    }

    /// Number of elements.
    pub fn len(&self) -> (r: usize)
        ensures
            r == self@.len(),
    {
        self.items.len()
    }

    /// Number of elements the array holds without allocating.
    pub fn capacity(&self) -> (r: usize)
        ensures
            r == self.spec_capacity(),
    {
        self.capacity
    }

    /// The elements, in order.
    pub fn as_slice(&self) -> (r: &[T])
        ensures
            r@ == self@,
    {
        self.items.as_slice()
    }

    /// The elements, in order, for changing in place.
    pub fn as_mut_slice(&mut self) -> (r: &mut [T])
        requires
            old(self).wf(),
        ensures
            r@ == old(self)@,
            final(self)@ == final(r)@,
            final(self).spec_capacity() == old(self).spec_capacity(),
            final(self).spec_block() == old(self).spec_block(),
    {
        self.items.as_mut_slice()
    }

    /// Makes room for `additional` more elements. When they do not fit, the
    /// capacity grows to `target_capacity` (a first block from `allocate`,
    /// later ones from `grow`). Fails when that capacity cannot be described
    /// or the allocator refuses; a failure changes nothing.
    pub fn reserve<A: Allocator>(&mut self, additional: usize, alloc: &mut A) -> (r: Result<
        (),
        AllocError,
    >)
        requires
            old(self).wf(),
            old(alloc).inv(),
        ensures
            final(self).wf(),
            final(alloc).inv(),
            reserved(*old(self), *final(self), *old(alloc), *final(alloc), additional as int, r),
    {
        let len = self.items.len();
        if additional <= self.capacity - len {
            return Ok(());
        }
        let needed = match len.checked_add(additional) {
            Some(n) => n,
            None => return Err(AllocError),
        };
        let target = if self.capacity == 0 {
            needed
        } else if self.capacity > usize::MAX / 2 {
            return Err(AllocError);
        } else if needed <= 2 * self.capacity {
            2 * self.capacity
        } else {
            needed
        };
        let new_layout = match array_layout::<T>(target) {
            Ok(l) => l,
            Err(e) => return Err(e),
        };
        let result = if self.capacity == 0 {
            alloc.allocate(new_layout)
        } else {
            let old_layout = match array_layout::<T>(self.capacity) {
                Ok(l) => l,
                Err(e) => return Err(e),
            };
            vstd::layout::layout_for_type_is_valid::<T>();
            proof {
                assert(size_of::<T>() * self.capacity <= size_of::<T>() * target) by (nonlinear_arith)
                    requires
                        self.capacity <= target,
                ;
            }
            alloc.grow(self.data, old_layout, new_layout)
        };
        match result {
            Ok(b) => {
                self.data = b;
                self.capacity = target;
                Ok(())
            },
            Err(e) => Err(e),
        }
    }

    /// Appends `value`. A full array first grows: to the baseline capacity
    /// when it has none, else to double. On failure nothing changes and
    /// `value` is dropped.
    pub fn push<A: Allocator>(&mut self, value: T, alloc: &mut A) -> (r: Result<(), AllocError>)
        requires
            old(self).wf(),
            old(alloc).inv(),
        ensures
            final(self).wf(),
            final(alloc).inv(),
            pushed(*old(self), *final(self), *old(alloc), *final(alloc), value, r),
    {
        if self.items.len() == self.capacity {
            let reserved = if self.capacity == 0 {
                self.reserve(BASELINE_CAPACITY, alloc)
            } else {
                self.reserve(1, alloc)
            };
            if let Err(e) = reserved {
                return Err(e);
            }
        }
        self.items.push(value);
        Ok(())
    }

    /// Appends `value` only if there is room; never allocates. Without room
    /// the value is handed back.
    pub fn push_within_capacity(&mut self, value: T) -> (r: Result<(), T>)
        requires
            old(self).wf(),
        ensures
            final(self).wf(),
            final(self).spec_capacity() == old(self).spec_capacity(),
            final(self).spec_block() == old(self).spec_block(),
            old(self).has_room(1) ==> r is Ok && final(self)@ == old(self)@.push(value),
            !old(self).has_room(1) ==> r == Err::<(), T>(value) && final(self)@ == old(self)@,
    {
        if self.items.len() >= self.capacity {
            return Err(value);
        }
        self.items.push(value);
        Ok(())
    }

    /// Removes and returns the last element, or `None` when empty.
    pub fn pop(&mut self) -> (r: Option<T>)
        requires
            old(self).wf(),
        ensures
            final(self).wf(),
            popped_last(*old(self), *final(self), r),
    {
        self.items.pop()
    }

    /// Drops every element; the capacity is kept.
    pub fn clear(&mut self)
        requires
            old(self).wf(),
        ensures
            final(self).wf(),
            final(self)@ == Seq::<T>::empty(),
            final(self).spec_capacity() == old(self).spec_capacity(),
            final(self).spec_block() == old(self).spec_block(),
    {
        self.items.clear();
    }

    /// Moves every element of `other` to the end of `self`, leaving `other`
    /// empty with its block and capacity as they were. On failure neither
    /// array changes.
    pub fn append<A: Allocator>(&mut self, other: &mut RawArray<T>, alloc: &mut A) -> (r: Result<
        (),
        AllocError,
    >)
        requires
            old(self).wf(),
            old(other).wf(),
            old(alloc).inv(),
        ensures
            final(self).wf(),
            final(other).wf(),
            final(alloc).inv(),
            appended(*old(self), *final(self), *old(other), *final(other), *old(alloc), *final(alloc), r),
    {
        let n = other.items.len();
        if let Err(e) = self.reserve(n, alloc) {
            return Err(e);
        }
        self.items.append(&mut other.items);
        Ok(())
    }

    /// Inserts `value` at `index`, shifting the later elements right. Room is
    /// made as for [`RawArray::push`]. On failure nothing changes.
    pub fn insert_unchecked<A: Allocator>(&mut self, index: usize, value: T, alloc: &mut A) -> (r:
        Result<(), AllocError>)
        requires
            old(self).wf(),
            old(alloc).inv(),
            index <= old(self)@.len(),
        ensures
            final(self).wf(),
            final(alloc).inv(),
            inserted(*old(self), *final(self), *old(alloc), *final(alloc), index as int, value, r),
    {
        if index == self.items.len() {
            let r = self.push(value, alloc);
            proof {
                assert(old(self)@.push(value) =~= old(self)@.insert(index as int, value));
            }
            return r;
        }
        if let Err(e) = self.reserve(1, alloc) {
            return Err(e);
        }
        self.items.insert(index, value);
        Ok(())
    }

    /// Inserts `value` at `index` when `index <= len()`, answering
    /// `Ok(Some(()))`; answers `Ok(None)` and changes nothing when `index` is
    /// past the end.
    pub fn insert<A: Allocator>(&mut self, index: usize, value: T, alloc: &mut A) -> (r: Result<
        Option<()>,
        AllocError,
    >)
        requires
            old(self).wf(),
            old(alloc).inv(),
        ensures
            final(self).wf(),
            final(alloc).inv(),
            index > old(self)@.len() ==> r == Ok::<Option<()>, AllocError>(None) && *final(self)
                == *old(self) && *final(alloc) == *old(alloc),
            index <= old(self)@.len() ==> r != Ok::<Option<()>, AllocError>(None) && inserted(
                *old(self),
                *final(self),
                *old(alloc),
                *final(alloc),
                index as int,
                value,
                match r {
                    Ok(_) => Ok(()),
                    Err(e) => Err(e),
                },
            ),
    {
        if index > self.items.len() {
            return Ok(None);
        }
        match self.insert_unchecked(index, value, alloc) {
            Ok(()) => Ok(Some(())),
            Err(e) => Err(e),
        }
    }

    /// Removes and returns the element at `index`, shifting the later
    /// elements left.
    pub fn remove_unchecked(&mut self, index: usize) -> (r: T)
        requires
            old(self).wf(),
            index < old(self)@.len(),
        ensures
            final(self).wf(),
            final(self).spec_capacity() == old(self).spec_capacity(),
            final(self).spec_block() == old(self).spec_block(),
            r == old(self)@[index as int],
            final(self)@ == old(self)@.remove(index as int),
    {
        self.items.remove(index)
    }

    /// Removes and returns the element at `index`, shifting the later
    /// elements left; `None` when `index` is out of bounds.
    pub fn remove(&mut self, index: usize) -> (r: Option<T>)
        requires
            old(self).wf(),
        ensures
            final(self).wf(),
            final(self).spec_capacity() == old(self).spec_capacity(),
            final(self).spec_block() == old(self).spec_block(),
            index >= old(self)@.len() ==> r is None && final(self)@ == old(self)@,
            index < old(self)@.len() ==> r == Some(old(self)@[index as int]) && final(self)@ == old(self)@.remove(index as int),
    {
        if index >= self.items.len() {
            return None;
        }
        Some(self.remove_unchecked(index))
    }

    /// Removes and returns the element at `index`, moving the last element
    /// into its place.
    pub fn swap_remove_unchecked(&mut self, index: usize) -> (r: T)
        requires
            old(self).wf(),
            index < old(self)@.len(),
        ensures
            final(self).wf(),
            final(self).spec_capacity() == old(self).spec_capacity(),
            final(self).spec_block() == old(self).spec_block(),
            r == old(self)@[index as int],
            final(self)@ == swap_removed(old(self)@, index as int),
    {
        self.items.swap_remove(index)
    }

    /// Removes and returns the element at `index`, moving the last element
    /// into its place; `None` when `index` is out of bounds.
    pub fn swap_remove(&mut self, index: usize) -> (r: Option<T>)
        requires
            old(self).wf(),
        ensures
            final(self).wf(),
            final(self).spec_capacity() == old(self).spec_capacity(),
            final(self).spec_block() == old(self).spec_block(),
            index >= old(self)@.len() ==> r is None && final(self)@ == old(self)@,
            index < old(self)@.len() ==> r == Some(old(self)@[index as int]) && final(self)@
                == swap_removed(old(self)@, index as int),
    {
        if index >= self.items.len() {
            return None;
        }
        Some(self.swap_remove_unchecked(index))
    }

    /// Drops the elements from position `len` on, if there are any; the
    /// capacity is kept.
    pub fn truncate(&mut self, len: usize)
        requires
            old(self).wf(),
        ensures
            final(self).wf(),
            final(self).spec_capacity() == old(self).spec_capacity(),
            final(self).spec_block() == old(self).spec_block(),
            final(self)@ == truncated(old(self)@, len as int),
    {
        self.items.truncate(len);
    }
}

} // verus!
