//! A monotonic bump allocator over a fixed capacity.
//!
//! The arena hands out aligned, never-overlapping sub-regions of a contiguous
//! block, identified by their byte offset from the block's start (offset 0 is
//! aligned to every power of two). `used` only ever grows; nothing is freed
//! individually. Exhaustion is reported as `None` rather than aborting, so a
//! caller can stop carving the world instead of crashing.

use vstd::prelude::*;

verus! {

use vstd::arithmetic::div_mod::{lemma_fundamental_div_mod, lemma_mod_multiples_basic};

/// Bookkeeping of a monotonic bump allocator: a capacity fixed at
/// initialization and a high-water mark of bytes handed out so far.
pub struct MemoryArena {
    /// Total capacity in bytes.
    pub size: usize,
    /// High-water mark: every byte below this offset has been handed out.
    pub used: usize,
}

impl MemoryArena {
    /// The arena never hands out more than it owns.
    pub open spec fn wf(self) -> bool {
        self.used <= self.size
    }
}

/// `base` rounded up to the next multiple of `align` (`align > 0`).
pub open spec fn align_up(base: int, align: int) -> int {
    if base % align == 0 {
        base
    } else {
        base + (align - base % align)
    }
}

/// An allocation of `size` bytes at alignment `align` succeeds exactly when
/// the padded request still fits under the capacity.
pub open spec fn push_fits(arena: MemoryArena, size: int, align: int) -> bool {
    align_up(arena.used as int, align) + size <= arena.size
}

/// A positive power of two, the only alignments the arena serves.
pub open spec fn is_power_of_two(n: int) -> bool
    decreases n,
{
    if n <= 0 {
        false
    } else if n == 1 {
        true
    } else {
        n % 2 == 0 && is_power_of_two(n / 2)
    }
}

proof fn lemma_align_up_properties(base: int, align: int)
    requires
        0 <= base,
        1 <= align,
    ensures
        base <= align_up(base, align) < base + align,
        align_up(base, align) % align == 0,
{
    lemma_fundamental_div_mod(base, align);
    let q = base / align;
    let r = base % align;
    if r != 0 {
        assert(base + (align - r) == (q + 1) * align) by (nonlinear_arith)
            requires
                base == align * q + r,
        ;
        lemma_mod_multiples_basic(q + 1, align);
    }
}

/// Prepares an arena of `size` bytes with nothing handed out yet.
pub fn initialize_arena(arena: &mut MemoryArena, size: usize)
    ensures
        final(arena).size == size,
        final(arena).used == 0,
        final(arena).wf(),
{
    arena.size = size;
    arena.used = 0;
}

/// Reserves `size_init` bytes aligned to `alignment` (default 4) and returns
/// the offset of the reserved region, or `None` when the padded request would
/// exceed the capacity. `used` advances past any padding and the region; it
/// never shrinks.
pub fn push_size(arena: &mut MemoryArena, size_init: usize, alignment: Option<usize>) -> (r: Option<
    usize,
>)
    requires
        old(arena).wf(),
        alignment is Some ==> is_power_of_two(alignment.unwrap() as int),
    ensures
        final(arena).wf(),
        final(arena).size == old(arena).size,
        ({
            let align = if alignment is Some {
                alignment.unwrap() as int
            } else {
                4int
            };
            &&& r is Some <==> push_fits(*old(arena), size_init as int, align)
            &&& r is Some ==> {
                let off = r.unwrap() as int;
                &&& off == align_up(old(arena).used as int, align)
                &&& off % align == 0
                &&& old(arena).used <= off
                &&& final(arena).used == off + size_init
                &&& final(arena).used >= old(arena).used + size_init
            }
            &&& r is None ==> final(arena).used == old(arena).used
        }),
{
    let align: usize = match alignment {
        Some(a) => a,
        None => 4,
    };
    proof {
        lemma_align_up_properties(arena.used as int, align as int);
    }
    let rem: usize = arena.used % align;
    let pad: usize = if rem > 0 {
        align - rem
    } else {
        0
    };
    if pad > arena.size - arena.used {
        return None;
    }
    let off: usize = arena.used + pad;
    if size_init > arena.size - off {
        return None;
    }
    arena.used = off + size_init;
    Some(off)
}

/// Reserves room for one value laid out with the given size and alignment:
/// `push_size` with that alignment.
pub fn push_struct(arena: &mut MemoryArena, size: usize, align: usize) -> (r: Option<usize>)
    requires
        old(arena).wf(),
        is_power_of_two(align as int),
    ensures
        final(arena).wf(),
        final(arena).size == old(arena).size,
        r is Some <==> push_fits(*old(arena), size as int, align as int),
        r is Some ==> {
            let off = r.unwrap() as int;
            &&& off == align_up(old(arena).used as int, align as int)
            &&& off % (align as int) == 0
            &&& final(arena).used == off + size
        },
        r is None ==> final(arena).used == old(arena).used,
{
    push_size(arena, size, Some(align))
}

/// Reserves room for `count` contiguous values of the given size, aligned for
/// the element type.
pub fn push_array(arena: &mut MemoryArena, elem_size: usize, align: usize, count: usize) -> (r:
    Option<usize>)
    requires
        old(arena).wf(),
        is_power_of_two(align as int),
        elem_size * count <= usize::MAX,
    ensures
        final(arena).wf(),
        final(arena).size == old(arena).size,
        r is Some <==> push_fits(*old(arena), elem_size * count, align as int),
        r is Some ==> {
            let off = r.unwrap() as int;
            &&& off == align_up(old(arena).used as int, align as int)
            &&& off % (align as int) == 0
            &&& final(arena).used == off + elem_size * count
        },
        r is None ==> final(arena).used == old(arena).used,
{
    push_size(arena, elem_size * count, Some(align))
}

/// Any two reservations made in sequence occupy disjoint byte ranges, and the
/// high-water mark never decreases: the first region ends at or before the
/// high-water mark the second call starts from, and the second region starts
/// at or after it.
///
/// The arguments are the facts `push_size` guarantees of two successive
/// successful calls: the first starts from mark `u0`, returns offset `off1`
/// of `s1` bytes and leaves mark `u1`; the second starts from `u1` and
/// returns offset `off2` of `s2` bytes, leaving mark `u2`.
pub proof fn lemma_push_regions_disjoint(
    u0: int,
    off1: int,
    s1: int,
    u1: int,
    off2: int,
    s2: int,
    u2: int,
)
    requires
        u0 <= off1,
        u1 == off1 + s1,
        u1 <= off2,
        u2 == off2 + s2,
        0 <= s1,
        0 <= s2,
    ensures
        u0 <= u1 <= u2,
        off1 + s1 <= off2,
{
}

} // verus!
