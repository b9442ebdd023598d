use tilemap::arena::{initialize_arena, push_array, push_size, push_struct, MemoryArena};
use tilemap::{gigabytes, kilobytes, megabytes, terabytes};

#[test]
fn byte_size_helpers() {
    assert_eq!(kilobytes(2), 2048);
    assert_eq!(megabytes(1), 1024 * 1024);
    assert_eq!(gigabytes(3), 3 * 1024 * 1024 * 1024);
    assert_eq!(terabytes(1), 1024usize * 1024 * 1024 * 1024);
}

#[test]
fn push_size_default_alignment() {
    let mut arena = MemoryArena { size: 0, used: 0 };
    initialize_arena(&mut arena, 100);
    assert_eq!(arena.size, 100);
    assert_eq!(arena.used, 0);

    let a = push_size(&mut arena, 10, None).unwrap();
    assert_eq!(a, 0);
    assert_eq!(arena.used, 10);

    // 10 is not 4-aligned: the next region starts at 12.
    let b = push_size(&mut arena, 5, None).unwrap();
    assert_eq!(b, 12);
    assert_eq!(b % 4, 0);
    assert_eq!(arena.used, 17);
}

#[test]
fn push_size_explicit_alignments() {
    let mut arena = MemoryArena { size: 0, used: 0 };
    initialize_arena(&mut arena, 1024);

    let a = push_size(&mut arena, 3, Some(1)).unwrap();
    assert_eq!(a, 0);
    let b = push_size(&mut arena, 4, Some(8)).unwrap();
    assert_eq!(b, 8);
    assert_eq!(b % 8, 0);
    let c = push_size(&mut arena, 1, Some(64)).unwrap();
    assert_eq!(c, 64);
    assert_eq!(c % 64, 0);
    assert_eq!(arena.used, 65);
}

#[test]
fn arena_monotonic_and_disjoint() {
    let mut arena = MemoryArena { size: 0, used: 0 };
    initialize_arena(&mut arena, 256);
    let mut used_before = arena.used;
    let mut regions: Vec<(usize, usize)> = Vec::new();
    let sizes = [5usize, 12, 1, 32, 7];
    for &size in sizes.iter() {
        let off = push_size(&mut arena, size, None).unwrap();
        // `used` never decreases and covers at least the requested bytes.
        assert!(arena.used >= used_before + size);
        used_before = arena.used;
        regions.push((off, off + size));
    }
    // No two returned byte ranges overlap.
    for i in 0..regions.len() {
        for j in (i + 1)..regions.len() {
            let (a0, a1) = regions[i];
            let (b0, b1) = regions[j];
            assert!(a1 <= b0 || b1 <= a0);
        }
    }
}

#[test]
fn push_size_exhaustion_is_reported() {
    let mut arena = MemoryArena { size: 0, used: 0 };
    initialize_arena(&mut arena, 16);
    assert!(push_size(&mut arena, 12, None).is_some());
    let used = arena.used;
    // The padded request no longer fits: nothing changes.
    assert!(push_size(&mut arena, 8, None).is_none());
    assert_eq!(arena.used, used);
    // A smaller request still fits.
    assert_eq!(push_size(&mut arena, 4, None), Some(12));
    assert_eq!(arena.used, 16);
}

#[test]
fn push_struct_and_array() {
    let mut arena = MemoryArena { size: 0, used: 0 };
    initialize_arena(&mut arena, 128);
    // Room for one 8-byte, 8-aligned value.
    let s = push_struct(&mut arena, 8, 8).unwrap();
    assert_eq!(s, 0);
    assert_eq!(arena.used, 8);
    // Room for ten 4-byte, 4-aligned values.
    let a = push_array(&mut arena, 4, 4, 10).unwrap();
    assert_eq!(a, 8);
    assert_eq!(arena.used, 48);
}
