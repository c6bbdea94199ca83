use absurd::Arena;
use absurd::Slot;

fn write_u32(arena: &mut Arena<1024, 30>, s: &Slot, v: u32) {
    let bytes = v.to_le_bytes();
    for (i, b) in bytes.iter().enumerate() {
        arena.write(s, i, *b);
    }
}

fn read_u32(arena: &Arena<1024, 30>, s: &Slot) -> u32 {
    let mut bytes = [0u8; 4];
    for (i, b) in bytes.iter_mut().enumerate() {
        *b = arena.read(s, i);
    }
    u32::from_le_bytes(bytes)
}

#[test]
fn test_arena() {
    let mut arena: Arena<1024, 30> = Arena::new();
    let x = arena.alloc_value(&42u32.to_le_bytes(), 4);
    let y = arena.alloc_value(&43u32.to_le_bytes(), 4);
    assert_eq!(read_u32(&arena, &x), 42);
    assert_eq!(read_u32(&arena, &y), 43);
}

#[test]
fn test_arena_uninitialized() {
    let mut arena: Arena<1024, 30> = Arena::new();
    let x = arena.alloc_uninitialized(4, 4);
    let y = arena.alloc_uninitialized(4, 4);
    write_u32(&mut arena, &x, 42);
    write_u32(&mut arena, &y, 43);
    assert_eq!(read_u32(&arena, &x), 42);
    assert_eq!(read_u32(&arena, &y), 43);
}

#[test]
fn test_arena_calloc() {
    let mut arena: Arena<1024, 30> = Arena::new();
    let x = arena.calloc(vec![42, 43], 1);
    assert_eq!(x.size, 2);
    assert_eq!(arena.read(&x, 0), 42);
    assert_eq!(arena.read(&x, 1), 43);
}

#[test]
fn test_arena_collect() {
    let mut arena: Arena<1024, 30> = Arena::new();
    let x = arena.collect(&[42, 43], 2, 1);
    assert_eq!(x.size, 2);
    assert_eq!(arena.read(&x, 0), 42);
    assert_eq!(arena.read(&x, 1), 43);
}

#[test]
fn test_arena_calloc_uninitialized() {
    let mut arena: Arena<1024, 30> = Arena::new();
    let x = arena.calloc_uninitialized(2, 1, 1);
    arena.write(&x, 0, 1);
    arena.write(&x, 1, 0);
    assert_eq!(arena.read(&x, 0), 1);
    assert_eq!(arena.read(&x, 1), 0);
}

// One list node, encoded by hand: four bytes of value, one presence flag,
// then the chunk and offset of the next node's slot.
const NODE_SIZE: usize = 13;

fn alloc_node(arena: &mut Arena<2, 30>, value: u32, next: Option<&Slot>) -> Slot {
    let mut bytes = Vec::new();
    bytes.extend_from_slice(&value.to_le_bytes());
    match next {
        Some(s) => {
            bytes.push(1);
            bytes.extend_from_slice(&(s.chunk as u32).to_le_bytes());
            bytes.extend_from_slice(&(s.offset as u32).to_le_bytes());
        }
        None => {
            bytes.push(0);
            bytes.extend_from_slice(&[0; 8]);
        }
    }
    assert_eq!(bytes.len(), NODE_SIZE);
    arena.alloc_value(&bytes, 4)
}

fn node_fields(arena: &Arena<2, 30>, s: &Slot) -> (u32, Option<Slot>) {
    let mut bytes = [0u8; NODE_SIZE];
    for (i, b) in bytes.iter_mut().enumerate() {
        *b = arena.read(s, i);
    }
    let value = u32::from_le_bytes(bytes[0..4].try_into().unwrap());
    let next = if bytes[4] == 1 {
        let chunk = u32::from_le_bytes(bytes[5..9].try_into().unwrap()) as usize;
        let offset = u32::from_le_bytes(bytes[9..13].try_into().unwrap()) as usize;
        Some(Slot { chunk, offset, size: NODE_SIZE })
    } else {
        None
    };
    (value, next)
}

#[test]
fn test_arena_linked_list() {
    // A two-byte initial chunk forces several growths while the list is
    // built; earlier nodes must stay readable through it all.
    let mut arena: Arena<2, 30> = Arena::new();
    let mut node = alloc_node(&mut arena, 0, None);
    for i in 1..10 {
        node = alloc_node(&mut arena, i, Some(&node));
    }
    let mut current = node;
    for i in (1..10).rev() {
        let (value, next) = node_fields(&arena, &current);
        assert_eq!(value, i);
        current = next.unwrap();
    }
    let (value, next) = node_fields(&arena, &current);
    assert_eq!(value, 0);
    assert!(next.is_none());
}

#[test]
fn arena_alignment() {
    let mut arena: Arena<1024, 30> = Arena::new();
    arena.alloc_uninitialized(1, 1);
    let a = arena.alloc_uninitialized(2, 8);
    assert_eq!(a.offset % 8, 0);
    arena.alloc_uninitialized(3, 1);
    let b = arena.alloc_uninitialized(4, 16);
    assert_eq!(b.offset % 16, 0);
}

#[test]
fn arena_growth_doubling() {
    // Chunks double: 2, 4, 8, ... bytes; a fresh arena has none.
    let mut arena: Arena<2, 30> = Arena::new();
    let a = arena.alloc_uninitialized(2, 1);
    assert_eq!(a.chunk, 0);
    let b = arena.alloc_uninitialized(4, 1);
    assert_eq!(b.chunk, 1);
    let c = arena.alloc_uninitialized(6, 1);
    assert_eq!(c.chunk, 2);
    let d = arena.alloc_uninitialized(2, 1);
    assert_eq!(d.chunk, 2);
    assert_eq!(d.offset, 6);
}

#[test]
fn arena_exhaustion() {
    // Two chunks of 2 and 4 bytes: a seventh byte cannot be served, and
    // nothing already handed out is disturbed by the refusal.
    let mut arena: Arena<2, 2> = Arena::new();
    let a = arena.alloc_value(&[7, 8], 1);
    let b = arena.try_alloc_layout(4, 1).unwrap();
    assert!(arena.try_alloc_layout(1, 1).is_none());
    assert!(arena.try_alloc_layout(8, 1).is_none());
    assert_eq!(b.chunk, 1);
    assert_eq!(arena.read(&a, 0), 7);
    assert_eq!(arena.read(&a, 1), 8);
}

#[test]
fn arena_collect_short_producer() {
    // A producer that promised five elements but delivered two yields a
    // two-element slot.
    let mut arena: Arena<1024, 30> = Arena::new();
    let x = arena.collect(&[42, 43], 5, 1);
    assert_eq!(x.size, 2);
    assert_eq!(arena.read(&x, 0), 42);
    assert_eq!(arena.read(&x, 1), 43);
}

#[test]
fn arena_stability_across_growth() {
    // Every slot handed out before a growth keeps its bytes afterwards.
    let mut arena: Arena<2, 30> = Arena::new();
    let mut slots = Vec::new();
    for i in 0..20u8 {
        slots.push(arena.alloc_value(&[i, i.wrapping_add(1)], 1));
    }
    for (i, s) in slots.iter().enumerate() {
        assert_eq!(arena.read(s, 0), i as u8);
        assert_eq!(arena.read(s, 1), (i as u8).wrapping_add(1));
    }
    // No two slots overlap.
    for (i, a) in slots.iter().enumerate() {
        for b in slots.iter().skip(i + 1) {
            assert!(
                a.chunk != b.chunk
                    || a.offset + a.size <= b.offset
                    || b.offset + b.size <= a.offset
            );
        }
    }
}
