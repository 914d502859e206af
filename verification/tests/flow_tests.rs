use rusty_towers::flow::{FlowField, Queue};
use rusty_towers::map::{CellCoordinate, GridMap};

#[test]
fn queue_is_first_in_first_out() {
    let mut q: Queue<i32> = Queue::new();
    assert!(q.is_empty());
    q.enqueue(1);
    q.enqueue(2);
    q.enqueue(3);
    assert_eq!(q.length(), 3);
    assert_eq!(q.peek().copied(), Some(1));
    assert_eq!(q.dequeue(), 1);
    assert_eq!(q.dequeue(), 2);
    assert_eq!(q.dequeue(), 3);
    assert!(q.is_empty());
    assert!(q.peek().is_none());
}

#[test]
fn flow_field_covers_every_open_cell_of_an_open_map() {
    // 5 x 5 cells: coordinates -2..=2 on both axes, no walls.
    let map = GridMap::new(4, 4);
    let base = CellCoordinate { x: 0, y: 0 };
    let flow = FlowField::build(&map, base);
    assert_eq!(flow.entry_count(), 25);
    for x in -2..=2 {
        for y in -2..=2 {
            assert!(flow.has_entry(CellCoordinate { x, y }));
        }
    }
    assert!(!flow.has_entry(CellCoordinate { x: 3, y: 0 }));
    // the base maps to itself
    assert_eq!(flow.lookup(base), Some(base));
}

#[test]
fn flow_chain_reaches_the_base_within_entry_count_steps() {
    let map = GridMap::new(4, 4);
    let base = CellCoordinate { x: 0, y: 0 };
    let flow = FlowField::build(&map, base);
    let mut cell = CellCoordinate { x: 2, y: -2 };
    let mut steps = 0;
    while cell != base {
        cell = flow.lookup(cell).expect("every open cell is routed");
        steps += 1;
        assert!(steps <= flow.entry_count());
    }
    // the corner is four hops from the center
    assert_eq!(steps, 4);
}

#[test]
fn walled_off_cells_get_no_entry() {
    // one row of cells, x in -2..=2; a wall at (1, 0) cuts off (2, 0).
    let mut map = GridMap::new(4, 0);
    map.set_wall(CellCoordinate { x: 1, y: 0 }, true);
    let base = CellCoordinate { x: 0, y: 0 };
    let flow = FlowField::build(&map, base);
    assert!(flow.has_entry(CellCoordinate { x: 0, y: 0 }));
    assert!(flow.has_entry(CellCoordinate { x: -1, y: 0 }));
    assert!(flow.has_entry(CellCoordinate { x: -2, y: 0 }));
    assert!(!flow.has_entry(CellCoordinate { x: 1, y: 0 }));
    assert!(!flow.has_entry(CellCoordinate { x: 2, y: 0 }));
    assert_eq!(flow.entry_count(), 3);
}

#[test]
fn flow_entries_point_one_hop_closer_to_the_base() {
    let map = GridMap::new(4, 4);
    let base = CellCoordinate { x: 0, y: 0 };
    let flow = FlowField::build(&map, base);
    // the first neighbor direction is +x, so the column to the right of
    // the base routes straight back left
    assert_eq!(
        flow.lookup(CellCoordinate { x: 1, y: 0 }),
        Some(CellCoordinate { x: 0, y: 0 })
    );
    assert_eq!(
        flow.lookup(CellCoordinate { x: 2, y: 0 }),
        Some(CellCoordinate { x: 1, y: 0 })
    );
}

#[test]
fn flow_builds_are_reproducible() {
    // two identical maps (same walls, same dimensions) route identically
    let mut a = GridMap::new(6, 6);
    let mut b = GridMap::new(6, 6);
    for (x, y) in [(1, 0), (1, 1), (-2, 2), (0, -1)] {
        a.set_wall(CellCoordinate { x, y }, true);
        b.set_wall(CellCoordinate { x, y }, true);
    }
    let base = CellCoordinate { x: 0, y: 0 };
    let fa = FlowField::build(&a, base);
    let fb = FlowField::build(&b, base);
    assert_eq!(fa.entry_count(), fb.entry_count());
    for x in -3..=3 {
        for y in -3..=3 {
            let c = CellCoordinate { x, y };
            assert_eq!(fa.lookup(c), fb.lookup(c));
        }
    }
}

