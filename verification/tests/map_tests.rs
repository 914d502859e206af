use rusty_towers::geometry::{cell_from_position, div_floor, Point, SUBPIXELS};
use rusty_towers::map::{generate_walls, CellCoordinate, GridMap, CELL_SIZE};

fn pixel_window_map(width_px: i64, height_px: i64) -> GridMap {
    let width = (width_px * SUBPIXELS / CELL_SIZE) as u32;
    let height = (height_px * SUBPIXELS / CELL_SIZE) as u32;
    GridMap::new(width, height)
}

#[test]
fn check_neighbors_of_origin() {
    let map = pixel_window_map(800, 400);
    let neighbors = map.get_neighbors(CellCoordinate { x: 0, y: 0 });
    assert!(neighbors.len() == 4);
}

#[test]
fn check_neighbors_of_out_of_bounds() {
    let map = pixel_window_map(800, 400);
    let neighbors = map.get_neighbors(CellCoordinate { x: 100, y: 100 });
    assert!(neighbors.len() == 0);
}

#[test]
fn neighbors_follow_fixed_order_and_walls() {
    let mut map = pixel_window_map(800, 400);
    let origin = CellCoordinate { x: 0, y: 0 };
    let neighbors = map.get_neighbors(origin);
    assert_eq!(neighbors[0], CellCoordinate { x: 1, y: 0 });
    assert_eq!(neighbors[1], CellCoordinate { x: -1, y: 0 });
    assert_eq!(neighbors[2], CellCoordinate { x: 0, y: 1 });
    assert_eq!(neighbors[3], CellCoordinate { x: 0, y: -1 });
    map.set_wall(CellCoordinate { x: 1, y: 0 }, true);
    let blocked = map.get_neighbors(origin);
    assert_eq!(blocked.len(), 3);
    assert_eq!(blocked[0], CellCoordinate { x: -1, y: 0 });
}

#[test]
fn boundary_cell_has_fewer_neighbors() {
    // width 26 gives half-width 13: x == 13 is the rightmost column.
    let map = pixel_window_map(800, 400);
    let corner = map.get_neighbors(CellCoordinate { x: 13, y: 6 });
    assert_eq!(corner.len(), 2);
}

#[test]
fn wall_round_trip_returns_last_value_set() {
    let mut map = pixel_window_map(800, 400);
    let cell = CellCoordinate { x: 3, y: -2 };
    assert!(!map.has_wall(&cell));
    map.set_wall(cell, true);
    assert!(map.has_wall(&cell));
    map.set_wall(cell, false);
    assert!(!map.has_wall(&cell));
    map.set_wall(cell, true);
    assert!(map.has_wall(&cell));
    // an untouched cell stays open
    assert!(!map.has_wall(&CellCoordinate { x: -5, y: 5 }));
}

#[test]
fn in_map_is_inclusive_of_the_half_extent() {
    let map = pixel_window_map(800, 400);
    assert!(map.in_map(CellCoordinate { x: 13, y: 6 }));
    assert!(map.in_map(CellCoordinate { x: -13, y: -6 }));
    assert!(!map.in_map(CellCoordinate { x: 14, y: 0 }));
    assert!(!map.in_map(CellCoordinate { x: 0, y: 7 }));
}

#[test]
fn cell_of_position_centers_boundaries_between_cells() {
    assert_eq!(
        cell_from_position(Point { x: 0, y: 0 }),
        CellCoordinate { x: 0, y: 0 }
    );
    // 15,000 subpixels is exactly half a cell to the right: next cell over.
    assert_eq!(
        cell_from_position(Point { x: 15_000, y: -15_001 }),
        CellCoordinate { x: 1, y: -1 }
    );
    assert_eq!(
        cell_from_position(Point { x: -15_001, y: 44_999 }),
        CellCoordinate { x: -1, y: 1 }
    );
}

#[test]
fn div_floor_rounds_toward_negative_infinity() {
    assert_eq!(div_floor(59_999, 30_000), 1);
    assert_eq!(div_floor(-1, 30_000), -1);
    assert_eq!(div_floor(-30_000, 30_000), -1);
    assert_eq!(div_floor(-30_001, 30_000), -2);
}

#[test]
fn generated_walls_leave_the_base_area_open() {
    let mut map = pixel_window_map(800, 400);
    generate_walls(&mut map);
    for x in -2..2 {
        for y in -2..2 {
            assert!(!map.has_wall(&CellCoordinate { x, y }));
        }
    }
}
