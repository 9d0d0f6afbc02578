use sas_game::tiles::{Tile, TileGrid};

fn grid() -> TileGrid {
    // width 3, height 4; rows 2 and 3 solid, plus (1, 1).
    let mut tiles = Vec::new();
    for x in 0..3 {
        let mut col = Vec::new();
        for y in 0..4 {
            let solid = y >= 2 || (x == 1 && y == 1);
            let texture_id = if x == 1 && y == 1 {
                5
            } else if x == 2 && y == 2 {
                3
            } else {
                0
            };
            col.push(Tile { solid, texture_id });
        }
        tiles.push(col);
    }
    TileGrid { width: 3, height: 4, tiles }
}

#[test]
fn ground_tile_needs_open_tile_above() {
    let g = grid();
    assert!(g.is_ground_tile(0, 2));
    assert!(!g.is_ground_tile(1, 2));
    assert!(g.is_ground_tile(1, 1));
    assert!(!g.is_ground_tile(0, 3));
    assert!(!g.is_ground_tile(0, 0));
    assert!(!g.is_ground_tile(5, 2));
}

#[test]
fn ground_tiles_column_by_column() {
    let g = grid();
    assert_eq!(g.ground_tiles(), vec![(0, 2), (1, 1), (2, 2)]);
}

#[test]
fn outside_the_map_is_solid() {
    let g = grid();
    assert!(g.is_solid_tile(-1, 0));
    assert!(g.is_solid_tile(0, -3));
    assert!(g.is_solid_tile(3, 0));
    assert!(g.is_solid_tile(0, 4));
    assert!(!g.is_solid_tile(0, 0));
    assert!(g.is_solid_tile(1, 1));
}

#[test]
fn borders_toward_other_textures() {
    let g = grid();
    let b = g.border_sides(1, 2).unwrap();
    assert!(!b.left);
    assert!(b.right);
    assert!(b.top);
    assert!(!b.bottom);
    assert!(g.border_sides(0, 0).is_none());
    let corner = g.border_sides(0, 3).unwrap();
    assert!(!corner.left && !corner.right && !corner.top && !corner.bottom);
}
