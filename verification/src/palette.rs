//! Colours of the procedural tiles, tile borders and railgun beams, as
//! `(red, green, blue, alpha)` bytes.
use vstd::prelude::*;

verus! {

pub type Rgba = (u8, u8, u8, u8);

pub open spec fn base_color_spec(texture_id: u16) -> Rgba {
    match texture_id {
        0 => (88, 62, 42, 255),
        1 => (75, 75, 80, 255),
        2 => (95, 82, 62, 255),
        3 => (85, 90, 75, 255),
        4 => (110, 95, 70, 255),
        5 => (68, 72, 78, 255),
        6 => (130, 100, 75, 255),
        7 => (60, 65, 72, 255),
        8 => (78, 82, 88, 255),
        9 => (92, 78, 60, 255),
        _ => (55, 57, 62, 255),
    }
}

pub open spec fn edge_color_spec(texture_id: u16) -> Rgba {
    match texture_id {
        0 => (70, 48, 32, 255),
        1 => (85, 85, 90, 255),
        2 => (105, 92, 72, 255),
        3 => (95, 100, 85, 255),
        4 => (120, 105, 80, 255),
        5 => (78, 82, 88, 255),
        6 => (140, 110, 85, 255),
        7 => (70, 75, 82, 255),
        8 => (88, 92, 98, 255),
        9 => (102, 88, 70, 255),
        _ => (65, 67, 72, 255),
    }
}

/// Body colour of a procedural tile of the given texture.
pub fn get_base_color(texture_id: u16) -> (c: Rgba)
    ensures
        c == base_color_spec(texture_id),
{
    match texture_id {
        0 => (88, 62, 42, 255),
        1 => (75, 75, 80, 255),
        2 => (95, 82, 62, 255),
        3 => (85, 90, 75, 255),
        4 => (110, 95, 70, 255),
        5 => (68, 72, 78, 255),
        6 => (130, 100, 75, 255),
        7 => (60, 65, 72, 255),
        8 => (78, 82, 88, 255),
        9 => (92, 78, 60, 255),
        _ => (55, 57, 62, 255),
    }
}

/// Edge colour of a procedural tile of the given texture.
pub fn get_edge_color(texture_id: u16) -> (c: Rgba)
    ensures
        c == edge_color_spec(texture_id),
{
    match texture_id {
        0 => (70, 48, 32, 255),
        1 => (85, 85, 90, 255),
        2 => (105, 92, 72, 255),
        3 => (95, 100, 85, 255),
        4 => (120, 105, 80, 255),
        5 => (78, 82, 88, 255),
        6 => (140, 110, 85, 255),
        7 => (70, 75, 82, 255),
        8 => (88, 92, 98, 255),
        9 => (102, 88, 70, 255),
        _ => (65, 67, 72, 255),
    }
}

/// Textures drawn with grass on top.
pub fn is_grass(texture_id: u16) -> (r: bool)
    ensures
        r == (texture_id == 0 || texture_id == 7 || texture_id == 9),
{
    texture_id == 0 || texture_id == 7 || texture_id == 9
}

/// Colour of the border lines of a tile, chosen by the last decimal digit
/// of its texture number.
pub fn get_border_color(texture_id: u16) -> (c: Rgba)
    ensures
        c == (match texture_id % 10 {
            0 | 1 => (60u8, 65u8, 70u8, 180u8),
            2 | 3 => (80, 70, 60, 180),
            4 | 5 => (50, 60, 75, 180),
            6 | 7 => (70, 75, 80, 180),
            _ => (65, 70, 75, 180),
        }),
{
    match texture_id % 10 {
        0 | 1 => (60, 65, 70, 180),
        2 | 3 => (80, 70, 60, 180),
        4 | 5 => (50, 60, 75, 180),
        6 | 7 => (70, 75, 80, 180),
        _ => (65, 70, 75, 180),
    }
}

/// Beam colour of the railgun of each of the first four players; every
/// other player shares one colour.
pub fn get_player_railgun_color(player_id: u16) -> (c: Rgba)
    ensures
        c == (match player_id {
            1 => (100u8, 200u8, 255u8, 255u8),
            2 => (255, 100, 100, 255),
            3 => (100, 255, 100, 255),
            4 => (255, 255, 100, 255),
            _ => (200, 150, 255, 255),
        }),
{
    match player_id {
        1 => (100, 200, 255, 255),
        2 => (255, 100, 100, 255),
        3 => (100, 255, 100, 255),
        4 => (255, 255, 100, 255),
        _ => (200, 150, 255, 255),
    }
}

} // verus!
