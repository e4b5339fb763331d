//! The minimap: one color for each tile of the map, and a marker for each
//! player.
//!
//! The tiles stand in the header where the map starts. A tile takes four
//! bytes where the first byte of the tiles is 255, and two bytes otherwise;
//! one of them names the terrain and the next one the elevation. A tile that
//! lies higher or lower than the one to its lower right is drawn lighter or
//! darker.
use crate::record::{PlayerView, Record, RecordView};
use vstd::prelude::*;

verus! {

/// A color: red, green and blue.
#[derive(Debug, Clone, Copy, PartialEq, Eq, Structural)]
pub struct Rgb {
    pub r: u8,
    pub g: u8,
    pub b: u8,
}

/// Why a minimap could not be made.
#[derive(Debug, Clone, Copy, PartialEq, Eq, Structural)]
pub enum DrawError {
    /// The record does not say where the map starts.
    NoMapData,
    /// The record does not say how wide the map is.
    NoMapX,
    /// The record does not say how high the map is.
    NoMapY,
    /// The map is negative in size.
    BadSize,
    /// The header ends before the tiles do.
    Truncated,
    /// A tile has a terrain that has no color.
    UnknownTerrain,
    /// A player has a color that is not one of the fifteen.
    UnknownColor,
}

/// What a terrain is drawn as.
#[derive(Debug, Clone, Copy, PartialEq, Eq, Structural)]
pub enum Ground {
    /// Terrain drawn as grass.
    Grass,
    /// Terrain drawn as water.
    Water,
    /// Terrain drawn as beach and desert.
    Beach,
    /// Terrain drawn as dirt.
    Dirt,
    /// Terrain drawn as shallows.
    Shallows,
    /// Terrain drawn as farmland.
    Farm,
    /// Terrain drawn as forest.
    Forest,
    /// Terrain drawn as deep water.
    DeepWater,
    /// Terrain drawn as medium water.
    MediumWater,
    /// Terrain drawn as ice.
    Ice,
    /// Terrain drawn as dirt that turns to ice where it rises.
    DirtEdge,
    /// Terrain drawn as black.
    Black,
    /// Terrain drawn as ocean.
    OceanWater,
}

/// What the terrain numbered `t` is drawn as. The terrains from 100 on have
/// no color.
pub open spec fn ground_of(t: u8) -> Option<Ground> {
    if t == 0 || t == 5 || t == 9 || t == 12 || t == 16 || t == 32 || t == 34 || t == 44
        || t == 60 || t == 62 || 68 <= t <= 89 {
        Some(Ground::Grass)
    } else if t == 1 || t == 15 || t == 28 || 95 <= t <= 99 {
        Some(Ground::Water)
    } else if t == 2 || t == 14 || 45 <= t <= 46 || 51 <= t <= 53 {
        Some(Ground::Beach)
    } else if t == 3 || t == 6 || t == 11 || 24 <= t <= 25 || t == 27 || t == 33 || t == 36
        || t == 38 || 40 <= t <= 43 || t == 61 {
        Some(Ground::Dirt)
    } else if t == 4 || t == 54 || t == 59 || 90 <= t <= 94 {
        Some(Ground::Shallows)
    } else if 7 <= t <= 8 || 29 <= t <= 31 || 63 <= t <= 67 {
        Some(Ground::Farm)
    } else if t == 10 || t == 13 || 17 <= t <= 21 || 48 <= t <= 50 || 55 <= t <= 56 {
        Some(Ground::Forest)
    } else if t == 22 || t == 57 {
        Some(Ground::DeepWater)
    } else if t == 23 {
        Some(Ground::MediumWater)
    } else if t == 26 || t == 35 || t == 37 {
        Some(Ground::Ice)
    } else if t == 39 {
        Some(Ground::DirtEdge)
    } else if t == 47 {
        Some(Ground::Black)
    } else if t == 58 {
        Some(Ground::OceanWater)
    } else {
        None
    }
}

/// The color of a ground on a slope: 0 where the tile lies higher than its
/// lower right neighbor, 2 where it lies lower, 1 otherwise.
pub open spec fn ground_color(g: Ground, slope: u8) -> Rgb {
    match g {
        Ground::Grass => if slope == 0 {
            Rgb { r: 0, g: 169, b: 0 }
        } else if slope == 1 {
            Rgb { r: 51, g: 151, b: 39 }
        } else {
            Rgb { r: 0, g: 141, b: 0 }
        },
        Ground::Water => if slope == 0 {
            Rgb { r: 48, g: 93, b: 182 }
        } else if slope == 1 {
            Rgb { r: 48, g: 93, b: 182 }
        } else {
            Rgb { r: 48, g: 93, b: 182 }
        },
        Ground::Beach => if slope == 0 {
            Rgb { r: 248, g: 201, b: 138 }
        } else if slope == 1 {
            Rgb { r: 232, g: 180, b: 120 }
        } else {
            Rgb { r: 189, g: 150, b: 111 }
        },
        Ground::Dirt => if slope == 0 {
            Rgb { r: 243, g: 170, b: 92 }
        } else if slope == 1 {
            Rgb { r: 228, g: 162, b: 82 }
        } else {
            Rgb { r: 218, g: 156, b: 105 }
        },
        Ground::Shallows => if slope == 0 {
            Rgb { r: 84, g: 146, b: 176 }
        } else if slope == 1 {
            Rgb { r: 84, g: 146, b: 176 }
        } else {
            Rgb { r: 84, g: 146, b: 176 }
        },
        Ground::Farm => if slope == 0 {
            Rgb { r: 138, g: 139, b: 87 }
        } else if slope == 1 {
            Rgb { r: 130, g: 136, b: 77 }
        } else {
            Rgb { r: 118, g: 130, b: 65 }
        },
        Ground::Forest => if slope == 0 {
            Rgb { r: 37, g: 116, b: 57 }
        } else if slope == 1 {
            Rgb { r: 21, g: 118, b: 21 }
        } else {
            Rgb { r: 0, g: 114, b: 0 }
        },
        Ground::DeepWater => if slope == 0 {
            Rgb { r: 0, g: 74, b: 161 }
        } else if slope == 1 {
            Rgb { r: 0, g: 74, b: 161 }
        } else {
            Rgb { r: 0, g: 74, b: 161 }
        },
        Ground::MediumWater => if slope == 0 {
            Rgb { r: 0, g: 74, b: 187 }
        } else if slope == 1 {
            Rgb { r: 0, g: 74, b: 187 }
        } else {
            Rgb { r: 0, g: 74, b: 187 }
        },
        Ground::Ice => if slope == 0 {
            Rgb { r: 152, g: 192, b: 240 }
        } else if slope == 1 {
            Rgb { r: 152, g: 192, b: 240 }
        } else {
            Rgb { r: 152, g: 192, b: 240 }
        },
        Ground::DirtEdge => if slope == 0 {
            Rgb { r: 243, g: 170, b: 92 }
        } else if slope == 1 {
            Rgb { r: 228, g: 162, b: 82 }
        } else {
            Rgb { r: 189, g: 209, b: 253 }
        },
        Ground::Black => if slope == 0 {
            Rgb { r: 28, g: 28, b: 28 }
        } else if slope == 1 {
            Rgb { r: 28, g: 28, b: 28 }
        } else {
            Rgb { r: 28, g: 28, b: 28 }
        },
        Ground::OceanWater => if slope == 0 {
            Rgb { r: 0, g: 84, b: 176 }
        } else if slope == 1 {
            Rgb { r: 0, g: 84, b: 176 }
        } else {
            Rgb { r: 0, g: 84, b: 176 }
        },
    }
}

/// The color of the marker of a player, by the number of the color. There
/// are fifteen.
pub open spec fn player_color(id: u8) -> Option<Rgb> {
    if id == 0 {
        Some(Rgb { r: 0, g: 0, b: 255 })
    } else if id == 1 {
        Some(Rgb { r: 255, g: 0, b: 0 })
    } else if id == 2 {
        Some(Rgb { r: 0, g: 255, b: 0 })
    } else if id == 3 {
        Some(Rgb { r: 255, g: 255, b: 0 })
    } else if id == 4 {
        Some(Rgb { r: 0, g: 255, b: 255 })
    } else if id == 5 {
        Some(Rgb { r: 255, g: 0, b: 255 })
    } else if id == 6 {
        Some(Rgb { r: 67, g: 67, b: 67 })
    } else if id == 7 {
        Some(Rgb { r: 255, g: 130, b: 1 })
    } else if id == 8 {
        Some(Rgb { r: 0, g: 0, b: 0 })
    } else if id == 9 {
        Some(Rgb { r: 0, g: 0, b: 0 })
    } else if id == 10 {
        Some(Rgb { r: 0, g: 0, b: 0 })
    } else if id == 11 {
        Some(Rgb { r: 0, g: 0, b: 255 })
    } else if id == 12 {
        Some(Rgb { r: 255, g: 255, b: 0 })
    } else if id == 13 {
        Some(Rgb { r: 255, g: 255, b: 255 })
    } else if id == 14 {
        Some(Rgb { r: 255, g: 0, b: 0 })
    } else {
        None
    }
}

/// What the terrain numbered `t` is drawn as.
pub fn ground(t: u8) -> (g: Option<Ground>)
    ensures
        g == ground_of(t),
{
    if t == 0 || t == 5 || t == 9 || t == 12 || t == 16 || t == 32 || t == 34 || t == 44
        || t == 60 || t == 62 || t >= 68 && t <= 89 {
        Some(Ground::Grass)
    } else if t == 1 || t == 15 || t == 28 || t >= 95 && t <= 99 {
        Some(Ground::Water)
    } else if t == 2 || t == 14 || t >= 45 && t <= 46 || t >= 51 && t <= 53 {
        Some(Ground::Beach)
    } else if t == 3 || t == 6 || t == 11 || t >= 24 && t <= 25 || t == 27 || t == 33 || t == 36
        || t == 38 || t >= 40 && t <= 43 || t == 61 {
        Some(Ground::Dirt)
    } else if t == 4 || t == 54 || t == 59 || t >= 90 && t <= 94 {
        Some(Ground::Shallows)
    } else if t >= 7 && t <= 8 || t >= 29 && t <= 31 || t >= 63 && t <= 67 {
        Some(Ground::Farm)
    } else if t == 10 || t == 13 || t >= 17 && t <= 21 || t >= 48 && t <= 50 || t >= 55 && t <= 56 {
        Some(Ground::Forest)
    } else if t == 22 || t == 57 {
        Some(Ground::DeepWater)
    } else if t == 23 {
        Some(Ground::MediumWater)
    } else if t == 26 || t == 35 || t == 37 {
        Some(Ground::Ice)
    } else if t == 39 {
        Some(Ground::DirtEdge)
    } else if t == 47 {
        Some(Ground::Black)
    } else if t == 58 {
        Some(Ground::OceanWater)
    } else {
        None
    }
}

/// The color of a ground on a slope.
pub fn color_of(g: Ground, slope: u8) -> (c: Rgb)
    ensures
        c == ground_color(g, slope),
{
    match g {
        Ground::Grass => if slope == 0 {
            Rgb { r: 0, g: 169, b: 0 }
        } else if slope == 1 {
            Rgb { r: 51, g: 151, b: 39 }
        } else {
            Rgb { r: 0, g: 141, b: 0 }
        },
        Ground::Water => if slope == 0 {
            Rgb { r: 48, g: 93, b: 182 }
        } else if slope == 1 {
            Rgb { r: 48, g: 93, b: 182 }
        } else {
            Rgb { r: 48, g: 93, b: 182 }
        },
        Ground::Beach => if slope == 0 {
            Rgb { r: 248, g: 201, b: 138 }
        } else if slope == 1 {
            Rgb { r: 232, g: 180, b: 120 }
        } else {
            Rgb { r: 189, g: 150, b: 111 }
        },
        Ground::Dirt => if slope == 0 {
            Rgb { r: 243, g: 170, b: 92 }
        } else if slope == 1 {
            Rgb { r: 228, g: 162, b: 82 }
        } else {
            Rgb { r: 218, g: 156, b: 105 }
        },
        Ground::Shallows => if slope == 0 {
            Rgb { r: 84, g: 146, b: 176 }
        } else if slope == 1 {
            Rgb { r: 84, g: 146, b: 176 }
        } else {
            Rgb { r: 84, g: 146, b: 176 }
        },
        Ground::Farm => if slope == 0 {
            Rgb { r: 138, g: 139, b: 87 }
        } else if slope == 1 {
            Rgb { r: 130, g: 136, b: 77 }
        } else {
            Rgb { r: 118, g: 130, b: 65 }
        },
        Ground::Forest => if slope == 0 {
            Rgb { r: 37, g: 116, b: 57 }
        } else if slope == 1 {
            Rgb { r: 21, g: 118, b: 21 }
        } else {
            Rgb { r: 0, g: 114, b: 0 }
        },
        Ground::DeepWater => if slope == 0 {
            Rgb { r: 0, g: 74, b: 161 }
        } else if slope == 1 {
            Rgb { r: 0, g: 74, b: 161 }
        } else {
            Rgb { r: 0, g: 74, b: 161 }
        },
        Ground::MediumWater => if slope == 0 {
            Rgb { r: 0, g: 74, b: 187 }
        } else if slope == 1 {
            Rgb { r: 0, g: 74, b: 187 }
        } else {
            Rgb { r: 0, g: 74, b: 187 }
        },
        Ground::Ice => if slope == 0 {
            Rgb { r: 152, g: 192, b: 240 }
        } else if slope == 1 {
            Rgb { r: 152, g: 192, b: 240 }
        } else {
            Rgb { r: 152, g: 192, b: 240 }
        },
        Ground::DirtEdge => if slope == 0 {
            Rgb { r: 243, g: 170, b: 92 }
        } else if slope == 1 {
            Rgb { r: 228, g: 162, b: 82 }
        } else {
            Rgb { r: 189, g: 209, b: 253 }
        },
        Ground::Black => if slope == 0 {
            Rgb { r: 28, g: 28, b: 28 }
        } else if slope == 1 {
            Rgb { r: 28, g: 28, b: 28 }
        } else {
            Rgb { r: 28, g: 28, b: 28 }
        },
        Ground::OceanWater => if slope == 0 {
            Rgb { r: 0, g: 84, b: 176 }
        } else if slope == 1 {
            Rgb { r: 0, g: 84, b: 176 }
        } else {
            Rgb { r: 0, g: 84, b: 176 }
        },
    }
}

/// The color of the marker of a player.
pub fn marker_color(id: u8) -> (c: Option<Rgb>)
    ensures
        c == player_color(id),
{
    if id == 0 {
        Some(Rgb { r: 0, g: 0, b: 255 })
    } else if id == 1 {
        Some(Rgb { r: 255, g: 0, b: 0 })
    } else if id == 2 {
        Some(Rgb { r: 0, g: 255, b: 0 })
    } else if id == 3 {
        Some(Rgb { r: 255, g: 255, b: 0 })
    } else if id == 4 {
        Some(Rgb { r: 0, g: 255, b: 255 })
    } else if id == 5 {
        Some(Rgb { r: 255, g: 0, b: 255 })
    } else if id == 6 {
        Some(Rgb { r: 67, g: 67, b: 67 })
    } else if id == 7 {
        Some(Rgb { r: 255, g: 130, b: 1 })
    } else if id == 8 {
        Some(Rgb { r: 0, g: 0, b: 0 })
    } else if id == 9 {
        Some(Rgb { r: 0, g: 0, b: 0 })
    } else if id == 10 {
        Some(Rgb { r: 0, g: 0, b: 0 })
    } else if id == 11 {
        Some(Rgb { r: 0, g: 0, b: 255 })
    } else if id == 12 {
        Some(Rgb { r: 255, g: 255, b: 0 })
    } else if id == 13 {
        Some(Rgb { r: 255, g: 255, b: 255 })
    } else if id == 14 {
        Some(Rgb { r: 255, g: 0, b: 0 })
    } else {
        None
    }
}

/// Where a player started, and in which color it is marked.
#[derive(Debug, Clone, Copy, PartialEq, Eq, Structural)]
pub struct Marker {
    /// Bit pattern of a single-precision number.
    pub x: u32,
    /// Bit pattern of a single-precision number.
    pub y: u32,
    pub color: Rgb,
}

/// The minimap of a game: the colors of the tiles row by row, and the
/// players' markers.
#[derive(Debug)]
pub struct MapImage {
    pub width: u32,
    pub height: u32,
    pub pixels: Vec<Rgb>,
    pub markers: Vec<Marker>,
}

/// Bytes per tile: four where the first byte of the tiles is 255, else two.
pub open spec fn stride_at(d: Seq<u8>, off: int) -> int {
    if d[off] == 255 {
        4
    } else {
        2
    }
}

/// Where the terrain of the `i`-th tile stands: in the first byte of a tile
/// of two bytes, in the second of a tile of four.
pub open spec fn terrain_pos(d: Seq<u8>, off: int, i: int) -> int {
    if d[off] == 255 {
        off + i * 4 + 1
    } else {
        off + i * 2
    }
}

/// The place of the tile in column `x` of row `y` on a map `w` tiles wide.
pub open spec fn tile_index(w: int, x: int, y: int) -> int {
    y * w + x
}

/// The tiles of a map of `w` by `h` tiles at `off` are all there.
pub open spec fn tiles_fit(d: Seq<u8>, off: int, w: int, h: int) -> bool {
    0 <= off < d.len() && off + w * h * stride_at(d, off) <= d.len()
}

/// The slope of the tile in column `x` of row `y`: its elevation stands
/// behind its terrain, and is held against that of the tile to the lower
/// right, where there is one.
pub open spec fn slope_at(d: Seq<u8>, off: int, w: int, h: int, x: int, y: int) -> u8 {
    if x < w - 1 && y < h - 1 {
        let here = d[terrain_pos(d, off, tile_index(w, x, y)) + 1];
        let there = d[terrain_pos(d, off, tile_index(w, x + 1, y + 1)) + 1];
        if here > there {
            0
        } else if here < there {
            2
        } else {
            1
        }
    } else {
        1
    }
}

/// The color of the tile in column `x` of row `y`, where its terrain has
/// one.
pub open spec fn pixel_at(d: Seq<u8>, off: int, w: int, h: int, x: int, y: int) -> Option<Rgb> {
    match ground_of(d[terrain_pos(d, off, tile_index(w, x, y))]) {
        Some(g) => Some(ground_color(g, slope_at(d, off, w, h, x, y))),
        None => None,
    }
}

/// `pixels` are the colors of the tiles of the map, row by row.
pub open spec fn pixels_of(pixels: Seq<Rgb>, d: Seq<u8>, off: int, w: int, h: int) -> bool {
    &&& pixels.len() == w * h
    &&& forall|x: int, y: int|
        0 <= x < w && 0 <= y < h ==> 0 <= tile_index(w, x, y) < pixels.len() && pixel_at(
            d,
            off,
            w,
            h,
            x,
            y,
        ) == Some(pixels[#[trigger] tile_index(w, x, y)])
}

/// Some tile of the map has a terrain without a color.
pub open spec fn some_terrain_unknown(d: Seq<u8>, off: int, w: int, h: int) -> bool {
    exists|x: int, y: int| 0 <= x < w && 0 <= y < h && (#[trigger] pixel_at(d, off, w, h, x, y)).is_none()
}

/// The colors of the tiles of a map of `w` by `h` tiles that starts at `off`
/// in the header `d`, row by row.
#[verifier::loop_isolation(false)]
pub fn map_pixels(d: &[u8], off: usize, w: u32, h: u32) -> (res: Result<Vec<Rgb>, DrawError>)
    ensures
        match res {
            Ok(pixels) => tiles_fit(d@, off as int, w as int, h as int) && pixels_of(
                pixels@,
                d@,
                off as int,
                w as int,
                h as int,
            ),
            Err(e) => if tiles_fit(d@, off as int, w as int, h as int) {
                e == DrawError::UnknownTerrain && some_terrain_unknown(
                    d@,
                    off as int,
                    w as int,
                    h as int,
                )
            } else {
                e == DrawError::Truncated
            },
        },
{
    if off >= d.len() {
        return Err(DrawError::Truncated);
    }
    let wide: bool = d[off] == 255;
    let stride: u128 = if wide {
        4
    } else {
        2
    };
    let shift: u128 = if wide {
        1
    } else {
        0
    };
    assert(0 <= w * h <= 0xffff_ffff * 0xffff_ffff) by (nonlinear_arith)
        requires
            0 <= w <= 0xffff_ffff,
            0 <= h <= 0xffff_ffff,
    ;
    let n: u128 = w as u128 * h as u128;
    if off as u128 + n * stride > d.len() as u128 {
        return Err(DrawError::Truncated);
    }
    let mut pixels: Vec<Rgb> = Vec::new();
    let mut i: u128 = 0;
    let mut y: u32 = 0;
    while y < h
        invariant
            y <= h,
            i == y * w,
            pixels@.len() == i,
            forall|a: int, b: int|
                0 <= a < w && 0 <= b < y ==> 0 <= tile_index(w as int, a, b) < pixels@.len()
                    && pixel_at(d@, off as int, w as int, h as int, a, b) == Some(
                    pixels@[#[trigger] tile_index(w as int, a, b)],
                ),
        decreases h - y,
    {
        let mut x: u32 = 0;
        while x < w
            invariant
                x <= w,
                y < h,
                i == y * w + x,
                pixels@.len() == i,
                forall|a: int, b: int|
                    0 <= a < w && 0 <= b < y ==> 0 <= tile_index(w as int, a, b) < pixels@.len()
                        && pixel_at(d@, off as int, w as int, h as int, a, b) == Some(
                        pixels@[#[trigger] tile_index(w as int, a, b)],
                    ),
                forall|a: int|
                    0 <= a < x ==> 0 <= tile_index(w as int, a, y as int) < pixels@.len()
                        && pixel_at(d@, off as int, w as int, h as int, a, y as int) == Some(
                        pixels@[#[trigger] tile_index(w as int, a, y as int)],
                    ),
            decreases w - x,
        {
            assert(i < n) by (nonlinear_arith)
                requires
                    i == y * w + x,
                    n == w * h,
                    x < w,
                    y < h,
            ;
            let here: usize = (off as u128 + i * stride + shift) as usize;
            let mut slope: u8 = 1;
            if x < w - 1 && y < h - 1 {
                assert(i + w + 1 < n && i + w + 1 == (y + 1) * w + (x + 1)) by (nonlinear_arith)
                    requires
                        i == y * w + x,
                        n == w * h,
                        x + 1 < w,
                        y + 1 < h,
                ;
                let there: usize = (off as u128 + (i + w as u128 + 1) * stride + shift) as usize;
                if d[here + 1] > d[there + 1] {
                    slope = 0;
                } else if d[here + 1] < d[there + 1] {
                    slope = 2;
                }
            }
            assert(slope == slope_at(d@, off as int, w as int, h as int, x as int, y as int));
            match ground(d[here]) {
                Some(g) => {
                    pixels.push(color_of(g, slope));
                },
                None => {
                    assert(pixel_at(d@, off as int, w as int, h as int, x as int, y as int).is_none());
                    return Err(DrawError::UnknownTerrain);
                },
            }
            i = i + 1;
            x = x + 1;
        }
        assert(i == (y + 1) * w) by (nonlinear_arith)
            requires
                i == y * w + w,
        ;
        y = y + 1;
    }
    assert(i == w * h) by (nonlinear_arith)
        requires
            i == y * w,
            y == h,
    ;
    Ok(pixels)
}

/// The marker of a player: one that takes part and whose place and color are
/// known has one, if the color is one of the fifteen.
pub open spec fn marker_of(p: PlayerView) -> Option<Result<Marker, DrawError>> {
    match (p.initx, p.inity, p.colorid) {
        (Some(x), Some(y), Some(id)) => if p.isvalid() {
            Some(
                match player_color(id) {
                    Some(color) => Ok(Marker { x, y, color }),
                    None => Err(DrawError::UnknownColor),
                },
            )
        } else {
            None
        },
        _ => None,
    }
}

/// The markers of the first `n` players, or the error of the first one whose
/// color is unknown.
pub open spec fn markers_upto(players: Seq<PlayerView>, n: nat) -> Result<Seq<Marker>, DrawError>
    decreases n,
{
    if n == 0 || n > players.len() {
        Ok(Seq::empty())
    } else {
        match markers_upto(players, (n - 1) as nat) {
            Err(e) => Err(e),
            Ok(before) => match marker_of(players[n - 1]) {
                None => Ok(before),
                Some(Ok(m)) => Ok(before.push(m)),
                Some(Err(e)) => Err(e),
            },
        }
    }
}

/// The markers of the players.
#[verifier::loop_isolation(false)]
pub fn map_markers(rec: &Record) -> (res: Result<Vec<Marker>, DrawError>)
    ensures
        match (res, markers_upto(rec@.players, 9)) {
            (Ok(found), Ok(want)) => found@ == want,
            (Err(e), Err(want)) => e == want,
            _ => false,
        },
{
    let mut markers: Vec<Marker> = Vec::new();
    let mut s: usize = 0;
    while s < 9
        invariant
            s <= 9,
            rec@.players.len() == 9,
            markers_upto(rec@.players, s as nat) == Ok::<Seq<Marker>, DrawError>(markers@),
        decreases 9 - s,
    {
        let p = &rec.players[s];
        match (p.initx, p.inity, p.colorid) {
            (Some(x), Some(y), Some(id)) => {
                if p.isvalid() {
                    match marker_color(id) {
                        Some(color) => {
                            markers.push(Marker { x, y, color });
                        },
                        None => {
                            proof {
                                lemma_markers_fail(rec@.players, (s + 1) as nat, 9);
                            }
                            return Err(DrawError::UnknownColor);
                        },
                    }
                }
            },
            _ => {},
        }
        s = s + 1;
    }
    Ok(markers)
}

/// Once a marker cannot be made, none of the longer lists can.
pub proof fn lemma_markers_fail(players: Seq<PlayerView>, n: nat, m: nat)
    requires
        n <= m <= players.len(),
        markers_upto(players, n).is_err(),
    ensures
        markers_upto(players, m) == markers_upto(players, n),
    decreases m - n,
{
    if n < m {
        lemma_markers_fail(players, n, (m - 1) as nat);
    }
}

/// What making the minimap of a record from the header `d` gives.
pub open spec fn drawable(r: RecordView) -> Result<(int, int, int), DrawError> {
    match (r.debug.mappos, r.mapx, r.mapy) {
        (None, _, _) => Err(DrawError::NoMapData),
        (Some(_), None, _) => Err(DrawError::NoMapX),
        (Some(_), Some(_), None) => Err(DrawError::NoMapY),
        (Some(off), Some(w), Some(h)) => if w < 0 || h < 0 {
            Err(DrawError::BadSize)
        } else {
            Ok((off as int, w as int, h as int))
        },
    }
}

/// The minimap of a decoded game, from the record and the inflated header.
pub fn map_image(rec: &Record, header: &[u8]) -> (res: Result<MapImage, DrawError>)
    ensures
        match (res, drawable(rec@)) {
            (Ok(img), Ok((off, w, h))) => img.width == w && img.height == h && tiles_fit(
                header@,
                off,
                w,
                h,
            ) && pixels_of(img.pixels@, header@, off, w, h) && markers_upto(rec@.players, 9) == Ok::<
                Seq<Marker>,
                DrawError,
            >(img.markers@),
            (Err(e), Err(want)) => e == want,
            (Err(e), Ok((off, w, h))) => if !tiles_fit(header@, off, w, h) {
                e == DrawError::Truncated
            } else if some_terrain_unknown(header@, off, w, h) {
                e == DrawError::UnknownTerrain
            } else {
                markers_upto(rec@.players, 9) == Err::<Seq<Marker>, DrawError>(e)
            },
            _ => false,
        },
{
    let off: usize = match rec.debug.mappos {
        Some(p) => p,
        None => {
            return Err(DrawError::NoMapData);
        },
    };
    let w: i32 = match rec.mapx {
        Some(x) => x,
        None => {
            return Err(DrawError::NoMapX);
        },
    };
    let h: i32 = match rec.mapy {
        Some(y) => y,
        None => {
            return Err(DrawError::NoMapY);
        },
    };
    if w < 0 || h < 0 {
        return Err(DrawError::BadSize);
    }
    let pixels = map_pixels(header, off, w as u32, h as u32)?;
    proof {
        lemma_pixels_known(pixels@, header@, off as int, w as int, h as int);
    }
    let markers = map_markers(rec)?;
    Ok(MapImage { width: w as u32, height: h as u32, pixels, markers })
}

/// Where the colors of all tiles are there, every terrain has one.
pub proof fn lemma_pixels_known(pixels: Seq<Rgb>, d: Seq<u8>, off: int, w: int, h: int)
    requires
        pixels_of(pixels, d, off, w, h),
    ensures
        !some_terrain_unknown(d, off, w, h),
{
    if some_terrain_unknown(d, off, w, h) {
        let (x, y) = choose|x: int, y: int|
            0 <= x < w && 0 <= y < h && (#[trigger] pixel_at(d, off, w, h, x, y)).is_none();
        assert(pixel_at(d, off, w, h, x, y) == Some(pixels[tile_index(w, x, y)]));
    }
}

} // verus!
