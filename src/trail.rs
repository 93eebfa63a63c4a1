//! Trails: the binary track format and the segmentation of a track into
//! ribbon strips.
//!
//! A track file starts with a 4-byte header word that is not read, then the
//! map id as a little-endian `u32`, then little-endian `f32` triples (x, y, z)
//! up to the end of the file. Coordinates are held as `f32` bit patterns.

use vstd::prelude::*;

use crate::bytes::{read_u32_le, u32_le};
use crate::poi::{InheritablePOIData, POI};

verus! {

/// The size of the header in front of the points of a track file.
pub const TRACK_HEADER_SIZE: usize = 8;

/// The size of one point of a track file.
pub const TRACK_POINT_SIZE: usize = 12;

/// A point of a track; each coordinate is the bit pattern of an `f32`.
#[derive(Clone, Copy, Debug, PartialEq, Eq, Structural)]
pub struct TrailData {
    pub x: u32,
    pub y: u32,
    pub z: u32,
}

/// The bit pattern of `-v` for the `f32` whose bit pattern is `bits`: the sign
/// bit flipped.
pub open spec fn negated(bits: u32) -> u32 {
    if bits >= 0x8000_0000 {
        (bits - 0x8000_0000) as u32
    } else {
        (bits + 0x8000_0000) as u32
    }
}

pub fn negate_bits(bits: u32) -> (r: u32)
    ensures
        r == negated(bits),
{
    if bits >= 0x8000_0000 {
        bits - 0x8000_0000
    } else {
        bits + 0x8000_0000
    }
}

/// Conversion from file coordinates to the game's coordinates: the z axis
/// points the other way.
pub trait ToGw2Coordinate: Sized {
    spec fn gw2_coordinate(&self) -> Self;

    fn as_gw2_coordinate(&self) -> (r: Self)
        ensures
            r == self.gw2_coordinate(),
    ;

    fn to_gw2_coordinate(&mut self)
        ensures
            *final(self) == old(self).gw2_coordinate(),
    ;
}

impl ToGw2Coordinate for TrailData {
    open spec fn gw2_coordinate(&self) -> TrailData {
        TrailData { x: self.x, y: self.y, z: negated(self.z) }
    }

    fn as_gw2_coordinate(&self) -> (r: TrailData) {
        TrailData { x: self.x, y: self.y, z: negate_bits(self.z) }
    }

    fn to_gw2_coordinate(&mut self) {
        self.z = negate_bits(self.z);
    }
}

impl ToGw2Coordinate for crate::poi::Position {
    open spec fn gw2_coordinate(&self) -> crate::poi::Position {
        crate::poi::Position { xpos: self.xpos, ypos: self.ypos, zpos: negated(self.zpos) }
    }

    fn as_gw2_coordinate(&self) -> (r: crate::poi::Position) {
        crate::poi::Position { xpos: self.xpos, ypos: self.ypos, zpos: negate_bits(self.zpos) }
    }

    fn to_gw2_coordinate(&mut self) {
        self.zpos = negate_bits(self.zpos);
    }
}

/// The point stored at `off`.
pub open spec fn track_point_at(b: Seq<u8>, off: int) -> TrailData {
    TrailData { x: u32_le(b, off), y: u32_le(b, off + 4), z: u32_le(b, off + 8) }
}

/// The full points of a track file, in file order; a trailing partial point
/// is dropped.
pub open spec fn track_points(b: Seq<u8>) -> Seq<TrailData> {
    Seq::new(((b.len() - 8) / 12) as nat, |i: int| track_point_at(b, 8 + 12 * i))
}

/// A track file with `n` full points after its header, and a partial point at
/// most, yields exactly `n` points.
pub proof fn lemma_track_point_count(b: Seq<u8>, n: nat)
    requires
        8 + 12 * n <= b.len() < 8 + 12 * n + 12,
    ensures
        track_points(b).len() == n,
{
    assert((b.len() - 8) / 12 == n) by (nonlinear_arith)
        requires
            8 + 12 * n <= b.len() < 8 + 12 * n + 12,
    ;
}

/// What a track file holds.
pub struct TrackFile {
    pub map_id: u32,
    pub points: Vec<TrailData>,
}

/// Reads a track file. A file shorter than its header holds nothing.
pub fn parse_track(b: &[u8]) -> (r: Option<TrackFile>)
    ensures
        r is None <==> b@.len() < 8,
        r matches Some(t) ==> t.map_id == u32_le(b@, 4) && t.points@ == track_points(b@),
{
    let len = b.len();
    if len < TRACK_HEADER_SIZE {
        return None;
    }
    let map_id = read_u32_le(b, 4);
    let mut points: Vec<TrailData> = Vec::new();
    let mut off: usize = TRACK_HEADER_SIZE;
    let ghost mut i: int = 0;
    while off <= len && len - off >= TRACK_POINT_SIZE
        invariant
            len == b@.len(),
            8 <= len,
            off == 8 + 12 * i,
            off <= len,
            points@ == Seq::new(i as nat, |j: int| track_point_at(b@, 8 + 12 * j)),
        decreases len - off,
    {
        let p = TrailData {
            x: read_u32_le(b, off),
            y: read_u32_le(b, off + 4),
            z: read_u32_le(b, off + 8),
        };
        points.push(p);
        off = off + TRACK_POINT_SIZE;
        proof {
            i = i + 1;
        }
        assert(points@ =~= Seq::new(i as nat, |j: int| track_point_at(b@, 8 + 12 * j)));
    }
    assert((len - 8) / 12 == i) by (nonlinear_arith)
        requires
            8 + 12 * i <= len,
            len < 8 + 12 * i + 12,
    ;
    assert(points@ =~= track_points(b@));
    Some(TrackFile { map_id, points })
}

/// A trail: a marker with a track of points and the texture drawn along it.
pub struct Trail {
    pub trail_file: String,
    pub texture: String,
    pub color: Option<String>,
    /// The bit pattern of an `f32`.
    pub anim_speed: u32,
    pub poi: POI,
    pub trail_data: Vec<TrailData>,
}

impl Trail {
    /// A trail with the given track file and texture, no points and no
    /// attributes.
    pub fn new(trail_file: String, texture: String) -> (r: Trail)
        ensures
            r.trail_file == trail_file,
            r.texture == texture,
            r.color is None,
            r.anim_speed == 0,
            r.poi == POI::new_spec(None),
            r.trail_data@.len() == 0,
    {
        Trail {
            trail_file,
            texture,
            color: None,
            anim_speed: 0,
            poi: POI::new(None),
            trail_data: Vec::new(),
        }
    }

    /// Takes in the contents of the trail's track file: the map id becomes the
    /// trail's own, and the points, as the file holds them, follow those
    /// already loaded. Contents shorter than the header change nothing.
    pub fn load_map_trail(&mut self, contents: &[u8])
        ensures
            contents@.len() < 8 ==> *final(self) == *old(self),
            contents@.len() >= 8 ==> {
                &&& final(self).poi == (POI {
                    data: InheritablePOIData {
                        map_id: Some(u32_le(contents@, 4)),
                        ..old(self).poi.data
                    },
                    ..old(self).poi
                })
                &&& final(self).trail_data@ == old(self).trail_data@ + track_points(contents@)
                &&& final(self).trail_file == old(self).trail_file
                &&& final(self).texture == old(self).texture
                &&& final(self).color == old(self).color
                &&& final(self).anim_speed == old(self).anim_speed
            },
    {
        match parse_track(contents) {
            None => {},
            Some(track) => {
                let mut points = track.points;
                self.poi.set_map_id(Some(track.map_id));
                self.trail_data.append(&mut points);
            },
        }
    }
}

} // verus!
