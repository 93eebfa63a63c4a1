use gw2_overlay::strips::{is_track_break, ribbon_indices, split_strips};
use gw2_overlay::trail::{parse_track, ToGw2Coordinate, Trail, TrailData};

fn point(x: f32, y: f32, z: f32) -> TrailData {
    TrailData { x: x.to_bits(), y: y.to_bits(), z: z.to_bits() }
}

fn track_bytes(map_id: u32, points: &[[f32; 3]], extra: usize) -> Vec<u8> {
    let mut b = vec![1u8, 0, 0, 0];
    b.extend_from_slice(&map_id.to_le_bytes());
    for p in points {
        for c in p {
            b.extend_from_slice(&c.to_le_bytes());
        }
    }
    b.extend(std::iter::repeat(0xAB).take(extra));
    b
}

#[test]
fn track_yields_all_full_points_in_order() {
    let pts = [[1.0, 2.0, 3.0], [-4.5, 5.25, 6.0], [7.0, 8.0, -9.0]];
    let b = track_bytes(50, &pts, 7);
    let t = parse_track(&b).unwrap();
    assert_eq!(t.map_id, 50);
    assert_eq!(t.points.len(), 3);
    for (i, p) in pts.iter().enumerate() {
        assert_eq!(t.points[i], point(p[0], p[1], p[2]));
    }
}

#[test]
fn track_with_header_only_has_no_points() {
    let b = track_bytes(7, &[], 0);
    let t = parse_track(&b).unwrap();
    assert_eq!(t.map_id, 7);
    assert!(t.points.is_empty());
}

#[test]
fn short_track_file_yields_nothing() {
    assert!(parse_track(&[1, 2, 3, 4, 5, 6, 7]).is_none());
    assert!(parse_track(&[]).is_none());
    let mut trail = Trail::new("a.trl".into(), "a.png".into());
    trail.load_map_trail(&[1, 2, 3]);
    assert!(trail.trail_data.is_empty());
    assert_eq!(trail.poi.data.map_id, None);
}

#[test]
fn loading_a_track_keeps_file_points_and_sets_map_id() {
    let b = track_bytes(1206, &[[1.0, 2.0, 3.0], [4.0, 5.0, -6.0]], 0);
    let mut trail = Trail::new("a.trl".into(), "a.png".into());
    trail.load_map_trail(&b);
    assert_eq!(trail.poi.data.map_id, Some(1206));
    assert_eq!(trail.trail_data, vec![point(1.0, 2.0, 3.0), point(4.0, 5.0, -6.0)]);
    trail.load_map_trail(&b);
    assert_eq!(trail.trail_data.len(), 4);
}

#[test]
fn gw2_coordinate_negates_z() {
    let mut p = point(1.5, -2.0, 0.25);
    assert_eq!(p.as_gw2_coordinate(), point(1.5, -2.0, -0.25));
    p.to_gw2_coordinate();
    assert_eq!(p, point(1.5, -2.0, -0.25));
}

#[test]
fn break_points_truncate_to_zero() {
    assert!(is_track_break(&point(0.0, 0.0, 0.0)));
    assert!(is_track_break(&point(0.5, -0.99, -0.0)));
    assert!(is_track_break(&point(f32::NAN, 0.1, 0.0)));
    assert!(!is_track_break(&point(1.0, 0.0, 0.0)));
    assert!(!is_track_break(&point(0.0, -1.0, 0.0)));
    assert!(!is_track_break(&point(0.0, 0.0, 3.0e9)));
    assert!(!is_track_break(&point(0.0, f32::INFINITY, 0.0)));
}

#[test]
fn one_break_splits_into_two_strips() {
    let a = point(1.0, 2.0, 3.0);
    let b = point(4.0, 5.0, 6.0);
    let c = point(7.0, 8.0, 9.0);
    let d = point(10.0, 11.0, 12.0);
    let s = split_strips(&vec![a, b, point(0.0, 0.0, 0.0), c, d]);
    assert_eq!(s, vec![vec![a, b], vec![c, d]]);
}

#[test]
fn single_point_strip_draws_nothing() {
    let a = point(1.0, 2.0, 3.0);
    let c = point(7.0, 8.0, 9.0);
    let d = point(10.0, 11.0, 12.0);
    let zero = point(0.0, 0.0, 0.0);
    assert!(split_strips(&vec![a]).is_empty());
    assert!(split_strips(&vec![zero, a, zero]).is_empty());
    assert_eq!(split_strips(&vec![a, zero, c, d]), vec![vec![c, d]]);
    assert!(split_strips(&vec![]).is_empty());
}

#[test]
fn trail_strips_use_loaded_points() {
    let b = track_bytes(1, &[[1.0, 1.0, 1.0], [2.0, 2.0, 2.0], [0.0, 0.0, 0.0], [3.0, 3.0, 3.0]], 0);
    let mut trail = Trail::new("a.trl".into(), "a.png".into());
    trail.load_map_trail(&b);
    let strips = trail.generate_strips();
    assert_eq!(strips, vec![vec![point(1.0, 1.0, 1.0), point(2.0, 2.0, 2.0)]]);
}

#[test]
fn ribbon_indices_make_two_triangles_per_quad() {
    assert_eq!(ribbon_indices(2), vec![0, 1, 2, 2, 3, 0, 4, 5, 6, 6, 7, 4]);
    assert!(ribbon_indices(0).is_empty());
}
