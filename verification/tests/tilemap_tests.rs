use twelve_knights_vigil::coordinate::Coordinate;
use twelve_knights_vigil::text::signed_decimal_text;
use twelve_knights_vigil::tilemap::{PathType, TileMap, TileType};

fn on_segment(p: &Coordinate, q: &Coordinate, x: i32, y: i32) -> bool {
    let between = |a: i32, b: i32, v: i32| (a <= v && v <= b) || (b <= v && v <= a);
    (p.y == q.y && y == p.y && between(p.x, q.x, x))
        || (p.x == q.x && x == p.x && between(p.y, q.y, y))
}

#[test]
fn signed_numbers_are_written_with_their_sign() {
    assert_eq!(signed_decimal_text(0), "0");
    assert_eq!(signed_decimal_text(42), "42");
    assert_eq!(signed_decimal_text(-7), "-7");
    assert_eq!(signed_decimal_text(i32::MAX), i32::MAX.to_string());
    assert_eq!(signed_decimal_text(i32::MIN), i32::MIN.to_string());
}

#[test]
fn tiles_are_numbered_row_by_row_and_strangers_are_named() {
    let map = TileMap::new(5, 4);
    assert_eq!(map.coord_to_idx(0, 0), Ok(0));
    assert_eq!(map.coord_to_idx(4, 0), Ok(4));
    assert_eq!(map.coord_to_idx(2, 3), Ok(17));
    assert_eq!(
        map.coord_to_idx(-1, 7),
        Err("Index out of Bounds: [-1, 7]".to_string())
    );
    assert_eq!(
        map.coord_to_idx(5, 0),
        Err("Index out of Bounds: [5, 0]".to_string())
    );
}

#[test]
fn the_path_winds_from_the_left_edge_to_the_right() {
    for (width, height) in [(1, 4), (2, 4), (8, 8), (16, 5), (30, 12)] {
        for _ in 0..40 {
            let map = TileMap::new(width, height);
            let layout = map.generate_random_map_layout();
            assert_eq!(layout.tiles.len(), (width * height) as usize);

            let points = &layout.path_points;
            assert!(points.len() >= 2 && points.len() % 2 == 0);
            assert_eq!(points[0].x, -1);
            assert_eq!(points[points.len() - 1].x, width);
            for point in points {
                assert!(1 <= point.y && point.y < height - 1);
            }
            for (i, pair) in points.windows(2).enumerate() {
                if i % 2 == 0 {
                    assert_eq!(pair[0].y, pair[1].y);
                    let run = pair[1].x - pair[0].x;
                    assert!(run >= 1 && run <= 5);
                } else {
                    assert_eq!(pair[0].x, pair[1].x);
                    assert_ne!(pair[0].y, pair[1].y);
                }
            }

            for y in 0..height {
                for x in 0..width {
                    let idx = map.coord_to_idx(x, y).unwrap();
                    let on_track = points.windows(2).any(|p| on_segment(&p[0], &p[1], x, y));
                    let is_path = matches!(layout.tiles[idx], TileType::Path(_, _));
                    assert_eq!(is_path, on_track, "at ({x}, {y})");
                }
            }
        }
    }
}

#[test]
fn the_path_turns_in_corners_and_the_rest_is_strewn_by_chance() {
    let map = TileMap::new(40, 20);
    let mut corners = 0;
    let mut kinds = std::collections::BTreeSet::new();
    let mut layouts = std::collections::BTreeSet::new();
    for _ in 0..20 {
        let layout = map.generate_random_map_layout();
        for tile in &layout.tiles {
            match tile {
                TileType::Path(PathType::Corner, _) => corners += 1,
                TileType::Path(PathType::Straight, _) => {}
                other => {
                    kinds.insert(format!("{other:?}"));
                }
            }
        }
        layouts.insert(format!("{:?}", layout.path_points));
    }
    assert!(corners > 0);
    assert_eq!(
        kinds.into_iter().collect::<Vec<String>>(),
        vec!["Empty", "Rock", "Tree"]
    );
    assert!(layouts.len() > 1);
}

#[test]
fn a_map_without_columns_has_a_track_of_one_point() {
    let layout = TileMap::new(0, 6).generate_random_map_layout();
    assert!(layout.tiles.is_empty());
    assert_eq!(layout.path_points.len(), 1);
    assert_eq!(layout.path_points[0].x, -1);
}
