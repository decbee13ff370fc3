//! Behaviour of shapes: normalization, placement, clipping, and the catalog.

use game_of_life::board::Board;
use game_of_life::shapes::{curious, oscilators, ships, still, Shape};

fn live_cells(b: &Board) -> Vec<(i32, i32)> {
    let mut r = Vec::new();
    let w = b.width() as i32;
    let h = b.height() as i32;
    for x in 0..w {
        for y in 0..h {
            if b.get(x, y) == Some(true) {
                r.push((x, y));
            }
        }
    }
    r
}

#[test]
fn construction_normalizes_to_zero_minima() {
    let s = Shape::new(vec![(5, 7), (3, 9)]);
    assert_eq!(s.shape, vec![(2, 0), (0, 2)]);
    assert_eq!(s.pos, (3, 7));
    assert_eq!(s.size, (2, 2));
    let min_x = s.shape.iter().map(|p| p.0).min().unwrap();
    let min_y = s.shape.iter().map(|p| p.1).min().unwrap();
    assert_eq!(min_x, 0);
    assert_eq!(min_y, 0);
}

#[test]
fn construction_with_negative_coordinates() {
    let s = Shape::new(vec![(-2, -1), (0, 0), (-1, 3)]);
    assert_eq!(s.shape, vec![(0, 0), (2, 1), (1, 4)]);
    assert_eq!(s.pos, (-2, -1));
    assert_eq!(s.size, (2, 4));
}

#[test]
fn empty_input_degenerates_to_zero_shape() {
    let s = Shape::new(vec![]);
    assert_eq!(s.shape.len(), 0);
    assert_eq!(s.pos, (0, 0));
    assert_eq!(s.size, (0, 0));
    let mut b = Board::create(3, 3);
    assert_eq!(s.add(&mut b, (1, 1)), Some(()));
    assert!(live_cells(&b).is_empty());
}

#[test]
fn every_catalog_shape_is_normalized() {
    let mut shapes = Vec::new();
    shapes.extend(still::all());
    shapes.extend(oscilators::all());
    shapes.extend(ships::all());
    shapes.extend(curious::all());
    assert_eq!(shapes.len(), 14);
    for s in &shapes {
        assert!(!s.shape.is_empty());
        let min_x = s.shape.iter().map(|p| p.0).min().unwrap();
        let min_y = s.shape.iter().map(|p| p.1).min().unwrap();
        assert_eq!((min_x, min_y), (0, 0));
        let max_x = s.shape.iter().map(|p| p.0).max().unwrap();
        let max_y = s.shape.iter().map(|p| p.1).max().unwrap();
        assert_eq!((max_x, max_y), s.size);
        assert_eq!(s.pos, (0, 0));
    }
}

#[test]
fn catalog_order_and_points() {
    let stills = still::all();
    assert_eq!(stills[0].shape, still::block().shape);
    assert_eq!(stills[1].shape, still::beehive().shape);
    assert_eq!(stills[2].shape, still::loaf().shape);
    assert_eq!(stills[3].shape, still::boat().shape);
    assert_eq!(stills[4].shape, still::tub().shape);
    assert_eq!(still::block().shape, vec![(0, 0), (0, 1), (1, 0), (1, 1)]);
    assert_eq!(
        still::beehive().shape,
        vec![(0, 1), (1, 0), (1, 2), (2, 0), (2, 2), (3, 1)]
    );
    let oscs = oscilators::all();
    assert_eq!(oscs.len(), 5);
    assert_eq!(oscs[0].shape, vec![(0, 0), (0, 1), (0, 2)]);
    assert_eq!(oscs[3].shape.len(), 48);
    assert_eq!(oscs[4].shape.len(), 12);
    let ships_all = ships::all();
    assert_eq!(ships_all.len(), 1);
    assert_eq!(
        ships_all[0].shape,
        vec![(2, 1), (1, 2), (0, 0), (0, 1), (0, 2)]
    );
    let curios = curious::all();
    assert_eq!(curios.len(), 3);
    assert_eq!(curios[0].shape, vec![(0, 1), (1, 0), (1, 1), (1, 2), (2, 0)]);
    assert_eq!(
        curios[1].shape,
        vec![(0, 0), (1, 0), (1, 2), (2, 0), (6, 0), (6, 1), (7, 1)]
    );
    assert_eq!(
        curios[2].shape,
        vec![(0, 0), (1, 0), (2, 0), (3, 1), (5, 0), (5, 2), (6, 0)]
    );
}

#[test]
fn block_placement_is_centered() {
    // The block's bounding box is 1x1, so its anchor equals the target.
    let mut b = Board::create(4, 4);
    assert_eq!(still::block().add(&mut b, (1, 1)), Some(()));
    let mut expected = vec![(1, 1), (1, 2), (2, 1), (2, 2)];
    expected.sort();
    let mut got = live_cells(&b);
    got.sort();
    assert_eq!(got, expected);
}

#[test]
fn odd_extent_centres_toward_lower_coordinate() {
    // The blinker spans 3 cells; its half-extent 2/2 = 1 shifts the anchor
    // one cell up, so the line is exactly centred on the target.
    let mut b = Board::create(5, 5);
    assert_eq!(oscilators::blinker().add(&mut b, (2, 2)), Some(()));
    let mut got = live_cells(&b);
    got.sort();
    assert_eq!(got, vec![(2, 1), (2, 2), (2, 3)]);
}

#[test]
fn placement_at_the_edge_clips_silently() {
    let mut b = Board::create(3, 3);
    // Anchored at (0, -1): the point (0, 0) of the blinker lands off-grid.
    let outcome = oscilators::blinker().add(&mut b, (0, 0));
    assert_eq!(outcome, None);
    let mut got = live_cells(&b);
    got.sort();
    assert_eq!(got, vec![(0, 0), (0, 1)]);
}

#[test]
fn shape_can_be_placed_many_times() {
    let shape = still::block();
    let mut b = Board::create(8, 8);
    assert_eq!(shape.add(&mut b, (1, 1)), Some(()));
    assert_eq!(shape.add(&mut b, (5, 5)), Some(()));
    assert_eq!(live_cells(&b).len(), 8);
    // The shape itself is unchanged and reusable.
    assert_eq!(shape.shape, vec![(0, 0), (0, 1), (1, 0), (1, 1)]);
}
