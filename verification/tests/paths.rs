use gamecore::pathfinder::{
    diag_successors, fits_region, isqrt, path_heuristic, same_tile, weighted_path_to, weighted_path_with_diag, weighted_successors,
};
use gamecore::team::Team;
use gamecore::tile::Tile;
use gamecore::world::G;

fn adjacent(a: (i16, i16), b: (i16, i16)) -> bool {
    (a.0 - b.0).abs() + (a.1 - b.1).abs() == 1
}

#[test]
fn integer_square_roots() {
    assert_eq!(isqrt(0), 0);
    assert_eq!(isqrt(1), 1);
    assert_eq!(isqrt(24), 4);
    assert_eq!(isqrt(25), 5);
    assert_eq!(isqrt(26), 5);
    assert_eq!(isqrt(2 * 65535 * 65535), 92680);
}

#[test]
fn heuristic_adds_cost_to_distance() {
    assert_eq!(path_heuristic((0, 0), (3, 4), &|_p: (i16, i16)| 2u8), 7);
    assert_eq!(path_heuristic((0, 0), (1, 1), &|_p: (i16, i16)| 0u8), 1);
}

#[test]
fn successors_stay_in_reach() {
    let v = weighted_successors((0, 0), (0, 0), 1, &|_p: (i16, i16)| true, &|_p: (i16, i16)| 3u8);
    assert!(v.is_empty());
    let v = weighted_successors((0, 0), (0, 0), 2, &|p: (i16, i16)| p != (1, 0), &|_p: (i16, i16)| 3u8);
    assert_eq!(v, vec![((-1, 0), 3), ((0, -1), 3), ((0, 1), 3)]);
}

#[test]
fn path_on_open_grid() {
    let path = weighted_path_to((0, 0), (2, 1), 10, |_p| true, |_p| 1).unwrap();
    assert_eq!(path.first(), Some(&(0, 0)));
    assert_eq!(path.last(), Some(&(2, 1)));
    assert_eq!(path.len(), 4);
    for w in path.windows(2) {
        assert!(adjacent(w[0], w[1]));
    }
}

#[test]
fn path_to_start_is_start() {
    assert_eq!(weighted_path_to((5, 5), (5, 5), 3, |_p| false, |_p| 1), Some(vec![(5, 5)]));
}

#[test]
fn path_around_wall() {
    let wall = |p: (i16, i16)| !(p.0 == 2 && p.1 <= 3);
    let path = weighted_path_to((0, 0), (4, 0), 20, wall, |_p| 1).unwrap();
    assert_eq!(path.last(), Some(&(4, 0)));
    for w in path.windows(2) {
        assert!(adjacent(w[0], w[1]));
        assert!(wall(w[1]));
    }
}

#[test]
fn no_path_when_walled_in() {
    let closed = |p: (i16, i16)| p == (0, 0);
    assert_eq!(weighted_path_to((0, 0), (3, 0), 10, closed, |_p| 1), None);
}

#[test]
fn no_path_beyond_reach() {
    assert_eq!(weighted_path_to((0, 0), (5, 0), 3, |_p| true, |_p| 1), None);
}

#[test]
fn region_limits() {
    assert!(fits_region((0, 0), 1000));
    assert!(!fits_region((32767, 0), 0));
    assert!(!fits_region((-32700, 0), 100));
    assert!(same_tile((1, 2), (1, 2)));
    assert!(!same_tile((1, 2), (2, 1)));
}


fn sand(w: u16, h: u16) -> G {
    let mut g = G::new((w, h), Team::human1());
    for x in 0..w as i16 {
        for y in 0..h as i16 {
            g.set_tile((x, y), Tile::Sand);
        }
    }
    g
}

#[test]
fn diagonal_path_cuts_corners() {
    let g = sand(10, 10);
    let path = weighted_path_with_diag(&g, (2, 2), (5, 5), 10, |_p| true, |_p| 0).unwrap();
    assert_eq!(path, vec![(2, 2), (3, 3), (4, 4), (5, 5)]);
}

#[test]
fn diagonal_successors_cost_two_and_three() {
    let g = sand(10, 10);
    let v = diag_successors(&g, (5, 5), (5, 5), 3, &|p: (i16, i16)| p != (6, 5), &|_p: (i16, i16)| 1u8);
    assert_eq!(v.len(), 7);
    assert!(v.contains(&((4, 5), 3)));
    assert!(v.contains(&((6, 6), 4)));
    assert!(!v.iter().any(|(p, _)| *p == (6, 5)));
}

#[test]
fn diagonal_path_none_when_walled_in() {
    let g = sand(10, 10);
    assert_eq!(weighted_path_with_diag(&g, (2, 2), (7, 7), 10, |p| p == (2, 2), |_p| 0), None);
    assert_eq!(weighted_path_with_diag(&g, (2, 2), (2, 2), 10, |_p| false, |_p| 0), Some(vec![(2, 2)]));
}
