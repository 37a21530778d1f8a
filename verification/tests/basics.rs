use gamecore::building_typ::BuildingTyp;
use gamecore::clock::MonotonicClock;
use gamecore::control::{camera_delta, contextual_action, Action};
use gamecore::debugging::{default_keybindings, toggle, DebugOpts};
use gamecore::effects::{Bolt, Crater, Effect, Effects};
use gamecore::geom::{distance_squared, neighbors4, pos_to_tile, tile_to_pos, TileBounds};
use gamecore::pawn_typ::PawnTyp;
use gamecore::resource::ResourceTyp;
use gamecore::resource_slot::ResourceSlot;
use gamecore::route::Route;
use gamecore::team::Team;
use gamecore::tile::Tile;
use gamecore::tilemap::{can_flow, Tilemap};
use gamecore::vec2d::Vec2D;

#[test]
fn slot_fills_up_and_empties() {
    let mut s = ResourceSlot::new(ResourceTyp::Rock, 3);
    assert!(s.is_empty());
    assert_eq!(s.fullness_pct(), 0);
    assert_eq!(s.add_one(), Some(()));
    assert_eq!(s.fullness_pct(), 33);
    assert_eq!(s.add_one(), Some(()));
    assert_eq!(s.add_one(), Some(()));
    assert!(s.is_full());
    assert_eq!(s.fullness_pct(), 100);
    assert_eq!(s.add_one(), None);
    assert_eq!(s.amount(), 3);
    assert!(!s.can_accept(1));
    assert!(s.has_at_least(2));
    assert_eq!(s.take(2), Some(()));
    assert_eq!(s.amount(), 1);
    assert_eq!(s.take(2), None);
    assert_eq!(s.try_take_one(), Some(ResourceTyp::Rock));
    assert_eq!(s.try_take_one(), None);
    assert!(s.can_accept(3));
}

#[test]
fn slot_add_then_take_restores() {
    let mut s = ResourceSlot::new(ResourceTyp::Leaf, 10);
    s.add_one();
    let before = s;
    assert_eq!(s.add_one(), Some(()));
    assert_eq!(s.try_take_one(), Some(ResourceTyp::Leaf));
    assert_eq!(s, before);
}

#[test]
fn slot_amount_written_in_place() {
    let mut s = ResourceSlot::new(ResourceTyp::Ore, 10);
    *s.get_amount() = 7;
    assert_eq!(s.amount(), 7);
    assert_eq!(s.max, 10);
}

#[test]
fn route_hands_out_path_in_order() {
    let mut r = Route::new();
    assert!(r.is_finished());
    assert_eq!(r.destination(), None);
    r.set(vec![(1, 1), (1, 2), (2, 2)]);
    assert_eq!(r.destination(), Some((2, 2)));
    assert!(!r.is_finished());
    assert_eq!(r.next(), Some((1, 1)));
    assert_eq!(r.next(), Some((1, 2)));
    assert_eq!(r.next(), Some((2, 2)));
    assert!(r.is_finished());
    assert_eq!(r.next(), None);
    assert_eq!(r.destination(), Some((2, 2)));
    r.clear();
    assert_eq!(r.destination(), None);
    assert!(r.is_finished());
}

#[test]
fn grid_set_then_at() {
    let mut g: Vec2D<u8> = Vec2D::new((3, 2));
    assert_eq!(g.size(), (3, 2));
    assert_eq!(g.isize(), (3, 2));
    g.set((2, 1), 7);
    g.set((0, 1), 5);
    assert_eq!(*g.at((2, 1)), 7);
    assert_eq!(*g.at((0, 1)), 5);
    assert_eq!(*g.at((1, 0)), 0);
    assert_eq!(g.index((2, 1)), 5);
    let cells = g.enumerate();
    assert_eq!(cells.len(), 6);
    assert_eq!(cells[0], ((0, 0), 0));
    assert_eq!(cells[1], ((0, 1), 5));
    assert_eq!(cells[5], ((2, 1), 7));
    assert_eq!(g.iter().iter().map(|v| *v as u32).sum::<u32>(), 12);
}

#[test]
fn testmap_has_water_and_blocks() {
    let m = Tilemap::testmap((16, 16));
    assert_eq!(m.size(), (16, 16));
    assert_eq!(m.at((4, 4)), Tile::Sand);
    assert_eq!(m.at((2, 3)), Tile::Water);
    assert_eq!(m.at((6, 2)), Tile::Block);
    assert_eq!(m.at((10, 10)), Tile::Dunes);
    assert_eq!(m.at((-1, 3)), Tile::Dunes);
    assert!(can_flow(&m, (3, 5)));
    assert!(!can_flow(&m, (4, 4)));
}

#[test]
fn tilemap_set_outside_is_ignored() {
    let mut m = Tilemap::new((4, 4));
    m.set((1, 2), Tile::Road);
    m.set((9, 9), Tile::Road);
    assert_eq!(m.at((1, 2)), Tile::Road);
    assert_eq!(m.at((9, 9)), Tile::Dunes);
}

#[test]
fn tile_properties() {
    assert_eq!(Tile::all().len(), 10);
    assert_eq!(Tile::Dunes.as_usize(), 1);
    assert_eq!(Tile::GreyStone.as_usize(), 10);
    assert!(Tile::Sand.is_default_walkable());
    assert!(!Tile::Water.is_default_walkable());
    assert!(Tile::Canal.can_have_water());
    assert!(!Tile::Road.can_have_water());
    assert_eq!(Tile::default_tile(), Tile::Dunes);
}

#[test]
fn world_positions_round_towards_zero() {
    assert_eq!(tile_to_pos((2, -3)), (48, -72));
    assert_eq!(pos_to_tile((47, 48)), (1, 2));
    assert_eq!(pos_to_tile((-1, -25)), (0, -1));
    assert_eq!(distance_squared((1, 2), (4, 6)), 25);
    assert_eq!(neighbors4((5, 5)), [(4, 5), (5, 4), (6, 5), (5, 6)]);
}

#[test]
fn rectangles_overlap_and_contain() {
    let a = TileBounds::with_size((0, 0), (2, 2));
    let b = TileBounds::with_size((1, 1), (2, 2));
    let c = TileBounds::with_size((2, 0), (1, 1));
    assert!(a.overlaps(&b));
    assert!(!a.overlaps(&c));
    assert!(a.contains((1, 1)));
    assert!(!a.contains((2, 2)));
    assert!(a.contains_incl((2, 2)));
}

#[test]
fn teams_are_hostile_to_others() {
    let red = Team::human1();
    let blue = Team::human2();
    let pests = Team::pests();
    assert!(red.is_hostile_to(blue));
    assert!(blue.is_hostile_to(red));
    assert!(!red.is_hostile_to(red));
    assert!(pests.is_hostile_to(red));
    assert_eq!(pests.number(), 100);
}

#[test]
fn pawn_kinds() {
    assert_eq!(PawnTyp::all().len(), 5);
    assert!(PawnTyp::Starfish.can_walk_on(Tile::Water));
    assert!(!PawnTyp::Cat.can_walk_on(Tile::Water));
    assert!(PawnTyp::Turret.can_walk_on(Tile::Block));
    assert!(!PawnTyp::Turret.can_move());
    assert!(PawnTyp::Cat.is_worker());
    assert!(!PawnTyp::Crab.is_worker());
    assert_eq!(PawnTyp::Turret.default_health(), 20);
    assert_eq!(PawnTyp::Crab.attack_strength(), 1);
    assert_eq!(PawnTyp::Cat.sprite(Team::human1()), "Manneke_06");
    assert_eq!(PawnTyp::Cat.sprite(Team::human2()), "kit3");
}

#[test]
fn building_kinds() {
    assert_eq!(BuildingTyp::all().len(), 8);
    assert_eq!(BuildingTyp::HQ.size(), (3, 3));
    assert_eq!(BuildingTyp::Farm.size(), (2, 2));
    assert_eq!(BuildingTyp::Quarry.input_resources(), vec![(ResourceTyp::Rock, 10)]);
    assert_eq!(BuildingTyp::Quarry.output_resources(), vec![(ResourceTyp::Brick, 10)]);
    assert_eq!(BuildingTyp::HQ.output_resources(), vec![]);
    assert_eq!(BuildingTyp::StarNest.default_workers(), (PawnTyp::Starfish, 10));
    assert_eq!(BuildingTyp::HQ.default_workers(), (PawnTyp::Cat, 2));
    assert!(BuildingTyp::StarNest.can_build_on(Tile::Water));
    assert!(!BuildingTyp::HQ.can_build_on(Tile::Water));
    assert_eq!(BuildingTyp::HQ.default_health(), 100);
}

#[test]
fn resource_kinds() {
    assert_eq!(ResourceTyp::all().len(), 7);
    assert_eq!(ResourceTyp::Leaf.name(), "Leaf");
}

#[test]
fn effects_expire_after_their_time() {
    let mut fx = Effects::new();
    fx.add_bolt(10, (0, 0), (24, 24));
    fx.add_crater(10, (3, 4));
    assert_eq!(fx.active().len(), 2);
    fx.expire(10);
    assert_eq!(fx.active().len(), 2);
    fx.expire(11);
    assert_eq!(fx.active().len(), 1);
    assert!(matches!(fx.active()[0], (40, Effect::Crater(Crater { tile: (3, 4) }))));
    fx.expire(40);
    assert_eq!(fx.active().len(), 0);
    assert_eq!(Bolt { start: (0, 0), end: (1, 1) }.ttl(), 1);
    assert_eq!(Crater { tile: (0, 0) }.ttl(), 30);
}

#[test]
fn clock_never_runs_backwards() {
    let mut c = MonotonicClock::new();
    c.tick(1000);
    let a = c.micros();
    c.tick(500);
    let b = c.micros();
    c.tick(2000);
    let d = c.micros();
    assert!(a <= b && b <= d);
}

#[test]
fn right_click_actions() {
    assert_eq!(contextual_action(true, true), Action::Assign);
    assert_eq!(contextual_action(false, true), Action::Move);
    assert_eq!(contextual_action(false, false), Action::Nothing);
    assert_eq!(Action::default_action(), Action::Nothing);
    assert_eq!(camera_delta(true, false, true, false), (-3, 3));
    assert_eq!(camera_delta(true, true, true, true), (0, 0));
}

#[test]
fn keybindings_and_switches() {
    let k = default_keybindings();
    assert_eq!(k.len(), 9);
    assert_eq!(k[0], ("s", "cam_left"));
    assert_eq!(k[8], ("tab", "cli"));
    let mut d = DebugOpts::default();
    assert!(!d.show_home);
    toggle(&mut d.show_home);
    assert!(d.show_home);
    toggle(&mut d.show_home);
    assert!(!d.show_home);
}
