use gamecore::resource_slot::ResourceSlot;
use gamecore::building::Building;
use gamecore::building_typ::BuildingTyp;
use gamecore::control::Action;
use gamecore::entity::{EntityType, Id};
use gamecore::pawn::{Pawn, Task};
use gamecore::pawn_typ::PawnTyp;
use gamecore::priority::{slots_by_priority, InOut};
use gamecore::resource::ResourceTyp;
use gamecore::sanity::{sanity_check, SanityError};
use gamecore::team::Team;
use gamecore::tile::Tile;
use gamecore::world::G;

/// A world of sand (walkable everywhere) of the given size.
fn sand_world(w: u16, h: u16) -> G {
    let mut g = G::new((w, h), Team::human1());
    for x in 0..w as i16 {
        for y in 0..h as i16 {
            g.set_tile((x, y), Tile::Sand);
        }
    }
    g
}

fn pawn_id(i: u32) -> Id {
    Id { index: i, type_id: EntityType::Pawn }
}

fn building_id(i: u32) -> Id {
    Id { index: i, type_id: EntityType::Building }
}

#[test]
fn new_world_is_empty_dunes() {
    let g = G::new((10, 8), Team::human1());
    assert_eq!(g.tile_at((3, 3)), Tile::Dunes);
    assert_eq!(g.pawns.len(), 0);
    assert_eq!(g.buildings.len(), 0);
    assert_eq!(g.tick, 0);
    assert_eq!(g.frames_per_tick, 8);
    assert!(sanity_check(&g).is_ok());
}

#[test]
fn building_spawns_its_workers() {
    let mut g = sand_world(20, 20);
    let hq = g.spawn_building(Building::new(BuildingTyp::HQ, (5, 5), g.player)).unwrap();
    assert_eq!(hq, building_id(0));
    assert_eq!(g.pawns.len(), 2);
    let b = g.building(hq).unwrap();
    assert_eq!(b.workers, vec![pawn_id(0), pawn_id(1)]);
    let p = g.pawn(pawn_id(1)).unwrap();
    assert_eq!(p.typ, PawnTyp::Cat);
    assert_eq!(p.home, Some(hq));
    assert_eq!(p.base.tile, (5, 5));
    assert!(sanity_check(&g).is_ok());
}

#[test]
fn cannot_build_on_water_or_over_buildings() {
    let mut g = sand_world(20, 20);
    g.set_tile((12, 12), Tile::Water);
    assert!(g.spawn_building(Building::new(BuildingTyp::Farm, (11, 11), g.player)).is_none());
    assert!(g.spawn_building(Building::new(BuildingTyp::Farm, (2, 2), g.player)).is_some());
    assert!(g.spawn_building(Building::new(BuildingTyp::Farm, (3, 3), g.player)).is_none());
    assert_eq!(g.buildings.len(), 1);
}

#[test]
fn assign_moves_worker_between_buildings() {
    let mut g = sand_world(20, 20);
    let farm = g.spawn_building(Building::new(BuildingTyp::Farm, (2, 2), g.player)).unwrap();
    let quarry = g.spawn_building(Building::new(BuildingTyp::Quarry, (8, 8), g.player)).unwrap();
    let worker = g.building(farm).unwrap().workers[0];
    g.assign_to(worker, quarry);
    assert_eq!(g.pawn(worker).unwrap().home, Some(quarry));
    assert!(!g.building(farm).unwrap().workers.contains(&worker));
    assert!(g.building(quarry).unwrap().workers.contains(&worker));
    assert!(sanity_check(&g).is_ok());
}

#[test]
fn crab_cannot_be_assigned() {
    let mut g = sand_world(20, 20);
    let farm = g.spawn_building(Building::new(BuildingTyp::Farm, (2, 2), g.player)).unwrap();
    let crab = g.spawn_pawn(Pawn::new(PawnTyp::Crab, (9, 9), g.player));
    g.assign_to(crab, farm);
    assert_eq!(g.pawn(crab).unwrap().home, None);
    assert_eq!(g.building(farm).unwrap().workers.len(), 1);
}

#[test]
fn killed_worker_leaves_its_home_and_drops_cargo() {
    let mut g = sand_world(20, 20);
    let farm = g.spawn_building(Building::new(BuildingTyp::Farm, (2, 2), g.player)).unwrap();
    let worker = g.building(farm).unwrap().workers[0];
    let mut p = g.pawns[worker.index as usize].take().unwrap();
    p.cargo = Some(ResourceTyp::Leaf);
    g.pawns[worker.index as usize] = Some(p);
    g.kill_pawn(worker);
    assert!(g.pawn(worker).is_none());
    assert_eq!(g.building(farm).unwrap().workers.len(), 0);
    assert_eq!(g.resources.at((2, 2)), Some(ResourceTyp::Leaf));
    assert_eq!(g.effects.active().len(), 1);
    assert!(sanity_check(&g).is_ok());
}

#[test]
fn sanity_check_finds_pawn_on_water() {
    let mut g = sand_world(10, 10);
    let cat = g.spawn_pawn(Pawn::new(PawnTyp::Cat, (3, 3), g.player));
    g.set_tile((3, 3), Tile::Water);
    match sanity_check(&g) {
        Err(SanityError::NotWalkable { pawn, tile }) => {
            assert_eq!(pawn, cat);
            assert_eq!(tile, (3, 3));
        }
        _ => panic!("expected a walkability error"),
    }
}

#[test]
fn sanity_check_finds_missing_home() {
    let mut g = sand_world(10, 10);
    let cat = g.spawn_pawn(Pawn::new(PawnTyp::Cat, (3, 3), g.player));
    let mut p = g.pawns[0].take().unwrap();
    p.home = Some(building_id(4));
    g.pawns[0] = Some(p);
    assert!(matches!(sanity_check(&g), Err(SanityError::HomeMissing { pawn, home }) if pawn == cat && home == building_id(4)));
}

#[test]
fn nearest_finders() {
    let mut g = sand_world(30, 30);
    g.spawn_resource((10, 10), ResourceTyp::Rock);
    g.spawn_resource((3, 4), ResourceTyp::Rock);
    g.spawn_resource((2, 2), ResourceTyp::Leaf);
    assert_eq!(g.find_near_resource((0, 0), ResourceTyp::Rock), Some((3, 4)));
    assert_eq!(g.find_near_resource((12, 12), ResourceTyp::Rock), Some((10, 10)));
    assert_eq!(g.find_near_resource((0, 0), ResourceTyp::Ore), None);
    let far = g.spawn_building(Building::new(BuildingTyp::Quarry, (20, 20), g.player)).unwrap();
    let near = g.spawn_building(Building::new(BuildingTyp::Quarry, (5, 5), g.player)).unwrap();
    let _enemy = g.spawn_building(Building::new(BuildingTyp::Quarry, (1, 1), Team::human2())).unwrap();
    assert_eq!(g.find_near_receptor((0, 0), g.player, ResourceTyp::Rock), Some(near));
    assert_eq!(g.find_near_receptor((25, 25), g.player, ResourceTyp::Rock), Some(far));
    assert_eq!(g.find_near_receptor((0, 0), g.player, ResourceTyp::Leaf), None);
    assert_eq!(g.find_near_provider((0, 0), g.player, ResourceTyp::Brick), None);
}

#[test]
fn priority_serves_emptiest_input_first() {
    let mut hq = Building::new(BuildingTyp::HQ, (0, 0), Team::human1());
    for _ in 0..500 {
        hq.add_resource(ResourceTyp::Dryweed);
    }
    for _ in 0..100 {
        hq.add_resource(ResourceTyp::Brick);
    }
    let order = slots_by_priority(&hq);
    assert_eq!(order.len(), 3);
    assert_eq!((order[0].0, order[0].1.typ), (InOut::In, ResourceTyp::Iron));
    assert_eq!((order[1].0, order[1].1.typ), (InOut::In, ResourceTyp::Brick));
    assert_eq!((order[2].0, order[2].1.typ), (InOut::In, ResourceTyp::Dryweed));
}

#[test]
fn priority_skips_empty_output() {
    let mut quarry = Building::new(BuildingTyp::Quarry, (0, 0), Team::human1());
    for _ in 0..6 {
        quarry.add_resource(ResourceTyp::Rock);
    }
    let order = slots_by_priority(&quarry);
    assert_eq!(order.len(), 1);
    assert_eq!(order[0].0, InOut::In);
}

#[test]
fn drag_selects_pawns_in_rectangle() {
    let mut g = sand_world(30, 30);
    let crab1 = g.spawn_pawn(Pawn::new(PawnTyp::Crab, (10, 11), g.player));
    let crab2 = g.spawn_pawn(Pawn::new(PawnTyp::Crab, (13, 14), g.player));
    let _far = g.spawn_pawn(Pawn::new(PawnTyp::Crab, (20, 20), g.player));
    g.select_in_rect((9 * 24, 9 * 24), (15 * 24, 16 * 24));
    let mut picked = g.selected_pawn_ids().clone();
    picked.sort_by_key(|id| id.index);
    assert_eq!(picked, vec![crab1, crab2]);
    assert_eq!(*g.selected_entity_ids(), vec![crab1, crab2]);
    g.select_in_rect((15 * 24 + 5, 16 * 24), (9 * 24, 9 * 24 + 3));
    assert_eq!(*g.selected_pawn_ids(), vec![crab1, crab2]);
}

#[test]
fn right_click_action_follows_selection() {
    let mut g = sand_world(30, 30);
    let crab = g.spawn_pawn(Pawn::new(PawnTyp::Crab, (10, 10), g.player));
    g.update_contextual_action((12, 12));
    assert_eq!(g.contextual_action, Action::Nothing);
    g.select_entity(crab);
    g.update_contextual_action((12, 12));
    assert_eq!(g.contextual_action, Action::Move);
    g.spawn_building(Building::new(BuildingTyp::Farm, (12, 12), g.player));
    g.update_contextual_action((13, 13));
    assert_eq!(g.contextual_action, Action::Assign);
}

#[test]
fn command_pawn_move() {
    let mut g = sand_world(30, 30);
    let start = (6, 7);
    let crab = g.spawn_pawn(Pawn::new(PawnTyp::Crab, start, g.player));
    g.select_entity(crab);
    let dst = (8, 9);
    g.command_move(dst);
    // The right click came in the second of four frames; two frames follow it.
    g.major_tick();
    g.major_tick();
    assert_eq!(g.pawn(crab).unwrap().destination(), Some(dst));
    for _ in 0..4 {
        g.major_tick();
    }
    assert_eq!(g.pawn(crab).unwrap().base.tile, dst);
    assert!(g.pawn(crab).unwrap().is_at_destination());
}

#[test]
fn pawn_route_avoids_water() {
    let mut g = sand_world(12, 12);
    for y in 0..10 {
        g.set_tile((5, y), Tile::Water);
    }
    let cat = g.spawn_pawn(Pawn::new(PawnTyp::Cat, (3, 3), g.player));
    let pi = cat.index as usize;
    assert_eq!(g.set_destination(pi, (7, 3)), Some(()));
    assert_eq!(g.pawn(cat).unwrap().destination(), Some((7, 3)));
    let mut steps = 0;
    while !g.pawn(cat).unwrap().is_at_destination() {
        let before = g.pawn(cat).unwrap().base.tile;
        g.walk_to_destination(pi);
        let after = g.pawn(cat).unwrap().base.tile;
        let d = (before.0 - after.0).abs() + (before.1 - after.1).abs();
        assert!(d <= 1);
        assert_ne!(g.tile_at(after), Tile::Water);
        steps += 1;
        assert!(steps < 100);
    }
    assert_eq!(g.pawn(cat).unwrap().base.tile, (7, 3));
}

#[test]
fn turret_cannot_be_sent_anywhere() {
    let mut g = sand_world(12, 12);
    let t = g.spawn_pawn(Pawn::new(PawnTyp::Turret, (3, 3), g.player));
    assert_eq!(g.set_destination(t.index as usize, (5, 3)), None);
    assert_eq!(g.pawn(t).unwrap().destination(), None);
}

#[test]
fn doodling_places_pawns_on_free_tiles() {
    let mut g = sand_world(20, 20);
    assert!(g.doodle_pawn(PawnTyp::Kitten, (3, 3), g.player).is_some());
    assert!(g.doodle_pawn(PawnTyp::Kitten, (3, 3), g.player).is_none());
    g.spawn_building(Building::new(BuildingTyp::Farm, (10, 10), g.player));
    assert!(g.doodle_pawn(PawnTyp::Kitten, (11, 11), g.player).is_none());
    assert_eq!(g.placement_team(BuildingTyp::StarNest), Team::pests());
    assert_eq!(g.placement_team(BuildingTyp::Farm), g.player);
}

#[test]
fn frames_make_ticks() {
    let mut g = sand_world(4, 4);
    g.frames_per_tick = 3;
    assert!(!g.advance_frame());
    assert!(!g.advance_frame());
    assert!(g.advance_frame());
    assert_eq!(g.frame, 3);
    g.paused = true;
    assert!(!g.advance_frame());
    assert_eq!(g.frame, 3);
}

#[test]
fn sleeping_and_tracing_selected() {
    let mut g = sand_world(20, 20);
    let a = g.spawn_pawn(Pawn::new(PawnTyp::Cat, (1, 1), g.player));
    let b = g.spawn_pawn(Pawn::new(PawnTyp::Cat, (2, 2), g.player));
    g.select_entity(a);
    g.sleep_selected(4);
    assert_eq!(g.pawn(a).unwrap().base.sleep, 4);
    assert_eq!(g.pawn(b).unwrap().base.sleep, 0);
    g.selected_pawn_ids.push(b);
    g.trace_selected();
    assert!(!g.pawn(a).unwrap().base.traced);
    assert!(g.pawn(b).unwrap().base.traced);
    g.untrace_all();
    assert!(!g.pawn(b).unwrap().base.traced);
}

#[test]
fn sleeping_pawn_only_counts_down() {
    let mut g = sand_world(20, 20);
    let a = g.spawn_pawn(Pawn::new(PawnTyp::Cat, (1, 1), g.player));
    g.select_entity(a);
    g.sleep_selected(2);
    g.tick_pawn(a.index as usize);
    assert_eq!(g.pawn(a).unwrap().base.sleep, 1);
    g.tick_pawn(a.index as usize);
    assert_eq!(g.pawn(a).unwrap().base.sleep, 0);
}

#[test]
fn worker_harvests_rocks_for_its_quarry() {
    let mut g = sand_world(30, 30);
    let quarry = g.spawn_building(Building::new(BuildingTyp::Quarry, (5, 5), g.player)).unwrap();
    g.spawn_resource((10, 5), ResourceTyp::Rock);
    g.spawn_resource((10, 6), ResourceTyp::Rock);
    let mut delivered = 0u16;
    for _ in 0..200 {
        g.major_tick();
        let b = g.building(quarry).unwrap();
        let rocks = b.input(ResourceTyp::Rock).unwrap().amount;
        delivered = delivered.max(rocks);
        assert!(sanity_check(&g).is_ok());
    }
    assert_eq!(g.resources.at((10, 5)), None);
    assert_eq!(g.resources.at((10, 6)), None);
    assert_eq!(delivered, 2);
    let worker = g.building(quarry).unwrap().workers[0];
    assert_eq!(g.pawn(worker).unwrap().cargo, None);
}

#[test]
fn worker_plans_to_harvest_nearest_resource() {
    let mut g = sand_world(30, 30);
    let quarry = g.spawn_building(Building::new(BuildingTyp::Quarry, (5, 5), g.player)).unwrap();
    g.spawn_resource((9, 5), ResourceTyp::Rock);
    g.spawn_resource((20, 20), ResourceTyp::Rock);
    let worker = g.building(quarry).unwrap().workers[0];
    g.make_plan(worker.index as usize, quarry);
    let p = g.pawn(worker).unwrap();
    assert_eq!(p.task, Task::Harvest(ResourceTyp::Rock));
    assert_eq!(p.destination(), Some((9, 5)));
}

#[test]
fn idle_worker_without_work_sleeps() {
    let mut g = sand_world(30, 30);
    let quarry = g.spawn_building(Building::new(BuildingTyp::Quarry, (5, 5), g.player)).unwrap();
    let worker = g.building(quarry).unwrap().workers[0];
    g.make_plan(worker.index as usize, quarry);
    let p = g.pawn(worker).unwrap();
    assert_eq!(p.task, Task::Idle);
    assert_eq!(p.base.sleep, 5);
}

#[test]
fn crab_attacks_hostile_neighbour() {
    let mut g = sand_world(20, 20);
    let crab = g.spawn_pawn(Pawn::new(PawnTyp::Crab, (5, 5), g.player));
    let victim = g.spawn_pawn(Pawn::new(PawnTyp::Kitten, (6, 5), Team::human2()));
    g.find_target(crab.index as usize);
    assert_eq!(g.pawn(crab).unwrap().target, Some(victim));
    g.attack(crab.index as usize, victim);
    assert_eq!(g.pawn(victim).unwrap().base.health, 2);
    g.attack(crab.index as usize, victim);
    g.attack(crab.index as usize, victim);
    assert!(g.pawn(victim).is_none());
}

#[test]
fn random_draws_stay_in_their_ranges() {
    let mut g = G::new((4, 4), Team::human1());
    for _ in 0..200 {
        let r = g.random_range(-3, 5);
        assert!(-3 <= r && r < 5);
        let q = g.random_range_incl(7, 9);
        assert!(7 <= q && q <= 9);
        let (x, y) = g.random_vec(0, 2);
        assert!((0..2).contains(&x) && (0..2).contains(&y));
        let (a, b) = g.random_vec_incl(-1, -1);
        assert_eq!((a, b), (-1, -1));
        let whole = g.random_range_incl(i32::MIN, i32::MAX);
        let _ = whole;
    }
    assert_eq!(g.tick, 0);
}

#[test]
fn random_range_reaches_both_ends() {
    let mut g = G::new((4, 4), Team::human1());
    let mut seen = [false; 3];
    for _ in 0..300 {
        seen[(g.random_range_incl(10, 12) - 10) as usize] = true;
    }
    assert_eq!(seen, [true, true, true]);
}

#[test]
fn pick_random_picks_one_of_the_options() {
    let mut g = G::new((4, 4), Team::human1());
    let options = [(-1i16, 0i16), (1, 0), (0, -1), (0, 1)];
    let mut seen = [false; 4];
    for _ in 0..300 {
        let d = g.pick_random(&options);
        let i = options.iter().position(|o| *o == d).unwrap();
        seen[i] = true;
    }
    assert_eq!(seen, [true; 4]);
}

#[test]
fn find_pawn_picks_the_nearest_match_within_radius() {
    let mut g = sand_world(20, 20);
    let cat_far = g.spawn_pawn(Pawn::new(PawnTyp::Cat, (10, 14), g.player));
    let crab_near = g.spawn_pawn(Pawn::new(PawnTyp::Crab, (10, 11), g.player));
    let cat_near = g.spawn_pawn(Pawn::new(PawnTyp::Cat, (11, 10), g.player));
    let cat_tie = g.spawn_pawn(Pawn::new(PawnTyp::Cat, (9, 10), g.player));
    let _ = cat_tie;
    // Nearest of all: the crab and the two near cats are at distance 1; the first wins.
    assert_eq!(g.find_pawn((10, 10), 5, |_| true), Some(crab_near));
    // Only cats: the two near cats tie; the first in storage order wins.
    assert_eq!(g.find_pawn((10, 10), 5, |p| p.typ == PawnTyp::Cat), Some(cat_near));
    // The radius is strict: the far cat is at distance 4.
    assert_eq!(g.find_pawn((10, 14), 1, |p| p.typ == PawnTyp::Cat), Some(cat_far));
    assert_eq!(g.find_pawn((10, 10), 1, |_| true), None);
    assert_eq!(g.find_pawn((10, 10), 5, |p| p.typ == PawnTyp::Kitten), None);
}

#[test]
fn resource_totals_sum_all_building_slots() {
    let mut g = sand_world(20, 20);
    let q = g.spawn_building(Building::new(BuildingTyp::Quarry, (2, 2), g.player)).unwrap();
    let hq = g.spawn_building(Building::new(BuildingTyp::HQ, (10, 10), g.player)).unwrap();
    let empty = g.resource_totals();
    assert_eq!(empty, vec![0; 8]);
    {
        let b = g.buildings[q.index as usize].as_mut().unwrap();
        assert_eq!(b.add_resource(ResourceTyp::Rock), Some(()));
        assert_eq!(b.add_resource(ResourceTyp::Rock), Some(()));
    }
    {
        let b = g.buildings[hq.index as usize].as_mut().unwrap();
        assert_eq!(b.add_resource(ResourceTyp::Brick), Some(()));
        assert_eq!(b.add_resource(ResourceTyp::Dryweed), Some(()));
    }
    let pairs = g.buildings[q.index as usize].as_ref().unwrap().iter_resources();
    assert!(pairs.contains(&(ResourceTyp::Rock, 2)));
    let t = g.resource_totals();
    assert_eq!(t[ResourceTyp::Rock.as_usize()], 2);
    assert_eq!(t[ResourceTyp::Brick.as_usize()], 1);
    assert_eq!(t[ResourceTyp::Dryweed.as_usize()], 1);
    assert_eq!(t[ResourceTyp::Leaf.as_usize()], 0);
    assert_eq!(t[0], 0);
}

#[test]
fn entities_are_found_only_under_their_own_kind() {
    let mut g = sand_world(20, 20);
    let pawn = g.spawn_pawn(Pawn::new(PawnTyp::Cat, (3, 4), Team::human2()));
    let building = g.spawn_building(Building::new(BuildingTyp::Farm, (5, 6), Team::human1())).unwrap();
    assert!(pawn != Id::invalid());
    assert!(building != Id::invalid());
    assert!(g.pawn(pawn).is_some());
    assert!(g.building(pawn).is_none());
    assert!(g.pawn(building).is_none());
    assert!(g.building(building).is_some());
}

#[test]
fn command_move_routes_a_pawn_standing_on_the_destination() {
    let mut g = sand_world(20, 20);
    let a = g.spawn_pawn(Pawn::new(PawnTyp::Crab, (7, 7), g.player));
    g.select_entity(a);
    g.command_move((7, 7));
    assert_eq!(g.pawn(a).unwrap().route.destination(), Some((7, 7)));
}

#[test]
fn personal_space_steps_aside_on_open_ground() {
    let mut g = sand_world(20, 20);
    let a = g.spawn_pawn(Pawn::new(PawnTyp::Crab, (7, 7), g.player));
    let _b = g.spawn_pawn(Pawn::new(PawnTyp::Crab, (7, 7), g.player));
    g.take_personal_space(a.index as usize);
    let t = g.pawn(a).unwrap().base.tile;
    assert!([(6, 7), (8, 7), (7, 6), (7, 8)].contains(&t));
}

#[test]
fn kill_selected_kills_only_the_selection() {
    let mut g = sand_world(20, 20);
    let a = g.spawn_pawn(Pawn::new(PawnTyp::Crab, (3, 3), g.player));
    let b = g.spawn_pawn(Pawn::new(PawnTyp::Crab, (5, 5), g.player));
    let farm = g.spawn_building(Building::new(BuildingTyp::Farm, (10, 10), g.player)).unwrap();
    g.select_entity(a);
    g.select_entity(farm);
    g.kill_selected();
    assert!(g.pawn(a).is_none());
    assert!(g.building(farm).is_none());
    assert!(g.pawn(b).is_some());
}

#[test]
fn slot_operations_respect_capacity() {
    let mut s = ResourceSlot::new(ResourceTyp::Rock, 2);
    for _ in 0..5 {
        s.add_one();
    }
    assert_eq!(s.amount(), 2);
    assert_eq!(s.take(3), None);
    assert_eq!(s.try_take_one(), Some(ResourceTyp::Rock));
    assert_eq!(s.take(1), Some(()));
    assert_eq!(s.try_take_one(), None);
    assert!(s.amount() <= s.max && s.typ == ResourceTyp::Rock && s.max == 2);
}

#[test]
fn new_world_has_no_selection_and_default_view() {
    let g = G::new((16, 16), Team::human1());
    assert_eq!(g.camera_pos, (40, 70));
    assert!(g.selected_entity_ids.is_empty() && g.selected_pawn_ids.is_empty());
    assert_eq!(g.contextual_action, Action::Nothing);
    assert!(g.selection_start.is_none());
}

#[test]
fn a_tick_keeps_the_frame_count() {
    let mut g = sand_world(10, 10);
    g.frames_per_tick = 1;
    let f0 = g.frame;
    let due = g.advance_frame();
    assert!(due);
    g.major_tick();
    assert_eq!(g.frame, f0 + 1);
    assert_eq!(g.tick, 1);
}

#[test]
fn destination_search_reaches_42_tiles_around_the_destination() {
    let mut g = sand_world(100, 4);
    let near = g.spawn_pawn(Pawn::new(PawnTyp::Crab, (5, 1), g.player));
    let far = g.spawn_pawn(Pawn::new(PawnTyp::Crab, (1, 1), g.player));
    // The destination lies 41 tiles from the first pawn and 45 from the second.
    assert_eq!(g.set_destination(near.index as usize, (46, 1)), Some(()));
    assert_eq!(g.pawn(near).unwrap().route.destination(), Some((46, 1)));
    assert_eq!(g.set_destination(far.index as usize, (46, 1)), None);
    assert_eq!(g.pawn(far).unwrap().route.destination(), None);
}

#[test]
fn deliver_resource_to_hq() {
    let mut g = sand_world(20, 20);
    g.spawn_resource((3, 3), ResourceTyp::Leaf);
    let hq = g.spawn_building(Building::new(BuildingTyp::HQ, (5, 6), g.player)).unwrap();
    let kitten = g.spawn_pawn(Pawn::new(PawnTyp::Kitten, (8, 7), g.player));
    g.assign_to(kitten, hq);
    assert_eq!(g.pawn(kitten).unwrap().home, Some(hq));
    g.major_tick();
    assert!(sanity_check(&g).is_ok());
}
