use gamecore::building_typ::BuildingTyp;
use gamecore::control::{Action, Tool, UserInput};
use gamecore::entity::{EntityType, Id};
use gamecore::pawn::Pawn;
use gamecore::pawn_typ::PawnTyp;
use gamecore::resource::ResourceTyp;
use gamecore::team::Team;
use gamecore::tile::Tile;
use gamecore::world::G;
use gamecore::world_input::cursor_sprite;

fn sand_world(w: u16, h: u16) -> G {
    let mut g = G::new((w, h), Team::human1());
    for x in 0..w as i16 {
        for y in 0..h as i16 {
            g.set_tile((x, y), Tile::Sand);
        }
    }
    g
}

/// No key held, the mouse over the centre of tile `t`.
fn idle_at(t: (i32, i32)) -> UserInput {
    UserInput {
        mouse1_down: false,
        mouse1_pressed: false,
        mouse1_released: false,
        mouse2_pressed: false,
        cam_down: false,
        cam_up: false,
        cam_left: false,
        cam_right: false,
        mouse_world: (t.0 * 24 + 12, t.1 * 24 + 12),
    }
}

fn click_at(t: (i32, i32)) -> UserInput {
    UserInput { mouse1_down: true, mouse1_pressed: true, ..idle_at(t) }
}

fn hold_at(t: (i32, i32)) -> UserInput {
    UserInput { mouse1_down: true, ..idle_at(t) }
}

fn release_at(t: (i32, i32)) -> UserInput {
    UserInput { mouse1_released: true, ..idle_at(t) }
}

fn pawn_id(i: u32) -> Id {
    Id { index: i, type_id: EntityType::Pawn }
}

#[test]
fn camera_pans_three_pixels_per_key() {
    let mut g = sand_world(4, 4);
    g.camera_pos = (100, 100);
    g.control_camera(&UserInput { cam_right: true, cam_down: true, ..idle_at((0, 0)) });
    assert_eq!(g.camera_pos, (103, 103));
    g.control_camera(&UserInput { cam_left: true, cam_right: true, cam_up: true, ..idle_at((0, 0)) });
    assert_eq!(g.camera_pos, (103, 100));
}

#[test]
fn tile_tool_paints_while_held() {
    let mut g = sand_world(8, 8);
    let pour = g.doodle_on_map(Tool::Tile(Tile::Road), &hold_at((3, 4)));
    assert!(!pour);
    assert_eq!(g.tile_at((3, 4)), Tile::Road);
    assert_eq!(g.tile_at((4, 4)), Tile::Sand);
    // Without the button held nothing is painted.
    g.doodle_on_map(Tool::Tile(Tile::Water), &idle_at((5, 5)));
    assert_eq!(g.tile_at((5, 5)), Tile::Sand);
}

#[test]
fn pawn_tool_places_once_on_a_free_tile() {
    let mut g = sand_world(8, 8);
    let tool = Tool::Pawn(PawnTyp::Cat, Team::human2());
    g.doodle_on_map(tool, &click_at((2, 2)));
    assert_eq!(g.pawns.len(), 1);
    let p = g.pawn(pawn_id(0)).unwrap();
    assert_eq!((p.typ, p.base.tile, p.base.team), (PawnTyp::Cat, (2, 2), Team::human2()));
    // Holding the button does not place more; clicking an occupied tile neither.
    g.doodle_on_map(tool, &hold_at((3, 3)));
    g.doodle_on_map(tool, &click_at((2, 2)));
    assert_eq!(g.pawns.len(), 1);
}

#[test]
fn building_tool_places_where_buildable() {
    let mut g = sand_world(12, 12);
    g.doodle_on_map(Tool::Building(BuildingTyp::Quarry), &click_at((2, 2)));
    assert_eq!(g.buildings.len(), 1);
    let b = g.buildings[0].as_ref().unwrap();
    assert_eq!((b.typ, b.base.tile, b.base.team), (BuildingTyp::Quarry, (2, 2), g.player));
    // Overlapping the first building: refused.
    g.doodle_on_map(Tool::Building(BuildingTyp::HQ), &click_at((3, 3)));
    assert_eq!(g.buildings.len(), 1);
    // Star nests belong to the pests.
    g.doodle_on_map(Tool::Building(BuildingTyp::StarNest), &click_at((7, 7)));
    assert_eq!(g.buildings.len(), 2);
    assert_eq!(g.buildings[1].as_ref().unwrap().base.team, Team::pests());
}

#[test]
fn resource_tool_drops_on_click() {
    let mut g = sand_world(8, 8);
    g.doodle_on_map(Tool::Resource(ResourceTyp::Rock), &click_at((1, 6)));
    assert_eq!(g.resources.at((1, 6)), Some(ResourceTyp::Rock));
    g.doodle_on_map(Tool::Resource(ResourceTyp::Leaf), &hold_at((2, 6)));
    assert_eq!(g.resources.at((2, 6)), None);
}

#[test]
fn water_bucket_pours_into_canals_only() {
    let mut g = sand_world(8, 8);
    g.set_tile((4, 4), Tile::Canal);
    assert!(g.doodle_on_map(Tool::WaterBucket, &hold_at((4, 4))));
    assert!(!g.doodle_on_map(Tool::WaterBucket, &hold_at((4, 5))));
    assert!(!g.doodle_on_map(Tool::WaterBucket, &idle_at((4, 4))));
}

#[test]
fn dragging_with_the_pointer_selects() {
    let mut g = sand_world(20, 20);
    let a = g.spawn_pawn(Pawn::new(PawnTyp::Crab, (5, 5), g.player));
    let _b = g.spawn_pawn(Pawn::new(PawnTyp::Crab, (15, 15), g.player));
    g.drag_to_select(Tool::Pointer, &click_at((4, 4)));
    assert_eq!(g.selection_start, Some((4 * 24 + 12, 4 * 24 + 12)));
    g.drag_to_select(Tool::Pointer, &release_at((6, 6)));
    assert_eq!(g.selection_start, None);
    assert_eq!(g.selected_entity_ids, vec![a]);
    // Other tools do not select.
    g.drag_to_select(Tool::Tile(Tile::Road), &click_at((14, 14)));
    assert_eq!(g.selection_start, None);
}

#[test]
fn right_click_moves_the_selection() {
    let mut g = sand_world(20, 20);
    let a = g.spawn_pawn(Pawn::new(PawnTyp::Crab, (5, 5), g.player));
    g.select_entity(a);
    g.update_contextual_action((10, 5));
    assert_eq!(g.contextual_action, Action::Move);
    g.command_selected_entities(Tool::Pointer, &UserInput { mouse2_pressed: true, ..idle_at((10, 5)) });
    assert_eq!(g.pawn(a).unwrap().route.destination(), Some((10, 5)));
    // Without a right click nothing happens.
    g.command_selected_entities(Tool::Pointer, &idle_at((1, 1)));
    assert_eq!(g.pawn(a).unwrap().route.destination(), Some((10, 5)));
}

#[test]
fn command_game_runs_all_controls() {
    let mut g = sand_world(20, 20);
    g.camera_pos = (0, 0);
    let tool = Tool::Pawn(PawnTyp::Crab, Team::human1());
    let input = UserInput { cam_up: true, ..click_at((3, 3)) };
    let pour = g.command_game(tool, &input);
    assert!(!pour);
    assert_eq!(g.camera_pos, (0, -3));
    assert_eq!(g.pawns.len(), 1);
    assert_eq!(g.contextual_action, Action::Nothing);
}

#[test]
fn cursor_shows_tool_or_action() {
    let mut g = sand_world(4, 4);
    assert_eq!(cursor_sprite(&g, Tool::WaterBucket), "droplet");
    assert_eq!(cursor_sprite(&g, Tool::Tile(Tile::Water)), "water2");
    assert_eq!(cursor_sprite(&g, Tool::Building(BuildingTyp::HQ)), "hq");
    assert_eq!(cursor_sprite(&g, Tool::Resource(ResourceTyp::Rock)), "rock");
    assert_eq!(cursor_sprite(&g, Tool::Pawn(PawnTyp::Kitten, Team::human1())), "kit7");
    assert_eq!(cursor_sprite(&g, Tool::Pointer), "grid24");
    g.contextual_action = Action::Move;
    assert_eq!(cursor_sprite(&g, Tool::Pointer), "target");
    g.contextual_action = Action::Assign;
    assert_eq!(cursor_sprite(&g, Tool::Pointer), "assign");
}

/// One frame: the inputs act, then the simulation ticks when a tick is due.
fn frame(g: &mut G, tool: Tool, input: UserInput) {
    g.command_game(tool, &input);
    if g.advance_frame() {
        g.major_tick();
    }
}

fn click_frames(g: &mut G, t: (i32, i32)) {
    frame(g, Tool::Pointer, click_at(t));
    frame(g, Tool::Pointer, release_at(t));
}

#[test]
fn click_selects_pawn() {
    let mut g = sand_world(30, 30);
    g.frames_per_tick = 1;
    let crab1 = g.spawn_pawn(Pawn::new(PawnTyp::Crab, (12, 13), g.player));
    let crab2 = g.spawn_pawn(Pawn::new(PawnTyp::Crab, (14, 15), g.player));
    click_frames(&mut g, (12, 13));
    assert_eq!(*g.selected_pawn_ids(), vec![crab1]);
    // A second click on the selected pawn keeps it selected.
    click_frames(&mut g, (12, 13));
    assert_eq!(*g.selected_pawn_ids(), vec![crab1]);
    click_frames(&mut g, (14, 15));
    assert_eq!(*g.selected_pawn_ids(), vec![crab2]);
    // Clicking elsewhere deselects.
    click_frames(&mut g, (26, 27));
    assert!(g.selected_pawn_ids().is_empty());
}

#[test]
fn command_pawn_move_by_right_click() {
    let mut g = sand_world(30, 30);
    g.frames_per_tick = 1;
    let start = (6, 7);
    let crab = g.spawn_pawn(Pawn::new(PawnTyp::Crab, start, g.player));
    g.select_entity(crab);
    let dst = (8, 9);
    frame(&mut g, Tool::Pointer, idle_at((8, 9)));
    frame(&mut g, Tool::Pointer, UserInput { mouse2_pressed: true, ..idle_at((8, 9)) });
    frame(&mut g, Tool::Pointer, idle_at((8, 9)));
    frame(&mut g, Tool::Pointer, idle_at((8, 9)));
    assert_eq!(g.pawn(crab).unwrap().route.destination(), Some(dst));
    for _ in 0..4 {
        frame(&mut g, Tool::Pointer, idle_at((8, 9)));
    }
    assert_eq!(g.pawn(crab).unwrap().base.tile, dst);
}
