//! What the player's mouse and keys do to the game during one frame: panning the
//! camera, drawing on the map with the active tool, dragging a selection, and
//! commanding the selection with a right click.
use vstd::prelude::*;
use crate::building::{Building, footprint_fits, fresh_slots};
use crate::building_typ::{
    BuildingTyp, spec_building_health, spec_building_sprite, spec_default_workers, spec_input_resources, spec_output_resources,
};
use crate::control::{Action, Tool, UserInput, camera_delta, spec_contextual_action};
use crate::entity::{Base, EntityType, Id};
use crate::geom::{TilePos, WorldPos, div_trunc};
use crate::pawn_typ::spec_pawn_sprite;
use crate::resource::spec_resource_sprite;
use crate::team::Team;
use crate::tile::{Sprite, Tile, spec_default_walkable, spec_tile_sprite};
use crate::world::G;
use crate::world_build::{is_new_worker, new_pawn_ids};
use crate::world_control::{
    building_covers, buildings_in, drag_pos_ok, drag_pos_valid, drag_rect, move_outcome, pawns_in, some_selected_mover, tile_occupied,
};

verus! {

/// The tile under world position `p`.
pub open spec fn spec_tile_of(p: WorldPos) -> TilePos {
    (div_trunc(p.0 as int, 24) as i16, div_trunc(p.1 as int, 24) as i16)
}

/// Whether the camera can pan one step in every direction without leaving the
/// range of `i32`.
pub open spec fn camera_ok(c: WorldPos) -> bool {
    i32::MIN + 3 <= c.0 <= i32::MAX - 3 && i32::MIN + 3 <= c.1 <= i32::MAX - 3
}

/// 1 if `b` holds, else 0.
pub open spec fn one_if(b: bool) -> int {
    if b { 1 } else { 0 }
}

/// The camera position `c` after one frame of panning with the keys of `input`:
/// three pixels per frame in the direction of each held key.
pub open spec fn panned(c: WorldPos, input: UserInput) -> WorldPos {
    (
        (c.0 + 3 * (one_if(input.cam_right) - one_if(input.cam_left))) as i32,
        (c.1 + 3 * (one_if(input.cam_down) - one_if(input.cam_up))) as i32,
    )
}

/// `b`, stored last in `g1`, is a new building of kind `typ` placed on `tile` in
/// `g0` by the building tool: it belongs to the pests if it is a star nest and to
/// the player otherwise, it has the next building identifier, full health, no
/// sleep, empty slots of its kind, and its default workers are the pawns spawned
/// after the pawns of `g0`, each of its default kind, on `tile`, of its team and
/// working at it.
pub open spec fn placed_building(g0: G, g1: G, b: Building, typ: BuildingTyp, tile: TilePos) -> bool {
    let team = if typ == BuildingTyp::StarNest { Team(100) } else { g0.player };
    let id = Id { index: g0.buildings@.len() as u32, type_id: EntityType::Building };
    let (ptyp, n) = spec_default_workers(typ);
    let ids = new_pawn_ids(g0.pawns@.len(), n as nat);
    &&& b.typ == typ
    &&& b.base == (Base { id, ..Base::new_spec(tile, team, spec_building_health()) })
    &&& b.spec_inputs() == fresh_slots(spec_input_resources(typ))
    &&& b.spec_outputs() == fresh_slots(spec_output_resources(typ))
    &&& b.workers@ == ids
    &&& forall|m: int| 0 <= m < n ==> is_new_worker(#[trigger] g1.get_pawn(ids[m]), ids[m], ptyp, tile, team, id)
}

/// What drawing on the map with `tool` during a frame with `input` does to `g0`
/// (giving `g1`); `pour` tells whether water is to be poured under the mouse.
///
/// While the left button is held: a terrain tool paints the tile under the mouse
/// (every frame); a pawn, building or resource tool places one on the tile under
/// the mouse when the button goes down (a pawn only on a free tile, a building only
/// where it can be built; star nests belong to the pests, other buildings to the
/// player); the water bucket pours into a canal.
pub open spec fn doodle_outcome(g0: G, g1: G, tool: Tool, input: UserInput, pour: bool) -> bool {
    let mouse = spec_tile_of(input.mouse_world);
    if !input.mouse1_down {
        g1 == g0 && !pour
    } else {
        match tool {
            Tool::Pointer => g1 == g0 && !pour,
            Tool::Tile(mat) => {
                &&& !pour
                &&& g1.tilemap.spec_size() == g0.tilemap.spec_size()
                &&& crate::tilemap::in_map(g0.tilemap.spec_size(), mouse) ==> g1.tilemap.spec_at(mouse) == mat
                &&& forall|p: TilePos| p != mouse ==> #[trigger] g1.tilemap.spec_at(p) == g0.tilemap.spec_at(p)
                &&& g1.resources@ == (if spec_default_walkable(g1.tilemap.spec_at(mouse)) {
                    g0.resources@
                } else {
                    g0.resources@.remove(mouse)
                })
                &&& g1.pawns@ == g0.pawns@
                &&& g1.buildings@ == g0.buildings@
            },
            Tool::Pawn(typ, team) => {
                &&& !pour
                &&& if !input.mouse1_pressed || tile_occupied(g0, mouse) {
                    g1 == g0
                } else {
                    &&& g1.pawns@.len() == g0.pawns@.len() + 1
                    &&& forall|i: int| 0 <= i < g0.pawns@.len() ==> #[trigger] g1.pawns@[i] == g0.pawns@[i]
                    &&& g1.pawns@.last() matches Some(p) && p.typ == typ && p.base.tile == mouse && p.base.team == team
                        && p.home is None && p.cargo is None && p.task == crate::pawn::Task::Idle
                    &&& g1.buildings@ == g0.buildings@
                    &&& g1.tilemap == g0.tilemap
                    &&& g1.resources@ == g0.resources@
                }
            },
            Tool::Building(typ) => {
                &&& !pour
                &&& if !input.mouse1_pressed || !footprint_fits(mouse, typ) || !g0.footprint_buildable(mouse, typ) {
                    g1.pawns@ == g0.pawns@ && g1.buildings@ == g0.buildings@
                } else {
                    &&& g1.buildings@.len() == g0.buildings@.len() + 1
                    &&& forall|i: int| 0 <= i < g0.buildings@.len() ==> #[trigger] g1.buildings@[i] == g0.buildings@[i]
                    &&& g1.buildings@.last() matches Some(b) && placed_building(g0, g1, b, typ, mouse)
                    &&& g1.pawns@.len() == g0.pawns@.len() + spec_default_workers(typ).1
                    &&& forall|i: int| 0 <= i < g0.pawns@.len() ==> #[trigger] g1.pawns@[i] == g0.pawns@[i]
                }
                &&& g1.tilemap == g0.tilemap
                &&& g1.resources@ == g0.resources@
            },
            Tool::Resource(typ) => {
                &&& !pour
                &&& if input.mouse1_pressed {
                    &&& g1.resources@ == g0.resources@.insert(mouse, typ)
                    &&& g1.pawns@ == g0.pawns@
                    &&& g1.buildings@ == g0.buildings@
                    &&& g1.tilemap == g0.tilemap
                } else {
                    g1 == g0
                }
            },
            Tool::WaterBucket => g1 == g0 && pour == (g0.tilemap.spec_at(mouse) == Tile::Canal),
        }
    }
}

/// What dragging with the pointer during a frame with `input` does to `g0` (giving
/// `g1`): pressing the left button starts a selection rectangle at the mouse;
/// releasing it selects what the rectangle covers (the pawns in it also become the
/// pawn selection) and ends the drag (a rectangle
/// whose start lies where tile coordinates run out selects nothing). Other tools
/// do not select.
pub open spec fn drag_outcome(g0: G, g1: G, tool: Tool, input: UserInput) -> bool {
    let start = if input.mouse1_pressed { Some(input.mouse_world) } else { g0.selection_start };
    if tool != Tool::Pointer {
        g1 == g0
    } else if !input.mouse1_released {
        g1 == (G { selection_start: start, ..g0 })
    } else {
        &&& g1.selection_start is None
        &&& match start {
            Some(s) if drag_pos_ok(s) => {
                let sel = drag_rect(s, input.mouse_world);
                &&& g1.selected_entity_ids@ == pawns_in(g0, sel, g0.pawns@.len()) + buildings_in(g0, sel, g0.buildings@.len())
                &&& g1.selected_pawn_ids@ == pawns_in(g0, sel, g0.pawns@.len())
            },
            _ => g1.selected_entity_ids@ == g0.selected_entity_ids@ && g1.selected_pawn_ids@ == g0.selected_pawn_ids@,
        }
        &&& g1 == (G {
            selection_start: None,
            selected_entity_ids: g1.selected_entity_ids,
            selected_pawn_ids: g1.selected_pawn_ids,
            ..g0
        })
    }
}

/// What a right click during a frame with `input` does to `g0` (giving `g1`): with
/// the pointer, when the contextual action is to move, the selected pawns are sent
/// to the tile under the mouse. Nothing else happens.
pub open spec fn command_outcome(g0: G, g1: G, tool: Tool, input: UserInput) -> bool {
    if tool == Tool::Pointer && input.mouse2_pressed && g0.contextual_action == Action::Move {
        move_outcome(g0, g1, spec_tile_of(input.mouse_world))
    } else {
        g1 == g0
    }
}

/// Name of the sprite drawn under the mouse: that of what the tool places, or, for
/// the pointer, that of the contextual action.
pub open spec fn spec_cursor_sprite(tool: Tool, action: Action) -> Seq<char> {
    match tool {
        Tool::Tile(t) => spec_tile_sprite(t),
        Tool::Pawn(typ, team) => spec_pawn_sprite(typ, team),
        Tool::Building(typ) => spec_building_sprite(typ),
        Tool::Resource(typ) => spec_resource_sprite(typ),
        Tool::Pointer => match action {
            Action::Move => "target"@,
            Action::Assign => "assign"@,
            Action::Nothing => "grid24"@,
        },
        Tool::WaterBucket => "droplet"@,
    }
}

/// The sprite drawn under the mouse when `tool` is active.
pub fn cursor_sprite(g: &G, tool: Tool) -> (s: Sprite)
    ensures
        s@ == spec_cursor_sprite(tool, g.contextual_action),
{
    match tool {
        Tool::Tile(t) => t.sprite(),
        Tool::Pawn(typ, team) => typ.sprite(team),
        Tool::Building(typ) => typ.sprite(),
        Tool::Resource(typ) => typ.sprite(),
        Tool::Pointer => match g.contextual_action {
            Action::Move => "target",
            Action::Assign => "assign",
            Action::Nothing => "grid24",
        },
        Tool::WaterBucket => "droplet",
    }
}

impl G {
    /// Pan the camera with the held camera keys.
    pub fn control_camera(&mut self, input: &UserInput)
        requires
            camera_ok(old(self).camera_pos),
        ensures
            *final(self) == (G { camera_pos: panned(old(self).camera_pos, *input), ..*old(self) }),
    {
        let d = camera_delta(input.cam_down, input.cam_up, input.cam_left, input.cam_right);
        self.camera_pos = (self.camera_pos.0 + d.0, self.camera_pos.1 + d.1);
    }

    /// Draw on the map with `tool` (see `doodle_outcome`). Returns whether water is
    /// to be poured on the tile under the mouse (the water bucket over a canal).
    pub fn doodle_on_map(&mut self, tool: Tool, input: &UserInput) -> (pour: bool)
        requires
            old(self).wf(),
            drag_pos_ok(input.mouse_world),
            old(self).pawns@.len() + 12 < u32::MAX,
            old(self).buildings@.len() + 1 < u32::MAX,
        ensures
            final(self).wf(),
            doodle_outcome(*old(self), *final(self), tool, *input, pour),
    {
        if !input.mouse1_down {
            return false;
        }
        let mouse = crate::geom::pos_to_tile(input.mouse_world);
        match tool {
            Tool::Pointer => false,
            Tool::Tile(mat) => {
                self.set_tile(mouse, mat);
                false
            },
            Tool::Pawn(typ, team) => {
                if input.mouse1_pressed {
                    let r = self.doodle_pawn(typ, mouse, team);
                    proof {
                        if r is Some {
                            let id = r.unwrap();
                            assert(self.pawns@[id.index as int] == self.pawns@.last());
                        }
                    }
                }
                false
            },
            Tool::Building(typ) => {
                if input.mouse1_pressed && crate::building::fits_footprint(mouse, typ) {
                    let team = self.placement_team(typ);
                    let b = Building::new(typ, mouse, team);
                    let r = self.spawn_building(b);
                    proof {
                        if r is Some {
                            let id = r.unwrap();
                            assert(self.buildings@[id.index as int] == self.buildings@.last());
                            assert(self.get_building(id) == self.buildings@.last());
                        }
                    }
                }
                false
            },
            Tool::Resource(typ) => {
                if input.mouse1_pressed {
                    self.spawn_resource(mouse, typ);
                }
                false
            },
            Tool::WaterBucket => {
                let t = self.tile_at(mouse);
                t == Tile::Canal
            },
        }
    }

    /// Drag a selection rectangle with the pointer (see `drag_outcome`).
    pub fn drag_to_select(&mut self, tool: Tool, input: &UserInput)
        requires
            old(self).wf(),
            drag_pos_ok(input.mouse_world),
        ensures
            final(self).wf(),
            drag_outcome(*old(self), *final(self), tool, *input),
    {
        if tool != Tool::Pointer {
            return;
        }
        let start = if input.mouse1_pressed { Some(input.mouse_world) } else { self.selection_start };
        if input.mouse1_released {
            match start {
                Some(s) => {
                    if drag_pos_valid(s) {
                        self.select_in_rect(s, input.mouse_world);
                    }
                },
                None => {},
            }
            self.selection_start = None;
        } else {
            self.selection_start = start;
        }
    }

    /// Command the selection with a right click (see `command_outcome`).
    pub fn command_selected_entities(&mut self, tool: Tool, input: &UserInput)
        requires
            old(self).wf(),
            drag_pos_ok(input.mouse_world),
        ensures
            final(self).wf(),
            command_outcome(*old(self), *final(self), tool, *input),
    {
        if tool == Tool::Pointer && input.mouse2_pressed {
            match self.contextual_action {
                Action::Move => {
                    let mouse = crate::geom::pos_to_tile(input.mouse_world);
                    self.command_move(mouse);
                },
                Action::Assign => {},
                Action::Nothing => {},
            }
        }
    }

    /// The player's inputs of one frame act on the game: the camera pans, the active
    /// tool draws on the map, the pointer drags a selection, the contextual action
    /// is updated for the tile under the mouse, and a right click commands the
    /// selection, in this order. Returns whether water is to be poured on the tile
    /// under the mouse.
    pub fn command_game(&mut self, tool: Tool, input: &UserInput) -> (pour: bool)
        requires
            old(self).wf(),
            camera_ok(old(self).camera_pos),
            drag_pos_ok(input.mouse_world),
            old(self).pawns@.len() + 12 < u32::MAX,
            old(self).buildings@.len() + 1 < u32::MAX,
        ensures
            final(self).wf(),
            exists|g1: G, g2: G, g3: G, g4: G| {
                &&& g1 == (G { camera_pos: panned(old(self).camera_pos, *input), ..*old(self) })
                &&& doodle_outcome(g1, g2, tool, *input, pour)
                &&& drag_outcome(g2, g3, tool, *input)
                &&& g4 == (G {
                    contextual_action: spec_contextual_action(
                        building_covers(g3, spec_tile_of(input.mouse_world)),
                        some_selected_mover(g3),
                    ),
                    ..g3
                })
                &&& command_outcome(g4, *final(self), tool, *input)
            },
    {
        self.control_camera(input);
        let ghost g1 = *self;
        let pour = self.doodle_on_map(tool, input);
        let ghost g2 = *self;
        self.drag_to_select(tool, input);
        let ghost g3 = *self;
        let mouse = crate::geom::pos_to_tile(input.mouse_world);
        self.update_contextual_action(mouse);
        let ghost g4 = *self;
        self.command_selected_entities(tool, input);
        pour
    }
}

/// Placing a building with the building tool where it can be built adds exactly
/// one building, stored after the others under the next building identifier: it is
/// of the chosen kind, on the tile under the mouse, of the pests' team for a star
/// nest and of the player's otherwise, at full health (100), awake, with a slot of
/// the kind's tables for each input and output, all of them empty; and its workers
/// are as many new pawns as its kind employs, each of the kind's worker kind, at
/// full health, on the same tile, of the same team and working at it.
pub proof fn lemma_building_tool_places_new_building(g0: G, g1: G, typ: BuildingTyp, input: UserInput, pour: bool)
    requires
        doodle_outcome(g0, g1, Tool::Building(typ), input, pour),
        input.mouse1_down,
        input.mouse1_pressed,
        footprint_fits(spec_tile_of(input.mouse_world), typ),
        g0.footprint_buildable(spec_tile_of(input.mouse_world), typ),
    ensures
        ({
            let tile = spec_tile_of(input.mouse_world);
            let team = if typ == BuildingTyp::StarNest { Team(100) } else { g0.player };
            let id = Id { index: g0.buildings@.len() as u32, type_id: EntityType::Building };
            let (ptyp, n) = spec_default_workers(typ);
            &&& !pour
            &&& g1.buildings@.len() == g0.buildings@.len() + 1
            &&& forall|i: int| 0 <= i < g0.buildings@.len() ==> #[trigger] g1.buildings@[i] == g0.buildings@[i]
            &&& g1.buildings@.last() matches Some(b) && {
                &&& b.typ == typ
                &&& b.base.id == id
                &&& b.base.tile == tile
                &&& b.base.team == team
                &&& b.base.health == 100
                &&& b.base.sleep == 0
                &&& b.spec_inputs().len() == spec_input_resources(typ).len()
                &&& b.spec_outputs().len() == spec_output_resources(typ).len()
                &&& forall|k: int| 0 <= k < b.spec_inputs().len() ==> {
                    &&& (#[trigger] b.spec_inputs()[k]).amount == 0
                    &&& b.spec_inputs()[k].typ == spec_input_resources(typ)[k].0
                    &&& b.spec_inputs()[k].max == spec_input_resources(typ)[k].1
                }
                &&& forall|k: int| 0 <= k < b.spec_outputs().len() ==> {
                    &&& (#[trigger] b.spec_outputs()[k]).amount == 0
                    &&& b.spec_outputs()[k].typ == spec_output_resources(typ)[k].0
                    &&& b.spec_outputs()[k].max == spec_output_resources(typ)[k].1
                }
                &&& b.workers@.len() == n
                &&& forall|m: int| 0 <= m < n ==> {
                    let w = #[trigger] b.workers@[m];
                    &&& w == (Id { index: (g0.pawns@.len() + m) as u32, type_id: EntityType::Pawn })
                    &&& g1.get_pawn(w) matches Some(p) && p.typ == ptyp && p.base.id == w && p.base.tile == tile
                        && p.base.team == team && p.home == Some(id)
                        && p.base.health == crate::pawn_typ::spec_pawn_health(ptyp)
                }
            }
            &&& g1.pawns@.len() == g0.pawns@.len() + n
            &&& forall|i: int| 0 <= i < g0.pawns@.len() ==> #[trigger] g1.pawns@[i] == g0.pawns@[i]
        }),
{
    let tile = spec_tile_of(input.mouse_world);
    let (ptyp, n) = spec_default_workers(typ);
    let ids = new_pawn_ids(g0.pawns@.len(), n as nat);
    let b = g1.buildings@.last().unwrap();
    assert(placed_building(g0, g1, b, typ, tile));
    assert forall|m: int| 0 <= m < n implies is_new_worker(#[trigger] g1.get_pawn(ids[m]), ids[m], ptyp, tile, b.base.team, b.base.id) by {}
}

} // verus!
