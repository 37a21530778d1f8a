//! What the player's mouse does: the contextual action of a right click, and camera
//! panning.
use vstd::prelude::*;
use crate::building_typ::BuildingTyp;
use crate::geom::WorldPos;
use crate::pawn_typ::PawnTyp;
use crate::resource::ResourceTyp;
use crate::team::Team;
use crate::tile::Tile;

verus! {

/// Contextual action, happens when right-clicking.
#[derive(Clone, Copy, PartialEq, Eq, Debug, Structural)]
pub enum Action {
    /// Do nothing. E.g. when no units are selected.
    Nothing,
    /// Move to location. E.g. when the mouse is above empty terrain.
    Move,
    /// Assign workers to a factory.
    Assign,
}

impl Action {
    /// The default action: nothing.
    pub fn default_action() -> (a: Action)
        ensures
            a == Action::Nothing,
    {
        Action::Nothing
    }
}

/// What the left mouse button does on the map.
#[derive(Clone, Copy, PartialEq, Eq, Debug, Structural)]
pub enum Tool {
    /// Select entities (drag a rectangle) and command them (right click).
    Pointer,
    /// Paint the terrain.
    Tile(Tile),
    /// Place a pawn of a kind, for a team.
    Pawn(PawnTyp, Team),
    /// Place a building.
    Building(BuildingTyp),
    /// Drop a loose resource.
    Resource(ResourceTyp),
    /// Pour water into a canal.
    WaterBucket,
}

/// The state of the mouse and the camera keys during one frame.
#[derive(Clone, Copy, Debug)]
pub struct UserInput {
    /// The left button is held.
    pub mouse1_down: bool,
    /// The left button went down this frame.
    pub mouse1_pressed: bool,
    /// The left button went up this frame.
    pub mouse1_released: bool,
    /// The right button went down this frame.
    pub mouse2_pressed: bool,
    /// The camera keys that are held.
    pub cam_down: bool,
    pub cam_up: bool,
    pub cam_left: bool,
    pub cam_right: bool,
    /// Mouse position in world coordinates.
    pub mouse_world: WorldPos,
}

/// The action a right click performs: assign when a building is under the mouse,
/// move when some selected entity can move, nothing otherwise.
pub open spec fn spec_contextual_action(building_under_mouse: bool, some_selected_can_move: bool) -> Action {
    if building_under_mouse {
        Action::Assign
    } else if some_selected_can_move {
        Action::Move
    } else {
        Action::Nothing
    }
}

/// The action a right click performs: assign when a building is under the mouse,
/// move when some selected entity can move, nothing otherwise.
pub fn contextual_action(building_under_mouse: bool, some_selected_can_move: bool) -> (a: Action)
    ensures
        a == spec_contextual_action(building_under_mouse, some_selected_can_move),
{
    if building_under_mouse {
        return Action::Assign;
    }
    if some_selected_can_move {
        return Action::Move;
    }
    Action::Nothing
}

/// Camera speed in pixels per frame.
pub const CAMERA_SPEED: i32 = 3;

/// Camera displacement for one frame, given which of the camera keys (down, up, left,
/// right) are held: each held key moves three pixels its way.
pub fn camera_delta(down: bool, up: bool, left: bool, right: bool) -> (d: WorldPos)
    ensures
        d.0 == 3 * ((if right { 1int } else { 0int }) - (if left { 1int } else { 0int })),
        d.1 == 3 * ((if down { 1int } else { 0int }) - (if up { 1int } else { 0int })),
{
    let mut dx: i32 = 0;
    let mut dy: i32 = 0;
    if down {
        dy = dy + 1;
    }
    if up {
        dy = dy - 1;
    }
    if left {
        dx = dx - 1;
    }
    if right {
        dx = dx + 1;
    }
    (CAMERA_SPEED * dx, CAMERA_SPEED * dy)
}

} // verus!
