//! Debug switches and the default key bindings.
use vstd::prelude::*;

verus! {

/// Debug overlays and switches, all off by default.
#[derive(Clone, Copy, Debug, Default, PartialEq, Eq, Structural)]
pub struct DebugOpts {
    pub show_walkable: bool,
    pub show_buildable: bool,
    pub show_destination: bool,
    pub show_home: bool,
    pub show_downstream: bool,
    pub draw_mouse: bool,
    pub pause_on_sanity_failure: bool,
    pub inspect_under_cursor: bool,
}

/// Flip a switch.
pub fn toggle(v: &mut bool)
    ensures
        *final(v) == !*old(v),
{
    *v = !*v
}

/// The key bindings the game starts with, as (key, action) pairs: the camera moves
/// with s/e/d/f and with the arrow keys, and tab opens the console.
pub fn default_keybindings() -> (k: Vec<(&'static str, &'static str)>)
    ensures
        k@.len() == 9,
        k@[0].0@ == "s"@ && k@[0].1@ == "cam_left"@,
        k@[1].0@ == "e"@ && k@[1].1@ == "cam_up"@,
        k@[2].0@ == "d"@ && k@[2].1@ == "cam_down"@,
        k@[3].0@ == "f"@ && k@[3].1@ == "cam_right"@,
        k@[4].0@ == "arrowleft"@ && k@[4].1@ == "cam_left"@,
        k@[5].0@ == "arrowup"@ && k@[5].1@ == "cam_up"@,
        k@[6].0@ == "arrowdown"@ && k@[6].1@ == "cam_down"@,
        k@[7].0@ == "arrowright"@ && k@[7].1@ == "cam_right"@,
        k@[8].0@ == "tab"@ && k@[8].1@ == "cli"@,
{
    vec![
        ("s", "cam_left"),
        ("e", "cam_up"),
        ("d", "cam_down"),
        ("f", "cam_right"),
        ("arrowleft", "cam_left"),
        ("arrowup", "cam_up"),
        ("arrowdown", "cam_down"),
        ("arrowright", "cam_right"),
        ("tab", "cli"),
    ]
}

} // verus!
