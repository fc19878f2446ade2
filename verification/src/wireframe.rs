//! Wireframe debug panel.
//!
//! Discrete key presses flip a global wireframe flag, toggle the global
//! wireframe color between white and pink, and toggle every per-object
//! override color between green and red. A status label reflecting the state
//! before the toggles is produced for an on-screen text element.

use vstd::prelude::*;

verus! {

/// The debug colors the panel cycles through.
#[derive(Clone, Copy, Debug, PartialEq, Eq, Structural)]
pub enum Color {
    White,
    Pink,
    Green,
    Red,
}

/// The global wireframe configuration: whether wireframes draw on every mesh,
/// and their default color.
#[derive(Clone, Copy, Debug, PartialEq, Eq, Structural)]
pub struct WireframeConfig {
    pub global: bool,
    pub default_color: Color,
}

/// A per-object wireframe color override.
#[derive(Clone, Copy, Debug, PartialEq, Eq, Structural)]
pub struct WireframeColor {
    pub color: Color,
}

/// Which toggle keys were newly pressed this frame.
#[derive(Clone, Copy, Debug, PartialEq, Eq, Structural)]
pub struct ToggleKeys {
    pub z: bool,
    pub x: bool,
    pub c: bool,
}

/// The marker for the panel's button entity.
#[derive(Clone, Copy, Debug, PartialEq, Eq, Structural)]
pub struct WireframeButton;

/// The global flag after one frame: flipped when Z was just pressed.
pub open spec fn spec_toggle_global(global: bool, z: bool) -> bool {
    if z {
        !global
    } else {
        global
    }
}

/// The default color after one frame: X swaps white for pink and anything
/// else back to white.
pub open spec fn spec_toggle_default(color: Color, x: bool) -> Color {
    if x {
        if color == Color::White {
            Color::Pink
        } else {
            Color::White
        }
    } else {
        color
    }
}

/// A per-object override color after one frame: C swaps green for red and
/// anything else back to green.
pub open spec fn spec_toggle_item(color: Color, c: bool) -> Color {
    if c {
        if color == Color::Green {
            Color::Red
        } else {
            Color::Green
        }
    } else {
        color
    }
}

/// The whole configuration after one frame of toggle keys.
pub open spec fn spec_config_after(config: WireframeConfig, keys: ToggleKeys) -> WireframeConfig {
    WireframeConfig {
        global: spec_toggle_global(config.global, keys.z),
        default_color: spec_toggle_default(config.default_color, keys.x),
    }
}

/// The characters the status label shows for the global flag.
pub open spec fn spec_bool_text(b: bool) -> Seq<char> {
    if b {
        "true"@
    } else {
        "false"@
    }
}

/// The characters the status label shows for a color.
pub open spec fn spec_color_text(color: Color) -> Seq<char> {
    match color {
        Color::White => "White"@,
        Color::Pink => "Pink"@,
        Color::Green => "Green"@,
        Color::Red => "Red"@,
    }
}

/// The full status label for a configuration: the key help text followed by
/// the current global flag and default color.
pub open spec fn spec_status_label(config: WireframeConfig) -> Seq<char> {
    "\nControls\n---------------\nZ - Toggle global\nX - Change global color\nC - Change color of the green cube wireframe\n\nWireframeConfig\n-------------\nGlobal: "@
        + spec_bool_text(config.global) + "\nColor: "@ + spec_color_text(config.default_color)
        + "\n"@
}

/// The text shown for the global flag.
pub fn bool_text(b: bool) -> (r: &'static str)
    ensures
        r@ == spec_bool_text(b),
{
    if b {
        "true"
    } else {
        "false"
    }
}

/// The text shown for a color.
pub fn color_text(color: Color) -> (r: &'static str)
    ensures
        r@ == spec_color_text(color),
{
    match color {
        Color::White => "White",
        Color::Pink => "Pink",
        Color::Green => "Green",
        Color::Red => "Red",
    }
}

/// Builds the on-screen status label for a configuration.
pub fn status_label(config: &WireframeConfig) -> (r: String)
    ensures
        r@ == spec_status_label(*config),
{
    let mut s = String::from_str(
        "\nControls\n---------------\nZ - Toggle global\nX - Change global color\nC - Change color of the green cube wireframe\n\nWireframeConfig\n-------------\nGlobal: ",
    );
    s.append(bool_text(config.global));
    s.append("\nColor: ");
    s.append(color_text(config.default_color));
    s.append("\n");
    proof {
        assert(s@ =~= spec_status_label(*config));
    }
    s
}

impl WireframeButton {
    /// One frame of the panel: returns the status label for the state before
    /// any toggle, then applies the Z, X and C toggles to the global
    /// configuration and to every per-object override color.
    pub fn update_colors(
        keys: &ToggleKeys,
        config: &mut WireframeConfig,
        wireframe_colors: &mut Vec<WireframeColor>,
    ) -> (label: String)
        ensures
            label@ == spec_status_label(*old(config)),
            *final(config) == spec_config_after(*old(config), *keys),
            final(wireframe_colors)@.len() == old(wireframe_colors)@.len(),
            forall|i: int|
                0 <= i < old(wireframe_colors)@.len() ==> final(wireframe_colors)@[i]
                    == (WireframeColor {
                    color: spec_toggle_item(old(wireframe_colors)@[i].color, keys.c),
                }),
    {
        let label = status_label(config);
        if keys.z {
            config.global = !config.global;
        }
        if keys.x {
            config.default_color = if config.default_color == Color::White {
                Color::Pink
            } else {
                Color::White
            };
        }
        if keys.c {
            let len: usize = wireframe_colors.len();
            let mut i: usize = 0;
            while i < len
                invariant
                    0 <= i <= len,
                    len == wireframe_colors@.len(),
                    wireframe_colors@.len() == old(wireframe_colors)@.len(),
                    forall|j: int|
                        0 <= j < i ==> wireframe_colors@[j] == (WireframeColor {
                            color: spec_toggle_item(old(wireframe_colors)@[j].color, true),
                        }),
                    forall|j: int|
                        i <= j < len ==> wireframe_colors@[j] == old(wireframe_colors)@[j],
                decreases len - i,
            {
                let next: Color = if wireframe_colors[i].color == Color::Green {
                    Color::Red
                } else {
                    Color::Green
                };
                wireframe_colors[i] = WireframeColor { color: next };
                i = i + 1;
            }
        }
        label
    }
}

/// Law: pressing Z on two frames returns the global wireframe flag to its
/// original value, whatever the other keys did.
pub proof fn lemma_global_toggle_involution(
    config: WireframeConfig,
    first: ToggleKeys,
    second: ToggleKeys,
)
    requires
        first.z,
        second.z,
    ensures
        spec_config_after(spec_config_after(config, first), second).global == config.global,
{
}

/// The global flag after some number of Z presses.
pub open spec fn spec_global_after_presses(global: bool, n: nat) -> bool
    decreases n,
{
    if n == 0 {
        global
    } else {
        !spec_global_after_presses(global, (n - 1) as nat)
    }
}

/// Law: any even number of Z presses leaves the global wireframe flag where
/// it started.
pub proof fn lemma_even_presses_restore(global: bool, n: nat)
    requires
        n % 2 == 0,
    ensures
        spec_global_after_presses(global, n) == global,
    decreases n,
{
    if n >= 2 {
        lemma_even_presses_restore(global, (n - 2) as nat);
        assert(spec_global_after_presses(global, (n - 1) as nat) == !spec_global_after_presses(
            global,
            (n - 2) as nat,
        ));
    }
}

} // verus!
