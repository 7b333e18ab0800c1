//! What the session shows: which text and colour each pane takes in the
//! current mode, and how the footer is split.
use vstd::prelude::*;
use crate::config::{HoardConfig, Rgb};
use crate::session::{ControlState, EditSelection, State};

verus! {

/// The pane `field` is the one being edited.
pub open spec fn is_edited(app: &State, field: EditSelection) -> bool {
    app.control == ControlState::Edit && field == app.edit_selection
}

/// The text shown in the pane of `command_render`: the working copy while
/// that field is edited, else `s`.
pub fn coerce_string_by_mode(s: String, app: &State, command_render: &EditSelection) -> (r: String)
    ensures
        r@ == if is_edited(app, *command_render) {
            app.string_to_edit@
        } else {
            s@
        },
{
    match app.control {
        ControlState::Search | ControlState::Gpt | ControlState::KeyNotSet => s,
        ControlState::Edit => {
            if *command_render == app.edit_selection {
                return app.string_to_edit.clone();
            }
            s
        },
    }
}

/// The colour of the pane of `command_render`: the secondary colour while
/// that field is edited, else the primary colour.
pub fn get_color(app: &State, config: &HoardConfig, command_render: &EditSelection) -> (r: Rgb)
    requires
        config.primary_color is Some,
        config.secondary_color is Some,
    ensures
        r == if is_edited(app, *command_render) {
            config.secondary_color->0
        } else {
            config.primary_color->0
        },
{
    let highlighted = match config.secondary_color {
        Some(c) => c,
        None => (0, 0, 0),
    };
    let normal = match config.primary_color {
        Some(c) => c,
        None => (0, 0, 0),
    };
    match app.control {
        ControlState::Search | ControlState::Gpt | ControlState::KeyNotSet => normal,
        ControlState::Edit => {
            if *command_render == app.edit_selection {
                return highlighted;
            }
            normal
        },
    }
}

/// The percentages of the footer's left and right parts: an even split,
/// except in edit mode where the left part takes nearly all.
pub fn get_footer_constraints(control: &ControlState) -> (r: (u16, u16))
    ensures
        r == if *control == ControlState::Edit {
            (99u16, 1u16)
        } else {
            (50u16, 50u16)
        },
{
    match control {
        ControlState::Search | ControlState::Gpt | ControlState::KeyNotSet => (50, 50),
        ControlState::Edit => (99, 1),
    }
}

/// The percentages of the margins on either side of a centred part that
/// takes `percent` of its container.
pub fn centered_margins(percent: u16) -> (r: u16)
    requires
        percent <= 100,
    ensures
        r == (100 - percent) / 2,
{
    (100 - percent) / 2
}

} // verus!
