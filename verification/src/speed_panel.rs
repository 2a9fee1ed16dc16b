//! The buttons that set the pace.
use crate::client::{Speed, Ui};
use crate::region_panel::{button_bg, button_look, ButtonLook};
use vstd::prelude::*;

verus! {

/// What the button of a speed says.
pub open spec fn speed_text(speed: Speed) -> Seq<char> {
    match speed {
        Speed::Paused => "停止 [Space]"@,
        Speed::X1 => "1x [1]"@,
        Speed::X5 => "5x [2]"@,
        Speed::X20 => "20x [3]"@,
    }
}

/// What the button of a speed says.
pub fn speed_label(speed: Speed) -> (text: &'static str)
    ensures
        text@ == speed_text(speed),
{
    match speed {
        Speed::Paused => "停止 [Space]",
        Speed::X1 => "1x [1]",
        Speed::X5 => "5x [2]",
        Speed::X20 => "20x [3]",
    }
}

/// Whether a speed is the current one.
pub open spec fn is_current(ui: Ui, speed: Speed) -> bool {
    if speed == Speed::Paused {
        ui.paused
    } else {
        !ui.paused && ui.last_active == speed
    }
}

/// How the button of a speed looks.
pub fn sync_speed_button(ui: &Ui, speed: Speed) -> (look: ButtonLook)
    ensures
        look == button_look(true, is_current(*ui, speed)),
{
    let active = if speed == Speed::Paused {
        ui.paused
    } else {
        !ui.paused && ui.last_active == speed
    };
    button_bg(true, active)
}

/// The state after a click on the button of a speed: pausing keeps the speed to resume at.
pub open spec fn after_speed_click(ui: Ui, speed: Speed) -> Ui {
    if speed == Speed::Paused {
        Ui { paused: true, ..ui }
    } else {
        Ui { last_active: speed, paused: false, ..ui }
    }
}

/// A click on the button of a speed.
pub fn handle_speed_button_click(ui: Ui, speed: Speed) -> (after: Ui)
    ensures
        after == after_speed_click(ui, speed),
{
    if speed == Speed::Paused {
        Ui { paused: true, ..ui }
    } else {
        Ui { last_active: speed, paused: false, ..ui }
    }
}

/// The speed clicked is the current one afterwards, and the only one.
pub proof fn the_speed_clicked_is_current(ui: Ui, speed: Speed, other: Speed)
    requires
        ui.consistent(),
    ensures
        is_current(after_speed_click(ui, speed), other) <==> other == speed,
        after_speed_click(ui, speed).consistent(),
{
}

} // verus!
