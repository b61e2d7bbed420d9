use vstd::prelude::*;
use vstd::string::StringExecFns;

verus! {

/// Where a new dialog window goes.
pub enum Placement {
    /// Centred on the primary screen.
    Center,
    /// Covering the whole monitor with this index.
    FillMonitor(usize),
    /// An 800 by 600 window centred on the monitor with this index.
    CenterOnMonitor(usize),
}

/// How a dialog window is to be opened: its label and title, whether it is
/// the borderless full-screen audience display, and where it goes.
pub struct DialogPlan {
    pub label: String,
    pub title: String,
    pub second_screen: bool,
    pub placement: Placement,
}

/// The name of the dialog that shows the audience display.
pub open spec fn second_screen_name() -> Seq<char> {
    seq!['s', 'e', 'c', 'o', 'n', 'd', '-', 's', 'c', 'r', 'e', 'e', 'n']
}

/// The label of the window of the dialog `name`.
pub open spec fn dialog_label_of(name: Seq<char>) -> Seq<char> {
    seq!['d', 'i', 'a', 'l', 'o', 'g', '-'] + name
}

/// Where the dialog goes: on the chosen monitor when there is one and it is
/// among those found, filling it for the audience display; centred otherwise.
pub open spec fn placement_of(
    second_screen: bool,
    monitor_index: Option<usize>,
    monitor_count: Option<usize>,
) -> Placement {
    match (monitor_index, monitor_count) {
        (Some(i), Some(n)) => if i < n {
            if second_screen {
                Placement::FillMonitor(i)
            } else {
                Placement::CenterOnMonitor(i)
            }
        } else {
            Placement::Center
        },
        _ => Placement::Center,
    }
}

/// Whether `name` names the audience display dialog.
pub fn is_second_screen(name: &str) -> (r: bool)
    ensures
        r == (name@ == second_screen_name()),
{
    let target = "second-screen".to_owned();
    proof {
        reveal_strlit("second-screen");
        assert(target@ =~= second_screen_name());
    }
    name.to_owned() == target
}

/// The label of the window of the dialog `name`.
pub fn dialog_label(name: &str) -> (r: String)
    ensures
        r@ == dialog_label_of(name@),
{
    let mut label = "dialog-".to_owned();
    proof {
        reveal_strlit("dialog-");
    }
    label.append(name);
    proof {
        assert(label@ =~= dialog_label_of(name@));
    }
    label
}

/// Decides how to open the dialog `dialog_window` that has no window yet.
/// `monitor_count` is how many monitors were found, or nothing when they
/// could not be listed.
pub fn plan_dialog(
    dialog_window: &str,
    monitor_index: Option<usize>,
    monitor_count: Option<usize>,
) -> (r: DialogPlan)
    ensures
        r.label@ == dialog_label_of(dialog_window@),
        r.title@ == dialog_window@,
        r.second_screen == (dialog_window@ == second_screen_name()),
        r.placement == placement_of(r.second_screen, monitor_index, monitor_count),
{
    let second_screen = is_second_screen(dialog_window);
    let placement = match (monitor_index, monitor_count) {
        (Some(i), Some(n)) => if i < n {
            if second_screen {
                Placement::FillMonitor(i)
            } else {
                Placement::CenterOnMonitor(i)
            }
        } else {
            Placement::Center
        },
        _ => Placement::Center,
    };
    DialogPlan {
        label: dialog_label(dialog_window),
        title: dialog_window.to_owned(),
        second_screen,
        placement,
    }
}

} // verus!
