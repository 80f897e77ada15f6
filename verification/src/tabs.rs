use vstd::prelude::*;

verus! {

/// The dockable tab that previews the PWM signal. Its rendering lives with
/// the presentation layer; the library only owns its identity.
pub struct PlotWindow;

impl PlotWindow {
    /// The stable identifier of the PWM preview tab.
    pub fn id() -> (s: &'static str)
        ensures
            s@ == "pwm_plot_window"@,
    {
        "pwm_plot_window"
    }
}

/// The dockable tab that shows the log console.
pub struct LogConsole;

impl LogConsole {
    /// The stable identifier of the log console tab.
    pub fn id() -> (s: &'static str)
        ensures
            s@ == "log_console"@,
    {
        "log_console"
    }
}

/// The dockable tab that plots received measurements.
pub struct MeasPlot;

} // verus!
