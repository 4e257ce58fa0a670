//! Settings that the greeter reads from its configuration file.

use vstd::prelude::*;
use vstd::string::*;

verus! {

/// The greeting shown when no other message is set.
pub const GREETING_MSG: &'static str = "Welcome back!";

/// Settings of the greeter's look.
#[derive(Clone, Debug)]
pub struct AppearanceSettings {
    pub greeting_msg: String,
}

impl Default for AppearanceSettings {
    fn default() -> (r: AppearanceSettings)
        ensures
            r.greeting_msg@ == GREETING_MSG@,
    {
        AppearanceSettings { greeting_msg: GREETING_MSG.to_owned() }
    }
}

/// The toolkit settings that the greeter can set.
#[derive(Clone, Debug)]
pub struct GtkSettings {
    pub application_prefer_dark_theme: bool,
    pub cursor_theme_name: Option<String>,
    pub font_name: Option<String>,
    pub icon_theme_name: Option<String>,
    pub theme_name: Option<String>,
}

impl Default for GtkSettings {
    fn default() -> (r: GtkSettings)
        ensures
            !r.application_prefer_dark_theme,
            r.cursor_theme_name is None,
            r.font_name is None,
            r.icon_theme_name is None,
            r.theme_name is None,
    {
        GtkSettings {
            application_prefer_dark_theme: false,
            cursor_theme_name: None,
            font_name: None,
            icon_theme_name: None,
            theme_name: None,
        }
    }
}

/// How the background image fills the screen.
#[derive(Clone, Copy, Debug, PartialEq, Eq, Structural)]
pub enum BgFit {
    Fill,
    Contain,
    Cover,
    ScaleDown,
}

impl Default for BgFit {
    fn default() -> (r: BgFit)
        ensures
            r == BgFit::Contain,
    {
        BgFit::Contain
    }
}

/// Commands that the greeter runs on the system.
#[derive(Clone, Debug)]
pub struct SystemCommands {
    /// The command line put before the command of an X11 session.
    pub x11_prefix: Vec<String>,
}

} // verus!
