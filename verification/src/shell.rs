//! Shell-wide state: the appearance (theme and accent) and whether the
//! Activities overview is open.
use crate::text::{chars_of, concat_str, is_str};
use vstd::prelude::*;

verus! {

#[derive(Clone, Copy, Debug, PartialEq, Eq, Structural)]
pub enum ThemeMode {
    System,
    Light,
    Dark,
}

#[derive(Clone, Copy, Debug, PartialEq, Eq, Structural)]
pub enum Accent {
    Blue,
    Teal,
    Green,
    Yellow,
    Orange,
    Red,
    Pink,
    Purple,
    Slate,
}

#[derive(Clone, Copy, Debug, PartialEq, Eq, Structural)]
pub struct AppearanceState {
    pub theme: ThemeMode,
    pub accent: Accent,
}

/// The theme a UI value names.
pub open spec fn theme_named(s: Seq<char>) -> Option<ThemeMode> {
    if s == "system"@ {
        Some(ThemeMode::System)
    } else if s == "light"@ {
        Some(ThemeMode::Light)
    } else if s == "dark"@ {
        Some(ThemeMode::Dark)
    } else {
        None
    }
}

/// The accent a UI value names.
pub open spec fn accent_named(s: Seq<char>) -> Option<Accent> {
    if s == "blue"@ {
        Some(Accent::Blue)
    } else if s == "teal"@ {
        Some(Accent::Teal)
    } else if s == "green"@ {
        Some(Accent::Green)
    } else if s == "yellow"@ {
        Some(Accent::Yellow)
    } else if s == "orange"@ {
        Some(Accent::Orange)
    } else if s == "red"@ {
        Some(Accent::Red)
    } else if s == "pink"@ {
        Some(Accent::Pink)
    } else if s == "purple"@ {
        Some(Accent::Purple)
    } else if s == "slate"@ {
        Some(Accent::Slate)
    } else {
        None
    }
}

fn theme_from(c: &[char]) -> (r: Option<ThemeMode>)
    ensures
        r == theme_named(c@),
{
    if is_str(c, "system") {
        Some(ThemeMode::System)
    } else if is_str(c, "light") {
        Some(ThemeMode::Light)
    } else if is_str(c, "dark") {
        Some(ThemeMode::Dark)
    } else {
        None
    }
}

fn accent_from(c: &[char]) -> (r: Option<Accent>)
    ensures
        r == accent_named(c@),
{
    if is_str(c, "blue") {
        Some(Accent::Blue)
    } else if is_str(c, "teal") {
        Some(Accent::Teal)
    } else if is_str(c, "green") {
        Some(Accent::Green)
    } else if is_str(c, "yellow") {
        Some(Accent::Yellow)
    } else if is_str(c, "orange") {
        Some(Accent::Orange)
    } else if is_str(c, "red") {
        Some(Accent::Red)
    } else if is_str(c, "pink") {
        Some(Accent::Pink)
    } else if is_str(c, "purple") {
        Some(Accent::Purple)
    } else if is_str(c, "slate") {
        Some(Accent::Slate)
    } else {
        None
    }
}

impl AppearanceState {
    /// Reads the appearance from its UI values; the theme is checked first.
    pub fn parse(theme: &str, accent: &str) -> (r: Result<Self, String>)
        ensures
            theme_named(theme@) is None ==> (r matches Err(e) && e@ == "unsupported theme: "@ + theme@),
            theme_named(theme@) is Some && accent_named(accent@) is None ==> (r matches Err(e)
                && e@ == "unsupported accent: "@ + accent@),
            theme_named(theme@) is Some && accent_named(accent@) is Some ==> r == Ok::<Self, String>(
                AppearanceState {
                    theme: theme_named(theme@).unwrap(),
                    accent: accent_named(accent@).unwrap(),
                },
            ),
    {
        let tc = chars_of(theme);
        let t = match theme_from(tc.as_slice()) {
            Some(t) => t,
            None => return Err(concat_str("unsupported theme: ", theme)),
        };
        let ac = chars_of(accent);
        let a = match accent_from(ac.as_slice()) {
            Some(a) => a,
            None => return Err(concat_str("unsupported accent: ", accent)),
        };
        Ok(AppearanceState { theme: t, accent: a })
    }
}

impl Default for AppearanceState {
    fn default() -> (r: Self)
        ensures
            r == (AppearanceState { theme: ThemeMode::Dark, accent: Accent::Blue }),
    {
        AppearanceState { theme: ThemeMode::Dark, accent: Accent::Blue }
    }
}

/// What the web surfaces read of the shell.
#[derive(Clone, Copy, Debug, PartialEq, Eq, Structural)]
pub struct ShellSnapshot {
    pub appearance: AppearanceState,
    pub activities_open: bool,
}

/// The shell's own state. The host keeps it behind a lock.
#[derive(Clone, Copy, Debug)]
pub struct ShellState {
    appearance: AppearanceState,
    activities_open: bool,
}

impl ShellState {
    pub closed spec fn appearance_spec(&self) -> AppearanceState {
        self.appearance
    }

    pub closed spec fn activities_open_spec(&self) -> bool {
        self.activities_open
    }

    pub fn snapshot(&self) -> (r: ShellSnapshot)
        ensures
            r.appearance == self.appearance_spec(),
            r.activities_open == self.activities_open_spec(),
    {
        ShellSnapshot { appearance: self.appearance, activities_open: self.activities_open }
    }

    pub fn set_appearance(&mut self, appearance: AppearanceState) -> (r: Result<(), String>)
        ensures
            r is Ok,
            final(self).appearance_spec() == appearance,
            final(self).activities_open_spec() == old(self).activities_open_spec(),
    {
        self.appearance = appearance;
        Ok(())
    }

    pub fn set_activities_open(&mut self, open: bool)
        ensures
            final(self).activities_open_spec() == open,
            final(self).appearance_spec() == old(self).appearance_spec(),
    {
        self.activities_open = open;
    }
}

impl Default for ShellState {
    fn default() -> (r: Self)
        ensures
            r.appearance_spec() == (AppearanceState { theme: ThemeMode::Dark, accent: Accent::Blue }),
            !r.activities_open_spec(),
    {
        ShellState {
            appearance: AppearanceState { theme: ThemeMode::Dark, accent: Accent::Blue },
            activities_open: false,
        }
    }
}


/// The popover surfaces that the panel toggles.
pub open spec fn is_popover(label: Seq<char>) -> bool {
    label == "date-menu"@ || label == "quick-settings"@
}

/// Only the date menu and the Quick Settings can be toggled as popovers.
pub fn check_surface(label: &str) -> (r: Result<(), String>)
    ensures
        is_popover(label@) ==> r is Ok,
        !is_popover(label@) ==> (r matches Err(e) && e@ == "unsupported shell surface"@),
{
    let l = String::from_str(label);
    if l == String::from_str("date-menu") || l == String::from_str("quick-settings") {
        Ok(())
    } else {
        Err(String::from_str("unsupported shell surface"))
    }
}

/// The popover that opening `label` closes: the other one.
pub fn other_popover(label: &str) -> (r: &'static str)
    requires
        is_popover(label@),
    ensures
        label@ == "date-menu"@ ==> r@ == "quick-settings"@,
        label@ == "quick-settings"@ ==> r@ == "date-menu"@,
{
    if String::from_str(label) == String::from_str("date-menu") {
        "quick-settings"
    } else {
        "date-menu"
    }
}

/// The shell surfaces that the web UI draws in their own windows.
#[derive(Clone, Copy, Debug, PartialEq, Eq, Structural)]
pub enum SurfaceKind {
    Activities,
    DateMenu,
    QuickSettings,
}

pub open spec fn surface_named(label: Seq<char>) -> Option<SurfaceKind> {
    if label == "activities"@ {
        Some(SurfaceKind::Activities)
    } else if label == "date-menu"@ {
        Some(SurfaceKind::DateMenu)
    } else if label == "quick-settings"@ {
        Some(SurfaceKind::QuickSettings)
    } else {
        None
    }
}

/// Which surface a window label names.
pub fn surface_kind(label: &str) -> (r: Result<SurfaceKind, String>)
    ensures
        surface_named(label@) matches Some(k) ==> r == Ok::<SurfaceKind, String>(k),
        surface_named(label@) is None ==> (r matches Err(e) && e@ == "unsupported shell surface: "@ + label@),
{
    let l = String::from_str(label);
    if l == String::from_str("activities") {
        Ok(SurfaceKind::Activities)
    } else if l == String::from_str("date-menu") {
        Ok(SurfaceKind::DateMenu)
    } else if l == String::from_str("quick-settings") {
        Ok(SurfaceKind::QuickSettings)
    } else {
        Err(concat_str("unsupported shell surface: ", label))
    }
}

/// A capture run may only mark a shell surface ready; its window then takes
/// the title `FedoraWin — <label> — ready`.
pub fn capture_ready_title(label: &str) -> (r: Result<String, String>)
    ensures
        surface_named(label@) is Some ==> (r matches Ok(t) && t@ == "FedoraWin — "@ + label@ + " — ready"@),
        surface_named(label@) is None ==> (r matches Err(e) && e@ == "unsupported capture surface"@),
{
    match surface_kind(label) {
        Ok(_) => {
            let a = concat_str("FedoraWin — ", label);
            Ok(concat_str(a.as_str(), " — ready"))
        },
        Err(_) => Err(String::from_str("unsupported capture surface")),
    }
}

/// The page a surface window loads: `index.html?view=<view>`, with
/// `&capture=<mode>` in a capture run.
pub open spec fn surface_url_text(view: Seq<char>, capture_mode: Option<Seq<char>>) -> Seq<char> {
    match capture_mode {
        Some(m) => "index.html?view="@ + view + "&capture="@ + m,
        None => "index.html?view="@ + view,
    }
}

pub fn surface_url(view: &str, capture_mode: Option<&str>) -> (r: String)
    ensures
        r@ == surface_url_text(view@, match capture_mode {
            Some(m) => Some(m@),
            None => None,
        }),
{
    let base = concat_str("index.html?view=", view);
    match capture_mode {
        Some(m) => {
            let a = concat_str(base.as_str(), "&capture=");
            concat_str(a.as_str(), m)
        },
        None => base,
    }
}

/// The title of a surface window: `FedoraWin — <label>`.
pub fn surface_title(label: &str) -> (r: String)
    ensures
        r@ == "FedoraWin — "@ + label@,
{
    concat_str("FedoraWin — ", label)
}
} // verus!
