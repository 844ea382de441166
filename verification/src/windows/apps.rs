//! The installed-application catalog: launcher aliases, ordering and the
//! shell target used to launch an entry.
use crate::text::{
    chars_of, compare_chars, concat_str, contains_chars, ends_with_chars, eq_ignore_ascii_case,
    has_substring, has_suffix, lex_lt, lemma_lex_le_transitive, lemma_lex_trichotomy, lower_chars, lower_seq, same_ignoring_ascii_case,
    sorted_unique, strictly_sorted, string_from_chars, trim, trim_chars, trim_str, views, chars_eq,
    decimal_digits, decimal_of,
};
use crate::windows::wifi::{from_utf8_lossy, utf8_lossy};
use vstd::prelude::*;

verus! {

/// One launchable application of the catalog.
#[derive(Clone, Debug)]
pub struct AppEntry {
    pub name: String,
    pub app_id: String,
    pub aliases: Vec<String>,
}

/// Strings built from string slices, in order.
pub open spec fn str_views(values: Seq<&str>) -> Seq<Seq<char>> {
    values.map_values(|s: &str| s@)
}

/// Appends the given aliases (`Vec::extend` with owned copies).
pub fn push_aliases(aliases: &mut Vec<String>, values: &[&str])
    ensures
        views(final(aliases)@) == views(old(aliases)@) + str_views(values@),
{
    let mut i: usize = 0;
    while i < values.len()
        invariant
            i <= values@.len(),
            views(aliases@) == views(old(aliases)@) + str_views(values@.subrange(0, i as int)),
        decreases values@.len() - i,
    {
        let ghost prev = views(aliases@);
        let item = String::from_str(values[i]);
        assert(item@ == values@[i as int]@);
        aliases.push(item);
        assert(views(aliases@) =~= prev.push(values@[i as int]@));
        assert(values@.subrange(0, i + 1) =~= values@.subrange(0, i as int).push(values@[i as int]));
        assert(str_views(values@.subrange(0, i + 1)) =~= str_views(values@.subrange(0, i as int)).push(values@[i as int]@));
        i = i + 1;
    }
    assert(values@.subrange(0, values@.len() as int) =~= values@);
}

pub open spec fn group_if(cond: bool, group: Seq<Seq<char>>) -> Seq<Seq<char>> {
    if cond { group } else { Seq::empty() }
}

/// Launcher aliases of one application family.
pub open spec fn terminal_aliases() -> Seq<Seq<char>> {
    seq!["terminal"@, "term"@, "console"@, "shell"@, "command line"@, "cli"@]
}

/// Launcher aliases of one application family.
pub open spec fn powershell_aliases() -> Seq<Seq<char>> {
    seq!["terminal"@, "shell"@, "pwsh"@, "powershell"@, "command line"@, "cli"@]
}

/// Launcher aliases of one application family.
pub open spec fn command_prompt_aliases() -> Seq<Seq<char>> {
    seq!["terminal"@, "console"@, "cmd"@, "command prompt"@, "command line"@, "cli"@]
}

/// Launcher aliases of one application family.
pub open spec fn files_aliases() -> Seq<Seq<char>> {
    seq!["files"@, "file manager"@, "explorer"@, "folders"@, "home folder"@]
}

/// Launcher aliases of one application family.
pub open spec fn settings_aliases() -> Seq<Seq<char>> {
    seq!["settings"@, "preferences"@, "control panel"@, "system settings"@]
}

/// Launcher aliases of one application family.
pub open spec fn browser_aliases() -> Seq<Seq<char>> {
    seq!["browser"@, "web"@, "internet"@, "web browser"@]
}

/// Launcher aliases of one application family.
pub open spec fn editor_aliases() -> Seq<Seq<char>> {
    seq!["text editor"@, "editor"@, "notes"@, "notepad"@]
}

/// Launcher aliases of one application family.
pub open spec fn calculator_aliases() -> Seq<Seq<char>> {
    seq!["calculator"@, "calc"@, "math"@]
}

/// Launcher aliases of one application family.
pub open spec fn screenshot_aliases() -> Seq<Seq<char>> {
    seq!["screenshot"@, "screen capture"@, "snipping"@, "snip"@, "capture"@]
}

/// Launcher aliases of one application family.
pub open spec fn photos_aliases() -> Seq<Seq<char>> {
    seq!["photos"@, "images"@, "pictures"@, "image viewer"@]
}

/// Launcher aliases of one application family.
pub open spec fn camera_aliases() -> Seq<Seq<char>> {
    seq!["camera"@, "webcam"@, "photo"@]
}

/// Launcher aliases of one application family.
pub open spec fn calendar_aliases() -> Seq<Seq<char>> {
    seq!["calendar"@, "events"@, "appointments"@]
}

/// Launcher aliases of one application family.
pub open spec fn mail_aliases() -> Seq<Seq<char>> {
    seq!["mail"@, "email"@, "e-mail"@]
}

/// Launcher aliases of one application family.
pub open spec fn store_aliases() -> Seq<Seq<char>> {
    seq!["software"@, "store"@, "apps"@, "app store"@]
}

/// Launcher aliases of one application family.
pub open spec fn monitor_aliases() -> Seq<Seq<char>> {
    seq!["task manager"@, "processes"@, "system monitor"@, "performance"@]
}

/// Aliases of the application families of part 1 of the catalog rules.
pub open spec fn alias_part1(n: Seq<char>, id: Seq<char>) -> Seq<Seq<char>> {
    group_if(
        has_substring(n, "windows terminal"@) || has_substring(id, "windowsterminal"@),
        terminal_aliases(),
    )
    + group_if(
        has_substring(n, "powershell"@),
        powershell_aliases(),
    )
    + group_if(
        has_substring(n, "command prompt"@) || n == "cmd"@ || has_suffix(id, "cmd.exe"@),
        command_prompt_aliases(),
    )
    + group_if(
        has_substring(n, "file explorer"@) || n == "explorer"@ || has_substring(id, "explorer.exe"@),
        files_aliases(),
    )
    + group_if(
        has_substring(n, "settings"@) || has_substring(id, "immersivecontrolpanel"@),
        settings_aliases(),
    )
}

/// Aliases of the application families of part 2 of the catalog rules.
pub open spec fn alias_part2(n: Seq<char>, id: Seq<char>) -> Seq<Seq<char>> {
    group_if(
        has_substring(n, "edge"@) || has_substring(n, "chrome"@) || has_substring(n, "firefox"@)
            || has_substring(n, "opera"@) || has_substring(n, "brave"@) || has_substring(n, "vivaldi"@),
        browser_aliases(),
    )
    + group_if(
        has_substring(n, "notepad"@) || has_substring(n, "text editor"@),
        editor_aliases(),
    )
    + group_if(
        has_substring(n, "calculator"@),
        calculator_aliases(),
    )
    + group_if(
        has_substring(n, "snipping tool"@) || has_substring(n, "snip & sketch"@),
        screenshot_aliases(),
    )
    + group_if(
        has_substring(n, "photos"@),
        photos_aliases(),
    )
}

/// Aliases of the application families of part 3 of the catalog rules.
pub open spec fn alias_part3(n: Seq<char>, id: Seq<char>) -> Seq<Seq<char>> {
    group_if(
        has_substring(n, "camera"@),
        camera_aliases(),
    )
    + group_if(
        has_substring(n, "calendar"@),
        calendar_aliases(),
    )
    + group_if(
        has_substring(n, "mail"@) || has_substring(n, "outlook"@),
        mail_aliases(),
    )
    + group_if(
        has_substring(n, "microsoft store"@) || has_substring(id, "windowsstore"@),
        store_aliases(),
    )
    + group_if(
        has_substring(n, "task manager"@),
        monitor_aliases(),
    )
}

/// The aliases that `aliases_for` derives from the lower-cased name `n`
/// and lower-cased application id `id`, before sorting, with repeats.
pub open spec fn alias_candidates(n: Seq<char>, id: Seq<char>) -> Seq<Seq<char>> {
    alias_part1(n, id) + alias_part2(n, id) + alias_part3(n, id)
}

/// Every alias of `group` occurs in `s`.
pub open spec fn includes_all(s: Seq<Seq<char>>, group: Seq<Seq<char>>) -> bool {
    forall|j: int| 0 <= j < group.len() ==> #[trigger] s.contains(group[j])
}

proof fn lemma_includes_concat(s: Seq<Seq<char>>, t: Seq<Seq<char>>, g: Seq<Seq<char>>)
    ensures
        includes_all(s, g) ==> includes_all(s + t, g),
        includes_all(t, g) ==> includes_all(s + t, g),
{
    if includes_all(s, g) {
        assert forall|j: int| 0 <= j < g.len() implies #[trigger] (s + t).contains(g[j]) by {
            assert(s.contains(g[j]));
            let i = choose|i: int| 0 <= i < s.len() && s[i] == g[j];
            assert((s + t)[i] == g[j]);
        }
    }
    if includes_all(t, g) {
        assert forall|j: int| 0 <= j < g.len() implies #[trigger] (s + t).contains(g[j]) by {
            assert(t.contains(g[j]));
            let i = choose|i: int| 0 <= i < t.len() && t[i] == g[j];
            assert((s + t)[s.len() + i] == g[j]);
        }
    }
}

proof fn lemma_group_included(cond: bool, g: Seq<Seq<char>>)
    requires
        cond,
    ensures
        includes_all(group_if(cond, g), g),
{
    assert forall|j: int| 0 <= j < g.len() implies #[trigger] group_if(cond, g).contains(g[j]) by {
        assert(group_if(cond, g)[j] == g[j]);
    }
}

/// A group whose condition holds is included in a sum of five groups and
/// then in the whole candidate list, wherever the five stand in it.
proof fn lemma_in_candidates(
    n: Seq<char>,
    id: Seq<char>,
    part: int,
    a: Seq<Seq<char>>,
    b: Seq<Seq<char>>,
    c: Seq<Seq<char>>,
    d: Seq<Seq<char>>,
    e: Seq<Seq<char>>,
    g: Seq<Seq<char>>,
)
    requires
        includes_all(a, g) || includes_all(b, g) || includes_all(c, g) || includes_all(d, g)
            || includes_all(e, g),
        part == 1 ==> alias_part1(n, id) == a + b + c + d + e,
        part == 2 ==> alias_part2(n, id) == a + b + c + d + e,
        part == 3 ==> alias_part3(n, id) == a + b + c + d + e,
        1 <= part <= 3,
    ensures
        includes_all(alias_candidates(n, id), g),
{
    lemma_includes_concat(a, b, g);
    lemma_includes_concat(a + b, c, g);
    lemma_includes_concat(a + b + c, d, g);
    lemma_includes_concat(a + b + c + d, e, g);
    lemma_includes_concat(alias_part1(n, id), alias_part2(n, id), g);
    lemma_includes_concat(alias_part1(n, id) + alias_part2(n, id), alias_part3(n, id), g);
}

/// Terminals, PowerShell, the command prompt, the file explorer and the
/// settings app get their family's search aliases: whenever the lower-cased
/// name `n` or id `id` names the family, each of those aliases is among the
/// candidates.
pub proof fn lemma_system_app_aliases(n: Seq<char>, id: Seq<char>)
    ensures
        has_substring(n, "windows terminal"@) || has_substring(id, "windowsterminal"@)
            ==> includes_all(alias_candidates(n, id),
                seq!["terminal"@, "term"@, "console"@, "shell"@, "command line"@, "cli"@]),
        has_substring(n, "powershell"@)
            ==> includes_all(alias_candidates(n, id),
                seq!["terminal"@, "shell"@, "pwsh"@, "powershell"@, "command line"@, "cli"@]),
        has_substring(n, "command prompt"@) || n == "cmd"@ || has_suffix(id, "cmd.exe"@)
            ==> includes_all(alias_candidates(n, id),
                seq!["terminal"@, "console"@, "cmd"@, "command prompt"@, "command line"@, "cli"@]),
        has_substring(n, "file explorer"@) || n == "explorer"@ || has_substring(id, "explorer.exe"@)
            ==> includes_all(alias_candidates(n, id),
                seq!["files"@, "file manager"@, "explorer"@, "folders"@, "home folder"@]),
        has_substring(n, "settings"@) || has_substring(id, "immersivecontrolpanel"@)
            ==> includes_all(alias_candidates(n, id),
                seq!["settings"@, "preferences"@, "control panel"@, "system settings"@]),
{
    let c1 = has_substring(n, "windows terminal"@) || has_substring(id, "windowsterminal"@);
    let c2 = has_substring(n, "powershell"@);
    let c3 = has_substring(n, "command prompt"@) || n == "cmd"@ || has_suffix(id, "cmd.exe"@);
    let c4 = has_substring(n, "file explorer"@) || n == "explorer"@ || has_substring(id, "explorer.exe"@);
    let c5 = has_substring(n, "settings"@) || has_substring(id, "immersivecontrolpanel"@);
    let a = group_if(c1, terminal_aliases());
    let b = group_if(c2, powershell_aliases());
    let c = group_if(c3, command_prompt_aliases());
    let d = group_if(c4, files_aliases());
    let e = group_if(c5, settings_aliases());
    if c1 {
        lemma_group_included(c1, terminal_aliases());
        lemma_in_candidates(n, id, 1, a, b, c, d, e, terminal_aliases());
    }
    if c2 {
        lemma_group_included(c2, powershell_aliases());
        lemma_in_candidates(n, id, 1, a, b, c, d, e, powershell_aliases());
    }
    if c3 {
        lemma_group_included(c3, command_prompt_aliases());
        lemma_in_candidates(n, id, 1, a, b, c, d, e, command_prompt_aliases());
    }
    if c4 {
        lemma_group_included(c4, files_aliases());
        lemma_in_candidates(n, id, 1, a, b, c, d, e, files_aliases());
    }
    if c5 {
        lemma_group_included(c5, settings_aliases());
        lemma_in_candidates(n, id, 1, a, b, c, d, e, settings_aliases());
    }
}

proof fn lemma_in_sum(s: Seq<Seq<char>>, t: Seq<Seq<char>>, x: Seq<char>)
    requires
        (s + t).contains(x),
    ensures
        s.contains(x) || t.contains(x),
{
    let i = choose|i: int| 0 <= i < (s + t).len() && (s + t)[i] == x;
    if i >= s.len() {
        assert(t[i - s.len()] == x);
    } else {
        assert(s[i] == x);
    }
}

proof fn lemma_in_five(a: Seq<Seq<char>>, b: Seq<Seq<char>>, c: Seq<Seq<char>>, d: Seq<Seq<char>>, e: Seq<Seq<char>>, x: Seq<char>)
    requires
        (a + b + c + d + e).contains(x),
    ensures
        a.contains(x) || b.contains(x) || c.contains(x) || d.contains(x) || e.contains(x),
{
    lemma_in_sum(a + b + c + d, e, x);
    if (a + b + c + d).contains(x) {
        lemma_in_sum(a + b + c, d, x);
        if (a + b + c).contains(x) {
            lemma_in_sum(a + b, c, x);
            if (a + b).contains(x) {
                lemma_in_sum(a, b, x);
            }
        }
    }
}

#[verifier::spinoff_prover]
proof fn lemma_part1_origin(n: Seq<char>, id: Seq<char>, x: Seq<char>)
    requires
        alias_part1(n, id).contains(x),
    ensures
        ((has_substring(n, "windows terminal"@) || has_substring(id, "windowsterminal"@))
            && seq!["terminal"@, "term"@, "console"@, "shell"@, "command line"@, "cli"@].contains(x))
        || (has_substring(n, "powershell"@)
            && seq!["terminal"@, "shell"@, "pwsh"@, "powershell"@, "command line"@, "cli"@].contains(x))
        || ((has_substring(n, "command prompt"@) || n == "cmd"@ || has_suffix(id, "cmd.exe"@))
            && seq!["terminal"@, "console"@, "cmd"@, "command prompt"@, "command line"@, "cli"@].contains(x))
        || ((has_substring(n, "file explorer"@) || n == "explorer"@ || has_substring(id, "explorer.exe"@))
            && seq!["files"@, "file manager"@, "explorer"@, "folders"@, "home folder"@].contains(x))
        || ((has_substring(n, "settings"@) || has_substring(id, "immersivecontrolpanel"@))
            && seq!["settings"@, "preferences"@, "control panel"@, "system settings"@].contains(x)),
{
    lemma_in_five(
        group_if(has_substring(n, "windows terminal"@) || has_substring(id, "windowsterminal"@), terminal_aliases()),
        group_if(has_substring(n, "powershell"@), powershell_aliases()),
        group_if(has_substring(n, "command prompt"@) || n == "cmd"@ || has_suffix(id, "cmd.exe"@), command_prompt_aliases()),
        group_if(has_substring(n, "file explorer"@) || n == "explorer"@ || has_substring(id, "explorer.exe"@), files_aliases()),
        group_if(has_substring(n, "settings"@) || has_substring(id, "immersivecontrolpanel"@), settings_aliases()),
        x,
    );
}

#[verifier::spinoff_prover]
proof fn lemma_part2_origin(n: Seq<char>, id: Seq<char>, x: Seq<char>)
    requires
        alias_part2(n, id).contains(x),
    ensures
        ((has_substring(n, "edge"@) || has_substring(n, "chrome"@) || has_substring(n, "firefox"@)
            || has_substring(n, "opera"@) || has_substring(n, "brave"@) || has_substring(n, "vivaldi"@))
            && seq!["browser"@, "web"@, "internet"@, "web browser"@].contains(x))
        || ((has_substring(n, "notepad"@) || has_substring(n, "text editor"@))
            && seq!["text editor"@, "editor"@, "notes"@, "notepad"@].contains(x))
        || (has_substring(n, "calculator"@) && seq!["calculator"@, "calc"@, "math"@].contains(x))
        || ((has_substring(n, "snipping tool"@) || has_substring(n, "snip & sketch"@))
            && seq!["screenshot"@, "screen capture"@, "snipping"@, "snip"@, "capture"@].contains(x))
        || (has_substring(n, "photos"@)
            && seq!["photos"@, "images"@, "pictures"@, "image viewer"@].contains(x)),
{
    lemma_in_five(
        group_if(has_substring(n, "edge"@) || has_substring(n, "chrome"@) || has_substring(n, "firefox"@)
            || has_substring(n, "opera"@) || has_substring(n, "brave"@) || has_substring(n, "vivaldi"@), browser_aliases()),
        group_if(has_substring(n, "notepad"@) || has_substring(n, "text editor"@), editor_aliases()),
        group_if(has_substring(n, "calculator"@), calculator_aliases()),
        group_if(has_substring(n, "snipping tool"@) || has_substring(n, "snip & sketch"@), screenshot_aliases()),
        group_if(has_substring(n, "photos"@), photos_aliases()),
        x,
    );
}

#[verifier::spinoff_prover]
proof fn lemma_part3_origin(n: Seq<char>, id: Seq<char>, x: Seq<char>)
    requires
        alias_part3(n, id).contains(x),
    ensures
        (has_substring(n, "camera"@) && seq!["camera"@, "webcam"@, "photo"@].contains(x))
        || (has_substring(n, "calendar"@) && seq!["calendar"@, "events"@, "appointments"@].contains(x))
        || ((has_substring(n, "mail"@) || has_substring(n, "outlook"@))
            && seq!["mail"@, "email"@, "e-mail"@].contains(x))
        || ((has_substring(n, "microsoft store"@) || has_substring(id, "windowsstore"@))
            && seq!["software"@, "store"@, "apps"@, "app store"@].contains(x))
        || (has_substring(n, "task manager"@)
            && seq!["task manager"@, "processes"@, "system monitor"@, "performance"@].contains(x)),
{
    lemma_in_five(
        group_if(has_substring(n, "camera"@), camera_aliases()),
        group_if(has_substring(n, "calendar"@), calendar_aliases()),
        group_if(has_substring(n, "mail"@) || has_substring(n, "outlook"@), mail_aliases()),
        group_if(has_substring(n, "microsoft store"@) || has_substring(id, "windowsstore"@), store_aliases()),
        group_if(has_substring(n, "task manager"@), monitor_aliases()),
        x,
    );
}

#[verifier::spinoff_prover]
/// No alias comes from nowhere: each candidate alias belongs to the alias
/// list of a family that the lower-cased name `n` or id `id` names.
pub proof fn lemma_aliases_come_from_families(n: Seq<char>, id: Seq<char>, x: Seq<char>)
    requires
        alias_candidates(n, id).contains(x),
    ensures
        ((has_substring(n, "windows terminal"@) || has_substring(id, "windowsterminal"@))
            && seq!["terminal"@, "term"@, "console"@, "shell"@, "command line"@, "cli"@].contains(x))
        || (has_substring(n, "powershell"@)
            && seq!["terminal"@, "shell"@, "pwsh"@, "powershell"@, "command line"@, "cli"@].contains(x))
        || ((has_substring(n, "command prompt"@) || n == "cmd"@ || has_suffix(id, "cmd.exe"@))
            && seq!["terminal"@, "console"@, "cmd"@, "command prompt"@, "command line"@, "cli"@].contains(x))
        || ((has_substring(n, "file explorer"@) || n == "explorer"@ || has_substring(id, "explorer.exe"@))
            && seq!["files"@, "file manager"@, "explorer"@, "folders"@, "home folder"@].contains(x))
        || ((has_substring(n, "settings"@) || has_substring(id, "immersivecontrolpanel"@))
            && seq!["settings"@, "preferences"@, "control panel"@, "system settings"@].contains(x))
        || ((has_substring(n, "edge"@) || has_substring(n, "chrome"@) || has_substring(n, "firefox"@)
            || has_substring(n, "opera"@) || has_substring(n, "brave"@) || has_substring(n, "vivaldi"@))
            && seq!["browser"@, "web"@, "internet"@, "web browser"@].contains(x))
        || ((has_substring(n, "notepad"@) || has_substring(n, "text editor"@))
            && seq!["text editor"@, "editor"@, "notes"@, "notepad"@].contains(x))
        || (has_substring(n, "calculator"@) && seq!["calculator"@, "calc"@, "math"@].contains(x))
        || ((has_substring(n, "snipping tool"@) || has_substring(n, "snip & sketch"@))
            && seq!["screenshot"@, "screen capture"@, "snipping"@, "snip"@, "capture"@].contains(x))
        || (has_substring(n, "photos"@)
            && seq!["photos"@, "images"@, "pictures"@, "image viewer"@].contains(x))
        || (has_substring(n, "camera"@) && seq!["camera"@, "webcam"@, "photo"@].contains(x))
        || (has_substring(n, "calendar"@) && seq!["calendar"@, "events"@, "appointments"@].contains(x))
        || ((has_substring(n, "mail"@) || has_substring(n, "outlook"@))
            && seq!["mail"@, "email"@, "e-mail"@].contains(x))
        || ((has_substring(n, "microsoft store"@) || has_substring(id, "windowsstore"@))
            && seq!["software"@, "store"@, "apps"@, "app store"@].contains(x))
        || (has_substring(n, "task manager"@)
            && seq!["task manager"@, "processes"@, "system monitor"@, "performance"@].contains(x)),
{
    lemma_in_sum(alias_part1(n, id) + alias_part2(n, id), alias_part3(n, id), x);
    if (alias_part1(n, id) + alias_part2(n, id)).contains(x) {
        lemma_in_sum(alias_part1(n, id), alias_part2(n, id), x);
    }
    if alias_part1(n, id).contains(x) {
        lemma_part1_origin(n, id, x);
    } else if alias_part2(n, id).contains(x) {
        lemma_part2_origin(n, id, x);
    } else {
        lemma_part3_origin(n, id, x);
    }
}

/// Browsers (Edge, Chrome, Firefox, Opera, Brave, Vivaldi), text editors,
/// the calculator, screenshot tools and the photo viewer get their family's
/// search aliases: whenever the lower-cased name `n` names the family, each
/// of those aliases is among the candidates.
pub proof fn lemma_desktop_app_aliases(n: Seq<char>, id: Seq<char>)
    ensures
        has_substring(n, "edge"@) || has_substring(n, "chrome"@) || has_substring(n, "firefox"@)
            || has_substring(n, "opera"@) || has_substring(n, "brave"@) || has_substring(n, "vivaldi"@)
            ==> includes_all(alias_candidates(n, id),
                seq!["browser"@, "web"@, "internet"@, "web browser"@]),
        has_substring(n, "notepad"@) || has_substring(n, "text editor"@)
            ==> includes_all(alias_candidates(n, id),
                seq!["text editor"@, "editor"@, "notes"@, "notepad"@]),
        has_substring(n, "calculator"@)
            ==> includes_all(alias_candidates(n, id), seq!["calculator"@, "calc"@, "math"@]),
        has_substring(n, "snipping tool"@) || has_substring(n, "snip & sketch"@)
            ==> includes_all(alias_candidates(n, id),
                seq!["screenshot"@, "screen capture"@, "snipping"@, "snip"@, "capture"@]),
        has_substring(n, "photos"@)
            ==> includes_all(alias_candidates(n, id),
                seq!["photos"@, "images"@, "pictures"@, "image viewer"@]),
{
    let c1 = has_substring(n, "edge"@) || has_substring(n, "chrome"@) || has_substring(n, "firefox"@)
        || has_substring(n, "opera"@) || has_substring(n, "brave"@) || has_substring(n, "vivaldi"@);
    let c2 = has_substring(n, "notepad"@) || has_substring(n, "text editor"@);
    let c3 = has_substring(n, "calculator"@);
    let c4 = has_substring(n, "snipping tool"@) || has_substring(n, "snip & sketch"@);
    let c5 = has_substring(n, "photos"@);
    let a = group_if(c1, browser_aliases());
    let b = group_if(c2, editor_aliases());
    let c = group_if(c3, calculator_aliases());
    let d = group_if(c4, screenshot_aliases());
    let e = group_if(c5, photos_aliases());
    if c1 {
        lemma_group_included(c1, browser_aliases());
        lemma_in_candidates(n, id, 2, a, b, c, d, e, browser_aliases());
    }
    if c2 {
        lemma_group_included(c2, editor_aliases());
        lemma_in_candidates(n, id, 2, a, b, c, d, e, editor_aliases());
    }
    if c3 {
        lemma_group_included(c3, calculator_aliases());
        lemma_in_candidates(n, id, 2, a, b, c, d, e, calculator_aliases());
    }
    if c4 {
        lemma_group_included(c4, screenshot_aliases());
        lemma_in_candidates(n, id, 2, a, b, c, d, e, screenshot_aliases());
    }
    if c5 {
        lemma_group_included(c5, photos_aliases());
        lemma_in_candidates(n, id, 2, a, b, c, d, e, photos_aliases());
    }
}

/// The camera, the calendar, mail clients, the Microsoft Store and the task
/// manager get their family's search aliases: whenever the lower-cased name
/// `n` or id `id` names the family, each of those aliases is among the
/// candidates.
pub proof fn lemma_service_app_aliases(n: Seq<char>, id: Seq<char>)
    ensures
        has_substring(n, "camera"@)
            ==> includes_all(alias_candidates(n, id), seq!["camera"@, "webcam"@, "photo"@]),
        has_substring(n, "calendar"@)
            ==> includes_all(alias_candidates(n, id), seq!["calendar"@, "events"@, "appointments"@]),
        has_substring(n, "mail"@) || has_substring(n, "outlook"@)
            ==> includes_all(alias_candidates(n, id), seq!["mail"@, "email"@, "e-mail"@]),
        has_substring(n, "microsoft store"@) || has_substring(id, "windowsstore"@)
            ==> includes_all(alias_candidates(n, id),
                seq!["software"@, "store"@, "apps"@, "app store"@]),
        has_substring(n, "task manager"@)
            ==> includes_all(alias_candidates(n, id),
                seq!["task manager"@, "processes"@, "system monitor"@, "performance"@]),
{
    let c1 = has_substring(n, "camera"@);
    let c2 = has_substring(n, "calendar"@);
    let c3 = has_substring(n, "mail"@) || has_substring(n, "outlook"@);
    let c4 = has_substring(n, "microsoft store"@) || has_substring(id, "windowsstore"@);
    let c5 = has_substring(n, "task manager"@);
    let a = group_if(c1, camera_aliases());
    let b = group_if(c2, calendar_aliases());
    let c = group_if(c3, mail_aliases());
    let d = group_if(c4, store_aliases());
    let e = group_if(c5, monitor_aliases());
    if c1 {
        lemma_group_included(c1, camera_aliases());
        lemma_in_candidates(n, id, 3, a, b, c, d, e, camera_aliases());
    }
    if c2 {
        lemma_group_included(c2, calendar_aliases());
        lemma_in_candidates(n, id, 3, a, b, c, d, e, calendar_aliases());
    }
    if c3 {
        lemma_group_included(c3, mail_aliases());
        lemma_in_candidates(n, id, 3, a, b, c, d, e, mail_aliases());
    }
    if c4 {
        lemma_group_included(c4, store_aliases());
        lemma_in_candidates(n, id, 3, a, b, c, d, e, store_aliases());
    }
    if c5 {
        lemma_group_included(c5, monitor_aliases());
        lemma_in_candidates(n, id, 3, a, b, c, d, e, monitor_aliases());
    }
}

/// GNOME-style search aliases for an application, derived from its display
/// name and AppUserModel id (compared ASCII-case-insensitively); sorted and
/// without repeats.
pub fn aliases_for(name: &str, app_id: &str) -> (r: Vec<String>)
    ensures
        strictly_sorted(views(r@)),
        forall|x: Seq<char>|
            views(r@).contains(x) <==> alias_candidates(lower_seq(name@), lower_seq(app_id@)).contains(x),
        has_substring(lower_seq(name@), "edge"@) || has_substring(lower_seq(name@), "chrome"@)
            || has_substring(lower_seq(name@), "firefox"@) || has_substring(lower_seq(name@), "opera"@)
            || has_substring(lower_seq(name@), "brave"@) || has_substring(lower_seq(name@), "vivaldi"@)
            ==> views(r@).contains("browser"@) && views(r@).contains("web"@)
                && views(r@).contains("internet"@) && views(r@).contains("web browser"@),
{
    let nc = chars_of(name);
    let n = lower_chars(nc.as_slice());
    let ic = chars_of(app_id);
    let id = lower_chars(ic.as_slice());
    let mut aliases = alias_part1_exec(&n, &id);
    let mut second = alias_part2_exec(&n, &id);
    let mut third = alias_part3_exec(&n, &id);
    aliases.append(&mut second);
    aliases.append(&mut third);
    proof {
        assert(views(aliases@) =~= alias_candidates(n@, id@));
        lemma_desktop_app_aliases(n@, id@);
    }
    let r = sorted_unique(&aliases);
    proof {
        let g = seq!["browser"@, "web"@, "internet"@, "web browser"@];
        if includes_all(alias_candidates(n@, id@), g) {
            assert(alias_candidates(n@, id@).contains(g[0]));
            assert(alias_candidates(n@, id@).contains(g[1]));
            assert(alias_candidates(n@, id@).contains(g[2]));
            assert(alias_candidates(n@, id@).contains(g[3]));
        }
    }
    r
}

#[verifier::rlimit(40)]
fn alias_part1_exec(n: &Vec<char>, id: &Vec<char>) -> (r: Vec<String>)
    ensures
        views(r@) == alias_part1(n@, id@),
{
    let ghost ns = n@;
    let ghost ids = id@;
    let mut aliases: Vec<String> = Vec::new();
    let ghost before = views(aliases@);
    if name_has(n, "windows terminal") || name_has(id, "windowsterminal") {
        push_aliases(&mut aliases, &["terminal", "term", "console", "shell", "command line", "cli"]);
        assert(str_views(seq!["terminal", "term", "console", "shell", "command line", "cli"]) =~= terminal_aliases());
    }
    assert(views(aliases@) =~= before + group_if(has_substring(ns, "windows terminal"@) || has_substring(ids, "windowsterminal"@), terminal_aliases()));
    let ghost before = views(aliases@);
    if name_has(n, "powershell") {
        push_aliases(&mut aliases, &["terminal", "shell", "pwsh", "powershell", "command line", "cli"]);
        assert(str_views(seq!["terminal", "shell", "pwsh", "powershell", "command line", "cli"]) =~= powershell_aliases());
    }
    assert(views(aliases@) =~= before + group_if(has_substring(ns, "powershell"@), powershell_aliases()));
    let ghost before = views(aliases@);
    if name_has(n, "command prompt") || same(n, "cmd") || suffix(id, "cmd.exe") {
        push_aliases(&mut aliases, &["terminal", "console", "cmd", "command prompt", "command line", "cli"]);
        assert(str_views(seq!["terminal", "console", "cmd", "command prompt", "command line", "cli"]) =~= command_prompt_aliases());
    }
    assert(views(aliases@) =~= before + group_if(has_substring(ns, "command prompt"@) || ns == "cmd"@ || has_suffix(ids, "cmd.exe"@), command_prompt_aliases()));
    let ghost before = views(aliases@);
    if name_has(n, "file explorer") || same(n, "explorer") || name_has(id, "explorer.exe") {
        push_aliases(&mut aliases, &["files", "file manager", "explorer", "folders", "home folder"]);
        assert(str_views(seq!["files", "file manager", "explorer", "folders", "home folder"]) =~= files_aliases());
    }
    assert(views(aliases@) =~= before + group_if(has_substring(ns, "file explorer"@) || ns == "explorer"@ || has_substring(ids, "explorer.exe"@), files_aliases()));
    let ghost before = views(aliases@);
    if name_has(n, "settings") || name_has(id, "immersivecontrolpanel") {
        push_aliases(&mut aliases, &["settings", "preferences", "control panel", "system settings"]);
        assert(str_views(seq!["settings", "preferences", "control panel", "system settings"]) =~= settings_aliases());
    }
    assert(views(aliases@) =~= before + group_if(has_substring(ns, "settings"@) || has_substring(ids, "immersivecontrolpanel"@), settings_aliases()));
    assert(views(aliases@) =~= alias_part1(ns, ids));
    aliases
}

#[verifier::rlimit(40)]
fn alias_part2_exec(n: &Vec<char>, id: &Vec<char>) -> (r: Vec<String>)
    ensures
        views(r@) == alias_part2(n@, id@),
{
    let ghost ns = n@;
    let ghost ids = id@;
    let mut aliases: Vec<String> = Vec::new();
    let ghost before = views(aliases@);
    if name_has(n, "edge") || name_has(n, "chrome") || name_has(n, "firefox") || name_has(n, "opera")
        || name_has(n, "brave") || name_has(n, "vivaldi") {
        push_aliases(&mut aliases, &["browser", "web", "internet", "web browser"]);
        assert(str_views(seq!["browser", "web", "internet", "web browser"]) =~= browser_aliases());
    }
    assert(views(aliases@) =~= before + group_if(has_substring(ns, "edge"@) || has_substring(ns, "chrome"@) || has_substring(ns, "firefox"@)
            || has_substring(ns, "opera"@) || has_substring(ns, "brave"@) || has_substring(ns, "vivaldi"@), browser_aliases()));
    let ghost before = views(aliases@);
    if name_has(n, "notepad") || name_has(n, "text editor") {
        push_aliases(&mut aliases, &["text editor", "editor", "notes", "notepad"]);
        assert(str_views(seq!["text editor", "editor", "notes", "notepad"]) =~= editor_aliases());
    }
    assert(views(aliases@) =~= before + group_if(has_substring(ns, "notepad"@) || has_substring(ns, "text editor"@), editor_aliases()));
    let ghost before = views(aliases@);
    if name_has(n, "calculator") {
        push_aliases(&mut aliases, &["calculator", "calc", "math"]);
        assert(str_views(seq!["calculator", "calc", "math"]) =~= calculator_aliases());
    }
    assert(views(aliases@) =~= before + group_if(has_substring(ns, "calculator"@), calculator_aliases()));
    let ghost before = views(aliases@);
    if name_has(n, "snipping tool") || name_has(n, "snip & sketch") {
        push_aliases(&mut aliases, &["screenshot", "screen capture", "snipping", "snip", "capture"]);
        assert(str_views(seq!["screenshot", "screen capture", "snipping", "snip", "capture"]) =~= screenshot_aliases());
    }
    assert(views(aliases@) =~= before + group_if(has_substring(ns, "snipping tool"@) || has_substring(ns, "snip & sketch"@), screenshot_aliases()));
    let ghost before = views(aliases@);
    if name_has(n, "photos") {
        push_aliases(&mut aliases, &["photos", "images", "pictures", "image viewer"]);
        assert(str_views(seq!["photos", "images", "pictures", "image viewer"]) =~= photos_aliases());
    }
    assert(views(aliases@) =~= before + group_if(has_substring(ns, "photos"@), photos_aliases()));
    assert(views(aliases@) =~= alias_part2(ns, ids));
    aliases
}

#[verifier::rlimit(40)]
fn alias_part3_exec(n: &Vec<char>, id: &Vec<char>) -> (r: Vec<String>)
    ensures
        views(r@) == alias_part3(n@, id@),
{
    let ghost ns = n@;
    let ghost ids = id@;
    let mut aliases: Vec<String> = Vec::new();
    let ghost before = views(aliases@);
    if name_has(n, "camera") {
        push_aliases(&mut aliases, &["camera", "webcam", "photo"]);
        assert(str_views(seq!["camera", "webcam", "photo"]) =~= camera_aliases());
    }
    assert(views(aliases@) =~= before + group_if(has_substring(ns, "camera"@), camera_aliases()));
    let ghost before = views(aliases@);
    if name_has(n, "calendar") {
        push_aliases(&mut aliases, &["calendar", "events", "appointments"]);
        assert(str_views(seq!["calendar", "events", "appointments"]) =~= calendar_aliases());
    }
    assert(views(aliases@) =~= before + group_if(has_substring(ns, "calendar"@), calendar_aliases()));
    let ghost before = views(aliases@);
    if name_has(n, "mail") || name_has(n, "outlook") {
        push_aliases(&mut aliases, &["mail", "email", "e-mail"]);
        assert(str_views(seq!["mail", "email", "e-mail"]) =~= mail_aliases());
    }
    assert(views(aliases@) =~= before + group_if(has_substring(ns, "mail"@) || has_substring(ns, "outlook"@), mail_aliases()));
    let ghost before = views(aliases@);
    if name_has(n, "microsoft store") || name_has(id, "windowsstore") {
        push_aliases(&mut aliases, &["software", "store", "apps", "app store"]);
        assert(str_views(seq!["software", "store", "apps", "app store"]) =~= store_aliases());
    }
    assert(views(aliases@) =~= before + group_if(has_substring(ns, "microsoft store"@) || has_substring(ids, "windowsstore"@), store_aliases()));
    let ghost before = views(aliases@);
    if name_has(n, "task manager") {
        push_aliases(&mut aliases, &["task manager", "processes", "system monitor", "performance"]);
        assert(str_views(seq!["task manager", "processes", "system monitor", "performance"]) =~= monitor_aliases());
    }
    assert(views(aliases@) =~= before + group_if(has_substring(ns, "task manager"@), monitor_aliases()));
    assert(views(aliases@) =~= alias_part3(ns, ids));
    aliases
}

fn name_has(hay: &Vec<char>, needle: &str) -> (r: bool)
    ensures
        r == has_substring(hay@, needle@),
{
    let nc = chars_of(needle);
    contains_chars(hay.as_slice(), nc.as_slice())
}

fn suffix(hay: &Vec<char>, needle: &str) -> (r: bool)
    ensures
        r == has_suffix(hay@, needle@),
{
    let nc = chars_of(needle);
    ends_with_chars(hay.as_slice(), nc.as_slice())
}

fn same(hay: &Vec<char>, other: &str) -> (r: bool)
    ensures
        r == (hay@ == other@),
{
    let oc = chars_of(other);
    chars_eq(hay.as_slice(), oc.as_slice())
}


/// The name and id of a catalog entry.
pub open spec fn entry_view(e: AppEntry) -> (Seq<char>, Seq<char>) {
    (e.name@, e.app_id@)
}

pub open spec fn entry_views(v: Seq<AppEntry>) -> Seq<(Seq<char>, Seq<char>)> {
    v.map_values(|e: AppEntry| entry_view(e))
}

/// An entry's aliases are those `aliases_for` gives for its name and id.
pub open spec fn aliases_fit(e: AppEntry) -> bool {
    &&& strictly_sorted(views(e.aliases@))
    &&& forall|x: Seq<char>| views(e.aliases@).contains(x) <==> alias_candidates(
        lower_seq(e.name@),
        lower_seq(e.app_id@),
    ).contains(x)
}

/// What one row of `Get-StartApps` contributes: its trimmed name and id,
/// when both are present and not blank.
pub open spec fn raw_entry(name: Option<Seq<char>>, app_id: Option<Seq<char>>) -> Option<(Seq<char>, Seq<char>)> {
    match (name, app_id) {
        (Some(n), Some(i)) => if trim(n).len() > 0 && trim(i).len() > 0 {
            Some((trim(n), trim(i)))
        } else {
            None
        },
        _ => None,
    }
}

pub open spec fn opt_chars(o: Option<String>) -> Option<Seq<char>> {
    match o {
        Some(s) => Some(s@),
        None => None,
    }
}

pub open spec fn raw_views(raws: Seq<(Option<String>, Option<String>)>) -> Seq<(Option<Seq<char>>, Option<Seq<char>>)> {
    raws.map_values(|r: (Option<String>, Option<String>)| (opt_chars(r.0), opt_chars(r.1)))
}

/// The usable rows, in order.
pub open spec fn usable(raws: Seq<(Option<Seq<char>>, Option<Seq<char>>)>) -> Seq<(Seq<char>, Seq<char>)>
    decreases raws.len(),
{
    if raws.len() == 0 {
        Seq::empty()
    } else {
        let rest = usable(raws.drop_last());
        match raw_entry(raws.last().0, raws.last().1) {
            Some(e) => rest.push(e),
            None => rest,
        }
    }
}

/// Name order, ignoring ASCII case.
pub open spec fn name_before(a: (Seq<char>, Seq<char>), b: (Seq<char>, Seq<char>)) -> bool {
    lex_lt(lower_seq(a.0), lower_seq(b.0))
}

/// `x` placed before the first entry of the sorted `s` whose name does not
/// come before its own.
pub open spec fn insert_by_name(s: Seq<(Seq<char>, Seq<char>)>, x: (Seq<char>, Seq<char>)) -> Seq<(Seq<char>, Seq<char>)>
    decreases s.len(),
{
    if s.len() == 0 {
        seq![x]
    } else if !name_before(s[0], x) {
        seq![x] + s
    } else {
        seq![s[0]] + insert_by_name(s.drop_first(), x)
    }
}

/// Entries sorted by name, ignoring ASCII case; entries of equal names keep
/// their order (a stable sort).
pub open spec fn by_name(s: Seq<(Seq<char>, Seq<char>)>) -> Seq<(Seq<char>, Seq<char>)>
    decreases s.len(),
{
    if s.len() == 0 {
        s
    } else {
        insert_by_name(by_name(s.drop_first()), s[0])
    }
}

/// Drops every entry whose id equals (ignoring ASCII case) that of the entry
/// kept just before it (`Vec::dedup_by`).
pub open spec fn without_repeated_ids(s: Seq<(Seq<char>, Seq<char>)>) -> Seq<(Seq<char>, Seq<char>)>
    decreases s.len(),
{
    if s.len() == 0 {
        s
    } else {
        let r = without_repeated_ids(s.drop_last());
        if r.len() > 0 && same_ignoring_ascii_case(r.last().1, s.last().1) {
            r
        } else {
            r.push(s.last())
        }
    }
}

/// The launcher's catalog built from the rows of `Get-StartApps`.
pub open spec fn catalog_spec(raws: Seq<(Option<Seq<char>>, Option<Seq<char>>)>) -> Seq<(Seq<char>, Seq<char>)> {
    without_repeated_ids(by_name(usable(raws)))
}

proof fn lemma_insert_by_name_at(s: Seq<(Seq<char>, Seq<char>)>, x: (Seq<char>, Seq<char>), p: int)
    requires
        0 <= p <= s.len(),
        forall|j: int| 0 <= j < p ==> name_before(#[trigger] s[j], x),
        p < s.len() ==> !name_before(s[p], x),
    ensures
        insert_by_name(s, x) == s.insert(p, x),
    decreases s.len(),
{
    if s.len() == 0 {
        assert(s.insert(p, x) =~= seq![x]);
    } else if p == 0 {
        assert(s.insert(0, x) =~= seq![x] + s);
    } else {
        let t = s.drop_first();
        assert forall|j: int| 0 <= j < p - 1 implies name_before(#[trigger] t[j], x) by {
            assert(t[j] == s[j + 1]);
        }
        assert(name_before(s[0], x));
        lemma_insert_by_name_at(t, x, p - 1);
        assert(seq![s[0]] + t.insert(p - 1, x) =~= s.insert(p, x));
    }
}

/// Whether an entry's name comes before the lower-cased name `xl`.
fn name_precedes(e: &AppEntry, xl: &Vec<char>) -> (r: bool)
    ensures
        r == lex_lt(lower_seq(e.name@), xl@),
{
    let yl = lower_chars(chars_of(e.name.as_str()).as_slice());
    compare_chars(yl.as_slice(), xl.as_slice()) == -1
}

/// The entry of one row, with its aliases.
fn entry_from_row(name: &Option<String>, app_id: &Option<String>) -> (r: Option<AppEntry>)
    ensures
        match raw_entry(opt_chars(*name), opt_chars(*app_id)) {
            Some(e) => r matches Some(a) && entry_view(a) == e && aliases_fit(a),
            None => r is None,
        },
{
    match (name, app_id) {
        (Some(n), Some(i)) => {
            let tnc = trim_chars(chars_of(n.as_str()).as_slice());
            let tic = trim_chars(chars_of(i.as_str()).as_slice());
            if tnc.len() == 0 || tic.len() == 0 {
                return None;
            }
            let tn = string_from_chars(tnc.as_slice());
            let ti = string_from_chars(tic.as_slice());
            let aliases = aliases_for(tn.as_str(), ti.as_str());
            Some(AppEntry { name: tn, app_id: ti, aliases })
        },
        _ => None,
    }
}

/// The installed applications as the launcher lists them: usable rows,
/// sorted by name ignoring ASCII case, without an entry whose id repeats
/// that of the entry before it; each with its aliases.
pub fn catalog(raws: &Vec<(Option<String>, Option<String>)>) -> (r: Vec<AppEntry>)
    ensures
        entry_views(r@) == catalog_spec(raw_views(raws@)),
        forall|k: int| 0 <= k < r@.len() ==> aliases_fit(#[trigger] r@[k]),
{
    // usable rows, in order
    let mut rows: Vec<AppEntry> = Vec::new();
    let mut i: usize = 0;
    while i < raws.len()
        invariant
            i <= raws@.len(),
            entry_views(rows@) == usable(raw_views(raws@).take(i as int)),
            forall|k: int| 0 <= k < rows@.len() ==> aliases_fit(#[trigger] rows@[k]),
        decreases raws@.len() - i,
    {
        let ghost pre = raw_views(raws@).take(i as int);
        let ghost post = raw_views(raws@).take(i + 1);
        proof {
            assert(post.drop_last() =~= pre);
            assert(post.last() == (opt_chars(raws@[i as int].0), opt_chars(raws@[i as int].1)));
        }
        let ghost before = rows@;
        match entry_from_row(&raws[i].0, &raws[i].1) {
            Some(e) => {
                rows.push(e);
                proof {
                    assert(entry_views(rows@) =~= entry_views(before).push(entry_view(e)));
                }
            },
            None => {},
        }
        i = i + 1;
    }
    proof {
        assert(raw_views(raws@).take(raws@.len() as int) =~= raw_views(raws@));
    }
    let ghost rows_v = entry_views(rows@);
    // stable sort by name
    let n = rows.len();
    let mut rest = rows;
    let mut sorted: Vec<AppEntry> = Vec::new();
    proof {
        assert(rows_v.subrange(n as int, n as int) =~= Seq::<(Seq<char>, Seq<char>)>::empty());
    }
    while rest.len() > 0
        invariant
            entry_views(rest@) == rows_v.subrange(0, rest@.len() as int),
            rest@.len() <= n,
            n == rows_v.len(),
            entry_views(sorted@) == by_name(rows_v.subrange(rest@.len() as int, n as int)),
            forall|k: int| 0 <= k < rest@.len() ==> aliases_fit(#[trigger] rest@[k]),
            forall|k: int| 0 <= k < sorted@.len() ==> aliases_fit(#[trigger] sorted@[k]),
        decreases rest@.len(),
    {
        let k = rest.len();
        let ghost rest_before = rest@;
        let x = rest.pop().unwrap();
        let ghost xv = entry_view(x);
        let ghost suffix = rows_v.subrange(k - 1, n as int);
        proof {
            assert(rest_before[k - 1] == x);
            assert(entry_views(rest_before)[k - 1] == xv);
            assert(xv == rows_v[k - 1]);
            assert(suffix.drop_first() =~= rows_v.subrange(k as int, n as int));
            assert(suffix[0] == xv);
            assert(entry_views(rest@) =~= rows_v.subrange(0, k - 1));
            assert(aliases_fit(x));
        }
        let xl = lower_chars(chars_of(x.name.as_str()).as_slice());
        let mut p: usize = 0;
        while p < sorted.len() && name_precedes(&sorted[p], &xl)
            invariant
                p <= sorted@.len(),
                xl@ == lower_seq(xv.0),
                xv == entry_view(x),
                forall|j: int| 0 <= j < p ==> name_before(#[trigger] entry_views(sorted@)[j], xv),
            decreases sorted@.len() - p,
        {
            proof {
                assert(entry_views(sorted@)[p as int] == entry_view(sorted@[p as int]));
            }
            p = p + 1;
        }
        proof {
            if p < sorted@.len() {
                assert(entry_views(sorted@)[p as int] == entry_view(sorted@[p as int]));
            }
            lemma_insert_by_name_at(entry_views(sorted@), xv, p as int);
        }
        let ghost sorted_before = sorted@;
        sorted.insert(p, x);
        proof {
            assert(entry_views(sorted@) =~= entry_views(sorted_before).insert(p as int, xv));
            assert forall|j: int| 0 <= j < sorted@.len() implies aliases_fit(#[trigger] sorted@[j]) by {
                if j < p {
                    assert(sorted@[j] == sorted_before[j]);
                } else if j > p {
                    assert(sorted@[j] == sorted_before[j - 1]);
                }
            }
        }
    }
    proof {
        assert(rows_v.subrange(0, n as int) =~= rows_v);
    }
    let ghost sorted_v = entry_views(sorted@);
    // reverse, so that popping yields the sorted order
    let m = sorted.len();
    let mut reversed: Vec<AppEntry> = Vec::new();
    while sorted.len() > 0
        invariant
            sorted@.len() + reversed@.len() == m,
            m == sorted_v.len(),
            entry_views(sorted@) == sorted_v.take(sorted@.len() as int),
            forall|k: int| 0 <= k < reversed@.len() ==> #[trigger] entry_views(reversed@)[k] == sorted_v[m - 1 - k],
            forall|k: int| 0 <= k < sorted@.len() ==> aliases_fit(#[trigger] sorted@[k]),
            forall|k: int| 0 <= k < reversed@.len() ==> aliases_fit(#[trigger] reversed@[k]),
        decreases sorted@.len(),
    {
        let ghost sb = sorted@;
        let ghost rb = reversed@;
        let e = sorted.pop().unwrap();
        proof {
            assert(e == sb[sb.len() - 1]);
            assert(entry_views(sb)[sb.len() - 1] == entry_view(e));
            assert(entry_views(sorted@) =~= sorted_v.take(sorted@.len() as int));
        }
        reversed.push(e);
        proof {
            assert forall|k: int| 0 <= k < reversed@.len() implies #[trigger] entry_views(reversed@)[k] == sorted_v[m - 1 - k] by {
                if k < rb.len() {
                    assert(reversed@[k] == rb[k]);
                    assert(entry_views(rb)[k] == entry_views(reversed@)[k]);
                }
            }
            assert forall|k: int| 0 <= k < reversed@.len() implies aliases_fit(#[trigger] reversed@[k]) by {
                if k < rb.len() {
                    assert(reversed@[k] == rb[k]);
                }
            }
        }
    }
    // drop repeated ids
    let mut out: Vec<AppEntry> = Vec::new();
    proof {
        assert(sorted_v.take(0) =~= Seq::<(Seq<char>, Seq<char>)>::empty());
    }
    while reversed.len() > 0
        invariant
            reversed@.len() <= m,
            m == sorted_v.len(),
            forall|k: int| 0 <= k < reversed@.len() ==> #[trigger] entry_views(reversed@)[k] == sorted_v[m - 1 - k],
            entry_views(out@) == without_repeated_ids(sorted_v.take(m - reversed@.len())),
            forall|k: int| 0 <= k < reversed@.len() ==> aliases_fit(#[trigger] reversed@[k]),
            forall|k: int| 0 <= k < out@.len() ==> aliases_fit(#[trigger] out@[k]),
        decreases reversed@.len(),
    {
        let ghost rb = reversed@;
        let ghost done = m - rb.len();
        let e = reversed.pop().unwrap();
        let ghost ev = entry_view(e);
        proof {
            assert(e == rb[rb.len() - 1]);
            assert(entry_views(rb)[rb.len() - 1] == ev);
            assert(ev == sorted_v[done]);
            assert(sorted_v.take(done + 1).drop_last() =~= sorted_v.take(done));
            assert(sorted_v.take(done + 1).last() == ev);
            assert forall|k: int| 0 <= k < reversed@.len() implies #[trigger] entry_views(reversed@)[k] == sorted_v[m - 1 - k] by {
                assert(reversed@[k] == rb[k]);
                assert(entry_views(rb)[k] == entry_views(reversed@)[k]);
            }
            assert(aliases_fit(e));
        }
        let ghost ob = out@;
        let repeat = if out.len() > 0 {
            let last = out.len() - 1;
            proof {
                assert(entry_views(ob)[last as int] == entry_view(ob[last as int]));
            }
            eq_ignore_ascii_case(out[last].app_id.as_str(), e.app_id.as_str())
        } else {
            false
        };
        if !repeat {
            out.push(e);
            proof {
                assert(entry_views(out@) =~= entry_views(ob).push(ev));
                assert forall|k: int| 0 <= k < out@.len() implies aliases_fit(#[trigger] out@[k]) by {
                    if k < ob.len() {
                        assert(out@[k] == ob[k]);
                    }
                }
            }
        }
    }
    proof {
        assert(sorted_v.take(m as int) =~= sorted_v);
    }
    out
}

/// Characters that could break out of the shell target argument.
pub open spec fn forbidden_in_id(c: char) -> bool {
    c == '\r' || c == '\n' || c == '"'
}

/// The shell target that launches an application, once its id is trimmed:
/// refused when blank or when it holds a line break or a quote.
pub open spec fn launch_target_spec(app_id: Seq<char>) -> Option<Seq<char>> {
    let t = trim(app_id);
    if t.len() == 0 || exists|i: int| 0 <= i < t.len() && #[trigger] forbidden_in_id(t[i]) {
        None
    } else {
        Some("shell:AppsFolder\\"@ + t)
    }
}

pub fn launch_target(app_id: &str) -> (r: Result<String, String>)
    ensures
        launch_target_spec(app_id@) matches Some(t) ==> (r matches Ok(s) && s@ == t),
        launch_target_spec(app_id@) is None ==> (r matches Err(e) && e@ == "invalid application id"@),
{
    let c = chars_of(app_id);
    let t = trim_chars(c.as_slice());
    if t.len() == 0 {
        return Err(String::from_str("invalid application id"));
    }
    let mut i: usize = 0;
    while i < t.len()
        invariant
            i <= t@.len(),
            t@ == trim(app_id@),
            forall|k: int| 0 <= k < i ==> !#[trigger] forbidden_in_id(t@[k]),
        decreases t@.len() - i,
    {
        if t[i] == '\r' || t[i] == '\n' || t[i] == '"' {
            proof {
                assert(forbidden_in_id(t@[i as int]));
            }
            return Err(String::from_str("invalid application id"));
        }
        i = i + 1;
    }
    let id = string_from_chars(t.as_slice());
    Ok(concat_str("shell:AppsFolder\\", id.as_str()))
}

/// `Get-StartApps failed: <stderr>`, the error text read lossily and trimmed.
pub fn start_apps_failure(stderr: &[u8]) -> (r: String)
    ensures
        r@ == "Get-StartApps failed: "@ + trim(utf8_lossy(stderr@)),
{
    let text = from_utf8_lossy(stderr);
    let trimmed = trim_str(text.as_str());
    concat_str("Get-StartApps failed: ", trimmed.as_str())
}

/// `Get-StartApps timed out after <ms> ms`.
pub fn start_apps_timeout(millis: u64) -> (r: String)
    ensures
        r@ == "Get-StartApps timed out after "@ + decimal_digits(millis as nat) + " ms"@,
{
    let digits = decimal_of(millis);
    let d = string_from_chars(digits.as_slice());
    let a = concat_str("Get-StartApps timed out after ", d.as_str());
    concat_str(a.as_str(), " ms")
}

/// No entry's name comes before the name of one listed ahead of it.
pub open spec fn names_in_order(s: Seq<(Seq<char>, Seq<char>)>) -> bool {
    forall|i: int, j: int| 0 <= i < j < s.len() ==> !name_before(#[trigger] s[j], #[trigger] s[i])
}

/// No name in `s` comes before `k`'s.
pub open spec fn names_from(s: Seq<(Seq<char>, Seq<char>)>, k: (Seq<char>, Seq<char>)) -> bool {
    forall|i: int| 0 <= i < s.len() ==> !name_before(#[trigger] s[i], k)
}

proof fn lemma_insert_by_name_from(s: Seq<(Seq<char>, Seq<char>)>, x: (Seq<char>, Seq<char>), k: (Seq<char>, Seq<char>))
    requires
        names_from(s, k),
        !name_before(x, k),
    ensures
        names_from(insert_by_name(s, x), k),
    decreases s.len(),
{
    if s.len() > 0 && name_before(s[0], x) {
        let t = s.drop_first();
        assert(names_from(t, k)) by {
            assert forall|i: int| 0 <= i < t.len() implies !name_before(#[trigger] t[i], k) by {
                assert(t[i] == s[i + 1]);
            }
        }
        lemma_insert_by_name_from(t, x, k);
        let r = seq![s[0]] + insert_by_name(t, x);
        assert forall|i: int| 0 <= i < r.len() implies !name_before(#[trigger] r[i], k) by {
            if i > 0 {
                assert(r[i] == insert_by_name(t, x)[i - 1]);
            }
        }
    } else if s.len() > 0 {
        let r = seq![x] + s;
        assert forall|i: int| 0 <= i < r.len() implies !name_before(#[trigger] r[i], k) by {
            if i > 0 {
                assert(r[i] == s[i - 1]);
            }
        }
    }
}

proof fn lemma_insert_by_name_sorted(s: Seq<(Seq<char>, Seq<char>)>, x: (Seq<char>, Seq<char>))
    requires
        names_in_order(s),
    ensures
        names_in_order(insert_by_name(s, x)),
    decreases s.len(),
{
    if s.len() > 0 {
        if name_before(s[0], x) {
            let t = s.drop_first();
            assert(names_in_order(t)) by {
                assert forall|i: int, j: int| 0 <= i < j < t.len() implies !name_before(#[trigger] t[j], #[trigger] t[i]) by {
                    assert(t[i] == s[i + 1] && t[j] == s[j + 1]);
                }
            }
            assert(names_from(t, s[0])) by {
                assert forall|i: int| 0 <= i < t.len() implies !name_before(#[trigger] t[i], s[0]) by {
                    assert(t[i] == s[i + 1]);
                }
            }
            lemma_lex_trichotomy(lower_seq(s[0].0), lower_seq(x.0));
            lemma_insert_by_name_sorted(t, x);
            lemma_insert_by_name_from(t, x, s[0]);
            let u = insert_by_name(t, x);
            let r = seq![s[0]] + u;
            assert forall|i: int, j: int| 0 <= i < j < r.len() implies !name_before(#[trigger] r[j], #[trigger] r[i]) by {
                assert(r[j] == u[j - 1]);
                if i > 0 {
                    assert(r[i] == u[i - 1]);
                }
            }
        } else {
            let r = seq![x] + s;
            assert forall|i: int, j: int| 0 <= i < j < r.len() implies !name_before(#[trigger] r[j], #[trigger] r[i]) by {
                assert(r[j] == s[j - 1]);
                if i > 0 {
                    assert(r[i] == s[i - 1]);
                } else if j - 1 > 0 {
                    assert(!name_before(s[j - 1], s[0]));
                    lemma_lex_le_transitive(lower_seq(x.0), lower_seq(s[0].0), lower_seq(s[j - 1].0));
                }
            }
        }
    }
}

proof fn lemma_by_name_sorted(s: Seq<(Seq<char>, Seq<char>)>)
    ensures
        names_in_order(by_name(s)),
    decreases s.len(),
{
    if s.len() > 0 {
        lemma_by_name_sorted(s.drop_first());
        lemma_insert_by_name_sorted(by_name(s.drop_first()), s[0]);
    }
}

proof fn lemma_kept_entries_come_from(s: Seq<(Seq<char>, Seq<char>)>)
    ensures
        forall|i: int| 0 <= i < without_repeated_ids(s).len() ==> s.contains(#[trigger] without_repeated_ids(s)[i]),
    decreases s.len(),
{
    if s.len() > 0 {
        let t = s.drop_last();
        lemma_kept_entries_come_from(t);
        let r = without_repeated_ids(t);
        assert forall|i: int| 0 <= i < without_repeated_ids(s).len() implies s.contains(#[trigger] without_repeated_ids(s)[i]) by {
            if i < r.len() {
                assert(without_repeated_ids(s)[i] == r[i]);
                let j = choose|j: int| 0 <= j < t.len() && t[j] == r[i];
                assert(s[j] == t[j]);
            } else {
                assert(without_repeated_ids(s)[i] == s.last());
                assert(s[s.len() - 1] == s.last());
            }
        }
    }
}

proof fn lemma_without_repeats_sorted(s: Seq<(Seq<char>, Seq<char>)>)
    requires
        names_in_order(s),
    ensures
        names_in_order(without_repeated_ids(s)),
        forall|i: int| 0 <= i < without_repeated_ids(s).len() - 1 ==> !same_ignoring_ascii_case(
            #[trigger] without_repeated_ids(s)[i].1,
            without_repeated_ids(s)[i + 1].1,
        ),
    decreases s.len(),
{
    if s.len() > 0 {
        let t = s.drop_last();
        assert(names_in_order(t)) by {
            assert forall|i: int, j: int| 0 <= i < j < t.len() implies !name_before(#[trigger] t[j], #[trigger] t[i]) by {
                assert(t[i] == s[i] && t[j] == s[j]);
            }
        }
        lemma_without_repeats_sorted(t);
        lemma_kept_entries_come_from(t);
        let r = without_repeated_ids(t);
        if !(r.len() > 0 && same_ignoring_ascii_case(r.last().1, s.last().1)) {
            let w = r.push(s.last());
            assert forall|i: int, j: int| 0 <= i < j < w.len() implies !name_before(#[trigger] w[j], #[trigger] w[i]) by {
                if j == w.len() - 1 {
                    assert(t.contains(r[i]));
                    let k = choose|k: int| 0 <= k < t.len() && t[k] == r[i];
                    assert(s[k] == r[i]);
                    assert(s[s.len() - 1] == s.last());
                } else {
                    assert(w[i] == r[i] && w[j] == r[j]);
                }
            }
            assert forall|i: int| 0 <= i < w.len() - 1 implies !same_ignoring_ascii_case(#[trigger] w[i].1, w[i + 1].1) by {
                if i < w.len() - 2 {
                    assert(w[i] == r[i] && w[i + 1] == r[i + 1]);
                } else {
                    assert(w[i] == r.last());
                }
            }
        }
    }
}

/// The catalog is in name order, ignoring ASCII case, and no entry repeats
/// the id (ignoring ASCII case) of the entry just before it.
pub proof fn lemma_catalog_order(raws: Seq<(Option<Seq<char>>, Option<Seq<char>>)>)
    ensures
        names_in_order(catalog_spec(raws)),
        forall|i: int| 0 <= i < catalog_spec(raws).len() - 1 ==> !same_ignoring_ascii_case(
            #[trigger] catalog_spec(raws)[i].1,
            catalog_spec(raws)[i + 1].1,
        ),
{
    lemma_by_name_sorted(usable(raws));
    lemma_without_repeats_sorted(by_name(usable(raws)));
}
} // verus!
