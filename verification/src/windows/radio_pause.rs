//! Airplane-style pause of the Wi-Fi and Bluetooth radios that restores only
//! what the pause itself switched off.
use crate::text::{concat_str, opt_view};
use crate::windows::bluetooth::BluetoothStatus;
use crate::windows::wifi::WifiStatus;
use vstd::prelude::*;

verus! {

/// What the shell knows about one radio.
#[derive(Clone, Debug, PartialEq, Eq)]
pub struct RadioReport {
    pub supported: bool,
    pub enabled: Option<bool>,
    pub error: Option<String>,
}

/// A radio report with its error text as characters.
pub struct ReportView {
    pub supported: bool,
    pub enabled: Option<bool>,
    pub error: Option<Seq<char>>,
}

impl View for RadioReport {
    type V = ReportView;

    open spec fn view(&self) -> ReportView {
        ReportView { supported: self.supported, enabled: self.enabled, error: opt_view(self.error) }
    }
}

/// The pause state the Quick Settings airplane tile shows.
#[derive(Clone, Debug, PartialEq, Eq)]
pub struct RadioPauseStatus {
    pub managed: bool,
    pub paused: bool,
    pub partial: bool,
    pub wifi: RadioReport,
    pub bluetooth: RadioReport,
}

/// The restoration journal: for each radio, whether it was on when the
/// pause began (`None` once nothing is left to restore).
#[derive(Clone, Copy, Debug, PartialEq, Eq, Structural)]
pub struct SavedRadios {
    pub wifi: Option<bool>,
    pub bluetooth: Option<bool>,
}

impl SavedRadios {
    pub fn is_empty(&self) -> (r: bool)
        ensures
            r == (self.wifi is None && self.bluetooth is None),
    {
        self.wifi.is_none() && self.bluetooth.is_none()
    }
}

/// The two radios that a pause manages.
#[derive(Clone, Copy, Debug, PartialEq, Eq, Structural)]
pub enum RadioKind {
    Wifi,
    Bluetooth,
}

/// What a pause request does to one radio.
#[derive(Clone, Copy, Debug, PartialEq, Eq, Structural)]
pub enum RadioAction {
    Keep,
    Disable,
    Enable,
}

/// The radio switches a pause request performs.
#[derive(Clone, Copy, Debug, PartialEq, Eq, Structural)]
pub struct PausePlan {
    pub wifi: RadioAction,
    pub bluetooth: RadioAction,
}

/// What came back from switching a radio: the status Windows confirmed, or
/// the error together with a fresh report of the radio.
#[derive(Clone, Debug)]
pub enum SwitchOutcome {
    Confirmed { supported: bool, enabled: bool },
    Failed { error: String, requery: RadioReport },
}

/// The Wi-Fi report from a status query.
pub fn wifi_report(status: Result<WifiStatus, String>) -> (r: RadioReport)
    ensures
        match status {
            Ok(st) => r@ == (ReportView {
                supported: st.supported,
                enabled: if st.supported { Some(st.enabled) } else { None },
                error: None,
            }),
            Err(e) => r@ == (ReportView { supported: false, enabled: None, error: Some(e@) }),
        },
{
    match status {
        Ok(st) => RadioReport {
            supported: st.supported,
            enabled: if st.supported { Some(st.enabled) } else { None },
            error: None,
        },
        Err(e) => RadioReport { supported: false, enabled: None, error: Some(e) },
    }
}

/// The Bluetooth report from a status query.
pub fn bluetooth_report(status: Result<BluetoothStatus, String>) -> (r: RadioReport)
    ensures
        match status {
            Ok(st) => r@ == (ReportView {
                supported: st.supported,
                enabled: if st.supported { Some(st.enabled) } else { None },
                error: None,
            }),
            Err(e) => r@ == (ReportView { supported: false, enabled: None, error: Some(e@) }),
        },
{
    match status {
        Ok(st) => RadioReport {
            supported: st.supported,
            enabled: if st.supported { Some(st.enabled) } else { None },
            error: None,
        },
        Err(e) => RadioReport { supported: false, enabled: None, error: Some(e) },
    }
}

pub open spec fn any_supported(w: ReportView, b: ReportView) -> bool {
    w.supported || b.supported
}

pub open spec fn any_error(w: ReportView, b: ReportView) -> bool {
    w.error is Some || b.error is Some
}

/// Every supported radio is confirmed off.
pub open spec fn all_off(w: ReportView, b: ReportView) -> bool {
    (w.supported ==> w.enabled == Some(false)) && (b.supported ==> b.enabled == Some(false))
}

pub open spec fn paused_spec(managed: bool, w: ReportView, b: ReportView) -> bool {
    managed && any_supported(w, b) && all_off(w, b) && !any_error(w, b)
}

pub open spec fn partial_spec(managed: bool, w: ReportView, b: ReportView) -> bool {
    managed && (!any_supported(w, b) || !all_off(w, b) || any_error(w, b))
}

/// The pause status: paused when the shell manages a pause and every
/// supported radio is confirmed off without error; partial when it manages
/// one that is not fully in effect.
pub fn compose(managed: bool, wifi: RadioReport, bluetooth: RadioReport) -> (r: RadioPauseStatus)
    ensures
        r.managed == managed,
        r.wifi == wifi,
        r.bluetooth == bluetooth,
        r.paused == paused_spec(managed, wifi@, bluetooth@),
        r.partial == partial_spec(managed, wifi@, bluetooth@),
        r.paused ==> managed && (wifi.supported ==> wifi.enabled == Some(false)) && (bluetooth.supported
            ==> bluetooth.enabled == Some(false)) && wifi.error is None && bluetooth.error is None,
        managed && !r.paused ==> r.partial,
{
    let any_supported = wifi.supported || bluetooth.supported;
    let any_error = wifi.error.is_some() || bluetooth.error.is_some();
    let all_off = (!wifi.supported || wifi.enabled == Some(false))
        && (!bluetooth.supported || bluetooth.enabled == Some(false));
    RadioPauseStatus {
        managed,
        paused: managed && any_supported && all_off && !any_error,
        partial: managed && (!any_supported || !all_off || any_error),
        wifi,
        bluetooth,
    }
}

/// A status never claims both a complete and a partial pause; a managed
/// pause is exactly one of the two, and without one it is neither.
pub proof fn lemma_pause_status_exclusive(managed: bool, w: ReportView, b: ReportView)
    ensures
        !(paused_spec(managed, w, b) && partial_spec(managed, w, b)),
        managed ==> (paused_spec(managed, w, b) || partial_spec(managed, w, b)),
        !managed ==> (!paused_spec(managed, w, b) && !partial_spec(managed, w, b)),
{
}

/// A pause is complete only when the shell manages it, some radio is
/// supported, every supported radio (Wi-Fi and Bluetooth alike) is confirmed
/// off, and neither reports an error. A managed pause with a supported radio
/// that is on or unconfirmed, with an error, or with no supported radio is
/// partial, never complete. The two radios play the same part: swapping
/// them changes nothing.
pub proof fn lemma_pause_complete_only_when_all_off(managed: bool, w: ReportView, b: ReportView)
    ensures
        paused_spec(managed, w, b) ==> managed && (w.supported || b.supported) && w.error is None
            && b.error is None,
        paused_spec(managed, w, b) ==> (w.supported ==> w.enabled == Some(false)) && (b.supported
            ==> b.enabled == Some(false)),
        managed && w.supported && w.enabled != Some(false) ==> !paused_spec(managed, w, b) && partial_spec(
            managed,
            w,
            b,
        ),
        managed && b.supported && b.enabled != Some(false) ==> !paused_spec(managed, w, b) && partial_spec(
            managed,
            w,
            b,
        ),
        managed && (w.error is Some || b.error is Some) ==> !paused_spec(managed, w, b) && partial_spec(
            managed,
            w,
            b,
        ),
        managed && !w.supported && !b.supported ==> !paused_spec(managed, w, b) && partial_spec(managed, w, b),
        managed && (w.supported || b.supported) && (w.supported ==> w.enabled == Some(false)) && (b.supported
            ==> b.enabled == Some(false)) && w.error is None && b.error is None ==> paused_spec(managed, w, b)
            && !partial_spec(managed, w, b),
        !managed ==> !paused_spec(managed, w, b) && !partial_spec(managed, w, b),
        paused_spec(managed, w, b) == paused_spec(managed, b, w),
        partial_spec(managed, w, b) == partial_spec(managed, b, w),
{
}

pub open spec fn kind_label(kind: RadioKind) -> Seq<char> {
    match kind {
        RadioKind::Wifi => "Wi-Fi"@,
        RadioKind::Bluetooth => "Bluetooth"@,
    }
}

fn label(kind: RadioKind) -> (r: &'static str)
    ensures
        r@ == kind_label(kind),
{
    match kind {
        RadioKind::Wifi => "Wi-Fi",
        RadioKind::Bluetooth => "Bluetooth",
    }
}

fn unconfirmed(kind: RadioKind, what: &str) -> (r: String)
    ensures
        r@ == "Windows did not confirm "@ + kind_label(kind) + what@,
{
    let head = concat_str("Windows did not confirm ", label(kind));
    concat_str(head.as_str(), what)
}

/// Whether a switch outcome confirms the radio on.
pub open spec fn confirmed_on(outcome: SwitchOutcome) -> bool {
    outcome matches SwitchOutcome::Confirmed { supported, enabled } && supported && enabled
}

/// The report after switching a radio off.
pub open spec fn disabled_view(kind: RadioKind, outcome: SwitchOutcome) -> ReportView {
    match outcome {
        SwitchOutcome::Confirmed { supported, enabled } => ReportView {
            supported,
            enabled: Some(enabled),
            error: if !supported || enabled {
                Some("Windows did not confirm "@ + kind_label(kind) + " was disabled"@)
            } else {
                None
            },
        },
        SwitchOutcome::Failed { error, requery } => ReportView {
            supported: requery.supported,
            enabled: requery.enabled,
            error: Some(error@),
        },
    }
}

/// The report after switching a radio back on.
pub open spec fn restored_view(kind: RadioKind, outcome: SwitchOutcome) -> ReportView {
    match outcome {
        SwitchOutcome::Confirmed { supported, enabled } => if supported && enabled {
            ReportView { supported: true, enabled: Some(true), error: None }
        } else {
            ReportView {
                supported,
                enabled: Some(enabled),
                error: Some("Windows did not confirm "@ + kind_label(kind) + " was restored"@),
            }
        },
        SwitchOutcome::Failed { error, requery } => ReportView {
            supported: requery.supported,
            enabled: requery.enabled,
            error: Some(error@),
        },
    }
}

pub fn disable_report(kind: RadioKind, outcome: SwitchOutcome) -> (r: RadioReport)
    ensures
        r@ == disabled_view(kind, outcome),
{
    match outcome {
        SwitchOutcome::Confirmed { supported, enabled } => RadioReport {
            supported,
            enabled: Some(enabled),
            error: if !supported || enabled {
                Some(unconfirmed(kind, " was disabled"))
            } else {
                None
            },
        },
        SwitchOutcome::Failed { error, requery } => RadioReport {
            supported: requery.supported,
            enabled: requery.enabled,
            error: Some(error),
        },
    }
}

pub fn restore_report(kind: RadioKind, outcome: SwitchOutcome) -> (r: RadioReport)
    ensures
        r@ == restored_view(kind, outcome),
{
    match outcome {
        SwitchOutcome::Confirmed { supported, enabled } => if supported && enabled {
            RadioReport { supported: true, enabled: Some(true), error: None }
        } else {
            RadioReport {
                supported,
                enabled: Some(enabled),
                error: Some(unconfirmed(kind, " was restored")),
            }
        },
        SwitchOutcome::Failed { error, requery } => RadioReport {
            supported: requery.supported,
            enabled: requery.enabled,
            error: Some(error),
        },
    }
}


/// The action a pause request takes on one radio: switch off what is on
/// when pausing; switch back on what the journal saved as on and is now off
/// when resuming.
pub open spec fn action_spec(
    saved: Option<SavedRadios>,
    paused: bool,
    saved_entry: Option<bool>,
    current: Option<bool>,
) -> RadioAction {
    if paused {
        if current == Some(true) { RadioAction::Disable } else { RadioAction::Keep }
    } else if saved is Some && saved_entry == Some(true) && current == Some(false) {
        RadioAction::Enable
    } else {
        RadioAction::Keep
    }
}

pub open spec fn wifi_entry(saved: Option<SavedRadios>) -> Option<bool> {
    match saved {
        Some(s) => s.wifi,
        None => None,
    }
}

pub open spec fn bluetooth_entry(saved: Option<SavedRadios>) -> Option<bool> {
    match saved {
        Some(s) => s.bluetooth,
        None => None,
    }
}

/// A journal entry once a resume has run.
pub open spec fn entry_after_resume(entry: Option<bool>, current: Option<bool>, restored: bool) -> Option<bool> {
    if entry == Some(true) {
        if current == Some(true) {
            None
        } else if current == Some(false) {
            if restored { None } else { Some(true) }
        } else {
            Some(true)
        }
    } else {
        None
    }
}

/// The journal after a pause request: a pause records the radios' states
/// when it begins (and never overwrites an earlier record); a resume drops
/// each entry that needs no more restoring, and the journal once empty.
pub open spec fn saved_after(
    saved: Option<SavedRadios>,
    paused: bool,
    wifi: Option<bool>,
    bluetooth: Option<bool>,
    wifi_restored: bool,
    bluetooth_restored: bool,
) -> Option<SavedRadios> {
    if paused {
        if saved is None && !(wifi is None && bluetooth is None) {
            Some(SavedRadios { wifi, bluetooth })
        } else {
            saved
        }
    } else {
        match saved {
            Some(prev) => {
                let w = entry_after_resume(prev.wifi, wifi, wifi_restored);
                let b = entry_after_resume(prev.bluetooth, bluetooth, bluetooth_restored);
                if w is None && b is None {
                    None
                } else {
                    Some(SavedRadios { wifi: w, bluetooth: b })
                }
            },
            None => None,
        }
    }
}

/// A radio's report after the request's action on it.
pub open spec fn report_after(
    kind: RadioKind,
    action: RadioAction,
    current: ReportView,
    outcome: Option<SwitchOutcome>,
) -> ReportView {
    match action {
        RadioAction::Keep => current,
        RadioAction::Disable => disabled_view(kind, outcome.unwrap()),
        RadioAction::Enable => restored_view(kind, outcome.unwrap()),
    }
}

pub open spec fn outcome_restored(outcome: Option<SwitchOutcome>) -> bool {
    outcome matches Some(o) && confirmed_on(o)
}

/// Pauses or resumes the radios. The journal lives here; the radio switches
/// themselves are performed by the caller between `plan` and `set_paused`.
pub struct RadioPauseManager {
    saved: Option<SavedRadios>,
}

impl RadioPauseManager {
    pub closed spec fn journal(&self) -> Option<SavedRadios> {
        self.saved
    }

    pub fn new() -> (r: Self)
        ensures
            r.journal() is None,
    {
        RadioPauseManager { saved: None }
    }

    /// The current pause status for freshly read radio reports.
    pub fn status(&self, wifi: RadioReport, bluetooth: RadioReport) -> (r: RadioPauseStatus)
        ensures
            r.managed == self.journal() is Some,
            r.wifi == wifi,
            r.bluetooth == bluetooth,
            r.paused == paused_spec(self.journal() is Some, wifi@, bluetooth@),
            r.partial == partial_spec(self.journal() is Some, wifi@, bluetooth@),
    {
        compose(self.saved.is_some(), wifi, bluetooth)
    }

    /// Which radios a pause (or resume) request switches, given their
    /// current reports.
    pub fn plan(&self, paused: bool, wifi: &RadioReport, bluetooth: &RadioReport) -> (r: PausePlan)
        ensures
            r.wifi == action_spec(self.journal(), paused, wifi_entry(self.journal()), wifi.enabled),
            r.bluetooth == action_spec(
                self.journal(),
                paused,
                bluetooth_entry(self.journal()),
                bluetooth.enabled,
            ),
    {
        let (saved_wifi, saved_bluetooth) = match self.saved {
            Some(s) => (s.wifi, s.bluetooth),
            None => (None, None),
        };
        PausePlan {
            wifi: Self::action(self.saved.is_some(), paused, saved_wifi, wifi.enabled),
            bluetooth: Self::action(self.saved.is_some(), paused, saved_bluetooth, bluetooth.enabled),
        }
    }

    fn action(managed: bool, paused: bool, entry: Option<bool>, current: Option<bool>) -> (r: RadioAction)
        ensures
            managed ==> r == action_spec(Some(SavedRadios { wifi: None, bluetooth: None }), paused, entry, current),
            !managed ==> r == action_spec(None, paused, entry, current),
    {
        if paused {
            if current == Some(true) { RadioAction::Disable } else { RadioAction::Keep }
        } else if managed && entry == Some(true) && current == Some(false) {
            RadioAction::Enable
        } else {
            RadioAction::Keep
        }
    }

    fn resume_entry(entry: Option<bool>, current: Option<bool>, restored: bool) -> (r: Option<bool>)
        ensures
            r == entry_after_resume(entry, current, restored),
    {
        if entry == Some(true) {
            if current == Some(true) {
                None
            } else if current == Some(false) {
                if restored { None } else { Some(true) }
            } else {
                Some(true)
            }
        } else {
            None
        }
    }

    fn restored(outcome: &Option<SwitchOutcome>) -> (r: bool)
        ensures
            r == outcome_restored(*outcome),
    {
        match outcome {
            Some(SwitchOutcome::Confirmed { supported, enabled }) => *supported && *enabled,
            _ => false,
        }
    }

    fn apply(kind: RadioKind, action: RadioAction, current: RadioReport, outcome: Option<SwitchOutcome>) -> (r: RadioReport)
        requires
            (action == RadioAction::Keep) == (outcome is None),
        ensures
            r@ == report_after(kind, action, current@, outcome),
    {
        match outcome {
            None => current,
            Some(o) => if action == RadioAction::Disable {
                disable_report(kind, o)
            } else {
                restore_report(kind, o)
            },
        }
    }

    /// Completes a pause (`paused`) or resume request: `wifi` and `bluetooth`
    /// are the reports read before the request, and each outcome is what the
    /// planned switch returned (`None` where the plan keeps the radio as it
    /// is). Updates the journal and returns the resulting status.
    pub fn set_paused(
        &mut self,
        paused: bool,
        wifi: RadioReport,
        wifi_outcome: Option<SwitchOutcome>,
        bluetooth: RadioReport,
        bluetooth_outcome: Option<SwitchOutcome>,
    ) -> (r: RadioPauseStatus)
        requires
            (action_spec(old(self).journal(), paused, wifi_entry(old(self).journal()), wifi.enabled)
                == RadioAction::Keep) == (wifi_outcome is None),
            (action_spec(old(self).journal(), paused, bluetooth_entry(old(self).journal()), bluetooth.enabled)
                == RadioAction::Keep) == (bluetooth_outcome is None),
        ensures
            final(self).journal() == saved_after(
                old(self).journal(),
                paused,
                wifi.enabled,
                bluetooth.enabled,
                outcome_restored(wifi_outcome),
                outcome_restored(bluetooth_outcome),
            ),
            r.managed == final(self).journal() is Some,
            r.wifi@ == report_after(
                RadioKind::Wifi,
                action_spec(old(self).journal(), paused, wifi_entry(old(self).journal()), wifi.enabled),
                wifi@,
                wifi_outcome,
            ),
            r.bluetooth@ == report_after(
                RadioKind::Bluetooth,
                action_spec(old(self).journal(), paused, bluetooth_entry(old(self).journal()), bluetooth.enabled),
                bluetooth@,
                bluetooth_outcome,
            ),
            r.paused == paused_spec(r.managed, r.wifi@, r.bluetooth@),
            r.partial == partial_spec(r.managed, r.wifi@, r.bluetooth@),
    {
        let plan = self.plan(paused, &wifi, &bluetooth);
        let wifi_enabled = wifi.enabled;
        let bluetooth_enabled = bluetooth.enabled;
        let wifi_restored = Self::restored(&wifi_outcome);
        let bluetooth_restored = Self::restored(&bluetooth_outcome);
        if paused {
            if self.saved.is_none() && !(wifi_enabled.is_none() && bluetooth_enabled.is_none()) {
                self.saved = Some(SavedRadios { wifi: wifi_enabled, bluetooth: bluetooth_enabled });
            }
        } else {
            match self.saved {
                Some(prev) => {
                    let w = Self::resume_entry(prev.wifi, wifi_enabled, wifi_restored);
                    let b = Self::resume_entry(prev.bluetooth, bluetooth_enabled, bluetooth_restored);
                    if w.is_none() && b.is_none() {
                        self.saved = None;
                    } else {
                        self.saved = Some(SavedRadios { wifi: w, bluetooth: b });
                    }
                },
                None => {},
            }
        }
        let wifi_after = Self::apply(RadioKind::Wifi, plan.wifi, wifi, wifi_outcome);
        let bluetooth_after = Self::apply(RadioKind::Bluetooth, plan.bluetooth, bluetooth, bluetooth_outcome);
        compose(self.saved.is_some(), wifi_after, bluetooth_after)
    }
}

impl Default for RadioPauseManager {
    fn default() -> (r: Self)
        ensures
            r.journal() is None,
    {
        RadioPauseManager::new()
    }
}

/// Resuming only ever switches on a radio that the journal recorded as on
/// when the pause began.
pub proof fn lemma_resume_restores_only_saved_radios(
    saved: Option<SavedRadios>,
    entry: Option<bool>,
    current: Option<bool>,
)
    requires
        action_spec(saved, false, entry, current) == RadioAction::Enable,
    ensures
        saved is Some,
        entry == Some(true),
        current == Some(false),
{
}

/// A pause never switches a radio on, and switches off only radios that are on.
pub proof fn lemma_pause_only_disables(saved: Option<SavedRadios>, entry: Option<bool>, current: Option<bool>)
    ensures
        action_spec(saved, true, entry, current) != RadioAction::Enable,
        action_spec(saved, true, entry, current) == RadioAction::Disable <==> current == Some(true),
{
}

/// Pausing again while a pause is managed keeps the journal of the first
/// pause: the states to restore are those from before any pause.
pub proof fn lemma_pause_keeps_first_journal(
    saved: SavedRadios,
    wifi: Option<bool>,
    bluetooth: Option<bool>,
    wifi_restored: bool,
    bluetooth_restored: bool,
)
    ensures
        saved_after(Some(saved), true, wifi, bluetooth, wifi_restored, bluetooth_restored) == Some(saved),
{
}

/// Resuming without a managed pause touches nothing: no radio is switched
/// and no journal appears.
pub proof fn lemma_unmanaged_resume_is_inert(
    wifi: Option<bool>,
    bluetooth: Option<bool>,
    wifi_restored: bool,
    bluetooth_restored: bool,
)
    ensures
        action_spec(None, false, None, wifi) == RadioAction::Keep,
        action_spec(None, false, None, bluetooth) == RadioAction::Keep,
        saved_after(None, false, wifi, bluetooth, wifi_restored, bluetooth_restored) is None,
{
}

/// Once every saved radio is confirmed back on, the journal is gone and the
/// shell manages no pause any more.
pub proof fn lemma_complete_resume_clears_journal(saved: SavedRadios)
    ensures
        saved_after(
            Some(saved),
            false,
            if saved.wifi == Some(true) { Some(false) } else { None },
            if saved.bluetooth == Some(true) { Some(false) } else { None },
            true,
            true,
        ) is None,
{
}

} // verus!
