//! Applying new settings: which platform changes they need, what is rolled
//! back when a step fails, and the snapshot they become. Registering the
//! hotkey, setting the startup entry and saving the file are the caller's
//! work, done in that order with what the plan says.
use vstd::prelude::*;

use crate::settings::{settings_problem, AppSettings, GlobalHotkey, SettingsError, SettingsSnapshot};

verus! {

/// What applying new settings takes: the settings to save, the hotkey to
/// register and the startup entry to set when they change, what to restore
/// when a later step fails, and the generation the settings are saved
/// under.
pub struct SettingsApplyPlan {
    pub settings: AppSettings,
    pub hotkey: Option<GlobalHotkey>,
    pub startup: Option<bool>,
    pub previous_hotkey: GlobalHotkey,
    pub previous_startup: bool,
    pub generation: u64,
}

/// The generation after `g`, saturating.
pub open spec fn next_generation(g: u64) -> u64 {
    if g == u64::MAX {
        g
    } else {
        (g + 1) as u64
    }
}

/// Plans applying `settings` over `previous`: refused when the settings are
/// not valid, with the first problem.
pub fn plan_settings_apply(previous: &SettingsSnapshot, settings: AppSettings) -> (r: Result<
    SettingsApplyPlan,
    SettingsError,
>)
    ensures
        match settings_problem(settings@) {
            Some(e) => r matches Err(x) && x@ == e,
            None => r matches Ok(plan) && {
                let old = previous@.0;
                &&& plan.settings@ == settings@
                &&& plan.hotkey == (if settings@.hotkey != old.hotkey {
                    Some(settings@.hotkey)
                } else {
                    None::<GlobalHotkey>
                })
                &&& plan.startup == (if settings@.launch_at_startup != old.launch_at_startup {
                    Some(settings@.launch_at_startup)
                } else {
                    None::<bool>
                })
                &&& plan.previous_hotkey == old.hotkey
                &&& plan.previous_startup == old.launch_at_startup
                &&& plan.generation == next_generation(previous@.1)
            },
        },
{
    settings.validate()?;
    let old = previous.settings();
    let hotkey = if settings.hotkey() != old.hotkey() {
        Some(settings.hotkey())
    } else {
        None
    };
    let startup = if settings.launch_at_startup() != old.launch_at_startup() {
        Some(settings.launch_at_startup())
    } else {
        None
    };
    let g = previous.generation();
    let generation = if g == u64::MAX {
        g
    } else {
        g + 1
    };
    Ok(
        SettingsApplyPlan {
            settings,
            hotkey,
            startup,
            previous_hotkey: old.hotkey(),
            previous_startup: old.launch_at_startup(),
            generation,
        },
    )
}

impl SettingsApplyPlan {
    /// The snapshot the settings become once every step succeeded.
    pub fn finish(self) -> (r: SettingsSnapshot)
        ensures
            r@ == (self.settings@, self.generation),
    {
        SettingsSnapshot::new(self.settings, self.generation)
    }
}

/// The step of applying settings that failed.
#[derive(Clone, Copy, Debug, PartialEq, Eq, Structural)]
pub enum ApplyStep {
    Hotkey,
    Startup,
    Save,
}

/// What to restore after `step` failed: the previous hotkey once a later
/// step fails, the previous startup entry too when saving fails.
pub open spec fn rollback_of(step: ApplyStep) -> (bool, bool) {
    match step {
        ApplyStep::Hotkey => (false, false),
        ApplyStep::Startup => (true, false),
        ApplyStep::Save => (true, true),
    }
}

/// Whether to restore the previous hotkey and the previous startup entry
/// after `step` failed.
pub fn rollback_after(step: ApplyStep) -> (r: (bool, bool))
    ensures
        r == rollback_of(step),
{
    match step {
        ApplyStep::Hotkey => (false, false),
        ApplyStep::Startup => (true, false),
        ApplyStep::Save => (true, true),
    }
}

} // verus!
