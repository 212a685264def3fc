//! User settings and editor preferences: defaults, sanitizing of values that
//! arrive over IPC or from a hand-edited file, and the in-memory store that
//! the application persists as JSON.

use vstd::prelude::*;

use crate::i18n::{t, translation, I18n};
use crate::shortcuts::{
    check_shortcut, default_accel_spec, error_key, error_message, hotkey_reading, parse_accelerator,
    parse_shortcut, rebind_needed, refusal, Shortcut, ShortcutAction, ShortcutError, REQUIRED_MODIFIERS,
};
use crate::text::{chars_equal, chars_of, str_equals, trim, trimmed};

verus! {

#[derive(Debug, Clone, Copy, PartialEq, Eq, Structural)]
pub enum OverlayPosition {
    Left,
    Center,
    Right,
}

#[derive(Debug, Clone, Copy, PartialEq, Eq, Structural)]
pub enum AutoCloseAction {
    Close,
    SaveAndClose,
}

/// UI languages selectable in Settings; anything else is reset to "system".
pub open spec fn supported_languages() -> Seq<Seq<char>> {
    seq!["system"@, "en-GB"@, "es"@, "fr"@, "de"@, "it"@]
}

/// Whether `language` is one of the selectable settings values.
pub fn is_supported_language(language: &str) -> (r: bool)
    ensures
        r == supported_languages().contains(language@),
{
    let l = chars_of(language);
    let candidates = ["system", "en-GB", "es", "fr", "de", "it"];
    let mut i: usize = 0;
    while i < 6
        invariant
            i <= 6,
            l@ == language@,
            forall|j: int| 0 <= j < 6 ==> #[trigger] candidates@[j]@ == supported_languages()[j],
            forall|j: int| 0 <= j < i ==> supported_languages()[j] != language@,
        decreases 6 - i,
    {
        let c = chars_of(candidates[i]);
        if chars_equal(c.as_slice(), l.as_slice()) {
            assert(supported_languages()[i as int] == language@);
            return true;
        }
        i = i + 1;
    }
    proof {
        if supported_languages().contains(language@) {
            let j = choose|j: int| 0 <= j < 6 && supported_languages()[j] == language@;
            assert(supported_languages()[j] != language@);
        }
    }
    false
}

/// The application settings (the overlay size multiplier, a floating-point
/// value, is kept and clamped by the application).
#[derive(Debug, Clone, PartialEq, Eq)]
pub struct Settings {
    pub position: OverlayPosition,
    pub move_to_active_screen: bool,
    pub auto_close_enabled: bool,
    pub auto_close_action: AutoCloseAction,
    pub auto_close_seconds: u32,
    pub close_after_drag: bool,
    /// "system" (follow the OS locale) or one of the supported tags.
    pub language: String,
    /// Global-shortcut accelerator strings, one per capture action.
    pub shortcut_area: String,
    pub shortcut_window: String,
    pub shortcut_fullscreen: String,
}

/// The accelerator `s` holds for `action`.
pub open spec fn shortcut_of(s: Settings, action: ShortcutAction) -> Seq<char> {
    match action {
        ShortcutAction::Area => s.shortcut_area@,
        ShortcutAction::Window => s.shortcut_window@,
        ShortcutAction::Fullscreen => s.shortcut_fullscreen@,
    }
}

/// `n` clamped into `[lo, hi]`.
pub open spec fn clamped(n: u32, lo: u32, hi: u32) -> u32 {
    if n < lo {
        lo
    } else if n > hi {
        hi
    } else {
        n
    }
}

/// The settings a fresh installation starts with.
pub open spec fn default_settings_ok(s: Settings) -> bool {
    &&& s.position == OverlayPosition::Left
    &&& s.move_to_active_screen
    &&& !s.auto_close_enabled
    &&& s.auto_close_action == AutoCloseAction::Close
    &&& s.auto_close_seconds == 30
    &&& s.close_after_drag
    &&& s.language@ == "system"@
    &&& s.shortcut_area@ == default_accel_spec(ShortcutAction::Area)
    &&& s.shortcut_window@ == default_accel_spec(ShortcutAction::Window)
    &&& s.shortcut_fullscreen@ == default_accel_spec(ShortcutAction::Fullscreen)
}

impl Default for Settings {
    fn default() -> (s: Settings)
        ensures
            default_settings_ok(s),
    {
        Settings {
            position: OverlayPosition::Left,
            move_to_active_screen: true,
            auto_close_enabled: false,
            auto_close_action: AutoCloseAction::Close,
            auto_close_seconds: 30,
            close_after_drag: true,
            language: "system".to_owned(),
            shortcut_area: ShortcutAction::Area.default_accel().to_owned(),
            shortcut_window: ShortcutAction::Window.default_accel().to_owned(),
            shortcut_fullscreen: ShortcutAction::Fullscreen.default_accel().to_owned(),
        }
    }
}

/// What the hotkey parser made of the three accelerators and of the three
/// defaults (`None` when refused).
pub struct ShortcutChecks {
    pub area: Option<Shortcut>,
    pub window: Option<Shortcut>,
    pub fullscreen: Option<Shortcut>,
    pub default_area: Option<Shortcut>,
    pub default_window: Option<Shortcut>,
    pub default_fullscreen: Option<Shortcut>,
}

/// The area accelerator is kept when it is valid.
pub open spec fn keep_area(c: ShortcutChecks) -> bool {
    c.area is Some
}

/// The shortcut an action ends up with after sanitizing.
pub open spec fn effective_area(c: ShortcutChecks) -> Option<Shortcut> {
    if keep_area(c) {
        c.area
    } else {
        c.default_area
    }
}

/// The window accelerator is kept when it is valid and not taken by area.
pub open spec fn keep_window(c: ShortcutChecks) -> bool {
    c.window is Some && effective_area(c) != c.window
}

pub open spec fn effective_window(c: ShortcutChecks) -> Option<Shortcut> {
    if keep_window(c) {
        c.window
    } else {
        c.default_window
    }
}

/// The fullscreen accelerator is kept when it is valid and taken by neither
/// area nor window.
pub open spec fn keep_fullscreen(c: ShortcutChecks) -> bool {
    &&& c.fullscreen is Some
    &&& effective_area(c) != c.fullscreen
    &&& effective_window(c) != c.fullscreen
}

/// `after` is `before` sanitized, given what the parser said about its
/// accelerators: seconds clamped to [3, 600], an unsupported language reset
/// to "system", and each accelerator reset to its default when invalid or
/// colliding with an earlier action (area, then window, then fullscreen).
pub open spec fn sanitized_spec(before: Settings, c: ShortcutChecks, after: Settings) -> bool {
    &&& after.position == before.position
    &&& after.move_to_active_screen == before.move_to_active_screen
    &&& after.auto_close_enabled == before.auto_close_enabled
    &&& after.auto_close_action == before.auto_close_action
    &&& after.close_after_drag == before.close_after_drag
    &&& after.auto_close_seconds == clamped(before.auto_close_seconds, 3, 600)
    &&& after.language@ == if supported_languages().contains(before.language@) {
        before.language@
    } else {
        "system"@
    }
    &&& after.shortcut_area@ == if keep_area(c) {
        before.shortcut_area@
    } else {
        default_accel_spec(ShortcutAction::Area)
    }
    &&& after.shortcut_window@ == if keep_window(c) {
        before.shortcut_window@
    } else {
        default_accel_spec(ShortcutAction::Window)
    }
    &&& after.shortcut_fullscreen@ == if keep_fullscreen(c) {
        before.shortcut_fullscreen@
    } else {
        default_accel_spec(ShortcutAction::Fullscreen)
    }
}

/// Whether the parser's verdict `o` on one accelerator agrees with what is
/// known of the parser: present exactly when the text is neither refused
/// nor missing a modifier, and then holding one of those modifiers.
pub open spec fn verdict_of(o: Option<Shortcut>, accel: Seq<char>) -> bool {
    &&& (o is Some <==> refusal(accel) is None)
    &&& (o matches Some(s) ==> s.mods & REQUIRED_MODIFIERS != 0)
}

/// The verdicts `c` are the parser's on the accelerators of `s` and on the
/// defaults.
pub open spec fn checks_of(c: ShortcutChecks, s: Settings) -> bool {
    &&& verdict_of(c.area, s.shortcut_area@)
    &&& verdict_of(c.window, s.shortcut_window@)
    &&& verdict_of(c.fullscreen, s.shortcut_fullscreen@)
    &&& verdict_of(c.default_area, default_accel_spec(ShortcutAction::Area))
    &&& verdict_of(c.default_window, default_accel_spec(ShortcutAction::Window))
    &&& verdict_of(c.default_fullscreen, default_accel_spec(ShortcutAction::Fullscreen))
}

/// `after` is `before` sanitized with the parser's own verdicts on its
/// accelerators: in particular the area accelerator is kept exactly when the
/// parser accepts it with a Control, Alt or Super modifier, and a refused
/// window or fullscreen accelerator goes back to its default.
pub open spec fn sanitized_settings(before: Settings, after: Settings) -> bool {
    &&& exists|c: ShortcutChecks| checks_of(c, before) && sanitized_spec(before, c, after)
    &&& after.shortcut_area@ == if refusal(before.shortcut_area@) is None {
        before.shortcut_area@
    } else {
        default_accel_spec(ShortcutAction::Area)
    }
    &&& refusal(before.shortcut_window@) is Some ==> after.shortcut_window@ == default_accel_spec(
        ShortcutAction::Window,
    )
    &&& refusal(before.shortcut_fullscreen@) is Some ==> after.shortcut_fullscreen@ == default_accel_spec(
        ShortcutAction::Fullscreen,
    )
}

fn ok_shortcut(r: Result<Shortcut, ShortcutError>) -> (o: Option<Shortcut>)
    ensures
        o == (match r {
            Ok(s) => Some(s),
            Err(_) => None,
        }),
{
    match r {
        Ok(s) => Some(s),
        Err(_) => None,
    }
}

impl Settings {
    /// The accelerator of `action`.
    pub fn shortcut(&self, action: ShortcutAction) -> (accel: &str)
        ensures
            accel@ == shortcut_of(*self, action),
    {
        match action {
            ShortcutAction::Area => self.shortcut_area.as_str(),
            ShortcutAction::Window => self.shortcut_window.as_str(),
            ShortcutAction::Fullscreen => self.shortcut_fullscreen.as_str(),
        }
    }

    /// Replace the accelerator of `action`.
    pub fn set_shortcut(&mut self, action: ShortcutAction, accel: String)
        ensures
            shortcut_of(*final(self), action) == accel@,
            forall|a: ShortcutAction| a != action ==> #[trigger] shortcut_of(*final(self), a) == shortcut_of(
                *old(self),
                a,
            ),
            final(self).position == old(self).position,
            final(self).move_to_active_screen == old(self).move_to_active_screen,
            final(self).auto_close_enabled == old(self).auto_close_enabled,
            final(self).auto_close_action == old(self).auto_close_action,
            final(self).auto_close_seconds == old(self).auto_close_seconds,
            final(self).close_after_drag == old(self).close_after_drag,
            final(self).language == old(self).language,
    {
        match action {
            ShortcutAction::Area => self.shortcut_area = accel,
            ShortcutAction::Window => self.shortcut_window = accel,
            ShortcutAction::Fullscreen => self.shortcut_fullscreen = accel,
        }
    }

    /// A field-by-field copy.
    pub fn duplicate(&self) -> (s: Settings)
        ensures
            s == *self,
    {
        Settings {
            position: self.position,
            move_to_active_screen: self.move_to_active_screen,
            auto_close_enabled: self.auto_close_enabled,
            auto_close_action: self.auto_close_action,
            auto_close_seconds: self.auto_close_seconds,
            close_after_drag: self.close_after_drag,
            language: self.language.clone(),
            shortcut_area: self.shortcut_area.clone(),
            shortcut_window: self.shortcut_window.clone(),
            shortcut_fullscreen: self.shortcut_fullscreen.clone(),
        }
    }

    /// Sanitize given the parser's verdicts on the accelerators.
    pub fn sanitized_with(self, checks: &ShortcutChecks) -> (s: Settings)
        ensures
            sanitized_spec(self, *checks, s),
    {
        let mut s = self;
        if s.auto_close_seconds < 3 {
            s.auto_close_seconds = 3;
        } else if s.auto_close_seconds > 600 {
            s.auto_close_seconds = 600;
        }
        if !is_supported_language(s.language.as_str()) {
            s.language = "system".to_owned();
        }
        let area_kept = checks.area.is_some();
        let effective_area = if area_kept {
            checks.area
        } else {
            checks.default_area
        };
        if !area_kept {
            s.shortcut_area = ShortcutAction::Area.default_accel().to_owned();
        }
        let window_kept = match checks.window {
            Some(w) => match effective_area {
                Some(a) => !(a == w),
                None => true,
            },
            None => false,
        };
        let effective_window = if window_kept {
            checks.window
        } else {
            checks.default_window
        };
        if !window_kept {
            s.shortcut_window = ShortcutAction::Window.default_accel().to_owned();
        }
        let fullscreen_kept = match checks.fullscreen {
            Some(f) => (match effective_area {
                Some(a) => !(a == f),
                None => true,
            }) && (match effective_window {
                Some(w) => !(w == f),
                None => true,
            }),
            None => false,
        };
        if !fullscreen_kept {
            s.shortcut_fullscreen = ShortcutAction::Fullscreen.default_accel().to_owned();
        }
        s
    }

    /// What the hotkey parser says about this settings' accelerators and
    /// the defaults.
    pub fn shortcut_checks(&self) -> (c: ShortcutChecks)
        ensures
            checks_of(c, *self),
    {
        ShortcutChecks {
            area: ok_shortcut(parse_shortcut(self.shortcut_area.as_str())),
            window: ok_shortcut(parse_shortcut(self.shortcut_window.as_str())),
            fullscreen: ok_shortcut(parse_shortcut(self.shortcut_fullscreen.as_str())),
            default_area: ok_shortcut(parse_shortcut(ShortcutAction::Area.default_accel())),
            default_window: ok_shortcut(parse_shortcut(ShortcutAction::Window.default_accel())),
            default_fullscreen: ok_shortcut(parse_shortcut(ShortcutAction::Fullscreen.default_accel())),
        }
    }

    /// Reject out-of-range values coming over IPC or from a hand-edited file.
    pub fn sanitized(self) -> (s: Settings)
        ensures
            sanitized_settings(self, s),
    {
        let checks = self.shortcut_checks();
        self.sanitized_with(&checks)
    }
}

/// Whether shortcut `s` is what the parser made of the accelerator of an
/// action other than `action`.
pub open spec fn taken_by_other(c: ShortcutChecks, action: ShortcutAction, s: Shortcut) -> bool {
    ||| action != ShortcutAction::Area && c.area == Some(s)
    ||| action != ShortcutAction::Window && c.window == Some(s)
    ||| action != ShortcutAction::Fullscreen && c.fullscreen == Some(s)
}

/// A change of accelerator that passed the checks.
#[derive(Debug, Clone, PartialEq, Eq)]
pub struct ShortcutChange {
    /// The accelerator to store, trimmed.
    pub accelerator: String,
    /// What it triggers on.
    pub shortcut: Shortcut,
    /// Whether the old binding must be replaced (false when the old
    /// accelerator already triggers on the same keys).
    pub rebind: bool,
}

/// The verdict on a new accelerator for `action`, from the parser's verdict
/// on it (`parsed`), on the current accelerators (`current`) and on the
/// action's old accelerator without the modifier check (`old_parsed`):
/// the parser's refusal, a duplicate of another action's shortcut, or the
/// shortcut and whether a rebind is needed.
pub fn judge_shortcut_change(
    i18n: &I18n,
    action: ShortcutAction,
    parsed: Result<Shortcut, ShortcutError>,
    current: &ShortcutChecks,
    old_parsed: Option<Shortcut>,
) -> (r: Result<(Shortcut, bool), String>)
    ensures
        match parsed {
            Err(e) => r matches Err(msg) && msg@ == translation(*i18n, error_key(e)),
            Ok(s) => if taken_by_other(*current, action, s) {
                r matches Err(msg) && msg@ == translation(*i18n, "settings.shortcut_error_duplicate"@)
            } else {
                r == Ok::<(Shortcut, bool), String>((s, old_parsed != Some(s)))
            },
        },
{
    match parsed {
        Err(e) => Err(error_message(i18n, e)),
        Ok(s) => {
            let area = action != ShortcutAction::Area && same_shortcut(current.area, s);
            let window = action != ShortcutAction::Window && same_shortcut(current.window, s);
            let fullscreen = action != ShortcutAction::Fullscreen && same_shortcut(current.fullscreen, s);
            if area || window || fullscreen {
                Err(t(i18n, "settings.shortcut_error_duplicate"))
            } else {
                Ok((s, rebind_needed(old_parsed, s)))
            }
        },
    }
}

fn same_shortcut(a: Option<Shortcut>, s: Shortcut) -> (r: bool)
    ensures
        r == (a == Some(s)),
{
    match a {
        Some(x) => x.mods == s.mods && x.key == s.key,
        None => false,
    }
}

impl Settings {
    /// The shortcut an accepted accelerator reads as: spelled exactly like
    /// another action's accelerator, it is that action's shortcut as the
    /// parser read it; otherwise `s`, the parser's reading of it.
    fn reading_of_spelling(&self, action: ShortcutAction, accel: &str, current: &ShortcutChecks, s: Shortcut) -> (r:
        Shortcut)
        requires
            checks_of(*current, *self),
            refusal(accel@) is None,
            s.mods & REQUIRED_MODIFIERS != 0,
        ensures
            r.mods & REQUIRED_MODIFIERS != 0,
            (action != ShortcutAction::Area && self.shortcut_area@ == accel@) || (action
                != ShortcutAction::Window && self.shortcut_window@ == accel@) || (action
                != ShortcutAction::Fullscreen && self.shortcut_fullscreen@ == accel@) ==> taken_by_other(
                *current,
                action,
                r,
            ),
    {
        if action != ShortcutAction::Area && str_equals(self.shortcut_area.as_str(), accel) {
            if let Some(w) = current.area {
                return w;
            }
        }
        if action != ShortcutAction::Window && str_equals(self.shortcut_window.as_str(), accel) {
            if let Some(w) = current.window {
                return w;
            }
        }
        if action != ShortcutAction::Fullscreen && str_equals(self.shortcut_fullscreen.as_str(), accel) {
            if let Some(w) = current.fullscreen {
                return w;
            }
        }
        s
    }

    /// Check a new accelerator for `action` before it is bound and stored:
    /// it is trimmed, must parse with a Control, Alt or Super modifier, and
    /// must not trigger on the same keys as another action's accelerator.
    pub fn shortcut_change(&self, i18n: &I18n, action: ShortcutAction, accelerator: &str) -> (r:
        Result<ShortcutChange, String>)
        ensures
            match refusal(trimmed(accelerator@)) {
                Some(e) => r matches Err(msg) && msg@ == translation(*i18n, error_key(e)),
                None => {
                    ||| r matches Err(msg) && msg@ == translation(
                        *i18n,
                        "settings.shortcut_error_duplicate"@,
                    )
                    ||| r matches Ok(c) && c.accelerator@ == trimmed(accelerator@) && c.shortcut.mods
                        & REQUIRED_MODIFIERS != 0
                },
            },
            (refusal(trimmed(accelerator@)) is None && forall|a: ShortcutAction|
                a != action ==> refusal(#[trigger] shortcut_of(*self, a)) is Some) ==> r is Ok,
            r matches Ok(c) && !c.rebind ==> hotkey_reading(shortcut_of(*self, action)) == Some(true),
            (refusal(trimmed(accelerator@)) is None && exists|a: ShortcutAction|
                a != action && #[trigger] shortcut_of(*self, a) == trimmed(accelerator@)) ==> (r matches Err(
                msg,
            ) && msg@ == translation(*i18n, "settings.shortcut_error_duplicate"@)),
    {
        let accelerator = trim(accelerator);
        let current = self.shortcut_checks();
        proof {
            assert(shortcut_of(*self, ShortcutAction::Area) == self.shortcut_area@);
            assert(shortcut_of(*self, ShortcutAction::Window) == self.shortcut_window@);
            assert(shortcut_of(*self, ShortcutAction::Fullscreen) == self.shortcut_fullscreen@);
        }
        let parsed = match parse_shortcut(accelerator.as_str()) {
            Err(e) => Err(e),
            Ok(s) => Ok(self.reading_of_spelling(action, accelerator.as_str(), &current, s)),
        };
        let old_parsed = parse_accelerator(self.shortcut(action));
        match judge_shortcut_change(i18n, action, parsed, &current, old_parsed) {
            Ok((shortcut, rebind)) => Ok(ShortcutChange { accelerator, shortcut, rebind }),
            Err(msg) => Err(msg),
        }
    }
}

/// The accelerator an action holds after the rebindings `changes` (action,
/// old accelerator, new accelerator) are applied in order, starting from `old`.
pub open spec fn changed_shortcut(
    old: Seq<char>,
    changes: Seq<(ShortcutAction, String, String)>,
    action: ShortcutAction,
) -> Seq<char>
    decreases changes.len(),
{
    if changes.len() == 0 {
        old
    } else if changes.last().0 == action {
        changes.last().2@
    } else {
        changed_shortcut(old, changes.drop_last(), action)
    }
}

impl Settings {
    /// Store the new accelerators of rebindings that were bound.
    pub fn apply_changes(&mut self, changes: &[(ShortcutAction, String, String)])
        ensures
            forall|a: ShortcutAction|
                #[trigger] shortcut_of(*final(self), a) == changed_shortcut(
                    shortcut_of(*old(self), a),
                    changes@,
                    a,
                ),
            final(self).position == old(self).position,
            final(self).move_to_active_screen == old(self).move_to_active_screen,
            final(self).auto_close_enabled == old(self).auto_close_enabled,
            final(self).auto_close_action == old(self).auto_close_action,
            final(self).auto_close_seconds == old(self).auto_close_seconds,
            final(self).close_after_drag == old(self).close_after_drag,
            final(self).language == old(self).language,
    {
        let ghost start = *self;
        let mut i: usize = 0;
        while i < changes.len()
            invariant
                i <= changes@.len(),
                forall|a: ShortcutAction|
                    #[trigger] shortcut_of(*self, a) == changed_shortcut(
                        shortcut_of(start, a),
                        changes@.subrange(0, i as int),
                        a,
                    ),
                self.position == start.position,
                self.move_to_active_screen == start.move_to_active_screen,
                self.auto_close_enabled == start.auto_close_enabled,
                self.auto_close_action == start.auto_close_action,
                self.auto_close_seconds == start.auto_close_seconds,
                self.close_after_drag == start.close_after_drag,
                self.language == start.language,
            decreases changes@.len() - i,
        {
            let action = changes[i].0;
            let accel = changes[i].2.clone();
            self.set_shortcut(action, accel);
            proof {
                let done = changes@.subrange(0, i + 1);
                assert(done.drop_last() =~= changes@.subrange(0, i as int));
                assert(done.last() == changes@[i as int]);
            }
            i = i + 1;
        }
        assert(changes@.subrange(0, i as int) =~= changes@);
    }
}

/// After sanitizing, a kept accelerator never collides with the shortcut of
/// an earlier action.
pub proof fn lemma_kept_shortcuts_are_unique(c: ShortcutChecks)
    ensures
        keep_window(c) ==> effective_window(c) != effective_area(c),
        keep_fullscreen(c) ==> c.fullscreen != effective_area(c) && c.fullscreen != effective_window(c),
{
}

/// Sanitized settings are in range: 3 to 600 seconds, a selectable language.
pub proof fn lemma_sanitized_in_range(before: Settings, c: ShortcutChecks, after: Settings)
    requires
        sanitized_spec(before, c, after),
    ensures
        3 <= after.auto_close_seconds <= 600,
        supported_languages().contains(after.language@),
{
    assert(supported_languages()[0] == "system"@);
}

/// Settings that are already in range keep their seconds and language.
pub proof fn lemma_sanitize_keeps_valid_values(before: Settings, c: ShortcutChecks, after: Settings)
    requires
        sanitized_spec(before, c, after),
        3 <= before.auto_close_seconds <= 600,
        supported_languages().contains(before.language@),
    ensures
        after.auto_close_seconds == before.auto_close_seconds,
        after.language@ == before.language@,
{
}

/// Sanitizing settings that were just sanitized changes nothing, provided
/// the parser reads each stored accelerator as it did the first time: a
/// kept accelerator as before, a reset one as its default.
pub proof fn lemma_sanitize_is_idempotent(
    before: Settings,
    c: ShortcutChecks,
    mid: Settings,
    c2: ShortcutChecks,
    after: Settings,
)
    requires
        sanitized_spec(before, c, mid),
        sanitized_spec(mid, c2, after),
        c2.area == effective_area(c),
        c2.window == effective_window(c),
        c2.fullscreen == (if keep_fullscreen(c) {
            c.fullscreen
        } else {
            c.default_fullscreen
        }),
        c2.default_area == c.default_area,
        c2.default_window == c.default_window,
        c2.default_fullscreen == c.default_fullscreen,
    ensures
        after.position == mid.position,
        after.move_to_active_screen == mid.move_to_active_screen,
        after.auto_close_enabled == mid.auto_close_enabled,
        after.auto_close_action == mid.auto_close_action,
        after.auto_close_seconds == mid.auto_close_seconds,
        after.close_after_drag == mid.close_after_drag,
        after.language@ == mid.language@,
        after.shortcut_area@ == mid.shortcut_area@,
        after.shortcut_window@ == mid.shortcut_window@,
        after.shortcut_fullscreen@ == mid.shortcut_fullscreen@,
{
    lemma_sanitized_in_range(before, c, mid);
    lemma_sanitize_keeps_valid_values(mid, c2, after);
    assert(effective_area(c2) == effective_area(c));
    assert(effective_window(c2) == effective_window(c));
}

/// Sanitizing sanitized settings changes nothing but possibly the window
/// and fullscreen accelerators, whose duplicate check compares the exact
/// modifier bits the parser reads; `lemma_sanitize_is_idempotent` covers
/// those when the parser reads each text alike both times.
pub proof fn lemma_sanitize_settles(
    before: Settings,
    c: ShortcutChecks,
    mid: Settings,
    c2: ShortcutChecks,
    after: Settings,
)
    requires
        checks_of(c, before),
        sanitized_spec(before, c, mid),
        checks_of(c2, mid),
        sanitized_spec(mid, c2, after),
    ensures
        after.position == mid.position,
        after.move_to_active_screen == mid.move_to_active_screen,
        after.auto_close_enabled == mid.auto_close_enabled,
        after.auto_close_action == mid.auto_close_action,
        after.auto_close_seconds == mid.auto_close_seconds,
        after.close_after_drag == mid.close_after_drag,
        after.language@ == mid.language@,
        after.shortcut_area@ == mid.shortcut_area@,
{
    lemma_sanitized_in_range(before, c, mid);
    lemma_sanitize_keeps_valid_values(mid, c2, after);
}

/// Last-used annotation tool, colour and stroke width.
#[derive(Debug, Clone, PartialEq, Eq)]
pub struct EditorPrefs {
    pub tool: String,
    pub color: String,
    pub stroke_width: u32,
}

impl Default for EditorPrefs {
    fn default() -> (p: EditorPrefs)
        ensures
            p.tool@ == "arrow"@,
            p.color@ == "#ff3b30"@,
            p.stroke_width == 4,
    {
        EditorPrefs { tool: "arrow".to_owned(), color: "#ff3b30".to_owned(), stroke_width: 4 }
    }
}

/// A value the store keeps: it has a default, a sanitizing step, and a copy.
pub trait Stored: Sized {
    /// The default value.
    spec fn is_default(v: Self) -> bool;

    /// `after` is a possible result of sanitizing `before`.
    spec fn sanitizes_to(before: Self, after: Self) -> bool;

    fn default_value() -> (v: Self)
        ensures
            Self::is_default(v),
    ;

    fn sanitize(self) -> (v: Self)
        ensures
            Self::sanitizes_to(self, v),
    ;

    fn duplicate(&self) -> (v: Self)
        ensures
            v == *self,
    ;
}

impl Stored for Settings {
    open spec fn is_default(v: Settings) -> bool {
        default_settings_ok(v)
    }

    open spec fn sanitizes_to(before: Settings, after: Settings) -> bool {
        sanitized_settings(before, after)
    }

    fn default_value() -> (v: Settings) {
        Settings::default()
    }

    fn sanitize(self) -> (v: Settings) {
        self.sanitized()
    }

    fn duplicate(&self) -> (v: Settings) {
        Settings::duplicate(self)
    }
}

impl Stored for EditorPrefs {
    open spec fn is_default(v: EditorPrefs) -> bool {
        v.tool@ == "arrow"@ && v.color@ == "#ff3b30"@ && v.stroke_width == 4
    }

    /// Editor preferences have no invariants: sanitizing keeps them.
    open spec fn sanitizes_to(before: EditorPrefs, after: EditorPrefs) -> bool {
        after == before
    }

    fn default_value() -> (v: EditorPrefs) {
        EditorPrefs::default()
    }

    fn sanitize(self) -> (v: EditorPrefs) {
        self
    }

    fn duplicate(&self) -> (v: EditorPrefs) {
        EditorPrefs { tool: self.tool.clone(), color: self.color.clone(), stroke_width: self.stroke_width }
    }
}

/// A JSON-file-backed value: a missing or corrupt file yields the default,
/// and values are sanitized on load and on set. The application reads and
/// writes the file; this store holds the current value.
pub struct JsonStore<T> {
    path: String,
    current: T,
}

pub type SettingsStore = JsonStore<Settings>;

pub type EditorPrefsStore = JsonStore<EditorPrefs>;

impl<T: Stored> JsonStore<T> {
    pub closed spec fn value(&self) -> T {
        self.current
    }

    pub closed spec fn file(&self) -> Seq<char> {
        self.path@
    }

    /// The store for the file at `path`, given what parsing its contents
    /// gave (`None` when the file is missing or corrupt).
    pub fn load_with(path: String, parsed: Option<T>) -> (store: Self)
        ensures
            store.file() == path@,
            match parsed {
                Some(v) => T::sanitizes_to(v, store.value()),
                None => T::is_default(store.value()),
            },
    {
        let current = match parsed {
            Some(v) => v.sanitize(),
            None => T::default_value(),
        };
        JsonStore { path, current }
    }

    /// The current value.
    pub fn get(&self) -> (v: T)
        ensures
            v == self.value(),
    {
        self.current.duplicate()
    }

    /// Sanitize and keep `value`; returns what the application persists.
    pub fn set(&mut self, value: T) -> (saved: T)
        ensures
            T::sanitizes_to(value, saved),
            final(self).value() == saved,
            final(self).file() == old(self).file(),
    {
        let saved = value.sanitize();
        self.current = saved.duplicate();
        saved
    }

    /// The file the store is persisted to.
    pub fn path(&self) -> (p: &str)
        ensures
            p@ == self.file(),
    {
        self.path.as_str()
    }
}

impl JsonStore<Settings> {
    pub fn load(path: String, parsed: Option<Settings>) -> (store: Self)
        ensures
            store.file() == path@,
            match parsed {
                Some(v) => exists|c: ShortcutChecks| sanitized_spec(v, c, store.value()),
                None => default_settings_ok(store.value()),
            },
    {
        Self::load_with(path, parsed)
    }
}

impl JsonStore<EditorPrefs> {
    pub fn load(path: String, parsed: Option<EditorPrefs>) -> (store: Self)
        ensures
            store.file() == path@,
            match parsed {
                Some(v) => store.value() == v,
                None => store.value().tool@ == "arrow"@ && store.value().color@ == "#ff3b30"@
                    && store.value().stroke_width == 4,
            },
    {
        Self::load_with(path, parsed)
    }
}

} // verus!
