//! Desktop preferences: their defaults, how a saved set is brought back into the
//! accepted range, how a new set is merged with the current one, and the escaping
//! rules of the start-at-login entries.
use crate::desktop::{DesktopPreferences, DesktopWindowState};
use crate::text::{append_str, chars_of, is_space, is_space_char, str_eq, string_from_chars};
use vstd::prelude::*;

verus! {

/// Ask the user what closing the window should do.
pub const CLOSE_BEHAVIOR_ASK: &'static str = "ask";

/// Closing the window hides it.
pub const CLOSE_BEHAVIOR_HIDE: &'static str = "hide";

/// Closing the window quits.
pub const CLOSE_BEHAVIOR_QUIT: &'static str = "quit";

/// Follow the system language.
pub const LANGUAGE_SYSTEM: &'static str = "system";

/// Simplified Chinese.
pub const LANGUAGE_ZH_CN: &'static str = "zh-CN";

/// American English.
pub const LANGUAGE_EN_US: &'static str = "en-US";

/// The narrowest window that is restored as saved.
pub const MIN_WINDOW_WIDTH: u32 = 900;

/// The lowest window that is restored as saved.
pub const MIN_WINDOW_HEIGHT: u32 = 620;

/// The widest window that is restored as saved.
pub const MAX_WINDOW_WIDTH: u32 = 3840;

/// The highest window that is restored as saved.
pub const MAX_WINDOW_HEIGHT: u32 = 2160;

/// The preferences with their strings taken as character sequences.
pub struct PreferencesView {
    pub close_behavior: Seq<char>,
    pub language: Seq<char>,
    pub start_at_login: bool,
    pub start_at_login_supported: bool,
    pub tray_supported: bool,
    pub tray_message: Seq<char>,
    pub window: Option<DesktopWindowState>,
}

impl View for DesktopPreferences {
    type V = PreferencesView;

    open spec fn view(&self) -> PreferencesView {
        PreferencesView {
            close_behavior: self.close_behavior@,
            language: self.language@,
            start_at_login: self.start_at_login,
            start_at_login_supported: self.start_at_login_supported,
            tray_supported: self.tray_supported,
            tray_message: self.tray_message@,
            window: self.window,
        }
    }
}

/// The note shown about the tray.
pub open spec fn tray_message_text() -> Seq<char> {
    "Tauri desktop keeps close-to-hide behavior."@
}

/// Whether `s` is one of the accepted close behaviours.
pub open spec fn is_close_behavior(s: Seq<char>) -> bool {
    s == "ask"@ || s == "hide"@ || s == "quit"@
}

/// Whether `s` is one of the accepted languages.
pub open spec fn is_language(s: Seq<char>) -> bool {
    s == "system"@ || s == "zh-CN"@ || s == "en-US"@
}

/// The default preferences.
pub open spec fn default_preferences_spec(start_at_login_supported: bool) -> PreferencesView {
    PreferencesView {
        close_behavior: "ask"@,
        language: "system"@,
        start_at_login: false,
        start_at_login_supported,
        tray_supported: true,
        tray_message: tray_message_text(),
        window: None,
    }
}

/// `v` brought into `lo..=hi`.
pub open spec fn clamp_spec(v: int, lo: int, hi: int) -> int {
    if v < lo {
        lo
    } else if v > hi {
        hi
    } else {
        v
    }
}

/// A saved window state as it is restored: dropped when it is less than half the
/// minimum size in either direction, else its size clamped to the accepted range.
pub open spec fn normalize_window_spec(w: DesktopWindowState) -> Option<DesktopWindowState> {
    if w.width < MIN_WINDOW_WIDTH / 2 || w.height < MIN_WINDOW_HEIGHT / 2 {
        None
    } else {
        Some(
            DesktopWindowState {
                width: clamp_spec(w.width as int, MIN_WINDOW_WIDTH as int, MAX_WINDOW_WIDTH as int) as u32,
                height: clamp_spec(w.height as int, MIN_WINDOW_HEIGHT as int, MAX_WINDOW_HEIGHT as int) as u32,
                ..w
            },
        )
    }
}

/// Preferences brought into the accepted range: an unknown close behaviour or
/// language falls back to its default, the platform fields take the platform's
/// values, and the window state is normalized.
pub open spec fn normalize_preferences_spec(p: PreferencesView, start_at_login_supported: bool) -> PreferencesView {
    PreferencesView {
        close_behavior: if is_close_behavior(p.close_behavior) { p.close_behavior } else { "ask"@ },
        language: if is_language(p.language) { p.language } else { "system"@ },
        start_at_login: p.start_at_login,
        start_at_login_supported,
        tray_supported: true,
        tray_message: tray_message_text(),
        window: match p.window {
            Some(w) => normalize_window_spec(w),
            None => None,
        },
    }
}

/// The preferences to store when `p` is saved over `current`: `p` normalized,
/// keeping the current window state where `p` has none, and the platform fields of
/// `current`.
pub open spec fn merge_preferences_spec(p: PreferencesView, current: PreferencesView) -> PreferencesView {
    let next = normalize_preferences_spec(p, current.start_at_login_supported);
    PreferencesView {
        window: if next.window is None { current.window } else { next.window },
        start_at_login_supported: current.start_at_login_supported,
        tray_supported: current.tray_supported,
        tray_message: current.tray_message,
        ..next
    }
}

fn owned(s: &str) -> (r: String)
    ensures
        r@ == s@,
{
    s.to_owned()
}

/// The default preferences; `start_at_login_supported` is whether the platform can
/// start the application at login.
pub fn default_desktop_preferences(start_at_login_supported: bool) -> (p: DesktopPreferences)
    ensures
        p@ == default_preferences_spec(start_at_login_supported),
{
    DesktopPreferences {
        close_behavior: owned(CLOSE_BEHAVIOR_ASK),
        language: owned(LANGUAGE_SYSTEM),
        start_at_login: false,
        start_at_login_supported,
        tray_supported: true,
        tray_message: owned("Tauri desktop keeps close-to-hide behavior."),
        window: None,
    }
}

fn clamp_u32(v: u32, lo: u32, hi: u32) -> (r: u32)
    requires
        lo <= hi,
    ensures
        r == clamp_spec(v as int, lo as int, hi as int),
{
    if v < lo {
        lo
    } else if v > hi {
        hi
    } else {
        v
    }
}

/// A saved window state as it is restored, or `None` when it is too small to keep.
pub fn normalize_window_state(window: DesktopWindowState) -> (r: Option<DesktopWindowState>)
    ensures
        r == normalize_window_spec(window),
        r matches Some(w) ==> MIN_WINDOW_WIDTH <= w.width <= MAX_WINDOW_WIDTH
            && MIN_WINDOW_HEIGHT <= w.height <= MAX_WINDOW_HEIGHT,
{
    if window.width < MIN_WINDOW_WIDTH / 2 || window.height < MIN_WINDOW_HEIGHT / 2 {
        return None;
    }
    let mut w = window;
    w.width = clamp_u32(window.width, MIN_WINDOW_WIDTH, MAX_WINDOW_WIDTH);
    w.height = clamp_u32(window.height, MIN_WINDOW_HEIGHT, MAX_WINDOW_HEIGHT);
    Some(w)
}

fn is_close_behavior_str(s: &str) -> (b: bool)
    ensures
        b == is_close_behavior(s@),
{
    str_eq(s, CLOSE_BEHAVIOR_ASK) || str_eq(s, CLOSE_BEHAVIOR_HIDE) || str_eq(s, CLOSE_BEHAVIOR_QUIT)
}

fn is_language_str(s: &str) -> (b: bool)
    ensures
        b == is_language(s@),
{
    str_eq(s, LANGUAGE_SYSTEM) || str_eq(s, LANGUAGE_ZH_CN) || str_eq(s, LANGUAGE_EN_US)
}

/// Saved preferences brought into the accepted range.
pub fn normalize_desktop_preferences(prefs: DesktopPreferences, start_at_login_supported: bool) -> (r: DesktopPreferences)
    ensures
        r@ == normalize_preferences_spec(prefs@, start_at_login_supported),
{
    let defaults = default_desktop_preferences(start_at_login_supported);
    let close_behavior = if is_close_behavior_str(prefs.close_behavior.as_str()) {
        prefs.close_behavior
    } else {
        defaults.close_behavior
    };
    let language = if is_language_str(prefs.language.as_str()) {
        prefs.language
    } else {
        defaults.language
    };
    let window = match prefs.window {
        Some(w) => normalize_window_state(w),
        None => None,
    };
    DesktopPreferences {
        close_behavior,
        language,
        start_at_login: prefs.start_at_login,
        start_at_login_supported: defaults.start_at_login_supported,
        tray_supported: defaults.tray_supported,
        tray_message: defaults.tray_message,
        window,
    }
}

/// The preferences to store when `prefs` is saved while `current` is in force.
pub fn merge_desktop_preferences(prefs: DesktopPreferences, current: DesktopPreferences) -> (r: DesktopPreferences)
    ensures
        r@ == merge_preferences_spec(prefs@, current@),
{
    let mut next = normalize_desktop_preferences(prefs, current.start_at_login_supported);
    if next.window.is_none() {
        next.window = current.window;
    }
    next.start_at_login_supported = current.start_at_login_supported;
    next.tray_supported = current.tray_supported;
    next.tray_message = current.tray_message;
    next
}

/// Normalizing twice gives what normalizing once gives.
pub proof fn law_normalize_preferences_idempotent(p: PreferencesView, start_at_login_supported: bool)
    ensures
        normalize_preferences_spec(normalize_preferences_spec(p, start_at_login_supported), start_at_login_supported)
            == normalize_preferences_spec(p, start_at_login_supported),
{
    let once = normalize_preferences_spec(p, start_at_login_supported);
    let twice = normalize_preferences_spec(once, start_at_login_supported);
    assert(twice.close_behavior == once.close_behavior);
    assert(twice.language == once.language);
    assert(twice.window == once.window);
}

/// The default preferences are left as they are by normalization.
pub proof fn law_defaults_are_normal(start_at_login_supported: bool)
    ensures
        normalize_preferences_spec(default_preferences_spec(start_at_login_supported), start_at_login_supported)
            == default_preferences_spec(start_at_login_supported),
{
}

/// A restored window state is restored unchanged a second time.
pub proof fn law_normalize_window_idempotent(w: DesktopWindowState)
    ensures
        normalize_window_spec(w) matches Some(n) ==> normalize_window_spec(n) == Some(n),
{
}

/// The XML entity for the characters that need one; `None` for others.
pub open spec fn xml_entity(c: char) -> Seq<char> {
    if c == '&' {
        "&amp;"@
    } else if c == '<' {
        "&lt;"@
    } else if c == '>' {
        "&gt;"@
    } else if c == '"' {
        "&quot;"@
    } else if c == '\'' {
        "&apos;"@
    } else {
        seq![c]
    }
}

/// `s` with `&`, `<`, `>`, `"` and `'` replaced by their XML entities.
pub open spec fn xml_escape_spec(s: Seq<char>) -> Seq<char>
    decreases s.len(),
{
    if s.len() == 0 {
        Seq::empty()
    } else {
        xml_escape_spec(s.drop_last()) + xml_entity(s.last())
    }
}

/// A desktop entry's escape of one character: a backslash before `\` and `"`.
pub open spec fn desktop_char(c: char) -> Seq<char> {
    if c == '\\' || c == '"' {
        seq!['\\', c]
    } else {
        seq![c]
    }
}

/// `s` with a backslash put before each `\` and `"`.
pub open spec fn desktop_backslashed(s: Seq<char>) -> Seq<char>
    decreases s.len(),
{
    if s.len() == 0 {
        Seq::empty()
    } else {
        desktop_backslashed(s.drop_last()) + desktop_char(s.last())
    }
}

/// Whether `s` holds white space.
pub open spec fn has_space(s: Seq<char>) -> bool {
    exists|i: int| 0 <= i < s.len() && is_space(#[trigger] s[i])
}

/// A value as a desktop entry's `Exec` key takes it: backslashed, and quoted when it
/// holds white space.
pub open spec fn desktop_escape_spec(s: Seq<char>) -> Seq<char> {
    let e = desktop_backslashed(s);
    if has_space(e) {
        seq!['"'] + e + seq!['"']
    } else {
        e
    }
}

/// `value` with `&`, `<`, `>`, `"` and `'` replaced by their XML entities.
pub fn xml_escape(value: &str) -> (r: String)
    ensures
        r@ == xml_escape_spec(value@),
{
    let v = chars_of(value);
    let mut out: Vec<char> = Vec::new();
    let mut i: usize = 0;
    while i < v.len()
        invariant
            i <= v@.len(),
            out@ == xml_escape_spec(v@.take(i as int)),
        decreases v@.len() - i,
    {
        let c = v[i];
        assert(v@.take(i + 1).drop_last() =~= v@.take(i as int));
        if c == '&' {
            append_str(&mut out, "&amp;");
        } else if c == '<' {
            append_str(&mut out, "&lt;");
        } else if c == '>' {
            append_str(&mut out, "&gt;");
        } else if c == '"' {
            append_str(&mut out, "&quot;");
        } else if c == '\'' {
            append_str(&mut out, "&apos;");
        } else {
            out.push(c);
            assert(out@ =~= xml_escape_spec(v@.take(i as int)) + seq![c]);
        }
        i = i + 1;
    }
    assert(v@.take(v@.len() as int) =~= v@);
    string_from_chars(out.as_slice())
}

/// `value` as a desktop entry's `Exec` key takes it: a backslash before each `\` and
/// `"`, and the whole in double quotes when it holds white space.
pub fn desktop_escape(value: &str) -> (r: String)
    ensures
        r@ == desktop_escape_spec(value@),
{
    let v = chars_of(value);
    let mut out: Vec<char> = Vec::new();
    let mut spaced = false;
    let mut i: usize = 0;
    while i < v.len()
        invariant
            i <= v@.len(),
            out@ == desktop_backslashed(v@.take(i as int)),
            spaced == has_space(out@),
        decreases v@.len() - i,
    {
        let c = v[i];
        let ghost before = out@;
        assert(v@.take(i + 1).drop_last() =~= v@.take(i as int));
        if c == '\\' || c == '"' {
            out.push('\\');
            out.push(c);
            assert(out@ =~= before + seq!['\\', c]);
        } else {
            out.push(c);
            assert(out@ =~= before + seq![c]);
        }
        let sp = is_space_char(c);
        proof {
            if has_space(before) {
                let k = choose|k: int| 0 <= k < before.len() && is_space(#[trigger] before[k]);
                assert(out@[k] == before[k]);
                assert(is_space(out@[k]));
            }
            if sp {
                assert(out@[out@.len() - 1] == c);
                assert(is_space(out@[out@.len() - 1]));
            }
            if has_space(out@) {
                let k = choose|k: int| 0 <= k < out@.len() && is_space(#[trigger] out@[k]);
                if k < before.len() {
                    assert(before[k] == out@[k]);
                } else {
                    assert(out@[k] == '\\' || out@[k] == c);
                }
            }
        }
        spaced = spaced || sp;
        i = i + 1;
    }
    assert(v@.take(v@.len() as int) =~= v@);
    if spaced {
        let mut q: Vec<char> = Vec::new();
        q.push('"');
        let mut j: usize = 0;
        while j < out.len()
            invariant
                j <= out@.len(),
                q@ == seq!['"'] + out@.take(j as int),
            decreases out@.len() - j,
        {
            q.push(out[j]);
            j = j + 1;
            assert(q@ =~= seq!['"'] + out@.take(j as int));
        }
        q.push('"');
        assert(out@.take(out@.len() as int) =~= out@);
        assert(q@ =~= seq!['"'] + out@ + seq!['"']);
        string_from_chars(q.as_slice())
    } else {
        string_from_chars(out.as_slice())
    }
}


/// How long after one save of the window state the next one waits, in milliseconds.
pub const WINDOW_SAVE_INTERVAL_MS: u64 = 500;

/// Whether a window move or resize at monotonic time `now_ms` saves the window state:
/// always when none was saved yet, else only when the last save at `last_ms` is at least
/// `WINDOW_SAVE_INTERVAL_MS` ago (a last save later than `now_ms` counts as just now).
pub fn window_save_due(last_ms: Option<u64>, now_ms: u64) -> (b: bool)
    ensures
        b == match last_ms {
            None => true,
            Some(last) => last <= now_ms && now_ms - last >= WINDOW_SAVE_INTERVAL_MS,
        },
{
    match last_ms {
        None => true,
        Some(last) => last <= now_ms && now_ms - last >= WINDOW_SAVE_INTERVAL_MS,
    }
}

} // verus!
