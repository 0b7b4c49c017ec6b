//! Color mode selection and ANSI painting.
use vstd::prelude::*;

use crate::text::{chars_eq, lower_spec, str_chars, to_lower, trim, trim_spec};

verus! {

/// How output is colored.
#[derive(Copy, Clone, PartialEq, Eq, Structural, Debug, PartialOrd, Ord)]
pub enum ColorMode {
    Auto,
    Always,
    Never,
}

/// The color mode a (trimmed, lower-cased) word names.
pub open spec fn color_word_spec(w: Seq<char>) -> Option<ColorMode> {
    if w == "auto"@ {
        Some(ColorMode::Auto)
    } else if w == "always"@ || w == "on"@ || w == "true"@ || w == "yes"@ {
        Some(ColorMode::Always)
    } else if w == "never"@ || w == "off"@ || w == "false"@ || w == "no"@ {
        Some(ColorMode::Never)
    } else {
        None
    }
}

/// `auto`; `always|on|true|yes`; `never|off|false|no` (surrounding whitespace and
/// ASCII case ignored).
pub open spec fn parse_color_mode_spec(s: Seq<char>) -> Option<ColorMode> {
    color_word_spec(lower_spec(trim_spec(s)))
}

fn word_is(w: &[char], lit: &str) -> (b: bool)
    ensures
        b == (w@ == lit@),
{
    let l = str_chars(lit);
    chars_eq(w, l.as_slice())
}

/// Parse a color preference word.
pub fn parse_color_mode(s: &str) -> (r: Option<ColorMode>)
    ensures
        r == parse_color_mode_spec(s@),
{
    let cs = str_chars(s);
    let t = trim(cs.as_slice());
    let w = to_lower(t.as_slice());
    let w = w.as_slice();
    if word_is(w, "auto") {
        Some(ColorMode::Auto)
    } else if word_is(w, "always") || word_is(w, "on") || word_is(w, "true") || word_is(w, "yes") {
        Some(ColorMode::Always)
    } else if word_is(w, "never") || word_is(w, "off") || word_is(w, "false") || word_is(w, "no") {
        Some(ColorMode::Never)
    } else {
        None
    }
}

/// A set-once holder for the color mode chosen on the command line.
pub struct ColorModeCell {
    mode: Option<ColorMode>,
}

impl View for ColorModeCell {
    type V = Option<ColorMode>;

    closed spec fn view(&self) -> Option<ColorMode> {
        self.mode
    }
}

impl ColorModeCell {
    /// An empty cell.
    pub fn new() -> (c: Self)
        ensures
            c@ is None,
    {
        ColorModeCell { mode: None }
    }

    /// The mode recorded so far, if any.
    pub fn get(&self) -> (r: Option<ColorMode>)
        ensures
            r == self@,
    {
        self.mode
    }
}

/// Record the programmatic color mode; only the first call has an effect.
pub fn set_color_mode(cell: &mut ColorModeCell, mode: ColorMode)
    ensures
        final(cell)@ == if old(cell)@ is None {
            Some(mode)
        } else {
            old(cell)@
        },
{
    if cell.mode.is_none() {
        cell.mode = Some(mode);
    }
}

/// The mode's answer for a stream whose terminal status is `is_tty`.
pub open spec fn mode_enables(mode: ColorMode, is_tty: bool) -> bool {
    match mode {
        ColorMode::Always => true,
        ColorMode::Never => false,
        ColorMode::Auto => is_tty,
    }
}

/// Whether to color a stream: `NO_COLOR` wins, then the programmatic mode, then the
/// `AIFO_CODER_COLOR` preference (when it parses), then the terminal status.
pub open spec fn color_enabled_spec(
    no_color: bool,
    programmatic: Option<ColorMode>,
    env_pref: Option<Seq<char>>,
    is_tty: bool,
) -> bool {
    if no_color {
        false
    } else if programmatic is Some {
        mode_enables(programmatic->0, is_tty)
    } else if env_pref is Some && parse_color_mode_spec(env_pref->0) is Some {
        mode_enables(parse_color_mode_spec(env_pref->0)->0, is_tty)
    } else {
        is_tty
    }
}

fn mode_enables_exec(mode: ColorMode, is_tty: bool) -> (b: bool)
    ensures
        b == mode_enables(mode, is_tty),
{
    match mode {
        ColorMode::Always => true,
        ColorMode::Never => false,
        ColorMode::Auto => is_tty,
    }
}

/// Decide whether color is enabled for a stream.
pub fn color_enabled_for(
    no_color: bool,
    programmatic: Option<ColorMode>,
    env_pref: Option<&str>,
    is_tty: bool,
) -> (b: bool)
    ensures
        b == color_enabled_spec(
            no_color,
            programmatic,
            match env_pref {
                Some(v) => Some(v@),
                None => None,
            },
            is_tty,
        ),
{
    if no_color {
        return false;
    }
    if let Some(mode) = programmatic {
        return mode_enables_exec(mode, is_tty);
    }
    if let Some(v) = env_pref {
        if let Some(mode) = parse_color_mode(v) {
            return mode_enables_exec(mode, is_tty);
        }
    }
    is_tty
}

/// `code + s + reset` when enabled, `s` otherwise.
pub open spec fn paint_spec(enabled: bool, code: Seq<char>, s: Seq<char>) -> Seq<char> {
    if enabled {
        code + s + "\x1b[0m"@
    } else {
        s
    }
}

/// Painting keeps the message text: it is the whole line without color, and sits
/// right after the color code with it.
pub proof fn lemma_paint_preserves_text(enabled: bool, code: Seq<char>, s: Seq<char>)
    ensures
        !enabled ==> paint_spec(enabled, code, s) == s,
        enabled ==> paint_spec(enabled, code, s).subrange(code.len() as int, (code.len() + s.len()) as int) == s,
{
    if enabled {
        let p = paint_spec(enabled, code, s);
        assert(p.subrange(code.len() as int, (code.len() + s.len()) as int) =~= s);
    }
}

/// Wrap a string in an ANSI color code when enabled; otherwise return it unchanged.
pub fn paint(enabled: bool, code: &str, s: &str) -> (out: String)
    ensures
        out@ == paint_spec(enabled, code@, s@),
{
    if enabled {
        let mut out = code.to_owned();
        out.push_str(s);
        out.push_str("\x1b[0m");
        out
    } else {
        s.to_owned()
    }
}

/// Bold cyan, for informational lines.
pub open spec fn info_code() -> Seq<char> {
    "\x1b[36;1m"@
}

/// Yellow, for warnings and notes.
pub open spec fn warn_code() -> Seq<char> {
    "\x1b[33m"@
}

/// Bold red, for errors and refusals.
pub open spec fn error_code() -> Seq<char> {
    "\x1b[31;1m"@
}

/// The text of an informational stderr line.
pub fn log_info_line(use_color: bool, msg: &str) -> (out: String)
    ensures
        out@ == paint_spec(use_color, info_code(), msg@),
{
    paint(use_color, "\x1b[36;1m", msg)
}

/// The text of a warning stderr line.
pub fn log_warn_line(use_color: bool, msg: &str) -> (out: String)
    ensures
        out@ == paint_spec(use_color, warn_code(), msg@),
{
    paint(use_color, "\x1b[33m", msg)
}

/// The text of an error stderr line.
pub fn log_error_line(use_color: bool, msg: &str) -> (out: String)
    ensures
        out@ == paint_spec(use_color, error_code(), msg@),
{
    paint(use_color, "\x1b[31;1m", msg)
}

} // verus!
