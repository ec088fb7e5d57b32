//! The pet card's key handling: which screen is showing (the card, the naming prompt, the
//! graveyard, the dev panel) and what each key press does there. The terminal loop performs
//! the returned action and feeds the next key back in.

use vstd::prelude::*;

use crate::care::Mood;
use crate::model::{stage_index, stage_step, STAGE_COUNT};
use crate::text::{is_ws, lemma_trim_shape, skip_ws_backward, skip_ws_forward, string_of_range, trim};

verus! {

/// Longest pet name, in characters.
pub const NAME_MAX: usize = 12;

/// A key press, as far as the card reacts to it.
#[derive(Clone, Copy, PartialEq, Eq, Debug, Structural)]
pub enum Key {
    Enter,
    Esc,
    Backspace,
    Char(char),
    Other,
}

/// The screen being shown.
pub enum UiMode {
    Normal,
    /// The naming prompt with the name typed so far.
    Naming(String),
    Graveyard,
    Dev,
}

/// The screen being shown, with the naming prompt's text as characters.
pub enum UiModeView {
    Normal,
    Naming(Seq<char>),
    Graveyard,
    Dev,
}

impl View for UiMode {
    type V = UiModeView;

    open spec fn view(&self) -> UiModeView {
        match self {
            UiMode::Normal => UiModeView::Normal,
            UiMode::Naming(s) => UiModeView::Naming(s@),
            UiMode::Graveyard => UiModeView::Graveyard,
            UiMode::Dev => UiModeView::Dev,
        }
    }
}

/// What the terminal loop must do after a key press.
pub enum KeyAction {
    Nothing,
    Quit,
    Feed,
    Pet,
    /// Rescan the transcripts and refresh the ledger.
    Refresh,
    /// Store the pet's name (`None` clears it).
    SetName(Option<String>),
    /// Dev panel: preview a mood.
    PreviewMood(Mood),
    /// Dev panel: preview a level.
    PreviewLevel(u64),
    /// Dev panel: play the level-up celebration.
    Celebrate,
    /// Dev panel: switch to the next counting mode.
    CycleCountMode,
    /// Dev panel: drop all previews.
    ResetPreviews,
    /// Dev panel: let the pet die now and run the real death path.
    Kill,
}

/// An action, with a stored name as characters.
pub enum KeyActionView {
    Nothing,
    Quit,
    Feed,
    Pet,
    Refresh,
    SetName(Option<Seq<char>>),
    PreviewMood(Mood),
    PreviewLevel(u64),
    Celebrate,
    CycleCountMode,
    ResetPreviews,
    Kill,
}

impl View for KeyAction {
    type V = KeyActionView;

    open spec fn view(&self) -> KeyActionView {
        match self {
            KeyAction::Nothing => KeyActionView::Nothing,
            KeyAction::Quit => KeyActionView::Quit,
            KeyAction::Feed => KeyActionView::Feed,
            KeyAction::Pet => KeyActionView::Pet,
            KeyAction::Refresh => KeyActionView::Refresh,
            KeyAction::SetName(n) => KeyActionView::SetName(
                match n {
                    Some(s) => Some(s@),
                    None => None,
                },
            ),
            KeyAction::PreviewMood(m) => KeyActionView::PreviewMood(*m),
            KeyAction::PreviewLevel(l) => KeyActionView::PreviewLevel(*l),
            KeyAction::Celebrate => KeyActionView::Celebrate,
            KeyAction::CycleCountMode => KeyActionView::CycleCountMode,
            KeyAction::ResetPreviews => KeyActionView::ResetPreviews,
            KeyAction::Kill => KeyActionView::Kill,
        }
    }
}

/// Unicode control characters (general category Cc), the set `char::is_control` tests.
pub open spec fn is_control_char(c: char) -> bool {
    let x = c as u32;
    x <= 0x1f || (0x7f <= x && x <= 0x9f)
}

/// The dev panel's level for `+`/`-`: one up (saturating), or one down but not below 1.
pub open spec fn level_nudge(level: u64, up: bool) -> u64 {
    if up {
        if level == u64::MAX {
            level
        } else {
            (level + 1) as u64
        }
    } else if level <= 1 {
        1
    } else {
        (level - 1) as u64
    }
}

/// The entry level of the stage `dir` steps from `level`'s stage, clamped to the ramp.
pub open spec fn stage_step_spec(level: u64, dir: int) -> u64 {
    let t = stage_index(level) as int + dir;
    let next = if t < 0 {
        0
    } else if t > STAGE_COUNT - 1 {
        STAGE_COUNT - 1
    } else {
        t
    };
    crate::model::stage_min_level(next)
}

/// The new screen and the action for `key` on screen `mode`. `name` is the pet's current
/// name (the naming prompt starts from it), `dev` whether the dev panel is enabled and
/// `level` the level the dev panel acts on.
pub open spec fn key_spec(key: Key, mode: UiModeView, name: Option<Seq<char>>, dev: bool, level: u64) -> (
    UiModeView,
    KeyActionView,
) {
    match mode {
        UiModeView::Naming(buf) => match key {
            Key::Enter => {
                let t = trim(buf);
                (
                    UiModeView::Normal,
                    KeyActionView::SetName(
                        if t.len() == 0 {
                            None
                        } else {
                            Some(t)
                        },
                    ),
                )
            },
            Key::Esc => (UiModeView::Normal, KeyActionView::Nothing),
            Key::Backspace => (
                UiModeView::Naming(
                    if buf.len() > 0 {
                        buf.drop_last()
                    } else {
                        buf
                    },
                ),
                KeyActionView::Nothing,
            ),
            Key::Char(c) => if !is_control_char(c) && buf.len() < NAME_MAX {
                (UiModeView::Naming(buf.push(c)), KeyActionView::Nothing)
            } else {
                (mode, KeyActionView::Nothing)
            },
            Key::Other => (mode, KeyActionView::Nothing),
        },
        UiModeView::Graveyard => match key {
            Key::Char('g') | Key::Char('q') | Key::Esc => (UiModeView::Normal, KeyActionView::Nothing),
            _ => (mode, KeyActionView::Nothing),
        },
        UiModeView::Normal => match key {
            Key::Char('q') | Key::Char('Q') | Key::Esc => (mode, KeyActionView::Quit),
            Key::Char('f') => (mode, KeyActionView::Feed),
            Key::Char('p') => (mode, KeyActionView::Pet),
            Key::Char('r') => (mode, KeyActionView::Refresh),
            Key::Char('n') => (
                UiModeView::Naming(
                    match name {
                        Some(n) => n,
                        None => Seq::empty(),
                    },
                ),
                KeyActionView::Nothing,
            ),
            Key::Char('g') => (UiModeView::Graveyard, KeyActionView::Nothing),
            Key::Char('d') => if dev {
                (UiModeView::Dev, KeyActionView::Nothing)
            } else {
                (mode, KeyActionView::Nothing)
            },
            _ => (mode, KeyActionView::Nothing),
        },
        UiModeView::Dev => match key {
            Key::Char('d') | Key::Char('q') | Key::Char('Q') | Key::Esc => (
                UiModeView::Normal,
                KeyActionView::Nothing,
            ),
            Key::Char('1') => (mode, KeyActionView::PreviewMood(Mood::Happy)),
            Key::Char('2') => (mode, KeyActionView::PreviewMood(Mood::Content)),
            Key::Char('3') => (mode, KeyActionView::PreviewMood(Mood::Hungry)),
            Key::Char('4') => (mode, KeyActionView::PreviewMood(Mood::Grumpy)),
            Key::Char('5') => (mode, KeyActionView::PreviewMood(Mood::Sick)),
            Key::Char('[') => (mode, KeyActionView::PreviewLevel(stage_step_spec(level, -1))),
            Key::Char(']') => (mode, KeyActionView::PreviewLevel(stage_step_spec(level, 1))),
            Key::Char('+') | Key::Char('=') => (
                mode,
                KeyActionView::PreviewLevel(level_nudge(level, true)),
            ),
            Key::Char('-') => (mode, KeyActionView::PreviewLevel(level_nudge(level, false))),
            Key::Char('c') => (mode, KeyActionView::Celebrate),
            Key::Char('m') => (mode, KeyActionView::CycleCountMode),
            Key::Char('r') => (mode, KeyActionView::ResetPreviews),
            Key::Char('k') => (mode, KeyActionView::Kill),
            _ => (mode, KeyActionView::Nothing),
        },
    }
}

/// Whether an action is one of the dev panel's.
pub open spec fn is_dev_action(a: KeyActionView) -> bool {
    match a {
        KeyActionView::PreviewMood(_) | KeyActionView::PreviewLevel(_) | KeyActionView::Celebrate
        | KeyActionView::CycleCountMode | KeyActionView::ResetPreviews | KeyActionView::Kill => true,
        _ => false,
    }
}

/// Without the dev flag, no key leads into the dev panel, and no key outside it yields a
/// dev action (previews, the forced celebration, the mode switch, the kill).
pub proof fn lemma_dev_panel_needs_flag(key: Key, mode: UiModeView, name: Option<Seq<char>>, level: u64)
    requires
        !(mode is Dev),
    ensures
        !(key_spec(key, mode, name, false, level).0 is Dev),
        !is_dev_action(key_spec(key, mode, name, false, level).1),
{
}

/// The naming prompt holds at most `NAME_MAX` characters once it does, and the name it
/// stores is never padded: it is no longer than what was typed, and when set it is not
/// empty and neither starts nor ends with whitespace.
pub proof fn lemma_naming_keeps_names_tidy(
    key: Key,
    buf: Seq<char>,
    name: Option<Seq<char>>,
    dev: bool,
    level: u64,
)
    requires
        buf.len() <= NAME_MAX,
    ensures
        ({
            let (m, a) = key_spec(key, UiModeView::Naming(buf), name, dev, level);
            &&& (m matches UiModeView::Naming(b) ==> b.len() <= NAME_MAX)
            &&& (a matches KeyActionView::SetName(Some(t)) ==> {
                &&& 0 < t.len() <= buf.len()
                &&& !is_ws(t[0])
                &&& !is_ws(t.last())
            })
        }),
{
    lemma_trim_shape(buf);
}

/// Whether `c` is a control character.
fn is_control(c: char) -> (r: bool)
    ensures
        r == is_control_char(c),
{
    let x = c as u32;
    x <= 0x1f || (0x7f <= x && x <= 0x9f)
}

/// `s` with its leading and trailing whitespace removed, or `None` when nothing is left.
fn trimmed(s: &String) -> (r: Option<String>)
    ensures
        match r {
            Some(t) => t@ == trim(s@) && t@.len() > 0,
            None => trim(s@).len() == 0,
        },
{
    let v = crate::text::chars_of(s.as_str());
    let start = skip_ws_forward(&v, 0, v.len());
    let end = skip_ws_backward(&v, start, v.len());
    assert(v@.subrange(0, v@.len() as int) =~= v@);
    if start == end {
        None
    } else {
        Some(string_of_range(&v, start, end))
    }
}

/// The last character of `s` removed (nothing for an empty `s`).
fn without_last(s: &String) -> (r: String)
    ensures
        r@ == (if s@.len() > 0 { s@.drop_last() } else { s@ }),
{
    let v = crate::text::chars_of(s.as_str());
    if v.len() == 0 {
        return s.clone();
    }
    let r = string_of_range(&v, 0, v.len() - 1);
    assert(v@.subrange(0, v@.len() - 1) =~= v@.drop_last());
    r
}

/// `s` with `c` appended.
fn with_char(s: &String, c: char) -> (r: String)
    ensures
        r@ == s@.push(c),
{
    let mut v = crate::text::chars_of(s.as_str());
    v.push(c);
    crate::text::string_from_chars(v.as_slice())
}

/// Handle one key press on the card: updates the screen and returns what the loop must do
/// (see `key_spec`).
pub fn handle_key(key: Key, mode: &mut UiMode, name: &Option<String>, dev: bool, level: u64) -> (a:
    KeyAction)
    ensures
        (final(mode)@, a@) == key_spec(
            key,
            old(mode)@,
            match name {
                Some(n) => Some(n@),
                None => None,
            },
            dev,
            level,
        ),
{
    match mode {
        UiMode::Naming(buf) => match key {
            Key::Enter => {
                let out = trimmed(buf);
                *mode = UiMode::Normal;
                KeyAction::SetName(out)
            },
            Key::Esc => {
                *mode = UiMode::Normal;
                KeyAction::Nothing
            },
            Key::Backspace => {
                let shorter = without_last(buf);
                *mode = UiMode::Naming(shorter);
                KeyAction::Nothing
            },
            Key::Char(c) => {
                let n = crate::text::chars_of(buf.as_str()).len();
                if !is_control(c) && n < NAME_MAX {
                    let longer = with_char(buf, c);
                    *mode = UiMode::Naming(longer);
                }
                KeyAction::Nothing
            },
            Key::Other => KeyAction::Nothing,
        },
        UiMode::Graveyard => {
            match key {
                Key::Char('g') | Key::Char('q') | Key::Esc => {
                    *mode = UiMode::Normal;
                },
                _ => {},
            }
            KeyAction::Nothing
        },
        UiMode::Normal => match key {
            Key::Char('q') | Key::Char('Q') | Key::Esc => KeyAction::Quit,
            Key::Char('f') => KeyAction::Feed,
            Key::Char('p') => KeyAction::Pet,
            Key::Char('r') => KeyAction::Refresh,
            Key::Char('n') => {
                let cur = match name {
                    Some(n) => n.clone(),
                    None => String::new(),
                };
                *mode = UiMode::Naming(cur);
                KeyAction::Nothing
            },
            Key::Char('g') => {
                *mode = UiMode::Graveyard;
                KeyAction::Nothing
            },
            Key::Char('d') => {
                if dev {
                    *mode = UiMode::Dev;
                }
                KeyAction::Nothing
            },
            _ => KeyAction::Nothing,
        },
        UiMode::Dev => match key {
            Key::Char('d') | Key::Char('q') | Key::Char('Q') | Key::Esc => {
                *mode = UiMode::Normal;
                KeyAction::Nothing
            },
            Key::Char('1') => KeyAction::PreviewMood(Mood::Happy),
            Key::Char('2') => KeyAction::PreviewMood(Mood::Content),
            Key::Char('3') => KeyAction::PreviewMood(Mood::Hungry),
            Key::Char('4') => KeyAction::PreviewMood(Mood::Grumpy),
            Key::Char('5') => KeyAction::PreviewMood(Mood::Sick),
            Key::Char('[') => KeyAction::PreviewLevel(stage_step(level, -1)),
            Key::Char(']') => KeyAction::PreviewLevel(stage_step(level, 1)),
            Key::Char('+') | Key::Char('=') => KeyAction::PreviewLevel(level.saturating_add(1)),
            Key::Char('-') => {
                let down = level.saturating_sub(1);
                KeyAction::PreviewLevel(
                    if down < 1 {
                        1
                    } else {
                        down
                    },
                )
            },
            Key::Char('c') => KeyAction::Celebrate,
            Key::Char('m') => KeyAction::CycleCountMode,
            Key::Char('r') => KeyAction::ResetPreviews,
            Key::Char('k') => KeyAction::Kill,
            _ => KeyAction::Nothing,
        },
    }
}

/// On the card, `q`, `Q` and Esc each quit, leaving the screen as it is.
pub proof fn lemma_card_quit_keys(name: Option<Seq<char>>, dev: bool, level: u64)
    ensures
        key_spec(Key::Char('q'), UiModeView::Normal, name, dev, level).1 is Quit,
        key_spec(Key::Char('Q'), UiModeView::Normal, name, dev, level).1 is Quit,
        key_spec(Key::Esc, UiModeView::Normal, name, dev, level).1 is Quit,
        key_spec(Key::Char('q'), UiModeView::Normal, name, dev, level).0 is Normal,
        key_spec(Key::Char('Q'), UiModeView::Normal, name, dev, level).0 is Normal,
        key_spec(Key::Esc, UiModeView::Normal, name, dev, level).0 is Normal,
{
}

} // verus!
