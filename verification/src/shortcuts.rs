//! The shortcut resolution: the one place that decides what a keyboard chord
//! (or a mouse back/forward button) means, for every edge.
//!
//! [`resolve_chord`] is a pure function of a [`Chord`], the current [`Focus`]
//! and the platform's [`PrimaryModifier`], returning the [`ChromeAction`] to
//! perform, or `None` when werust claims no meaning for the input and the edge
//! must pass it on. Modifier matching is exact, never "at least these".

use vstd::prelude::*;

use crate::text::{lower_ascii, to_lower_ascii};

verus! {

/// A key, named after the W3C UI Events `KeyboardEvent.key` values.
#[derive(Debug, Clone, Copy, PartialEq, Eq, Structural)]
pub enum Key {
    /// A printable character key, carried as the character it produces.
    Character(char),
    /// The Escape key.
    Escape,
    /// The F5 function key.
    F5,
    /// The F12 function key.
    F12,
    /// The Left arrow key.
    ArrowLeft,
    /// The Right arrow key.
    ArrowRight,
}

/// The modifier keys held when the key was pressed (lock keys never count).
#[derive(Debug, Clone, Copy, PartialEq, Eq, Structural)]
pub struct Modifiers {
    /// The Control key.
    pub control: bool,
    /// The Alt / Option key.
    pub alt: bool,
    /// The Shift key.
    pub shift: bool,
    /// The Meta key: Command on macOS, Super elsewhere.
    pub meta: bool,
}

/// No modifier held.
pub open spec fn no_modifiers() -> Modifiers {
    Modifiers { control: false, alt: false, shift: false, meta: false }
}

impl Default for Modifiers {
    fn default() -> (r: Self)
        ensures
            r == no_modifiers(),
    {
        Modifiers::none()
    }
}

impl Modifiers {
    /// No modifier held: the plain keypress.
    pub fn none() -> (r: Modifiers)
        ensures
            r == no_modifiers(),
    {
        Modifiers { control: false, alt: false, shift: false, meta: false }
    }

    /// Whether exactly `expected` is held, and nothing else.
    fn is_exactly(self, expected: Modifiers) -> (r: bool)
        ensures
            r == (self == expected),
    {
        self.control == expected.control && self.alt == expected.alt && self.shift
            == expected.shift && self.meta == expected.meta
    }

    /// Just the platform's primary modifier held.
    fn only(modifier: PrimaryModifier) -> (r: Modifiers)
        ensures
            r == primary_only(modifier),
    {
        match modifier {
            PrimaryModifier::Control => Modifiers {
                control: true,
                alt: false,
                shift: false,
                meta: false,
            },
            PrimaryModifier::Meta => Modifiers {
                control: false,
                alt: false,
                shift: false,
                meta: true,
            },
        }
    }
}

/// Which physical modifier a platform's users expect as the primary browser
/// accelerator: Control on Linux and Windows, Meta (Command) on macOS.
#[derive(Debug, Clone, Copy, PartialEq, Eq, Structural)]
pub enum PrimaryModifier {
    /// Ctrl-based shortcuts.
    Control,
    /// Cmd-based shortcuts.
    Meta,
}

/// Just the primary modifier.
pub open spec fn primary_only(p: PrimaryModifier) -> Modifiers {
    match p {
        PrimaryModifier::Control => Modifiers { control: true, ..no_modifiers() },
        PrimaryModifier::Meta => Modifiers { meta: true, ..no_modifiers() },
    }
}

/// The history modifier: Alt on a Ctrl platform, Cmd on a Mac.
pub open spec fn history_modifiers(p: PrimaryModifier) -> Modifiers {
    match p {
        PrimaryModifier::Control => Modifiers { alt: true, ..no_modifiers() },
        PrimaryModifier::Meta => Modifiers { meta: true, ..no_modifiers() },
    }
}

impl PrimaryModifier {
    /// The modifier the platform uses for history navigation.
    fn history(self) -> (r: Modifiers)
        ensures
            r == history_modifiers(self),
    {
        match self {
            PrimaryModifier::Control => Modifiers {
                control: false,
                alt: true,
                shift: false,
                meta: false,
            },
            PrimaryModifier::Meta => Modifiers {
                control: false,
                alt: false,
                shift: false,
                meta: true,
            },
        }
    }
}

/// Where the keyboard focus is: an input, because Escape means different
/// things in the two places.
#[derive(Debug, Clone, Copy, PartialEq, Eq, Structural)]
pub enum Focus {
    /// The page view (or anything that is not the URL bar).
    Page,
    /// The URL bar.
    UrlBar,
}

impl Default for Focus {
    fn default() -> (r: Self)
        ensures
            r == Focus::Page,
    {
        Focus::Page
    }
}

/// A key chord: the key pressed plus the modifiers held with it.
#[derive(Debug, Clone, Copy, PartialEq, Eq, Structural)]
pub struct Chord {
    /// The key pressed.
    pub key: Key,
    /// The modifiers held with it.
    pub modifiers: Modifiers,
}

impl Chord {
    /// The chord `key` pressed with `modifiers` held.
    pub fn new(key: Key, modifiers: Modifiers) -> (r: Self)
        ensures
            r.key == key,
            r.modifiers == modifiers,
    {
        Chord { key, modifiers }
    }
}

/// The extra mouse buttons engraved Back and Forward.
#[derive(Debug, Clone, Copy, PartialEq, Eq, Structural)]
pub enum PointerButton {
    /// The Back side button.
    Back,
    /// The Forward side button.
    Forward,
}

/// What the chrome should do in response to an input.
#[derive(Debug, Clone, Copy, PartialEq, Eq, Structural)]
pub enum ChromeAction {
    /// Focus the URL bar and select its contents.
    FocusUrlBar,
    /// Reload the current page.
    Reload,
    /// Go one step back in session history.
    GoBack,
    /// Go one step forward in session history.
    GoForward,
    /// Stop the in-flight load.
    Stop,
    /// Revert the URL bar's edit and restore the current URL.
    RevertUrlBar,
    /// Open the platform's web inspector.
    OpenWebInspector,
}

impl ChromeAction {
    /// Every action an input can resolve to.
    pub fn all() -> (r: Vec<ChromeAction>)
        ensures
            r@ == seq![
                ChromeAction::FocusUrlBar,
                ChromeAction::Reload,
                ChromeAction::GoBack,
                ChromeAction::GoForward,
                ChromeAction::Stop,
                ChromeAction::RevertUrlBar,
                ChromeAction::OpenWebInspector,
            ],
    {
        let r = vec![
            ChromeAction::FocusUrlBar,
            ChromeAction::Reload,
            ChromeAction::GoBack,
            ChromeAction::GoForward,
            ChromeAction::Stop,
            ChromeAction::RevertUrlBar,
            ChromeAction::OpenWebInspector,
        ];
        assert(r@ =~= seq![
            ChromeAction::FocusUrlBar,
            ChromeAction::Reload,
            ChromeAction::GoBack,
            ChromeAction::GoForward,
            ChromeAction::Stop,
            ChromeAction::RevertUrlBar,
            ChromeAction::OpenWebInspector,
        ]);
        r
    }
}

/// The shortcut table.
///
/// | chord (Ctrl platform / Mac) | focus | action |
/// |---|---|---|
/// | Ctrl+L / Cmd+L | any | focus the URL bar |
/// | Ctrl+R / Cmd+R, or F5 | any | reload |
/// | Alt+Left / Cmd+Left | any | back |
/// | Alt+Right / Cmd+Right | any | forward |
/// | Escape | page | stop |
/// | Escape | URL bar | revert the URL bar |
/// | F12 | any | web inspector |
pub open spec fn spec_resolve_chord(chord: Chord, focus: Focus, primary: PrimaryModifier) -> Option<
    ChromeAction,
> {
    let m = chord.modifiers;
    match chord.key {
        Key::Character(c) => if m == primary_only(primary) && lower_ascii(c) == 'l' {
            Some(ChromeAction::FocusUrlBar)
        } else if m == primary_only(primary) && lower_ascii(c) == 'r' {
            Some(ChromeAction::Reload)
        } else {
            None
        },
        Key::F5 => if m == no_modifiers() {
            Some(ChromeAction::Reload)
        } else {
            None
        },
        Key::ArrowLeft => if m == history_modifiers(primary) {
            Some(ChromeAction::GoBack)
        } else {
            None
        },
        Key::ArrowRight => if m == history_modifiers(primary) {
            Some(ChromeAction::GoForward)
        } else {
            None
        },
        Key::Escape => if m == no_modifiers() {
            match focus {
                Focus::Page => Some(ChromeAction::Stop),
                Focus::UrlBar => Some(ChromeAction::RevertUrlBar),
            }
        } else {
            None
        },
        Key::F12 => if m == no_modifiers() {
            Some(ChromeAction::OpenWebInspector)
        } else {
            None
        },
    }
}

/// What `chord` means, given the focus and the platform's primary modifier,
/// or `None` when werust claims no meaning for it (the edge passes it on).
/// Letters compare case-insensitively; modifiers must match exactly.
pub fn resolve_chord(chord: Chord, focus: Focus, primary: PrimaryModifier) -> (r: Option<
    ChromeAction,
>)
    ensures
        r == spec_resolve_chord(chord, focus, primary),
{
    let modifiers = chord.modifiers;
    let primary_only = modifiers.is_exactly(Modifiers::only(primary));
    let unmodified = modifiers.is_exactly(Modifiers::none());
    let history = modifiers.is_exactly(primary.history());
    match chord.key {
        Key::Character(c) => {
            let lc = to_lower_ascii(c);
            if primary_only && lc == 'l' {
                Some(ChromeAction::FocusUrlBar)
            } else if primary_only && lc == 'r' {
                Some(ChromeAction::Reload)
            } else {
                None
            }
        },
        Key::F5 => if unmodified {
            Some(ChromeAction::Reload)
        } else {
            None
        },
        Key::ArrowLeft => if history {
            Some(ChromeAction::GoBack)
        } else {
            None
        },
        Key::ArrowRight => if history {
            Some(ChromeAction::GoForward)
        } else {
            None
        },
        Key::Escape => if unmodified {
            match focus {
                Focus::Page => Some(ChromeAction::Stop),
                Focus::UrlBar => Some(ChromeAction::RevertUrlBar),
            }
        } else {
            None
        },
        Key::F12 => if unmodified {
            Some(ChromeAction::OpenWebInspector)
        } else {
            None
        },
    }
}

/// What a mouse side button means: Back and Forward navigate history.
pub fn resolve_pointer_button(button: PointerButton) -> (r: Option<ChromeAction>)
    ensures
        r == Some(
            match button {
                PointerButton::Back => ChromeAction::GoBack,
                PointerButton::Forward => ChromeAction::GoForward,
            },
        ),
{
    Some(
        match button {
            PointerButton::Back => ChromeAction::GoBack,
            PointerButton::Forward => ChromeAction::GoForward,
        },
    )
}

/// Every action is reachable from some input, so no action is dead
/// vocabulary for the edges to implement.
pub proof fn law_every_action_is_reachable(a: ChromeAction)
    ensures
        exists|k: Key, m: Modifiers, f: Focus, p: PrimaryModifier|
            #[trigger] spec_resolve_chord(Chord { key: k, modifiers: m }, f, p) == Some(a),
{
    let ctrl = primary_only(PrimaryModifier::Control);
    let none = no_modifiers();
    let alt = history_modifiers(PrimaryModifier::Control);
    match a {
        ChromeAction::FocusUrlBar => {
            assert(spec_resolve_chord(
                Chord { key: Key::Character('l'), modifiers: ctrl },
                Focus::Page,
                PrimaryModifier::Control,
            ) == Some(a));
        },
        ChromeAction::Reload => {
            assert(spec_resolve_chord(
                Chord { key: Key::F5, modifiers: none },
                Focus::Page,
                PrimaryModifier::Control,
            ) == Some(a));
        },
        ChromeAction::GoBack => {
            assert(spec_resolve_chord(
                Chord { key: Key::ArrowLeft, modifiers: alt },
                Focus::Page,
                PrimaryModifier::Control,
            ) == Some(a));
        },
        ChromeAction::GoForward => {
            assert(spec_resolve_chord(
                Chord { key: Key::ArrowRight, modifiers: alt },
                Focus::Page,
                PrimaryModifier::Control,
            ) == Some(a));
        },
        ChromeAction::Stop => {
            assert(spec_resolve_chord(
                Chord { key: Key::Escape, modifiers: none },
                Focus::Page,
                PrimaryModifier::Control,
            ) == Some(a));
        },
        ChromeAction::RevertUrlBar => {
            assert(spec_resolve_chord(
                Chord { key: Key::Escape, modifiers: none },
                Focus::UrlBar,
                PrimaryModifier::Control,
            ) == Some(a));
        },
        ChromeAction::OpenWebInspector => {
            assert(spec_resolve_chord(
                Chord { key: Key::F12, modifiers: none },
                Focus::Page,
                PrimaryModifier::Control,
            ) == Some(a));
        },
    }
}

/// The resolution is capability-agnostic and convention-independent for the
/// modifier-free keys: F5, F12 and Escape mean the same on both conventions.
pub proof fn law_unmodified_keys_ignore_the_convention(k: Key, f: Focus)
    requires
        k == Key::F5 || k == Key::F12 || k == Key::Escape,
    ensures
        spec_resolve_chord(Chord { key: k, modifiers: no_modifiers() }, f, PrimaryModifier::Control)
            == spec_resolve_chord(
            Chord { key: k, modifiers: no_modifiers() },
            f,
            PrimaryModifier::Meta,
        ),
{
}

/// Only an exact modifier set matches: a chord with Shift added to a bound
/// chord resolves to nothing (which leaves the toolkit's own debugger chords
/// alone).
pub proof fn law_extra_shift_claims_nothing(k: Key, m: Modifiers, f: Focus, p: PrimaryModifier)
    requires
        m.shift,
    ensures
        spec_resolve_chord(Chord { key: k, modifiers: m }, f, p) is None,
{
}

/// Letters are read without regard to ASCII case: a chord with a capital
/// letter means what the same chord with the small letter means, whatever
/// the modifiers, focus and platform; and the primary modifier alone with
/// `r` or `R` reloads, with `l` or `L` focuses the URL bar.
pub proof fn law_letters_ignore_ascii_case(
    c: char,
    m: Modifiers,
    f: Focus,
    p: PrimaryModifier,
)
    requires
        'A' <= c <= 'Z',
    ensures
        spec_resolve_chord(Chord { key: Key::Character(c), modifiers: m }, f, p)
            == spec_resolve_chord(
            Chord { key: Key::Character(((c as u32) + 32) as char), modifiers: m },
            f,
            p,
        ),
        (c == 'R' && m == primary_only(p)) ==> spec_resolve_chord(
            Chord { key: Key::Character(c), modifiers: m },
            f,
            p,
        ) == Some(ChromeAction::Reload),
        (c == 'L' && m == primary_only(p)) ==> spec_resolve_chord(
            Chord { key: Key::Character(c), modifiers: m },
            f,
            p,
        ) == Some(ChromeAction::FocusUrlBar),
{
    let d = ((c as u32) + 32) as char;
    assert(d as u32 == (c as u32) + 32);
    assert('a' <= d <= 'z');
    assert(lower_ascii(c) == d);
    assert(lower_ascii(d) == d);
}

} // verus!
