use werust_core::shortcuts::{
    resolve_chord, resolve_pointer_button, Chord, ChromeAction, Focus, Key, Modifiers,
    PointerButton, PrimaryModifier,
};

const CTRL_PLATFORM: PrimaryModifier = PrimaryModifier::Control;
const MAC_PLATFORM: PrimaryModifier = PrimaryModifier::Meta;

fn control() -> Modifiers {
    Modifiers { control: true, ..Modifiers::none() }
}

fn alt() -> Modifiers {
    Modifiers { alt: true, ..Modifiers::none() }
}

fn meta() -> Modifiers {
    Modifiers { meta: true, ..Modifiers::none() }
}

#[test]
fn the_table_pins_every_conventional_browser_chord_on_a_ctrl_platform() {
    let table = [
        (Chord::new(Key::Character('l'), control()), Focus::Page, Some(ChromeAction::FocusUrlBar)),
        (Chord::new(Key::Character('r'), control()), Focus::Page, Some(ChromeAction::Reload)),
        (Chord::new(Key::F5, Modifiers::none()), Focus::Page, Some(ChromeAction::Reload)),
        (Chord::new(Key::ArrowLeft, alt()), Focus::Page, Some(ChromeAction::GoBack)),
        (Chord::new(Key::ArrowRight, alt()), Focus::Page, Some(ChromeAction::GoForward)),
        (Chord::new(Key::Escape, Modifiers::none()), Focus::Page, Some(ChromeAction::Stop)),
        (
            Chord::new(Key::Escape, Modifiers::none()),
            Focus::UrlBar,
            Some(ChromeAction::RevertUrlBar),
        ),
        (
            Chord::new(Key::F12, Modifiers::none()),
            Focus::Page,
            Some(ChromeAction::OpenWebInspector),
        ),
    ];
    for (chord, focus, expected) in table {
        assert_eq!(
            resolve_chord(chord, focus, CTRL_PLATFORM),
            expected,
            "{chord:?} with {focus:?} focused"
        );
    }
}

#[test]
fn a_chord_that_means_nothing_resolves_to_nothing_so_the_edge_passes_it_on() {
    for chord in [
        Chord::new(Key::Character('a'), Modifiers::none()),
        Chord::new(Key::Character('l'), Modifiers::none()),
        Chord::new(Key::Character('l'), alt()),
        Chord::new(Key::Character('r'), alt()),
        Chord::new(Key::ArrowLeft, Modifiers::none()),
        Chord::new(Key::ArrowRight, Modifiers::none()),
    ] {
        assert_eq!(
            resolve_chord(chord, Focus::Page, CTRL_PLATFORM),
            None,
            "{chord:?} is not a werust shortcut"
        );
    }
}

#[test]
fn escape_is_focus_dependent_rather_than_an_each_edge_special_case() {
    for primary in [CTRL_PLATFORM, MAC_PLATFORM] {
        assert_eq!(
            resolve_chord(Chord::new(Key::Escape, Modifiers::none()), Focus::Page, primary),
            Some(ChromeAction::Stop),
            "Escape with the page focused stops the load ({primary:?})"
        );
        assert_eq!(
            resolve_chord(Chord::new(Key::Escape, Modifiers::none()), Focus::UrlBar, primary),
            Some(ChromeAction::RevertUrlBar),
            "Escape in the URL bar reverts the edit ({primary:?})"
        );
    }
}

#[test]
fn the_cmd_versus_ctrl_difference_lives_here_once_not_in_any_edge() {
    assert_eq!(
        resolve_chord(Chord::new(Key::Character('l'), meta()), Focus::Page, MAC_PLATFORM),
        Some(ChromeAction::FocusUrlBar)
    );
    assert_eq!(
        resolve_chord(Chord::new(Key::Character('r'), meta()), Focus::Page, MAC_PLATFORM),
        Some(ChromeAction::Reload)
    );
    assert_eq!(
        resolve_chord(Chord::new(Key::Character('l'), control()), Focus::Page, MAC_PLATFORM),
        None,
        "Ctrl+L is not a Mac browser shortcut"
    );
    assert_eq!(
        resolve_chord(Chord::new(Key::Character('l'), meta()), Focus::Page, CTRL_PLATFORM),
        None,
        "Super+L is not a Linux/Windows browser shortcut"
    );
}

#[test]
fn history_follows_each_platforms_own_convention_from_the_same_one_branch() {
    assert_eq!(
        resolve_chord(Chord::new(Key::ArrowLeft, meta()), Focus::Page, MAC_PLATFORM),
        Some(ChromeAction::GoBack)
    );
    assert_eq!(
        resolve_chord(Chord::new(Key::ArrowRight, meta()), Focus::Page, MAC_PLATFORM),
        Some(ChromeAction::GoForward)
    );
    assert_eq!(
        resolve_chord(Chord::new(Key::ArrowLeft, alt()), Focus::Page, MAC_PLATFORM),
        None,
        "Option+Left is not the Mac history chord"
    );
    assert_eq!(
        resolve_chord(Chord::new(Key::ArrowLeft, meta()), Focus::Page, CTRL_PLATFORM),
        None,
        "Super+Left is not the Linux/Windows history chord"
    );
}

#[test]
fn f12_opens_the_web_inspector_and_the_gtk_debugger_chord_does_not() {
    assert_eq!(
        resolve_chord(Chord::new(Key::F12, Modifiers::none()), Focus::Page, CTRL_PLATFORM),
        Some(ChromeAction::OpenWebInspector),
        "F12 opens the web inspector"
    );

    let gtk_debugger = Modifiers { control: true, shift: true, ..Modifiers::none() };
    for key in ['i', 'd'] {
        assert_eq!(
            resolve_chord(Chord::new(Key::Character(key), gtk_debugger), Focus::Page, CTRL_PLATFORM),
            None,
            "Ctrl+Shift+{key} is the GTK debugger, not the web inspector"
        );
    }

    for modifiers in [control(), alt(), meta(), Modifiers { shift: true, ..Modifiers::none() }] {
        assert_eq!(
            resolve_chord(Chord::new(Key::F12, modifiers), Focus::Page, CTRL_PLATFORM),
            None,
            "a modified F12 ({modifiers:?}) is not the web-inspector shortcut"
        );
    }
}

#[test]
fn the_resolution_is_capability_agnostic_so_no_edge_forks_it() {
    assert_eq!(
        resolve_chord(Chord::new(Key::F12, Modifiers::none()), Focus::Page, MAC_PLATFORM),
        Some(ChromeAction::OpenWebInspector),
        "the chord resolves everywhere; performing it is the edge's business"
    );
}

#[test]
fn a_letter_key_resolves_whatever_case_the_edge_reports() {
    assert_eq!(
        resolve_chord(Chord::new(Key::Character('L'), control()), Focus::Page, CTRL_PLATFORM),
        Some(ChromeAction::FocusUrlBar)
    );
}

#[test]
fn the_mouse_back_and_forward_buttons_navigate_history() {
    assert_eq!(resolve_pointer_button(PointerButton::Back), Some(ChromeAction::GoBack));
    assert_eq!(resolve_pointer_button(PointerButton::Forward), Some(ChromeAction::GoForward));
}

#[test]
fn every_chrome_action_is_reachable_from_some_input() {
    let conventions = [PrimaryModifier::Control, PrimaryModifier::Meta];
    let keys = [
        Key::Character('l'),
        Key::Character('r'),
        Key::F5,
        Key::F12,
        Key::Escape,
        Key::ArrowLeft,
        Key::ArrowRight,
    ];
    let modifier_sets = [Modifiers::none(), control(), alt(), meta()];
    for action in ChromeAction::all() {
        let reachable = conventions.iter().any(|&primary| {
            keys.iter().any(|&key| {
                modifier_sets.iter().any(|&modifiers| {
                    [Focus::Page, Focus::UrlBar].iter().any(|&focus| {
                        resolve_chord(Chord::new(key, modifiers), focus, primary) == Some(action)
                    })
                })
            })
        }) || [PointerButton::Back, PointerButton::Forward]
            .iter()
            .any(|&button| resolve_pointer_button(button) == Some(action));
        assert!(reachable, "{action:?} is reachable from some input");
    }
}

#[test]
fn the_action_vocabulary_has_seven_distinct_entries() {
    let all = ChromeAction::all();
    assert_eq!(all.len(), 7);
    for (i, a) in all.iter().enumerate() {
        for b in all.iter().skip(i + 1) {
            assert_ne!(a, b);
        }
    }
}

#[test]
fn extra_shift_never_turns_a_chord_into_a_shortcut_it_was_not() {
    let shifted_control = Modifiers { control: true, shift: true, ..Modifiers::none() };
    assert_eq!(
        resolve_chord(Chord::new(Key::Character('r'), shifted_control), Focus::Page, CTRL_PLATFORM),
        None
    );
    assert_eq!(
        resolve_chord(
            Chord::new(Key::Escape, Modifiers { shift: true, ..Modifiers::none() }),
            Focus::Page,
            CTRL_PLATFORM
        ),
        None
    );
}

#[test]
fn the_default_modifiers_are_the_plain_keypress() {
    assert_eq!(Modifiers::default(), Modifiers::none());
    assert_eq!(
        Modifiers::none(),
        Modifiers { control: false, alt: false, shift: false, meta: false }
    );
}
