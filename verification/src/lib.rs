//! The werust core: the toolkit-free browsing logic.
//!
//! The URL-bar front door ([`entry`]), the chrome facts and the presentation
//! rules every edge paints ([`chrome`]), trust-on-first-use for mutable names
//! ([`pins`]), the `_redirects` fallback ([`redirects`]), the shortcut table
//! ([`shortcuts`]), the browser menu ([`menu`]), the retrieval-backend setting
//! ([`retrieval`]), the name-to-content resolution decisions
//! ([`name_resolution`]) and the EIP-1193 provider transport ([`provider`]).

use vstd::prelude::*;

pub mod text;
pub mod json;
pub mod entry;
pub mod redirects;
pub mod pins;
pub mod chrome;
pub mod shortcuts;
pub mod menu;
pub mod retrieval;
pub mod name_resolution;
pub mod provider;
pub mod shell;

pub use chrome::{
    chrome_css_class_sets, error_banner_css_class, error_banner_css_classes, error_banner_text,
    error_banner_visible, invalid_entry_badge_text, invalid_entry_badge_visible,
    load_progress_hint, load_progress_tooltip, load_progress_visible, load_state_wire_name,
    status_line, trust_indicator, trust_indicator_css_class, trust_indicator_css_classes,
    trust_indicator_detail, trust_pin_action_label, trust_pin_action_visible, trust_pin_detail,
    trust_posture_from_wire_name, trust_posture_wire_name, ChromeState, CssClassFamily,
    FailureKind, LoadState, LoadStep, TrustPosture, STOP_AFFORDANCE_LABEL,
};
pub use entry::{
    classify_entry, eth_name_and_path_from_entry, eth_name_from_entry, route_entry, EntryRoute,
    FrontDoor,
};

verus! {

/// werust's version string: the one source every surface that shows a
/// version reads (the menu's version line among them).
pub fn version() -> (r: &'static str)
    ensures
        r@ == menu::spec_version(),
{
    "0.1.0"
}

} // verus!
