use werust_core::menu::{BrowserMenu, MenuItem, MenuItemKind, MENU_ITEM_DEBUG, MENU_ITEM_VERSION};
use werust_core::version;

#[test]
fn the_menu_shows_the_werust_version_from_the_one_shared_source() {
    let menu = BrowserMenu::new();
    let version_item = menu.item(MENU_ITEM_VERSION).expect("the menu has a version entry");
    assert_eq!(version_item.label, format!("werust {}", version()));
    assert!(version_item.label.contains(version()));
    assert_eq!(version_item.kind, MenuItemKind::Info);
}

#[test]
fn the_menu_has_a_debug_entry_that_is_activatable() {
    let menu = BrowserMenu::new();
    let debug = menu.item(MENU_ITEM_DEBUG).expect("the menu has a debug entry");
    assert_eq!(debug.label, "Debug");
    assert_eq!(debug.kind, MenuItemKind::Action);
}

#[test]
fn the_menu_is_a_general_container_not_a_debug_only_menu() {
    let menu = BrowserMenu::new();
    assert_eq!(menu.items()[0].id, MENU_ITEM_VERSION);
    let mut ids: Vec<&str> = menu.items().iter().map(|i| i.id.as_str()).collect();
    let count = ids.len();
    ids.sort_unstable();
    ids.dedup();
    assert_eq!(ids.len(), count);
    let mut grown = menu.clone();
    grown.push(MenuItem::new("settings", "Settings", MenuItemKind::Action));
    assert_eq!(grown.items().len(), count + 1);
    assert_eq!(grown.item("settings").map(|i| i.label.as_str()), Some("Settings"));
    assert!(grown.item(MENU_ITEM_VERSION).is_some());
    assert!(grown.item(MENU_ITEM_DEBUG).is_some());
}

#[test]
fn an_unknown_item_id_is_absent_rather_than_guessed() {
    assert!(BrowserMenu::new().item("bookmarks").is_none());
}

#[test]
fn the_version_is_resolved_at_build_time_and_is_never_empty_or_a_placeholder() {
    let v = version();
    assert!(!v.is_empty());
    assert_ne!(v, "0.0.0");
}

#[test]
fn the_menu_kinds_have_stable_wire_names() {
    assert_eq!(MenuItemKind::Info.wire_name(), "info");
    assert_eq!(MenuItemKind::Action.wire_name(), "action");
    assert_eq!(BrowserMenu::default(), BrowserMenu::new());
}

#[test]
fn menu_json_carries_the_version_and_every_item_for_the_mobile_edges() {
    let json = werust_core::menu::menu_json(&BrowserMenu::new());
    let parsed: serde_json::Value = serde_json::from_str(&json).expect("valid JSON");

    assert_eq!(parsed["version"], version());

    let items = parsed["items"].as_array().expect("an items array");
    assert_eq!(items.len(), BrowserMenu::new().items().len());
    assert_eq!(items[0]["id"], MENU_ITEM_VERSION);
    assert_eq!(items[0]["label"], format!("werust {}", version()));
    assert_eq!(items[0]["kind"], "info", "the version line is non-interactive on every platform");

    let debug = items
        .iter()
        .find(|i| i["id"] == MENU_ITEM_DEBUG)
        .expect("the debug entry is on the wire");
    assert_eq!(debug["label"], "Debug");
    assert_eq!(debug["kind"], "action", "the Debug entry is activatable on every platform");
}

#[test]
fn menu_json_is_the_compact_document_serde_json_writes() {
    let json = werust_core::menu::menu_json(&BrowserMenu::new());
    assert_eq!(
        json,
        format!(
            r#"{{"items":[{{"id":"version","kind":"info","label":"werust {v}"}},{{"id":"debug","kind":"action","label":"Debug"}}],"version":"{v}"}}"#,
            v = version()
        )
    );
    let reparsed: serde_json::Value = serde_json::from_str(&json).unwrap();
    assert_eq!(reparsed.to_string(), json);
}
