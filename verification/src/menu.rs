//! The browser menu: the ordered list of items every edge renders natively.
//!
//! The core owns the items; each edge renders the same list in its own menu
//! widget. A new item added to [`BrowserMenu::new`] appears on every edge.

use vstd::prelude::*;

use crate::json::{
    document_text, json_array_at, json_document, json_parse_error, json_str_at, keys_sorted,
    member_value, members_view, objects_view, str_member, JsonScalar, ScalarView,
};
use crate::text::{chars_eq, chars_of, owned, push_str, seq_lt, string_of};

verus! {

/// The stable id of the version entry.
pub const MENU_ITEM_VERSION: &'static str = "version";

/// The stable id of the debug entry.
pub const MENU_ITEM_DEBUG: &'static str = "debug";

/// What an edge should do with a [`MenuItem`].
#[derive(Debug, Clone, Copy, PartialEq, Eq, Structural)]
pub enum MenuItemKind {
    /// A non-interactive line.
    Info,
    /// An activatable entry that dispatches on the item's id.
    Action,
}

/// The stable wire name of a kind.
pub open spec fn kind_wire(k: MenuItemKind) -> Seq<char> {
    match k {
        MenuItemKind::Info => "info"@,
        MenuItemKind::Action => "action"@,
    }
}

impl MenuItemKind {
    /// The stable wire name.
    pub fn wire_name(self) -> (r: &'static str)
        ensures
            r@ == kind_wire(self),
    {
        match self {
            MenuItemKind::Info => "info",
            MenuItemKind::Action => "action",
        }
    }
}

/// One menu entry: a stable id, the label to show, and its kind.
#[derive(Debug, Clone, PartialEq, Eq)]
pub struct MenuItem {
    /// The stable, cross-platform id an edge branches on.
    pub id: String,
    /// The text to show.
    pub label: String,
    /// How the edge renders it.
    pub kind: MenuItemKind,
}

/// A menu item as plain values.
pub struct ItemView {
    pub id: Seq<char>,
    pub label: Seq<char>,
    pub kind: MenuItemKind,
}

impl View for MenuItem {
    type V = ItemView;

    open spec fn view(&self) -> ItemView {
        ItemView { id: self.id@, label: self.label@, kind: self.kind }
    }
}

impl MenuItem {
    /// An entry with `id`, `label` and `kind`.
    pub fn new(id: &str, label: &str, kind: MenuItemKind) -> (r: Self)
        ensures
            r.id@ == id@,
            r.label@ == label@,
            r.kind == kind,
    {
        MenuItem { id: owned(id), label: owned(label), kind }
    }
}

/// The items of a vector as plain values.
pub open spec fn items_view(v: Seq<MenuItem>) -> Seq<ItemView> {
    v.map_values(|i: MenuItem| i@)
}

/// The first item with id `id`, if any.
pub open spec fn first_with_id(items: Seq<ItemView>, id: Seq<char>, i: int) -> Option<int>
    decreases items.len() - i,
{
    if i < 0 || i >= items.len() {
        None
    } else if items[i].id == id {
        Some(i)
    } else {
        first_with_id(items, id, i + 1)
    }
}

/// werust's version string: the one source every surface that shows a
/// version reads.
pub open spec fn spec_version() -> Seq<char> {
    "0.1.0"@
}

/// The menu as shipped: the version line, then the debug entry.
pub open spec fn shipped_menu() -> Seq<ItemView> {
    seq![
        ItemView { id: "version"@, label: "werust "@ + spec_version(), kind: MenuItemKind::Info },
        ItemView { id: "debug"@, label: "Debug"@, kind: MenuItemKind::Action },
    ]
}

/// werust's browser menu: the ordered list of items every edge renders.
#[derive(Debug, Clone, PartialEq, Eq)]
pub struct BrowserMenu {
    items: Vec<MenuItem>,
}

impl View for BrowserMenu {
    type V = Seq<ItemView>;

    closed spec fn view(&self) -> Seq<ItemView> {
        items_view(self.items@)
    }
}

impl Default for BrowserMenu {
    fn default() -> (r: Self)
        ensures
            r@ == shipped_menu(),
    {
        BrowserMenu::new()
    }
}

impl BrowserMenu {
    /// The menu as shipped: the werust version line, then the debug entry.
    pub fn new() -> (r: Self)
        ensures
            r@ == shipped_menu(),
    {
        let mut label: Vec<char> = Vec::new();
        push_str(&mut label, "werust ");
        push_str(&mut label, crate::version());
        let version_item = MenuItem {
            id: owned(MENU_ITEM_VERSION),
            label: string_of(label.as_slice()),
            kind: MenuItemKind::Info,
        };
        let debug_item = MenuItem::new(MENU_ITEM_DEBUG, "Debug", MenuItemKind::Action);
        let items = vec![version_item, debug_item];
        let r = BrowserMenu { items };
        assert(r@ =~= shipped_menu());
        r
    }

    /// The items, in the order the edge should render them.
    pub fn items(&self) -> (r: &Vec<MenuItem>)
        ensures
            items_view(r@) == self@,
    {
        &self.items
    }

    /// Adds `item` at the end of the menu.
    pub fn push(&mut self, item: MenuItem)
        ensures
            final(self)@ == old(self)@.push(item@),
    {
        let ghost before = self.items@;
        self.items.push(item);
        assert(items_view(self.items@) =~= items_view(before).push(item@));
    }

    /// The item with `id`, or `None` if the menu has no such entry.
    pub fn item(&self, id: &str) -> (r: Option<&MenuItem>)
        ensures
            match first_with_id(self@, id@, 0) {
                Some(i) => r matches Some(it) && it@ == self@[i],
                None => r is None,
            },
    {
        let want = chars_of(id);
        let mut i: usize = 0;
        while i < self.items.len()
            invariant
                i <= self@.len(),
                self@ == items_view(self.items@),
                want@ == id@,
                first_with_id(self@, id@, 0) == first_with_id(self@, id@, i as int),
            decreases self@.len() - i,
        {
            let have = chars_of(self.items[i].id.as_str());
            assert(self@[i as int].id == have@);
            if chars_eq(have.as_slice(), want.as_slice()) {
                return Some(&self.items[i]);
            }
            i += 1;
        }
        None
    }
}

/// One item's members in the edges' JSON wire form, keys in order: `id`,
/// `kind` (its wire name), `label`.
pub open spec fn item_members(i: ItemView) -> Seq<(Seq<char>, ScalarView)> {
    seq![
        ("id"@, ScalarView::Str(i.id)),
        ("kind"@, ScalarView::Str(kind_wire(i.kind))),
        ("label"@, ScalarView::Str(i.label)),
    ]
}

/// The menu in the wire form:
/// `{"items":[{"id":…,"kind":…,"label":…},…],"version":"…"}`.
pub open spec fn menu_json_text(items: Seq<ItemView>) -> Seq<char> {
    document_text(
        "items"@,
        items.map_values(|i: ItemView| item_members(i)),
        seq![("version"@, ScalarView::Str(spec_version()))],
    )
}

/// An item's members are in key order, and each reads back as written.
proof fn lemma_item_members_read(i: ItemView)
    ensures
        keys_sorted(item_members(i)),
        str_member(item_members(i), "id"@) == Some(i.id),
        str_member(item_members(i), "kind"@) == Some(kind_wire(i.kind)),
        str_member(item_members(i), "label"@) == Some(i.label),
{
    reveal_strlit("id");
    reveal_strlit("kind");
    reveal_strlit("label");
    let ms = item_members(i);
    let k0 = "id"@;
    let k1 = "kind"@;
    let k2 = "label"@;
    assert(k0[0] != k1[0] && k0[0] != k2[0] && k1[0] != k2[0]);
    assert(seq_lt(k0, k1) && seq_lt(k0, k2) && seq_lt(k1, k2));
    let m2 = ms.drop_last();
    let m1 = m2.drop_last();
    assert(m1 =~= seq![(k0, ScalarView::Str(i.id))]);
    assert(member_value(ms, k2) == Some(ScalarView::Str(i.label)));
    assert(member_value(m2, k1) == Some(ScalarView::Str(kind_wire(i.kind))));
    assert(member_value(ms, k1) == member_value(m2, k1));
    assert(member_value(m1, k0) == Some(ScalarView::Str(i.id)));
    assert(member_value(ms, k0) == member_value(m2, k0));
    assert(member_value(m2, k0) == member_value(m1, k0));
}

impl MenuItem {
    /// This item's members in the wire form.
    fn wire_members(&self) -> (r: Vec<(String, JsonScalar)>)
        ensures
            members_view(r@) == item_members(self@),
    {
        let mut ms: Vec<(String, JsonScalar)> = Vec::new();
        ms.push((owned("id"), JsonScalar::Str(self.id.clone())));
        ms.push((owned("kind"), JsonScalar::Str(owned(self.kind.wire_name()))));
        ms.push((owned("label"), JsonScalar::Str(self.label.clone())));
        assert(members_view(ms@) =~= item_members(self@));
        ms
    }
}

/// The menu as the JSON document the mobile edges render: the werust version
/// and every item in order, each with its id, label and kind. Read back, the
/// document gives the version under `version` and, under `items`, one
/// element per item with that item's id, label and kind.
pub fn menu_json(menu: &BrowserMenu) -> (r: String)
    ensures
        r@ == menu_json_text(menu@),
        json_parse_error(r@) is None,
        json_str_at(r@, "version"@) == Some(spec_version()),
        json_array_at(r@, "items"@) matches Some(items) && items.len() == menu@.len() && forall|
            i: int,
        |
            0 <= i < menu@.len() ==> json_str_at(#[trigger] items[i], "id"@) == Some(menu@[i].id)
                && json_str_at(items[i], "label"@) == Some(menu@[i].label) && json_str_at(
                items[i],
                "kind"@,
            ) == Some(kind_wire(menu@[i].kind)),
{
    let items = menu.items();
    let mut objects: Vec<Vec<(String, JsonScalar)>> = Vec::new();
    let mut i: usize = 0;
    while i < items.len()
        invariant
            i <= items@.len(),
            items_view(items@) == menu@,
            objects_view(objects@) =~= menu@.take(i as int).map_values(|it: ItemView| item_members(it)),
        decreases items@.len() - i,
    {
        let ms = items[i].wire_members();
        let ghost before = objects@;
        objects.push(ms);
        proof {
            assert(menu@[i as int] == items@[i as int]@);
            assert(menu@.take(i as int + 1) =~= menu@.take(i as int).push(menu@[i as int]));
            assert(objects_view(objects@) =~= objects_view(before).push(members_view(ms@)));
        }
        i += 1;
    }
    let mut rest: Vec<(String, JsonScalar)> = Vec::new();
    rest.push((owned("version"), JsonScalar::Str(owned(crate::version()))));
    let ghost os = objects_view(objects@);
    proof {
        reveal_strlit("items");
        reveal_strlit("version");
        assert(menu@.take(menu@.len() as int) =~= menu@);
        assert(members_view(rest@) =~= seq![("version"@, ScalarView::Str(spec_version()))]);
        assert("items"@[0] != "version"@[0]);
        assert(seq_lt("items"@, "version"@));
        assert forall|j: int| 0 <= j < objects@.len() implies keys_sorted(#[trigger] objects_view(objects@)[j]) by {
            lemma_item_members_read(menu@[j]);
        }
    }
    let r = json_document("items", &objects, &rest);
    proof {
        let ms = members_view(rest@);
        assert(ms.drop_last() =~= Seq::<(Seq<char>, ScalarView)>::empty());
        assert(member_value(ms, "version"@) == Some(ScalarView::Str(spec_version())));
        let items = json_array_at(r@, "items"@)->0;
        assert forall|j: int| 0 <= j < menu@.len() implies json_str_at(#[trigger] items[j], "id"@)
            == Some(menu@[j].id) && json_str_at(items[j], "label"@) == Some(menu@[j].label)
            && json_str_at(items[j], "kind"@) == Some(kind_wire(menu@[j].kind)) by {
            lemma_item_members_read(menu@[j]);
            assert(os[j] == item_members(menu@[j]));
            assert(json_str_at(items[j], "id"@) == str_member(os[j], "id"@));
            assert(json_str_at(items[j], "label"@) == str_member(os[j], "label"@));
            assert(json_str_at(items[j], "kind"@) == str_member(os[j], "kind"@));
        }
    }
    r
}

/// The shipped menu's ids are distinct and its version line comes first.
pub proof fn law_shipped_menu_is_well_formed()
    ensures
        shipped_menu()[0].id == "version"@,
        shipped_menu()[0].id != shipped_menu()[1].id,
        shipped_menu()[0].kind == MenuItemKind::Info,
        shipped_menu()[1].kind == MenuItemKind::Action,
{
    reveal_strlit("version");
    reveal_strlit("debug");
    assert(shipped_menu()[0].id[0] != shipped_menu()[1].id[0]);
}

} // verus!
