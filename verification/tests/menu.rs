use nestix_native_winui::menu::{
    rebuild_target, shortcut_text, shortcut_virtual_key, shortcut_virtual_modifiers, EntryKind,
    MenuEntries, MenuEntry, RebuildTarget, Shortcut, ShortcutKey, ShortcutModifiers,
};

const VIRTUAL_KEY_S: i32 = 83;
const VIRTUAL_KEY_F24: i32 = 135;
const MODIFIER_CONTROL: u32 = 1;
const MODIFIER_MENU: u32 = 2;

fn mods(primary: bool, shift: bool, alt: bool) -> ShortcutModifiers {
    ShortcutModifiers { primary, shift, alt }
}

#[test]
fn formats_windows_shortcuts() {
    let shortcut = Shortcut { key: ShortcutKey::Character('s'), modifiers: mods(true, true, false) };
    assert_eq!(shortcut_text(shortcut), "Ctrl+Shift+S");
}

#[test]
fn maps_shortcuts_to_winui_accelerators() {
    let shortcut = Shortcut { key: ShortcutKey::Character('s'), modifiers: mods(true, false, true) };
    assert_eq!(shortcut_virtual_key(shortcut.key), VIRTUAL_KEY_S);
    assert_eq!(
        shortcut_virtual_modifiers(shortcut.modifiers),
        MODIFIER_CONTROL | MODIFIER_MENU
    );
    assert_eq!(shortcut_virtual_key(ShortcutKey::Function(24)), VIRTUAL_KEY_F24);
    assert_eq!(shortcut_virtual_key(ShortcutKey::Character('?')), 0xbf);
}

#[test]
fn shortcut_text_spells_named_keys() {
    let s = |key, m| shortcut_text(Shortcut { key, modifiers: m });
    assert_eq!(s(ShortcutKey::Delete, mods(false, false, false)), "Del");
    assert_eq!(s(ShortcutKey::PageDown, mods(false, false, true)), "Alt+PgDn");
    assert_eq!(s(ShortcutKey::Function(12), mods(true, true, true)), "Ctrl+Shift+Alt+F12");
    assert_eq!(s(ShortcutKey::Function(5), mods(false, false, false)), "F5");
    assert_eq!(s(ShortcutKey::Function(100), mods(false, false, false)), "F100");
    assert_eq!(s(ShortcutKey::Character('é'), mods(false, false, false)), "é");
    assert_eq!(s(ShortcutKey::Escape, mods(false, false, false)), "Esc");
}

#[test]
fn virtual_keys_for_named_and_punctuation_keys() {
    assert_eq!(shortcut_virtual_key(ShortcutKey::Character('7')), 0x37);
    assert_eq!(shortcut_virtual_key(ShortcutKey::Character('z')), 0x5a);
    assert_eq!(shortcut_virtual_key(ShortcutKey::Character(' ')), 0x20);
    assert_eq!(shortcut_virtual_key(ShortcutKey::Character('{')), 0xdb);
    assert_eq!(shortcut_virtual_key(ShortcutKey::Character('"')), 0xde);
    assert_eq!(shortcut_virtual_key(ShortcutKey::Character('é')), 0xe9);
    assert_eq!(shortcut_virtual_key(ShortcutKey::Enter), 13);
    assert_eq!(shortcut_virtual_key(ShortcutKey::Function(1)), 112);
    assert_eq!(shortcut_virtual_modifiers(mods(false, true, false)), 4);
    assert_eq!(shortcut_virtual_modifiers(mods(false, false, false)), 0);
}

fn entry(id: u64, kind: EntryKind, group: Option<&str>) -> MenuEntry {
    let mut e = MenuEntry::new(id, kind);
    e.group = group.map(|g| g.to_string());
    e
}

#[test]
fn entries_are_placed_at_their_index_and_moved_without_duplicates() {
    let mut menu = MenuEntries::new();
    menu.place_entry(entry(1, EntryKind::Item, None), None);
    menu.place_entry(entry(2, EntryKind::Item, None), None);
    menu.place_entry(entry(3, EntryKind::Separator, None), Some(0));
    assert_eq!(menu.ids(), vec![3, 1, 2]);
    menu.place_entry(entry(1, EntryKind::Item, None), Some(10));
    assert_eq!(menu.ids(), vec![3, 2, 1]);
    menu.remove_entry(2);
    assert_eq!(menu.ids(), vec![3, 1]);
}

#[test]
fn choosing_a_radio_item_unchecks_the_rest_of_its_group() {
    let mut menu = MenuEntries::new();
    menu.place_entry(entry(1, EntryKind::Radio, Some("size")), None);
    menu.place_entry(entry(2, EntryKind::Radio, Some("size")), None);
    let mut other = entry(3, EntryKind::Radio, Some("color"));
    other.checked = true;
    menu.place_entry(other, None);
    menu.select_radio(1, "size");
    assert!(menu.get(0).checked);
    assert!(!menu.get(1).checked);
    menu.select_radio(2, "size");
    assert!(!menu.get(0).checked);
    assert!(menu.get(1).checked);
    assert!(menu.get(2).checked);
}

#[test]
fn accelerators_follow_entry_state() {
    let mut e = entry(1, EntryKind::Check, None);
    assert_eq!(e.accelerator_text(), "");
    e.shortcut = Some(Shortcut { key: ShortcutKey::Character('o'), modifiers: mods(true, false, false) });
    assert_eq!(e.accelerator_text(), "Ctrl+O");
    assert!(e.accelerator_enabled());
    e.visible = false;
    assert!(!e.accelerator_enabled());
    assert!(e.takes_accelerator());
    assert!(!entry(2, EntryKind::Submenu, None).takes_accelerator());
    assert!(e.native_checked(Some(true)));
    assert!(!e.native_checked(None));
}

#[test]
fn menus_are_only_rebuilt_once_xaml_runs() {
    assert_eq!(rebuild_target(false, true, true), None);
    assert_eq!(rebuild_target(true, true, true), Some(RebuildTarget::Bar));
    assert_eq!(rebuild_target(true, false, true), Some(RebuildTarget::BarHost));
    assert_eq!(rebuild_target(true, false, false), Some(RebuildTarget::Flyout));
}
