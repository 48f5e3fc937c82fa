use vstd::prelude::*;
use crate::text::{ascii_upper, decimal, push_char, push_decimal_u64, push_str, to_ascii_upper};

verus! {

/// The key of a menu shortcut.
#[derive(Clone, Copy, Debug, PartialEq, Eq)]
pub enum ShortcutKey {
    Character(char),
    Backspace,
    Delete,
    Down,
    End,
    Enter,
    Escape,
    Home,
    Insert,
    Left,
    PageDown,
    PageUp,
    Right,
    Tab,
    Up,
    Function(u8),
}

/// The modifier keys of a menu shortcut; `primary` is Ctrl on Windows.
#[derive(Clone, Copy, Debug, PartialEq, Eq)]
pub struct ShortcutModifiers {
    pub primary: bool,
    pub shift: bool,
    pub alt: bool,
}

/// A keyboard shortcut shown beside, and accepted by, a menu item.
#[derive(Clone, Copy, Debug, PartialEq, Eq)]
pub struct Shortcut {
    pub key: ShortcutKey,
    pub modifiers: ShortcutModifiers,
}

/// `VirtualKeyModifiers` bits of WinUI.
pub const VIRTUAL_MODIFIER_CONTROL: u32 = 1;
pub const VIRTUAL_MODIFIER_MENU: u32 = 2;
pub const VIRTUAL_MODIFIER_SHIFT: u32 = 4;

/// `VirtualKey` codes of WinUI for the named keys.
pub const VK_BACK: i32 = 8;
pub const VK_TAB: i32 = 9;
pub const VK_ENTER: i32 = 13;
pub const VK_ESCAPE: i32 = 27;
pub const VK_PAGE_UP: i32 = 33;
pub const VK_PAGE_DOWN: i32 = 34;
pub const VK_END: i32 = 35;
pub const VK_HOME: i32 = 36;
pub const VK_LEFT: i32 = 37;
pub const VK_UP: i32 = 38;
pub const VK_RIGHT: i32 = 39;
pub const VK_DOWN: i32 = 40;
pub const VK_INSERT: i32 = 45;
pub const VK_DELETE: i32 = 46;
pub const VK_F1: i32 = 112;

/// The Windows spelling of the modifiers: `Ctrl+`, `Shift+`, `Alt+`, in that order.
pub open spec fn modifier_prefix(m: ShortcutModifiers) -> Seq<char> {
    (if m.primary { seq!['C', 't', 'r', 'l', '+'] } else { Seq::empty() })
        + (if m.shift { seq!['S', 'h', 'i', 'f', 't', '+'] } else { Seq::empty() })
        + (if m.alt { seq!['A', 'l', 't', '+'] } else { Seq::empty() })
}

/// The Windows spelling of a key.
pub open spec fn key_label(key: ShortcutKey) -> Seq<char> {
    match key {
        ShortcutKey::Character(c) => seq![ascii_upper(c)],
        ShortcutKey::Backspace => seq!['B', 'a', 'c', 'k', 's', 'p', 'a', 'c', 'e'],
        ShortcutKey::Delete => seq!['D', 'e', 'l'],
        ShortcutKey::Down => seq!['D', 'o', 'w', 'n'],
        ShortcutKey::End => seq!['E', 'n', 'd'],
        ShortcutKey::Enter => seq!['E', 'n', 't', 'e', 'r'],
        ShortcutKey::Escape => seq!['E', 's', 'c'],
        ShortcutKey::Home => seq!['H', 'o', 'm', 'e'],
        ShortcutKey::Insert => seq!['I', 'n', 's'],
        ShortcutKey::Left => seq!['L', 'e', 'f', 't'],
        ShortcutKey::PageDown => seq!['P', 'g', 'D', 'n'],
        ShortcutKey::PageUp => seq!['P', 'g', 'U', 'p'],
        ShortcutKey::Right => seq!['R', 'i', 'g', 'h', 't'],
        ShortcutKey::Tab => seq!['T', 'a', 'b'],
        ShortcutKey::Up => seq!['U', 'p'],
        ShortcutKey::Function(n) => seq!['F'] + decimal(n as nat),
    }
}

/// The text a menu item shows for its shortcut, such as `Ctrl+Shift+S`.
pub open spec fn shortcut_label(shortcut: Shortcut) -> Seq<char> {
    modifier_prefix(shortcut.modifiers) + key_label(shortcut.key)
}

/// Formats `shortcut` the way Windows menus show accelerators.
pub fn shortcut_text(shortcut: Shortcut) -> (text: String)
    ensures
        text@ == shortcut_label(shortcut),
{
    let mut text = String::new();
    let m = shortcut.modifiers;
    if m.primary {
        push_str(&mut text, "Ctrl+");
    }
    if m.shift {
        push_str(&mut text, "Shift+");
    }
    if m.alt {
        push_str(&mut text, "Alt+");
    }
    proof {
        reveal_strlit("Ctrl+");
        reveal_strlit("Shift+");
        reveal_strlit("Alt+");
    }
    assert(text@ == modifier_prefix(m));
    push_key_label(&mut text, shortcut.key);
    text
}

fn push_key_label(text: &mut String, key: ShortcutKey)
    ensures
        final(text)@ == old(text)@ + key_label(key),
{
    let ghost prefix = text@;
    match key {
        ShortcutKey::Character(c) => push_char(text, to_ascii_upper(c)),
        ShortcutKey::Backspace => {
            push_str(text, "Backspace");
            proof { reveal_strlit("Backspace"); }
        },
        ShortcutKey::Delete => {
            push_str(text, "Del");
            proof { reveal_strlit("Del"); }
        },
        ShortcutKey::Down => {
            push_str(text, "Down");
            proof { reveal_strlit("Down"); }
        },
        ShortcutKey::End => {
            push_str(text, "End");
            proof { reveal_strlit("End"); }
        },
        ShortcutKey::Enter => {
            push_str(text, "Enter");
            proof { reveal_strlit("Enter"); }
        },
        ShortcutKey::Escape => {
            push_str(text, "Esc");
            proof { reveal_strlit("Esc"); }
        },
        ShortcutKey::Home => {
            push_str(text, "Home");
            proof { reveal_strlit("Home"); }
        },
        ShortcutKey::Insert => {
            push_str(text, "Ins");
            proof { reveal_strlit("Ins"); }
        },
        ShortcutKey::Left => {
            push_str(text, "Left");
            proof { reveal_strlit("Left"); }
        },
        ShortcutKey::PageDown => {
            push_str(text, "PgDn");
            proof { reveal_strlit("PgDn"); }
        },
        ShortcutKey::PageUp => {
            push_str(text, "PgUp");
            proof { reveal_strlit("PgUp"); }
        },
        ShortcutKey::Right => {
            push_str(text, "Right");
            proof { reveal_strlit("Right"); }
        },
        ShortcutKey::Tab => {
            push_str(text, "Tab");
            proof { reveal_strlit("Tab"); }
        },
        ShortcutKey::Up => {
            push_str(text, "Up");
            proof { reveal_strlit("Up"); }
        },
        ShortcutKey::Function(n) => {
            push_char(text, 'F');
            push_decimal_u64(text, n as u64);
        },
    }
    assert(text@ == prefix + key_label(key));
}

/// Whether `c` is an ASCII letter or digit.
pub open spec fn is_ascii_alphanumeric(c: char) -> bool {
    ('a' <= c <= 'z') || ('A' <= c <= 'Z') || ('0' <= c <= '9')
}

/// The `VirtualKey` code of a punctuation or other non-alphanumeric character:
/// the US-layout OEM key that carries it, or the code point itself.
pub open spec fn character_key_code(c: char) -> int {
    if c == ' ' {
        0x20
    } else if c == ';' || c == ':' {
        0xba
    } else if c == '=' || c == '+' {
        0xbb
    } else if c == ',' || c == '<' {
        0xbc
    } else if c == '-' || c == '_' {
        0xbd
    } else if c == '.' || c == '>' {
        0xbe
    } else if c == '/' || c == '?' {
        0xbf
    } else if c == '`' || c == '~' {
        0xc0
    } else if c == '[' || c == '{' {
        0xdb
    } else if c == '\\' || c == '|' {
        0xdc
    } else if c == ']' || c == '}' {
        0xdd
    } else if c == '\'' || c == '"' {
        0xde
    } else {
        c as int
    }
}

/// The `VirtualKey` a keyboard accelerator listens for.
pub open spec fn virtual_key_code(key: ShortcutKey) -> int {
    match key {
        ShortcutKey::Character(c) => if is_ascii_alphanumeric(c) {
            ascii_upper(c) as int
        } else {
            character_key_code(c)
        },
        ShortcutKey::Backspace => VK_BACK as int,
        ShortcutKey::Delete => VK_DELETE as int,
        ShortcutKey::Down => VK_DOWN as int,
        ShortcutKey::End => VK_END as int,
        ShortcutKey::Enter => VK_ENTER as int,
        ShortcutKey::Escape => VK_ESCAPE as int,
        ShortcutKey::Home => VK_HOME as int,
        ShortcutKey::Insert => VK_INSERT as int,
        ShortcutKey::Left => VK_LEFT as int,
        ShortcutKey::PageDown => VK_PAGE_DOWN as int,
        ShortcutKey::PageUp => VK_PAGE_UP as int,
        ShortcutKey::Right => VK_RIGHT as int,
        ShortcutKey::Tab => VK_TAB as int,
        ShortcutKey::Up => VK_UP as int,
        ShortcutKey::Function(n) => VK_F1 + n - 1,
    }
}

/// Law: accelerator key codes follow the Windows virtual-key layout.
/// Backspace is 0x08, Tab 0x09, Enter 0x0D and Escape 0x1B; Page Up, Page Down,
/// End and Home are the consecutive codes 0x21 to 0x24, in that order; Left,
/// Up, Right and Down are 0x25 to 0x28, in that order; Insert is 0x2D and
/// Delete 0x2E; F1, F2, ... count up from 0x70; a letter has the code of its
/// upper-case ASCII form, whichever case it is typed in, and a digit its ASCII
/// code. So no two named keys share a code, and no named key shares one with a
/// letter or digit.
pub proof fn lemma_virtual_keys_follow_windows_layout(n: u8, c: char)
    ensures
        virtual_key_code(ShortcutKey::Backspace) == 0x08,
        virtual_key_code(ShortcutKey::Tab) == 0x09,
        virtual_key_code(ShortcutKey::Enter) == 0x0D,
        virtual_key_code(ShortcutKey::Escape) == 0x1B,
        virtual_key_code(ShortcutKey::PageUp) == 0x21,
        virtual_key_code(ShortcutKey::PageDown) == virtual_key_code(ShortcutKey::PageUp) + 1,
        virtual_key_code(ShortcutKey::End) == virtual_key_code(ShortcutKey::PageDown) + 1,
        virtual_key_code(ShortcutKey::Home) == virtual_key_code(ShortcutKey::End) + 1,
        virtual_key_code(ShortcutKey::Left) == virtual_key_code(ShortcutKey::Home) + 1,
        virtual_key_code(ShortcutKey::Up) == virtual_key_code(ShortcutKey::Left) + 1,
        virtual_key_code(ShortcutKey::Right) == virtual_key_code(ShortcutKey::Up) + 1,
        virtual_key_code(ShortcutKey::Down) == virtual_key_code(ShortcutKey::Right) + 1,
        virtual_key_code(ShortcutKey::Down) == 0x28,
        virtual_key_code(ShortcutKey::Insert) == 0x2D,
        virtual_key_code(ShortcutKey::Delete) == virtual_key_code(ShortcutKey::Insert) + 1,
        n >= 1 ==> virtual_key_code(ShortcutKey::Function(n)) == 0x6F + n,
        'a' <= c <= 'z' ==> virtual_key_code(ShortcutKey::Character(c)) == (c as int) - 0x20
            && virtual_key_code(ShortcutKey::Character(c)) == virtual_key_code(
            ShortcutKey::Character(((c as u32) - 0x20) as char),
        ),
        'A' <= c <= 'Z' || '0' <= c <= '9' ==> virtual_key_code(ShortcutKey::Character(c)) == c as int,
{
    if 'a' <= c <= 'z' {
        let u = ((c as u32) - 0x20) as char;
        assert('A' <= u <= 'Z');
    }
}

/// Maps a shortcut key to the WinUI `VirtualKey` code of its accelerator.
pub fn shortcut_virtual_key(key: ShortcutKey) -> (code: i32)
    ensures
        code as int == virtual_key_code(key),
{
    match key {
        ShortcutKey::Character(value) => {
            if ('a' <= value && value <= 'z') || ('A' <= value && value <= 'Z') || ('0' <= value
                && value <= '9') {
                to_ascii_upper(value) as i32
            } else if value == ' ' {
                0x20
            } else if value == ';' || value == ':' {
                0xba
            } else if value == '=' || value == '+' {
                0xbb
            } else if value == ',' || value == '<' {
                0xbc
            } else if value == '-' || value == '_' {
                0xbd
            } else if value == '.' || value == '>' {
                0xbe
            } else if value == '/' || value == '?' {
                0xbf
            } else if value == '`' || value == '~' {
                0xc0
            } else if value == '[' || value == '{' {
                0xdb
            } else if value == '\\' || value == '|' {
                0xdc
            } else if value == ']' || value == '}' {
                0xdd
            } else if value == '\'' || value == '"' {
                0xde
            } else {
                value as i32
            }
        },
        ShortcutKey::Backspace => VK_BACK,
        ShortcutKey::Delete => VK_DELETE,
        ShortcutKey::Down => VK_DOWN,
        ShortcutKey::End => VK_END,
        ShortcutKey::Enter => VK_ENTER,
        ShortcutKey::Escape => VK_ESCAPE,
        ShortcutKey::Home => VK_HOME,
        ShortcutKey::Insert => VK_INSERT,
        ShortcutKey::Left => VK_LEFT,
        ShortcutKey::PageDown => VK_PAGE_DOWN,
        ShortcutKey::PageUp => VK_PAGE_UP,
        ShortcutKey::Right => VK_RIGHT,
        ShortcutKey::Tab => VK_TAB,
        ShortcutKey::Up => VK_UP,
        ShortcutKey::Function(number) => VK_F1 + (number as i32) - 1,
    }
}

/// The `VirtualKeyModifiers` bits of an accelerator: Control for the primary
/// modifier, Shift, and Menu for Alt.
pub open spec fn virtual_modifier_bits(m: ShortcutModifiers) -> u32 {
    ((if m.primary { VIRTUAL_MODIFIER_CONTROL } else { 0 }) + (if m.shift {
        VIRTUAL_MODIFIER_SHIFT
    } else {
        0
    }) + (if m.alt { VIRTUAL_MODIFIER_MENU } else { 0 })) as u32
}

/// Maps shortcut modifiers to WinUI `VirtualKeyModifiers` bits.
pub fn shortcut_virtual_modifiers(modifiers: ShortcutModifiers) -> (bits: u32)
    ensures
        bits == virtual_modifier_bits(modifiers),
{
    let mut native: u32 = 0;
    if modifiers.primary {
        native = native + VIRTUAL_MODIFIER_CONTROL;
    }
    if modifiers.shift {
        native = native + VIRTUAL_MODIFIER_SHIFT;
    }
    if modifiers.alt {
        native = native + VIRTUAL_MODIFIER_MENU;
    }
    native
}

/// What kind of entry a menu holds.
#[derive(Clone, Copy, Debug, PartialEq, Eq)]
pub enum EntryKind {
    Item,
    Check,
    Radio,
    Separator,
    Submenu,
}

/// The declared state of one menu entry, kept whether or not its native
/// flyout item exists yet.
#[derive(Debug)]
pub struct MenuEntry {
    pub id: u64,
    pub kind: EntryKind,
    pub label: String,
    pub enabled: bool,
    pub visible: bool,
    pub shortcut: Option<Shortcut>,
    pub checked: bool,
    pub group: Option<String>,
}

impl MenuEntry {
    /// A fresh entry: enabled, visible, unchecked, without label, shortcut or group.
    pub fn new(id: u64, kind: EntryKind) -> (e: Self)
        ensures
            e.id == id,
            e.kind == kind,
            e.label@ == Seq::<char>::empty(),
            e.enabled,
            e.visible,
            e.shortcut is None,
            !e.checked,
            e.group is None,
    {
        MenuEntry {
            id,
            kind,
            label: String::new(),
            enabled: true,
            visible: true,
            shortcut: None,
            checked: false,
            group: None,
        }
    }

    /// Whether the keyboard accelerator answers: only for an entry that is both
    /// enabled and visible.
    pub fn accelerator_enabled(&self) -> (r: bool)
        ensures
            r == (self.enabled && self.visible),
    {
        self.enabled && self.visible
    }

    /// Whether the entry carries a keyboard accelerator at all (plain, check and
    /// radio items do; separators and submenus do not).
    pub fn takes_accelerator(&self) -> (r: bool)
        ensures
            r == (self.kind == EntryKind::Item || self.kind == EntryKind::Check || self.kind
                == EntryKind::Radio),
    {
        match self.kind {
            EntryKind::Item | EntryKind::Check | EntryKind::Radio => true,
            _ => false,
        }
    }

    /// The accelerator text the entry shows: the formatted shortcut, or nothing.
    pub fn accelerator_text(&self) -> (text: String)
        ensures
            text@ == match self.shortcut {
                Some(s) => shortcut_label(s),
                None => Seq::empty(),
            },
    {
        match self.shortcut {
            Some(s) => shortcut_text(s),
            None => String::new(),
        }
    }

    /// The checked state to report after a click: the native item's state when
    /// it has one, else the declared state.
    pub fn native_checked(&self, native: Option<bool>) -> (r: bool)
        ensures
            r == match native {
                Some(b) => b,
                None => self.checked,
            },
    {
        match native {
            Some(b) => b,
            None => self.checked,
        }
    }
}

/// The entry identifiers of `s`, in order.
pub open spec fn entry_ids(s: Seq<MenuEntry>) -> Seq<u64> {
    s.map_values(|e: MenuEntry| e.id)
}

/// No identifier occurs twice in `s`.
pub open spec fn entry_ids_distinct(s: Seq<MenuEntry>) -> bool {
    forall|i: int, j: int| 0 <= i < j < s.len() ==> s[i].id != s[j].id
}

/// `s` without the entry `id`.
pub open spec fn without_entry(s: Seq<MenuEntry>, id: u64) -> Seq<MenuEntry>
    decreases s.len(),
{
    if s.len() == 0 {
        s
    } else if s.last().id == id {
        without_entry(s.drop_last(), id)
    } else {
        without_entry(s.drop_last(), id).push(s.last())
    }
}

/// `s` with `entry` placed at `index` among the others (at the end when there
/// is no index, and clamped to their number).
pub open spec fn entry_placed(s: Seq<MenuEntry>, entry: MenuEntry, index: Option<int>) -> Seq<MenuEntry> {
    let rest = without_entry(s, entry.id);
    let at = match index {
        Some(i) => if i < rest.len() { i } else { rest.len() as int },
        None => rest.len() as int,
    };
    rest.insert(at, entry)
}

/// The entry after a radio item of `group` was chosen: radio entries of the
/// group are checked exactly when they are the chosen one; others keep their state.
pub open spec fn after_radio_choice(e: MenuEntry, selected: u64, group: Seq<char>) -> MenuEntry {
    match e.group {
        Some(g) => if g@ == group {
            MenuEntry { checked: e.id == selected, ..e }
        } else {
            e
        },
        None => e,
    }
}

proof fn lemma_without_entry(s: Seq<MenuEntry>, id: u64)
    ensures
        forall|k: int| #![trigger without_entry(s, id)[k]] 0 <= k < without_entry(s, id).len() ==> without_entry(s, id)[k].id != id
            && exists|m: int| 0 <= m < s.len() && s[m] == without_entry(s, id)[k],
        entry_ids_distinct(s) ==> entry_ids_distinct(without_entry(s, id)),
    decreases s.len(),
{
    if s.len() > 0 {
        let p = s.drop_last();
        lemma_without_entry(p, id);
        let r = without_entry(p, id);
        assert forall|k: int| #![trigger without_entry(s, id)[k]] 0 <= k < without_entry(s, id).len() implies without_entry(s, id)[k].id != id
            && exists|m: int| 0 <= m < s.len() && s[m] == without_entry(s, id)[k] by {
            if k < r.len() {
                assert(without_entry(s, id)[k] == r[k]);
                let m = choose|m: int| 0 <= m < p.len() && p[m] == r[k];
                assert(s[m] == r[k]);
            } else {
                assert(s[s.len() - 1] == without_entry(s, id)[k]);
            }
        }
        if entry_ids_distinct(s) {
            assert(entry_ids_distinct(p));
            if s.last().id != id {
                let t = r.push(s.last());
                assert forall|a: int, b: int| 0 <= a < b < t.len() implies t[a].id != t[b].id by {
                    if b == r.len() {
                        assert(t[a] == r[a]);
                        let m = choose|m: int| 0 <= m < p.len() && p[m] == r[a];
                        assert(s[m] == r[a]);
                        assert(s[s.len() - 1] == t[b]);
                    } else {
                        assert(t[a] == r[a]);
                        assert(t[b] == r[b]);
                    }
                }
            }
        }
    }
}

/// The entries of a menu, in the order their elements were placed; the native
/// flyout is rebuilt from this list.
pub struct MenuEntries {
    entries: Vec<MenuEntry>,
}

impl View for MenuEntries {
    type V = Seq<MenuEntry>;

    closed spec fn view(&self) -> Seq<MenuEntry> {
        self.entries@
    }
}

impl MenuEntries {
    /// No entry identifier occurs twice.
    pub closed spec fn wf(&self) -> bool {
        entry_ids_distinct(self.entries@)
    }

    /// A menu without entries.
    pub fn new() -> (r: Self)
        ensures
            r.wf(),
            r@ == Seq::<MenuEntry>::empty(),
    {
        MenuEntries { entries: Vec::new() }
    }

    /// The number of entries.
    pub fn len(&self) -> (n: usize)
        ensures
            n == self@.len(),
    {
        self.entries.len()
    }

    /// The entry at `index`.
    pub fn get(&self, index: usize) -> (e: &MenuEntry)
        requires
            index < self@.len(),
        ensures
            *e == self@[index as int],
    {
        &self.entries[index]
    }

    /// The entry identifiers, in order.
    pub fn ids(&self) -> (v: Vec<u64>)
        ensures
            v@ == entry_ids(self@),
    {
        let mut v: Vec<u64> = Vec::new();
        let mut i: usize = 0;
        while i < self.entries.len()
            invariant
                i <= self.entries.len(),
                v@ == entry_ids(self.entries@.take(i as int)),
            decreases self.entries.len() - i,
        {
            v.push(self.entries[i].id);
            assert(entry_ids(self.entries@.take(i + 1)) == entry_ids(self.entries@.take(i as int)).push(self.entries@[i as int].id));
            i += 1;
        }
        assert(self.entries@.take(self.entries.len() as int) == self.entries@);
        v
    }

    fn take_without(&mut self, id: u64) -> (rest: Vec<MenuEntry>)
        requires
            old(self).wf(),
        ensures
            rest@ == without_entry(old(self)@, id),
            entry_ids_distinct(rest@),
            forall|k: int| 0 <= k < rest@.len() ==> rest@[k].id != id,
    {
        let mut rest: Vec<MenuEntry> = Vec::new();
        let mut old_entries: Vec<MenuEntry> = Vec::new();
        std::mem::swap(&mut old_entries, &mut self.entries);
        let ghost s = old_entries@;
        let n = old_entries.len();
        assert(s.len() == n);
        let mut i: usize = 0;
        let mut remaining = old_entries;
        while remaining.len() > 0
            invariant
                i <= s.len(),
                s.len() <= usize::MAX,
                remaining@ == s.skip(i as int),
                rest@ == without_entry(s.take(i as int), id),
            decreases remaining.len(),
        {
            let e = remaining.remove(0);
            proof {
                assert(s.skip(i as int)[0] == s[i as int]);
                assert(s.skip(i as int).remove(0) == s.skip(i + 1));
                assert(s.take(i + 1).drop_last() == s.take(i as int));
                assert(s.take(i + 1).last() == s[i as int]);
            }
            if e.id != id {
                rest.push(e);
            }
            i += 1;
        }
        proof {
            assert(s.take(s.len() as int) == s);
            lemma_without_entry(s, id);
        }
        rest
    }

    /// Places `entry` at `index` among the other entries (at the end without an
    /// index), replacing any entry with the same identifier.
    pub fn place_entry(&mut self, entry: MenuEntry, index: Option<usize>)
        requires
            old(self).wf(),
        ensures
            final(self).wf(),
            final(self)@ == entry_placed(old(self)@, entry, match index {
                Some(i) => Some(i as int),
                None => None,
            }),
    {
        let ghost id = entry.id;
        let mut rest = self.take_without(entry.id);
        let at = match index {
            Some(i) => if i < rest.len() {
                i
            } else {
                rest.len()
            },
            None => rest.len(),
        };
        let ghost r = rest@;
        rest.insert(at, entry);
        proof {
            let t = rest@;
            assert forall|a: int, b: int| 0 <= a < b < t.len() implies t[a].id != t[b].id by {
                if a == at {
                    assert(r[b - 1] == t[b]);
                } else if b == at {
                    assert(r[a] == t[a]);
                } else {
                    let a2 = if a < at { a } else { a - 1 };
                    let b2 = if b < at { b } else { b - 1 };
                    assert(r[a2] == t[a]);
                    assert(r[b2] == t[b]);
                }
            }
        }
        self.entries = rest;
    }

    /// Removes the entry `id`, keeping the order of the others.
    pub fn remove_entry(&mut self, id: u64)
        requires
            old(self).wf(),
        ensures
            final(self).wf(),
            final(self)@ == without_entry(old(self)@, id),
    {
        self.entries = self.take_without(id);
    }

    /// Records the choice of the radio entry `selected` in `group`: every entry
    /// of that group is checked exactly when it is the chosen one.
    pub fn select_radio(&mut self, selected: u64, group: &str)
        requires
            old(self).wf(),
        ensures
            final(self).wf(),
            final(self)@.len() == old(self)@.len(),
            forall|k: int| 0 <= k < old(self)@.len() ==> #[trigger] final(self)@[k] == after_radio_choice(
                old(self)@[k],
                selected,
                group@,
            ),
    {
        let mut i: usize = 0;
        while i < self.entries.len()
            invariant
                i <= self.entries.len(),
                self.entries@.len() == old(self)@.len(),
                entry_ids_distinct(self.entries@),
                forall|k: int| 0 <= k < i ==> #[trigger] self.entries@[k] == after_radio_choice(old(self)@[k], selected, group@),
                forall|k: int| i <= k < self.entries@.len() ==> #[trigger] self.entries@[k] == old(self)@[k],
            decreases self.entries.len() - i,
        {
            let in_group = match &self.entries[i].group {
                Some(g) => str_eq(g.as_str(), group),
                None => false,
            };
            if in_group {
                let checked = self.entries[i].id == selected;
                self.entries[i].checked = checked;
            }
            i += 1;
        }
    }
}

/// Whether entry `e` belongs to radio group `group`.
pub open spec fn in_group(e: MenuEntry, group: Seq<char>) -> bool {
    e.group matches Some(g) && g@ == group
}

/// Law: once a radio item of a group is chosen, it is the only checked entry
/// of that group, and entries of other groups keep their state.
pub proof fn lemma_radio_choice_is_exclusive(before: Seq<MenuEntry>, after: Seq<MenuEntry>, selected: u64, group: Seq<char>)
    requires
        entry_ids_distinct(before),
        after.len() == before.len(),
        forall|k: int| 0 <= k < before.len() ==> #[trigger] after[k] == after_radio_choice(before[k], selected, group),
    ensures
        forall|a: int, b: int|
            0 <= a < after.len() && 0 <= b < after.len() && in_group(after[a], group) && in_group(after[b], group)
                && after[a].checked && after[b].checked ==> a == b,
        forall|k: int| 0 <= k < after.len() && in_group(after[k], group) ==> (#[trigger] after[k].checked <==> after[k].id == selected),
        forall|k: int| 0 <= k < after.len() && !in_group(before[k], group) ==> #[trigger] after[k] == before[k],
{
    assert forall|k: int| 0 <= k < after.len() && in_group(after[k], group) implies (#[trigger] after[k].checked <==> after[k].id == selected) by {
        assert(after[k] == after_radio_choice(before[k], selected, group));
    }
    assert forall|a: int, b: int|
        0 <= a < after.len() && 0 <= b < after.len() && in_group(after[a], group) && in_group(after[b], group)
            && after[a].checked && after[b].checked implies a == b by {
        assert(after[a] == after_radio_choice(before[a], selected, group));
        assert(after[b] == after_radio_choice(before[b], selected, group));
        if a != b {
            if a < b {
                assert(before[a].id != before[b].id);
            } else {
                assert(before[b].id != before[a].id);
            }
        }
    }
    assert forall|k: int| 0 <= k < after.len() && !in_group(before[k], group) implies #[trigger] after[k] == before[k] by {
        assert(after[k] == after_radio_choice(before[k], selected, group));
    }
}

/// Whether `a` and `b` hold the same characters.
pub fn str_eq(a: &str, b: &str) -> (r: bool)
    ensures
        r == (a@ == b@),
{
    let x = crate::text::chars_of(a);
    let y = crate::text::chars_of(b);
    if x.len() != y.len() {
        return false;
    }
    let mut i: usize = 0;
    while i < x.len()
        invariant
            x.len() == y.len(),
            x@ == a@,
            y@ == b@,
            i <= x.len(),
            forall|k: int| 0 <= k < i ==> x@[k] == y@[k],
        decreases x.len() - i,
    {
        if x[i] != y[i] {
            return false;
        }
        i += 1;
    }
    assert(x@ == y@);
    true
}

/// Where a menu's entries are rebuilt.
#[derive(Clone, Copy, Debug, PartialEq, Eq)]
pub enum RebuildTarget {
    /// The items of the menu bar the menu is attached to.
    Bar,
    /// The items of the menu-bar item that hosts this submenu.
    BarHost,
    /// The menu's own flyout (or submenu) items.
    Flyout,
}

/// Which native item list a rebuild fills: nothing before XAML runs (the
/// native menu is built lazily), then the attached bar, then the hosting bar
/// item, and otherwise the menu's own flyout.
pub fn rebuild_target(xaml_running: bool, has_bar: bool, has_bar_host: bool) -> (r: Option<RebuildTarget>)
    ensures
        r == (if !xaml_running {
            None
        } else if has_bar {
            Some(RebuildTarget::Bar)
        } else if has_bar_host {
            Some(RebuildTarget::BarHost)
        } else {
            Some(RebuildTarget::Flyout)
        }),
{
    if !xaml_running {
        None
    } else if has_bar {
        Some(RebuildTarget::Bar)
    } else if has_bar_host {
        Some(RebuildTarget::BarHost)
    } else {
        Some(RebuildTarget::Flyout)
    }
}

} // verus!
