use vstd::prelude::*;
use crate::text::push_str;

verus! {

/// Window messages and notification codes the tray icon reacts to.
pub const WM_CONTEXTMENU: u32 = 0x007B;
pub const NIN_SELECT: u32 = 0x0400;
pub const NIN_KEYSELECT: u32 = 0x0401;

/// The number of UTF-16 units in the tooltip field of `NOTIFYICONDATAW`.
pub const TOOLTIP_CAPACITY: usize = 128;

/// Which application callback a tray notification reaches.
#[derive(Clone, Copy, Debug, PartialEq, Eq)]
pub enum TrayEventTarget {
    /// The context-menu request (right click, or the menu key).
    Secondary,
    /// Selection with the mouse or the keyboard.
    Activate,
    /// Any other notification.
    Ignored,
}

/// The notification code carried in the low word of the callback message's `lparam`.
pub fn notification_code(lparam: isize) -> (code: u32)
    ensures
        code == (lparam as u32) & 0xffff,
{
    (lparam as u32) & 0xffff
}

/// Routes a notification code to the callback it triggers.
pub fn event_target(code: u32) -> (t: TrayEventTarget)
    ensures
        t == (if code == WM_CONTEXTMENU {
            TrayEventTarget::Secondary
        } else if code == NIN_SELECT || code == NIN_KEYSELECT {
            TrayEventTarget::Activate
        } else {
            TrayEventTarget::Ignored
        }),
{
    if code == WM_CONTEXTMENU {
        TrayEventTarget::Secondary
    } else if code == NIN_SELECT || code == NIN_KEYSELECT {
        TrayEventTarget::Activate
    } else {
        TrayEventTarget::Ignored
    }
}

/// Half of `d`, rounded toward zero (integer division of Rust).
pub open spec fn half_toward_zero(d: int) -> int {
    if d >= 0 {
        d / 2
    } else {
        -((-d) / 2)
    }
}

/// Where the tray menu opens for the icon's rectangle: horizontally centred,
/// at its bottom edge.
pub fn menu_point(left: i32, right: i32, bottom: i32) -> (p: (i32, i32))
    ensures
        p.0 == left + half_toward_zero(right - left),
        p.1 == bottom,
{
    let d: i64 = right as i64 - left as i64;
    let h: i64 = if d >= 0 {
        d / 2
    } else {
        -((-d) / 2)
    };
    assert(left <= left + h <= right || right <= left + h <= left);
    ((left as i64 + h) as i32, bottom)
}

/// The tooltip field: the first `capacity - 1` UTF-16 units of the tooltip at
/// most, then zeros up to `capacity`, so the text stays terminated.
pub fn tooltip_field(units: &Vec<u16>, capacity: usize) -> (field: Vec<u16>)
    requires
        capacity >= 1,
    ensures
        field@.len() == capacity,
        forall|i: int| 0 <= i < capacity ==> #[trigger] field@[i] == (if i < units@.len() && i < capacity - 1 {
            units@[i]
        } else {
            0
        }),
{
    let mut field: Vec<u16> = Vec::new();
    let mut i: usize = 0;
    while i < capacity
        invariant
            i <= capacity,
            capacity >= 1,
            field@.len() == i,
            forall|k: int| 0 <= k < i ==> #[trigger] field@[k] == (if k < units@.len() && k < capacity - 1 {
                units@[k]
            } else {
                0
            }),
        decreases capacity - i,
    {
        if i < units.len() && i < capacity - 1 {
            field.push(units[i]);
        } else {
            field.push(0);
        }
        i += 1;
    }
    field
}

/// Whether the icon is registered with the shell.
pub struct TrayRegistration {
    registered: bool,
}

impl TrayRegistration {
    /// Whether the shell knows the icon.
    pub closed spec fn spec_registered(&self) -> bool {
        self.registered
    }

    /// Not registered.
    pub fn new() -> (r: Self)
        ensures
            !r.spec_registered(),
    {
        TrayRegistration { registered: false }
    }

    /// Whether the shell knows the icon.
    pub fn registered(&self) -> (r: bool)
        ensures
            r == self.spec_registered(),
    {
        self.registered
    }

    /// Removal: returns whether `NIM_DELETE` must be sent; afterwards the icon
    /// is not registered.
    pub fn remove(&mut self) -> (delete: bool)
        ensures
            delete == old(self).spec_registered(),
            !final(self).spec_registered(),
    {
        let delete = self.registered;
        self.registered = false;
        delete
    }

    /// Records the answer to `NIM_MODIFY`: a failed update means the shell
    /// lost the icon.
    pub fn modified(&mut self, ok: bool)
        ensures
            final(self).spec_registered() == (old(self).spec_registered() && ok),
    {
        if !ok {
            self.registered = false;
        }
    }

    /// Records the answer to `NIM_ADD`; on success the icon is registered and
    /// its version must be set.
    pub fn added(&mut self, ok: bool) -> (set_version: bool)
        ensures
            set_version == ok,
            final(self).spec_registered() == (old(self).spec_registered() || ok),
    {
        if ok {
            self.registered = true;
        }
        ok
    }

    /// The shell restarted (`TaskbarCreated`): the icon must be added again.
    pub fn forget(&mut self)
        ensures
            !final(self).spec_registered(),
    {
        self.registered = false;
    }
}

/// What synchronising the icon with its properties asks of the shell.
#[derive(Clone, Copy, Debug, PartialEq, Eq)]
pub enum TraySync {
    /// The icon must not show: remove it.
    Remove,
    /// The icon is registered: update it (and add it again if that fails).
    Modify,
    /// The icon is not registered: add it.
    Add,
}

/// The first step of a synchronisation: an icon that is hidden or has no image
/// is removed; otherwise it is updated when registered and added when not.
pub fn sync_step(desired_visible: bool, has_icon: bool, registered: bool) -> (s: TraySync)
    ensures
        s == (if !desired_visible || !has_icon {
            TraySync::Remove
        } else if registered {
            TraySync::Modify
        } else {
            TraySync::Add
        }),
{
    if !desired_visible || !has_icon {
        TraySync::Remove
    } else if registered {
        TraySync::Modify
    } else {
        TraySync::Add
    }
}

/// Why the tray menu could not be shown.
#[derive(Clone, Copy, Debug, PartialEq, Eq)]
pub enum TrayIconError {
    NotMounted,
    MenuUnavailable,
    PresentationFailed,
}

/// Where the tray menu opens, or why it cannot: the icon must still be
/// mounted and registered, must have a menu, and an anchor point must be known.
pub fn menu_request(mounted: bool, registered: bool, has_menu: bool, point: Option<(i32, i32)>) -> (r: Result<(i32, i32), TrayIconError>)
    ensures
        r == (if !mounted || !registered {
            Err(TrayIconError::NotMounted)
        } else if !has_menu {
            Err(TrayIconError::MenuUnavailable)
        } else {
            match point {
                Some(p) => Ok(p),
                None => Err(TrayIconError::PresentationFailed),
            }
        }),
{
    if !mounted || !registered {
        Err(TrayIconError::NotMounted)
    } else if !has_menu {
        Err(TrayIconError::MenuUnavailable)
    } else {
        match point {
            Some(p) => Ok(p),
            None => Err(TrayIconError::PresentationFailed),
        }
    }
}

/// The tooltip fallback: the executable's file stem when it is known and not
/// empty, else `Application`.
pub fn process_name(stem: Option<String>) -> (name: String)
    ensures
        match stem {
            Some(s) => if s@.len() > 0 { name@ == s@ } else { name@ == "Application"@ },
            None => name@ == "Application"@,
        },
{
    match stem {
        Some(s) => {
            if s.as_str().is_empty() {
                let mut n = String::new();
                push_str(&mut n, "Application");
                n
            } else {
                s
            }
        },
        None => {
            let mut n = String::new();
            push_str(&mut n, "Application");
            n
        },
    }
}

} // verus!
