use vstd::prelude::*;
use crate::children::{distinct, remove_value, vec_remove_value, vec_position, lemma_remove_value_contents};

verus! {

/// `s` with `w` appended unless it is already there.
pub open spec fn with_pending(s: Seq<u64>, w: u64) -> Seq<u64> {
    if s.contains(w) {
        s
    } else {
        s.push(w)
    }
}

/// The windows waiting to be realized and activated once XAML runs, in
/// registration order; each window occurs at most once.
pub struct PendingWindows {
    windows: Vec<u64>,
}

impl View for PendingWindows {
    type V = Seq<u64>;

    closed spec fn view(&self) -> Seq<u64> {
        self.windows@
    }
}

impl PendingWindows {
    /// No window occurs twice.
    pub closed spec fn wf(&self) -> bool {
        distinct(self.windows@)
    }

    /// No pending windows.
    pub fn new() -> (r: Self)
        ensures
            r.wf(),
            r@ == Seq::<u64>::empty(),
    {
        PendingWindows { windows: Vec::new() }
    }

    /// The pending windows, in the order they are to be realized.
    pub fn windows(&self) -> (v: Vec<u64>)
        ensures
            v@ == self@,
    {
        self.windows.clone()
    }
}

/// Adds `window` to the pending windows unless it is already there.
pub fn push_pending_window(pending: &mut PendingWindows, window: u64)
    requires
        old(pending).wf(),
    ensures
        final(pending).wf(),
        final(pending)@ == with_pending(old(pending)@, window),
{
    if vec_position(&pending.windows, window).is_none() {
        let ghost before = pending.windows@;
        pending.windows.push(window);
        proof {
            assert forall|i: int, j: int| 0 <= i < j < pending.windows@.len() implies pending.windows@[i] != pending.windows@[j] by {
                if j == before.len() {
                    assert(before.contains(before[i]));
                }
            }
        }
    }
}

/// Removes `window` from the pending windows.
pub fn remove_pending_window(pending: &mut PendingWindows, window: u64)
    requires
        old(pending).wf(),
    ensures
        final(pending).wf(),
        final(pending)@ == remove_value(old(pending)@, window),
{
    proof {
        lemma_remove_value_contents(pending.windows@, window);
    }
    pending.windows = vec_remove_value(&pending.windows, window);
}

/// Forgets every pending window.
pub fn clear_pending_windows(pending: &mut PendingWindows)
    ensures
        final(pending).wf(),
        final(pending)@ == Seq::<u64>::empty(),
{
    pending.windows = Vec::new();
}

/// Whether the XAML application has been launched on this thread.
pub struct XamlRuntime {
    running: bool,
}

impl XamlRuntime {
    /// Whether XAML runs.
    pub closed spec fn spec_running(&self) -> bool {
        self.running
    }

    /// Before launch.
    pub fn new() -> (r: Self)
        ensures
            !r.spec_running(),
    {
        XamlRuntime { running: false }
    }

    /// Records that the XAML application has launched.
    pub fn mark_running(&mut self)
        ensures
            final(self).spec_running(),
    {
        self.running = true;
    }
}

/// Whether the XAML application has been launched, so that native controls
/// may be created.
pub fn is_xaml_running(runtime: &XamlRuntime) -> (r: bool)
    ensures
        r == runtime.spec_running(),
{
    runtime.running
}

/// The application driver's own state: whether its message loop was started,
/// and how many windows are registered with it.
pub struct XamlApp {
    is_running: bool,
    window_count: usize,
}

impl XamlApp {
    /// Whether the message loop was started and not quit.
    pub closed spec fn spec_is_running(&self) -> bool {
        self.is_running
    }

    /// The number of registered windows.
    pub closed spec fn spec_window_count(&self) -> nat {
        self.window_count as nat
    }

    /// The number of registered windows.
    pub fn window_count(&self) -> (n: usize)
        ensures
            n == self.spec_window_count(),
    {
        self.window_count
    }

    /// A freshly initialized application: not running, no windows.
    pub fn initialize() -> (app: Self)
        ensures
            !app.spec_is_running(),
            app.spec_window_count() == 0,
    {
        XamlApp { is_running: false, window_count: 0 }
    }

    /// Marks the application running. Returns whether the XAML message loop
    /// must be started now, which is only when it was not running yet.
    pub fn run(&mut self) -> (start: bool)
        ensures
            start == !old(self).spec_is_running(),
            final(self).spec_is_running(),
            final(self).spec_window_count() == old(self).spec_window_count(),
    {
        let was_running = self.is_running;
        self.is_running = true;
        !was_running
    }

    /// Stops the application: it is no longer running, no window counts as
    /// registered, and no window stays pending.
    pub fn quit(&mut self, pending: &mut PendingWindows)
        ensures
            !final(self).spec_is_running(),
            final(self).spec_window_count() == 0,
            final(pending).wf(),
            final(pending)@ == Seq::<u64>::empty(),
    {
        self.is_running = false;
        self.window_count = 0;
        clear_pending_windows(pending);
    }

    /// Registers `window`: it counts as one more window and waits to be
    /// realized once XAML runs.
    pub fn register_window(&mut self, pending: &mut PendingWindows, window: u64) -> (r: XamlWindowRegistration)
        requires
            old(pending).wf(),
            old(self).spec_window_count() < usize::MAX,
        ensures
            final(pending).wf(),
            final(pending)@ == with_pending(old(pending)@, window),
            final(self).spec_window_count() == old(self).spec_window_count() + 1,
            final(self).spec_is_running() == old(self).spec_is_running(),
            r.spec_window() == window,
            r.spec_is_registered(),
    {
        self.window_count = self.window_count + 1;
        push_pending_window(pending, window);
        XamlWindowRegistration { window, is_registered: true }
    }

    /// Unregisters `window`: one window fewer (never below zero), and it is no
    /// longer pending.
    pub fn unregister_window(&mut self, pending: &mut PendingWindows, window: u64)
        requires
            old(pending).wf(),
        ensures
            final(pending).wf(),
            final(pending)@ == remove_value(old(pending)@, window),
            final(self).spec_window_count() == (if old(self).spec_window_count() == 0 {
                0
            } else {
                old(self).spec_window_count() - 1
            }),
            final(self).spec_is_running() == old(self).spec_is_running(),
    {
        self.window_count = if self.window_count == 0 {
            0
        } else {
            self.window_count - 1
        };
        remove_pending_window(pending, window);
    }
}

/// The window count after one window is unregistered: one fewer, never below
/// zero.
pub open spec fn count_after_unregister(n: nat) -> nat {
    if n == 0 {
        0
    } else {
        (n - 1) as nat
    }
}

/// The window count and pending windows after a registration of window `w`
/// ends: unchanged when it had already ended, otherwise one window fewer and
/// `w` no longer pending.
pub open spec fn after_unregister(was_registered: bool, count: nat, pending: Seq<u64>, w: u64) -> (nat, Seq<u64>) {
    if was_registered {
        (count_after_unregister(count), remove_value(pending, w))
    } else {
        (count, pending)
    }
}

/// The registration of one window with the application; ending it a second
/// time has no effect.
pub struct XamlWindowRegistration {
    window: u64,
    is_registered: bool,
}

impl XamlWindowRegistration {
    /// The registered window.
    pub closed spec fn spec_window(&self) -> u64 {
        self.window
    }

    /// Whether the registration is still in force.
    pub closed spec fn spec_is_registered(&self) -> bool {
        self.is_registered
    }

    /// The registered window.
    pub fn window(&self) -> (w: u64)
        ensures
            w == self.spec_window(),
    {
        self.window
    }

    /// Ends the registration, unregistering the window from `app` the first
    /// time only.
    pub fn unregister(&mut self, app: &mut XamlApp, pending: &mut PendingWindows)
        requires
            old(pending).wf(),
        ensures
            !final(self).spec_is_registered(),
            final(self).spec_window() == old(self).spec_window(),
            final(pending).wf(),
            (final(app).spec_window_count(), final(pending)@) == after_unregister(
                old(self).spec_is_registered(),
                old(app).spec_window_count(),
                old(pending)@,
                old(self).spec_window(),
            ),
            final(app).spec_is_running() == old(app).spec_is_running(),
    {
        if self.is_registered {
            self.is_registered = false;
            app.unregister_window(pending, self.window);
        }
    }
}

/// Law: registering a window that was not pending and then ending that
/// registration gives back the window count and the pending windows as they
/// were, with the window no longer pending; ending it once more changes
/// nothing further.
pub proof fn lemma_register_unregister_restores(count: nat, s: Seq<u64>, w: u64)
    requires
        distinct(s),
        !s.contains(w),
    ensures
        after_unregister(true, count + 1, with_pending(s, w), w) == (count, s),
        !after_unregister(true, count + 1, with_pending(s, w), w).1.contains(w),
        after_unregister(false, count, s, w) == (count, s),
{
    lemma_remove_value_contents(s, w);
    assert(with_pending(s, w) == s.push(w));
    assert(s.push(w).drop_last() == s);
}

/// Law: a window is pending at most once, however often it is registered.
pub proof fn lemma_pending_once(s: Seq<u64>, w: u64)
    requires
        distinct(s),
    ensures
        distinct(with_pending(s, w)),
        with_pending(with_pending(s, w), w) == with_pending(s, w),
        with_pending(s, w).contains(w),
{
    if !s.contains(w) {
        assert(s.push(w)[s.len() as int] == w);
        assert forall|i: int, j: int| 0 <= i < j < s.push(w).len() implies s.push(w)[i] != s.push(w)[j] by {
            if j == s.len() {
                assert(s.contains(s[i]));
            }
        }
    }
}

/// The backend that renders Nestix native elements with WinUI.
pub struct WinUiBackend;

impl WinUiBackend {
    /// The identifier under which this backend is known.
    pub fn backend_id(&self) -> (id: &'static str)
        ensures
            id@ == seq!['n', 'e', 's', 't', 'i', 'x', '-', 'n', 'a', 't', 'i', 'v', 'e', '-', 'w', 'i', 'n', 'u', 'i'],
    {
        proof {
            reveal_strlit("nestix-native-winui");
        }
        "nestix-native-winui"
    }
}

} // verus!
