use vstd::prelude::*;

verus! {

/// What a WebView shows.
#[derive(Debug)]
pub enum WebViewSource {
    /// A page loaded from a URL.
    Url(String),
    /// An HTML document, with the base URL its relative links resolve against.
    Html { html: String, base_url: Option<String> },
    /// A document shipped with the application, by its path relative to the
    /// package, with the file to use during development.
    Resource { path: String, development_path: Option<String> },
}

fn clone_opt(s: &Option<String>) -> (r: Option<String>)
    ensures
        r == *s,
{
    match s {
        Some(v) => Some(v.clone()),
        None => None,
    }
}

impl Clone for WebViewSource {
    fn clone(&self) -> (r: Self)
        ensures
            r == *self,
    {
        match self {
            WebViewSource::Url(u) => WebViewSource::Url(u.clone()),
            WebViewSource::Html { html, base_url } => WebViewSource::Html {
                html: html.clone(),
                base_url: clone_opt(base_url),
            },
            WebViewSource::Resource { path, development_path } => WebViewSource::Resource {
                path: path.clone(),
                development_path: clone_opt(development_path),
            },
        }
    }
}

/// Why the developer tools of a WebView could not be opened.
#[derive(Debug)]
pub enum WebViewDevToolsError {
    /// The WebView was not made inspectable.
    NotInspectable,
    /// The browser engine is not (or no longer) running.
    NotMounted,
    /// The browser engine failed, with its message.
    Backend(String),
}

/// The expression the page-side bridge script uses to post a message to the
/// application.
pub const POST_MESSAGE_EXPRESSION: &'static str = "(message) => window.chrome.webview.postMessage(message)";

/// The life of one WebView: what it shows and how far its browser engine has
/// come. Handles to the native objects stay with the caller; this record
/// decides which native call is due when something happens.
#[derive(Debug)]
pub struct WebViewState {
    /// The element is still in the tree.
    pub mounted: bool,
    /// The content to show.
    pub source: WebViewSource,
    /// The page shows what lies behind it.
    pub transparent: bool,
    /// The developer tools may be opened.
    pub inspectable: bool,
    /// A message bridge to the page was given.
    pub has_bridge: bool,
    /// The native WebView control exists.
    pub has_control: bool,
    /// The browser engine of the control is running.
    pub has_core: bool,
    /// The message of a failed engine start.
    pub initialization_error: Option<String>,
    /// The document-start script is in place, so content may be loaded.
    pub ready_to_navigate: bool,
    /// The engine start was requested.
    pub initializing: bool,
    /// The identifier of the installed document-start script.
    pub script_id: Option<String>,
}

/// What follows the installation of the document-start script.
#[derive(Clone, Copy, Debug, PartialEq, Eq, Structural)]
pub enum ScriptOutcome {
    /// The WebView is gone: nothing is done.
    Ignore,
    /// Content may be loaded once the engine runs.
    Wait,
    /// Load the current source now, after attaching the bridge's script
    /// evaluator when `attach_bridge`.
    Navigate { attach_bridge: bool },
}

/// The native calls due once the browser engine runs.
#[derive(Clone, Copy, Debug, PartialEq, Eq, Structural)]
pub struct CoreSetup {
    /// The developer-tools setting to apply.
    pub inspectable: bool,
    /// Whether to forward page messages to the bridge.
    pub listen_for_messages: bool,
}

/// The native clean-up due when the WebView leaves the tree.
#[derive(Debug)]
pub struct UnmountActions {
    /// The document-start script to remove from the engine.
    pub remove_script: Option<String>,
    /// Whether to close the native control.
    pub close_control: bool,
    /// Whether to detach the bridge.
    pub detach_bridge: bool,
}

/// The engine never runs without a control, and a control only exists while
/// the element is mounted; the engine start is requested only with a control.
pub open spec fn web_view_wf(s: WebViewState) -> bool {
    &&& s.has_core ==> s.has_control
    &&& s.has_control ==> s.mounted
    &&& s.initializing ==> s.has_control
}

/// Whether a change of source loads the new content at once.
pub open spec fn navigates_on_source_change(s: WebViewState) -> bool {
    s.ready_to_navigate && s.has_core
}

/// The state once the native control exists.
pub open spec fn after_control_realized(s: WebViewState) -> WebViewState {
    if s.mounted {
        WebViewState { has_control: true, ..s }
    } else {
        s
    }
}

/// Whether the engine start is requested now.
pub open spec fn starts_initialization(s: WebViewState) -> bool {
    !s.initializing && s.has_control
}

/// The state after a request to start the engine.
pub open spec fn after_start_initialization(s: WebViewState) -> WebViewState {
    if starts_initialization(s) {
        WebViewState { initializing: true, ..s }
    } else {
        s
    }
}

/// The state once the engine has started.
pub open spec fn after_core_initialized(s: WebViewState) -> WebViewState {
    if s.has_control {
        WebViewState { has_core: true, ..s }
    } else {
        s
    }
}

/// The state once the document-start script is installed under `script_id`
/// (empty when no script was needed).
pub open spec fn after_script_installed(s: WebViewState, script_id: String) -> WebViewState {
    if !s.mounted {
        s
    } else if script_id@.len() == 0 {
        WebViewState { ready_to_navigate: true, ..s }
    } else {
        WebViewState { ready_to_navigate: true, script_id: Some(script_id), ..s }
    }
}

/// What follows the installation of the document-start script.
pub open spec fn script_outcome(s: WebViewState) -> ScriptOutcome {
    if !s.mounted {
        ScriptOutcome::Ignore
    } else if !s.has_core {
        ScriptOutcome::Wait
    } else {
        ScriptOutcome::Navigate { attach_bridge: s.has_bridge }
    }
}

/// The state after the element leaves the tree.
pub open spec fn after_unmount(s: WebViewState) -> WebViewState {
    WebViewState {
        mounted: false,
        has_control: false,
        has_core: false,
        initializing: false,
        script_id: if s.has_core { None } else { s.script_id },
        ..s
    }
}

/// Whether opening the developer tools may go ahead, or why not.
pub open spec fn dev_tools_access(s: WebViewState) -> Result<(), WebViewDevToolsError> {
    if !s.inspectable {
        Err(WebViewDevToolsError::NotInspectable)
    } else if !s.has_core {
        match s.initialization_error {
            Some(e) => Err(WebViewDevToolsError::Backend(e)),
            None => Err(WebViewDevToolsError::NotMounted),
        }
    } else {
        Ok(())
    }
}

impl WebViewState {
    /// A freshly mounted WebView: no control, no engine, nothing loaded.
    pub fn new(source: WebViewSource, transparent: bool, inspectable: bool, has_bridge: bool) -> (s: Self)
        ensures
            web_view_wf(s),
            s == (WebViewState {
                mounted: true,
                source,
                transparent,
                inspectable,
                has_bridge,
                has_control: false,
                has_core: false,
                initialization_error: None,
                ready_to_navigate: false,
                initializing: false,
                script_id: None,
            }),
    {
        WebViewState {
            mounted: true,
            source,
            transparent,
            inspectable,
            has_bridge,
            has_control: false,
            has_core: false,
            initialization_error: None,
            ready_to_navigate: false,
            initializing: false,
            script_id: None,
        }
    }

    /// Records a new source; returns whether it is to be loaded now, which is
    /// when the engine runs and the document-start script is in place.
    pub fn set_source(&mut self, source: WebViewSource) -> (navigate: bool)
        ensures
            *final(self) == (WebViewState { source, ..*old(self) }),
            navigate == navigates_on_source_change(*old(self)),
    {
        self.source = source;
        self.ready_to_navigate && self.has_core
    }

    /// Records the transparency; returns whether to apply it now, which is
    /// when the control exists.
    pub fn set_transparent(&mut self, transparent: bool) -> (apply: bool)
        ensures
            *final(self) == (WebViewState { transparent, ..*old(self) }),
            apply == old(self).has_control,
    {
        self.transparent = transparent;
        self.has_control
    }

    /// Records whether the developer tools may open; returns whether to apply
    /// the setting now, which is when the engine runs.
    pub fn set_inspectable(&mut self, inspectable: bool) -> (apply: bool)
        ensures
            *final(self) == (WebViewState { inspectable, ..*old(self) }),
            apply == old(self).has_core,
    {
        self.inspectable = inspectable;
        self.has_core
    }

    /// The native control was created. Returns the transparency to give it:
    /// the recorded one while mounted, `false` once the WebView is gone.
    pub fn control_realized(&mut self) -> (transparent: bool)
        requires
            web_view_wf(*old(self)),
        ensures
            web_view_wf(*final(self)),
            *final(self) == after_control_realized(*old(self)),
            transparent == (old(self).mounted && old(self).transparent),
    {
        if self.mounted {
            self.has_control = true;
            self.transparent
        } else {
            false
        }
    }

    /// The control was loaded: returns whether to request the engine start,
    /// which happens once, and only with a control.
    pub fn start_initialization(&mut self) -> (start: bool)
        requires
            web_view_wf(*old(self)),
        ensures
            web_view_wf(*final(self)),
            *final(self) == after_start_initialization(*old(self)),
            start == starts_initialization(*old(self)),
    {
        if !self.initializing && self.has_control {
            self.initializing = true;
            true
        } else {
            false
        }
    }

    /// The engine failed to start, with `message`; a WebView that is gone
    /// keeps no record of it.
    pub fn initialization_failed(&mut self, message: String)
        ensures
            *final(self) == (if old(self).mounted {
                WebViewState { initialization_error: Some(message), ..*old(self) }
            } else {
                *old(self)
            }),
    {
        if self.mounted {
            self.initialization_error = Some(message);
        }
    }

    /// The engine started. Returns the setup due on it, or `None` when the
    /// control is gone.
    pub fn core_initialized(&mut self) -> (setup: Option<CoreSetup>)
        requires
            web_view_wf(*old(self)),
        ensures
            web_view_wf(*final(self)),
            *final(self) == after_core_initialized(*old(self)),
            setup == (if old(self).has_control {
                Some(CoreSetup { inspectable: old(self).inspectable, listen_for_messages: old(self).has_bridge })
            } else {
                None
            }),
    {
        if self.has_control {
            self.has_core = true;
            Some(CoreSetup { inspectable: self.inspectable, listen_for_messages: self.has_bridge })
        } else {
            None
        }
    }

    /// The document-start script was installed under `script_id` (empty when
    /// none was needed). From then on content may be loaded; returns whether
    /// to load the current source now.
    pub fn script_installed(&mut self, script_id: String) -> (outcome: ScriptOutcome)
        requires
            web_view_wf(*old(self)),
        ensures
            web_view_wf(*final(self)),
            *final(self) == after_script_installed(*old(self), script_id),
            outcome == script_outcome(*old(self)),
    {
        if !self.mounted {
            return ScriptOutcome::Ignore;
        }
        if !script_id.as_str().is_empty() {
            self.script_id = Some(script_id);
        }
        self.ready_to_navigate = true;
        if !self.has_core {
            ScriptOutcome::Wait
        } else {
            ScriptOutcome::Navigate { attach_bridge: self.has_bridge }
        }
    }

    /// Decides whether the developer tools may be opened now.
    pub fn open_dev_tools(&self) -> (r: Result<(), WebViewDevToolsError>)
        ensures
            r == dev_tools_access(*self),
    {
        if !self.inspectable {
            Err(WebViewDevToolsError::NotInspectable)
        } else if !self.has_core {
            match &self.initialization_error {
                Some(e) => Err(WebViewDevToolsError::Backend(e.clone())),
                None => Err(WebViewDevToolsError::NotMounted),
            }
        } else {
            Ok(())
        }
    }

    /// The element leaves the tree. Returns the clean-up due: the installed
    /// script is removed from a running engine, the control is closed, the
    /// bridge is detached.
    pub fn unmount(&mut self) -> (actions: UnmountActions)
        ensures
            web_view_wf(*final(self)),
            *final(self) == after_unmount(*old(self)),
            actions.remove_script == (if old(self).has_core { old(self).script_id } else { None }),
            actions.close_control == old(self).has_control,
            actions.detach_bridge == old(self).has_bridge,
    {
        let remove_script = if self.has_core {
            self.script_id.take()
        } else {
            None
        };
        let close_control = self.has_control;
        self.mounted = false;
        self.has_control = false;
        self.has_core = false;
        self.initializing = false;
        UnmountActions { remove_script, close_control, detach_bridge: self.has_bridge }
    }
}

/// Law: content is only ever loaded into a mounted WebView whose engine runs
/// and whose document-start script is in place.
pub proof fn lemma_navigation_waits_for_script(s: WebViewState)
    requires
        web_view_wf(s),
        navigates_on_source_change(s) || script_outcome(s) is Navigate,
    ensures
        s.mounted,
        s.has_core,
        navigates_on_source_change(s) ==> s.ready_to_navigate,
{
}

/// Law: the engine start is requested at most once; a second request in a
/// row does nothing.
pub proof fn lemma_initialization_starts_once(s: WebViewState)
    ensures
        !starts_initialization(after_start_initialization(s)),
        after_start_initialization(after_start_initialization(s)) == after_start_initialization(s),
{
}

/// Law: once unmounted, a WebView loads nothing more: neither a change of
/// source nor a late script installation navigates, and a late control or
/// engine start changes nothing.
pub proof fn lemma_unmounted_is_inert(s: WebViewState, script_id: String)
    ensures
        !navigates_on_source_change(after_unmount(s)),
        script_outcome(after_unmount(s)) == ScriptOutcome::Ignore,
        after_script_installed(after_unmount(s), script_id) == after_unmount(s),
        after_control_realized(after_unmount(s)) == after_unmount(s),
        after_core_initialized(after_unmount(s)) == after_unmount(s),
        !starts_initialization(after_unmount(s)),
{
}

/// Law: the developer tools never open on a WebView that is not inspectable.
pub proof fn lemma_dev_tools_need_inspectable(s: WebViewState)
    requires
        !s.inspectable,
    ensures
        dev_tools_access(s) == Err::<(), WebViewDevToolsError>(WebViewDevToolsError::NotInspectable),
{
}

} // verus!
