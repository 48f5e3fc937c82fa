use nestix_native_winui::web_view_state::{
    CoreSetup, ScriptOutcome, WebViewDevToolsError, WebViewSource, WebViewState, POST_MESSAGE_EXPRESSION,
};

fn url(u: &str) -> WebViewSource {
    WebViewSource::Url(u.to_string())
}

fn started(bridge: bool) -> WebViewState {
    let mut state = WebViewState::new(url("https://example.com/"), false, true, bridge);
    assert!(!state.control_realized());
    assert!(state.start_initialization());
    assert_eq!(
        state.core_initialized(),
        Some(CoreSetup { inspectable: true, listen_for_messages: bridge })
    );
    state
}

#[test]
fn source_changes_wait_for_the_document_start_script() {
    let mut state = started(true);
    assert!(!state.set_source(url("https://example.org/")));
    assert_eq!(
        state.script_installed("script-1".to_string()),
        ScriptOutcome::Navigate { attach_bridge: true }
    );
    assert_eq!(state.script_id, Some("script-1".to_string()));
    assert!(state.ready_to_navigate);
    assert!(state.set_source(WebViewSource::Html { html: "<p>x</p>".to_string(), base_url: None }));
}

#[test]
fn an_empty_script_id_is_not_kept() {
    let mut state = started(false);
    assert_eq!(state.script_installed(String::new()), ScriptOutcome::Navigate { attach_bridge: false });
    assert_eq!(state.script_id, None);
}

#[test]
fn a_script_installed_before_the_engine_runs_only_unlocks_navigation() {
    let mut state = WebViewState::new(url("https://example.com/"), true, false, false);
    assert_eq!(state.script_installed(String::new()), ScriptOutcome::Wait);
    assert!(!state.set_source(url("https://example.org/")));
}

#[test]
fn engine_start_is_requested_once_and_only_with_a_control() {
    let mut state = WebViewState::new(url("https://example.com/"), true, false, false);
    assert!(!state.start_initialization());
    assert!(state.control_realized());
    assert!(state.start_initialization());
    assert!(!state.start_initialization());
}

#[test]
fn settings_apply_only_once_their_native_target_exists() {
    let mut state = WebViewState::new(url("https://example.com/"), false, false, false);
    assert!(!state.set_transparent(true));
    assert!(!state.set_inspectable(true));
    assert!(state.control_realized());
    assert!(state.set_transparent(false));
    assert!(!state.set_inspectable(true));
    assert_eq!(state.core_initialized(), Some(CoreSetup { inspectable: true, listen_for_messages: false }));
    assert!(state.set_inspectable(false));
}

#[test]
fn dev_tools_report_why_they_cannot_open() {
    let mut state = WebViewState::new(url("https://example.com/"), false, false, false);
    assert!(matches!(state.open_dev_tools(), Err(WebViewDevToolsError::NotInspectable)));
    state.set_inspectable(true);
    assert!(matches!(state.open_dev_tools(), Err(WebViewDevToolsError::NotMounted)));
    state.initialization_failed("engine missing".to_string());
    assert!(matches!(state.open_dev_tools(), Err(WebViewDevToolsError::Backend(m)) if m == "engine missing"));
    let state = started(false);
    assert!(state.open_dev_tools().is_ok());
}

#[test]
fn unmounting_cleans_up_and_stops_everything() {
    let mut state = started(true);
    state.script_installed("script-7".to_string());
    let actions = state.unmount();
    assert_eq!(actions.remove_script, Some("script-7".to_string()));
    assert!(actions.close_control);
    assert!(actions.detach_bridge);
    assert!(!state.mounted);
    assert!(!state.set_source(url("https://example.org/")));
    assert_eq!(state.script_installed("late".to_string()), ScriptOutcome::Ignore);
    assert!(!state.control_realized());
    assert_eq!(state.core_initialized(), None);
    state.initialization_failed("late".to_string());
    assert_eq!(state.initialization_error, None);
}

#[test]
fn unmounting_before_the_engine_runs_keeps_no_script_to_remove() {
    let mut state = WebViewState::new(url("https://example.com/"), false, false, false);
    let actions = state.unmount();
    assert_eq!(actions.remove_script, None);
    assert!(!actions.close_control);
    assert!(!actions.detach_bridge);
}

#[test]
fn the_bridge_posts_through_the_webview_channel() {
    assert_eq!(POST_MESSAGE_EXPRESSION, "(message) => window.chrome.webview.postMessage(message)");
}
