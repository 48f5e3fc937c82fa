use nestix_native_winui::build_support::{
    is_framework_msix, is_runtime_payload_file, package_root_is_complete, package_root_plan, packages,
    runtime_package, target_arch, validate_package_root, PackageRootPlan,
};
use nestix_native_winui::material::{in_app_brush_resource, window_backdrop_kind, WindowBackdropKind, WindowsMaterial};
use nestix_native_winui::navigation::{first_repeated_value, navigation_selection};
use nestix_native_winui::tray_icon::{
    event_target, menu_point, menu_request, notification_code, process_name, sync_step,
    tooltip_field, TrayEventTarget, TrayIconError, TrayRegistration, TraySync,
};
use nestix_native_winui::xaml_app::{
    clear_pending_windows, is_xaml_running, push_pending_window, remove_pending_window,
    PendingWindows, WinUiBackend, XamlApp, XamlRuntime,
};

#[test]
fn maps_every_current_windows_material_to_a_window_backdrop() {
    assert_eq!(window_backdrop_kind(WindowsMaterial::Mica), Some(WindowBackdropKind::Mica));
    assert_eq!(window_backdrop_kind(WindowsMaterial::MicaAlt), Some(WindowBackdropKind::MicaAlt));
    assert_eq!(window_backdrop_kind(WindowsMaterial::Acrylic), Some(WindowBackdropKind::Acrylic));
    assert_eq!(window_backdrop_kind(WindowsMaterial::AcrylicThin), Some(WindowBackdropKind::Acrylic));
}

#[test]
fn in_app_brushes_follow_the_material() {
    assert_eq!(in_app_brush_resource(Some(WindowsMaterial::Mica)), Some("AcrylicInAppFillColorBaseBrush"));
    assert_eq!(in_app_brush_resource(Some(WindowsMaterial::AcrylicThin)), Some("AcrylicInAppFillColorDefaultBrush"));
    assert_eq!(in_app_brush_resource(Some(WindowsMaterial::Other)), None);
    assert_eq!(in_app_brush_resource(None), None);
    assert_eq!(window_backdrop_kind(WindowsMaterial::Other), None);
}

#[test]
fn the_application_starts_once_and_quits_cleanly() {
    let mut app = XamlApp::initialize();
    let mut pending = PendingWindows::new();
    assert!(app.run());
    assert!(!app.run());
    let mut registration = app.register_window(&mut pending, 7);
    app.register_window(&mut pending, 8);
    app.register_window(&mut pending, 7);
    assert_eq!(pending.windows(), [7, 8]);
    registration.unregister(&mut app, &mut pending);
    assert_eq!(pending.windows(), [8]);
    registration.unregister(&mut app, &mut pending);
    assert_eq!(pending.windows(), [8]);
    app.quit(&mut pending);
    assert!(pending.windows().is_empty());
    assert!(app.run());
}

#[test]
fn pending_windows_hold_each_window_once() {
    let mut pending = PendingWindows::new();
    push_pending_window(&mut pending, 1);
    push_pending_window(&mut pending, 2);
    push_pending_window(&mut pending, 1);
    assert_eq!(pending.windows(), [1, 2]);
    remove_pending_window(&mut pending, 1);
    assert_eq!(pending.windows(), [2]);
    clear_pending_windows(&mut pending);
    assert!(pending.windows().is_empty());
    let mut runtime = XamlRuntime::new();
    assert!(!is_xaml_running(&runtime));
    runtime.mark_running();
    assert!(is_xaml_running(&runtime));
    assert_eq!(WinUiBackend.backend_id(), "nestix-native-winui");
}

#[test]
fn runtime_payload_files_are_recognised() {
    assert!(is_runtime_payload_file(Some("Microsoft.ui.xaml.DLL")));
    assert!(is_runtime_payload_file(Some("restartagent.EXE")));
    assert!(is_runtime_payload_file(Some("MAP.html")));
    assert!(is_runtime_payload_file(Some("resources.pri")));
    assert!(is_runtime_payload_file(Some("a.b.Json")));
    assert!(!is_runtime_payload_file(Some("AppxManifest.xml")));
    assert!(!is_runtime_payload_file(Some(".dll")));
    assert!(!is_runtime_payload_file(Some("dll")));
    assert!(!is_runtime_payload_file(Some("..")));
    assert!(!is_runtime_payload_file(None));
}

#[test]
fn framework_msix_is_picked_out() {
    assert!(is_framework_msix("Microsoft.WindowsAppRuntime.1.8.msix"));
    assert!(!is_framework_msix("Microsoft.WindowsAppRuntime.Main.1.8.msix"));
    assert!(!is_framework_msix("Microsoft.WindowsAppRuntime.DDLM.1.8.msix"));
    assert!(!is_framework_msix("Microsoft.WindowsAppRuntime.Singleton.msix"));
    assert!(!is_framework_msix("Microsoft.WindowsAppRuntime.1.8.appx"));
    assert!(!is_framework_msix("Other.msix"));
}

#[test]
fn packages_and_architectures() {
    assert_eq!(target_arch("x86"), Some("x86"));
    assert_eq!(target_arch("x86_64"), Some("x64"));
    assert_eq!(target_arch("aarch64"), Some("arm64"));
    assert_eq!(target_arch("riscv64"), None);
    let list = packages();
    assert_eq!(list.len(), 6);
    assert_eq!(list[0], ("Microsoft.WindowsAppSDK", "1.8.260529003"));
    assert_eq!(runtime_package(), ("Microsoft.WindowsAppSDK.Runtime", "1.8.260529003"));
    assert!(package_root_is_complete(&vec![true; 6]));
    let mut present = vec![true; 6];
    present[3] = false;
    assert!(!package_root_is_complete(&present));
    assert_eq!(validate_package_root("C:\\p", &present), Err("Windows App SDK packages are incomplete under C:\\p".to_string()));
    assert_eq!(validate_package_root("C:\\p", &vec![true; 6]), Ok(()));
}

#[test]
fn tray_notifications_and_menu_placement() {
    assert_eq!(notification_code(0x1_0000 | 0x7B), 0x7B);
    assert_eq!(event_target(0x7B), TrayEventTarget::Secondary);
    assert_eq!(event_target(0x400), TrayEventTarget::Activate);
    assert_eq!(event_target(0x401), TrayEventTarget::Activate);
    assert_eq!(event_target(0x200), TrayEventTarget::Ignored);
    assert_eq!(menu_point(10, 21, 40), (15, 40));
    assert_eq!(menu_point(10, -1, 5), (5, 5));
    assert_eq!(menu_request(true, true, true, Some((1, 2))), Ok((1, 2)));
    assert_eq!(menu_request(true, false, true, Some((1, 2))), Err(TrayIconError::NotMounted));
    assert_eq!(menu_request(true, true, false, None), Err(TrayIconError::MenuUnavailable));
    assert_eq!(menu_request(true, true, true, None), Err(TrayIconError::PresentationFailed));
    assert_eq!(process_name(Some("demo".to_string())), "demo");
    assert_eq!(process_name(Some(String::new())), "Application");
    assert_eq!(process_name(None), "Application");
}

#[test]
fn tray_registration_follows_the_shell() {
    assert_eq!(sync_step(false, true, true), TraySync::Remove);
    assert_eq!(sync_step(true, false, false), TraySync::Remove);
    assert_eq!(sync_step(true, true, true), TraySync::Modify);
    assert_eq!(sync_step(true, true, false), TraySync::Add);
    let mut r = TrayRegistration::new();
    assert!(!r.remove());
    assert!(r.added(true));
    assert!(r.registered());
    r.modified(false);
    assert!(!r.registered());
    r.added(true);
    r.forget();
    assert!(!r.registered());
    r.added(true);
    assert!(r.remove());
    let field = tooltip_field(&"abc".encode_utf16().collect(), 3);
    assert_eq!(field, [97, 98, 0]);
}

#[test]
fn navigation_values_select_the_first_match() {
    let values: Vec<String> = ["home", "settings", "home"].iter().map(|s| s.to_string()).collect();
    assert_eq!(navigation_selection(&values, Some("settings")), Some(1));
    assert_eq!(navigation_selection(&values, Some("home")), Some(0));
    assert_eq!(navigation_selection(&values, Some("none")), None);
    assert_eq!(navigation_selection(&values, None), None);
    assert_eq!(first_repeated_value(&values), Some(2));
    assert_eq!(first_repeated_value(&values[..2].to_vec()), None);
}

#[test]
fn bounded_materials_use_in_app_acrylic_resources() {
    for window_material in [WindowsMaterial::Mica, WindowsMaterial::Acrylic] {
        assert_eq!(in_app_brush_resource(Some(window_material)), Some("AcrylicInAppFillColorBaseBrush"));
    }
    for sidebar_material in [WindowsMaterial::MicaAlt, WindowsMaterial::AcrylicThin] {
        assert_eq!(
            in_app_brush_resource(Some(sidebar_material)),
            Some("AcrylicInAppFillColorDefaultBrush")
        );
    }
}

#[test]
fn package_root_prefers_configuration_then_development_then_cache() {
    assert_eq!(package_root_plan(true, true, true), PackageRootPlan::Configured);
    assert_eq!(package_root_plan(true, false, false), PackageRootPlan::Configured);
    assert_eq!(package_root_plan(false, true, false), PackageRootPlan::Development);
    assert_eq!(package_root_plan(false, false, true), PackageRootPlan::Cache { fetch: false });
    assert_eq!(package_root_plan(false, false, false), PackageRootPlan::Cache { fetch: true });
}

#[test]
fn ending_a_window_registration_restores_the_count_once() {
    let mut app = XamlApp::initialize();
    let mut pending = PendingWindows::new();
    app.register_window(&mut pending, 3);
    let before = app.window_count();
    let mut registration = app.register_window(&mut pending, 9);
    assert_eq!(app.window_count(), before + 1);
    assert_eq!(pending.windows(), [3, 9]);
    registration.unregister(&mut app, &mut pending);
    assert_eq!(app.window_count(), before);
    assert_eq!(pending.windows(), [3]);
    registration.unregister(&mut app, &mut pending);
    assert_eq!(app.window_count(), before);
    assert_eq!(pending.windows(), [3]);
}
