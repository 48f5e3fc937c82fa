use nestix_native_winui::callbacks::CallbackRegistry;
use nestix_native_winui::file_picker::{
    backend_error, complete_callback, default_extension, discard_callback, failure_result,
    flattened_extensions, map_async_result, multiple_file_result, open_error, register_callback,
    save_choices, single_result, FilePickerError, FilePickerFilter, FilePickerOpenError,
    FilePickerOutcome, PickedItem,
};

fn filter(name: &str, extensions: &[&str]) -> FilePickerFilter {
    FilePickerFilter::new(name.to_string(), extensions.iter().map(|e| e.to_string()).collect())
}

#[test]
fn open_filters_are_normalized_for_winui() {
    let filters = vec![
        filter("Images", &["png", "jpg"]),
        FilePickerFilter::all_files("All files".to_string()),
    ];
    assert_eq!(flattened_extensions(&filters), [".png", ".jpg", "*"]);
}

#[test]
fn null_success_result_is_cancellation() {
    let result = map_async_result::<Option<Result<String, String>>, _>(
        Err(windows_core::Error::from_hresult(windows_core::HRESULT(0))),
        single_result,
    );
    assert!(matches!(result, Ok(FilePickerOutcome::Cancelled)));
}

#[test]
fn failed_operations_are_backend_errors() {
    let result = map_async_result::<Option<Result<String, String>>, _>(
        Err(windows_core::Error::from_hresult(windows_core::HRESULT(0x8000_4005u32 as i32))),
        single_result,
    );
    match result {
        Err(FilePickerError::Backend(message)) => assert!(message.starts_with("WinUI file picker failed: ")),
        _ => panic!("expected a backend error"),
    }
    assert!(matches!(failure_result(1, "x"), Ok(FilePickerOutcome::Cancelled)));
    match failure_result(-1, "boom") {
        Err(FilePickerError::Backend(m)) => assert_eq!(m, "WinUI file picker failed: boom"),
        _ => panic!("expected a backend error"),
    }
}

#[test]
fn completed_operations_map_their_result() {
    let result = map_async_result::<Option<Result<String, String>>, _>(
        Ok(Some(Ok("C:\\a.txt".to_string()))),
        single_result,
    );
    match result {
        Ok(FilePickerOutcome::Selected(paths)) => assert_eq!(paths, ["C:\\a.txt"]),
        _ => panic!("expected a selection"),
    }
}

#[test]
fn save_pickers_get_choices_and_a_default_extension() {
    let filters = vec![
        FilePickerFilter::all_files("All".to_string()),
        filter("Text", &["txt", "md"]),
    ];
    let choices = save_choices(&filters);
    assert_eq!(choices.len(), 2);
    assert_eq!(choices[0].0, "All");
    assert_eq!(choices[0].1, ["*.*"]);
    assert_eq!(choices[1].0, "Text");
    assert_eq!(choices[1].1, [".txt", ".md"]);
    assert_eq!(default_extension(&filters).as_deref(), Some(".txt"));
    assert_eq!(default_extension(&vec![]), None);
}

#[test]
fn single_results_distinguish_cancel_and_non_file_selection() {
    assert!(matches!(single_result(None), Ok(FilePickerOutcome::Cancelled)));
    assert!(matches!(single_result(Some(Ok(String::new()))), Err(FilePickerError::NonFilesystemSelection)));
    match single_result(Some(Err("gone".to_string()))) {
        Err(FilePickerError::Backend(m)) => assert_eq!(m, "WinUI file picker failed: gone"),
        _ => panic!("expected a backend error"),
    }
}

#[test]
fn multiple_results_stop_at_the_first_bad_entry() {
    let ok = |p: &str| PickedItem::Located(Ok(p.to_string()));
    match multiple_file_result(Ok(vec![ok("a"), ok("")])) {
        Ok(FilePickerOutcome::Selected(paths)) => assert_eq!(paths, ["a", ""]),
        _ => panic!("expected a selection"),
    }
    assert!(matches!(multiple_file_result(Ok(vec![])), Ok(FilePickerOutcome::Cancelled)));
    assert!(matches!(
        multiple_file_result(Ok(vec![ok("a"), PickedItem::Null, PickedItem::Unreadable("x".to_string())])),
        Err(FilePickerError::NonFilesystemSelection)
    ));
    match multiple_file_result(Ok(vec![PickedItem::Unreadable("x".to_string()), PickedItem::Null])) {
        Err(FilePickerError::Backend(m)) => assert_eq!(m, "WinUI file picker failed: x"),
        _ => panic!("expected a backend error"),
    }
    match multiple_file_result(Err("count".to_string())) {
        Err(FilePickerError::Backend(m)) => assert_eq!(m, "WinUI file picker failed: count"),
        _ => panic!("expected a backend error"),
    }
}

#[test]
fn picker_errors_carry_their_messages() {
    match backend_error("e") {
        FilePickerError::Backend(m) => assert_eq!(m, "WinUI file picker failed: e"),
        _ => panic!("expected a backend error"),
    }
    let FilePickerOpenError::BackendUnavailable(m) = open_error("no window");
    assert_eq!(m, "WinUI file picker unavailable: no window");
}

#[test]
fn picker_callbacks_run_once_or_are_discarded() {
    let mut callbacks: CallbackRegistry<&str> = CallbackRegistry::new();
    let a = register_callback(&mut callbacks, "a");
    let b = register_callback(&mut callbacks, "b");
    assert_eq!(complete_callback(&mut callbacks, a), Some("a"));
    assert_eq!(complete_callback(&mut callbacks, a), None);
    discard_callback(&mut callbacks, b);
    assert_eq!(complete_callback(&mut callbacks, b), None);
}
