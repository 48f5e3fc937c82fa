use nestix_native_winui::web_view::{
    choose_resource, document_html, webview_background, ArgbColor, inject_base_url, percent_encode_path, resolve_document_resource,
    resource_host, resource_path_is_valid, resource_url, validate_resource_path, PathPart, ResourceError,
};

#[test]
fn html_base_url_is_inserted_in_head() {
    assert_eq!(
        inject_base_url("<html><head></head></html>", "https://example.com/&\""),
        "<html><head><base href=\"https://example.com/&amp;&quot;\"></head></html>"
    );
}

#[test]
fn base_url_goes_after_head_with_attributes_in_any_case() {
    assert_eq!(
        inject_base_url("<HTML><HEAD lang=\"en\"><title>x</title></HEAD></HTML>", "a<b>"),
        "<HTML><HEAD lang=\"en\"><base href=\"a&lt;b&gt;\"><title>x</title></HEAD></HTML>"
    );
}

#[test]
fn base_url_is_prepended_without_head() {
    assert_eq!(inject_base_url("<p>hi</p>", "x"), "<base href=\"x\"><p>hi</p>");
}

#[test]
fn base_url_is_prepended_when_head_is_not_closed() {
    assert_eq!(inject_base_url("<head", "x"), "<base href=\"x\"><head");
}

#[test]
fn header_tag_counts_as_head_opening() {
    assert_eq!(inject_base_url("<header>", "u"), "<header><base href=\"u\">");
}

#[test]
fn non_ascii_document_keeps_its_characters() {
    assert_eq!(
        inject_base_url("<head>é</head>", "ü"),
        "<head><base href=\"ü\">é</head>"
    );
}

#[test]
fn document_html_without_base_url_is_unchanged() {
    assert_eq!(document_html("<p>a</p>", None), "<p>a</p>");
    assert_eq!(document_html("<head></head>", Some("b")), "<head><base href=\"b\"></head>");
}

#[test]
fn percent_encoding_keeps_unreserved_and_escapes_the_rest() {
    assert_eq!(percent_encode_path("index.html"), "index.html");
    assert_eq!(percent_encode_path("A-z_0.9~"), "A-z_0.9~");
    assert_eq!(percent_encode_path("my file#1.html"), "my%20file%231.html");
    assert_eq!(percent_encode_path("é"), "%C3%A9");
    assert_eq!(percent_encode_path(""), "");
}

#[test]
fn resource_urls_name_a_local_host() {
    assert_eq!(resource_host(7), "nestix-resource-7.local");
    assert_eq!(
        resource_url("nestix-resource-7.local", "page one.html"),
        "https://nestix-resource-7.local/page%20one.html"
    );
}

#[test]
fn resource_paths_reject_traversal() {
    assert!(!validate_resource_path("../index.html"));
    assert!(!validate_resource_path(""));
}

#[test]
fn plain_relative_resource_paths_are_accepted() {
    assert!(validate_resource_path("index.html"));
    assert!(validate_resource_path("assets/app.js"));
    assert!(!validate_resource_path("assets/../../secret.txt"));
}

#[test]
fn resource_path_check_refuses_every_non_plain_component() {
    assert!(resource_path_is_valid(false, &vec![PathPart::Normal, PathPart::Normal]));
    assert!(!resource_path_is_valid(true, &vec![]));
    assert!(resource_path_is_valid(false, &vec![]));
    for part in [PathPart::Prefix, PathPart::RootDir, PathPart::CurDir, PathPart::ParentDir] {
        assert!(!resource_path_is_valid(false, &vec![PathPart::Normal, part]));
    }
}

#[test]
fn packaged_resource_is_preferred_over_development_copy() {
    assert_eq!(
        choose_resource(Some("C:/pkg/index.html".to_string()), Some("D:/dev/index.html".to_string())),
        Ok("C:/pkg/index.html".to_string())
    );
    assert_eq!(
        choose_resource(None, Some("D:/dev/index.html".to_string())),
        Ok("D:/dev/index.html".to_string())
    );
    assert_eq!(choose_resource(None, None), Err(ResourceError::NotFound));
}

#[test]
fn resolving_a_resource_checks_the_path_first() {
    assert_eq!(
        resolve_document_resource("../index.html", Some("C:/pkg/index.html".to_string()), None),
        Err(ResourceError::InvalidPath)
    );
    assert_eq!(
        resolve_document_resource("index.html", None, None),
        Err(ResourceError::NotFound)
    );
    assert_eq!(
        resolve_document_resource("index.html", None, Some("D:/dev/index.html".to_string())),
        Ok("D:/dev/index.html".to_string())
    );
}

#[test]
fn transparent_webview_background_is_clear_and_otherwise_white() {
    assert_eq!(webview_background(true), ArgbColor { a: 0, r: 0, g: 0, b: 0 });
    assert_eq!(webview_background(false), ArgbColor { a: 255, r: 255, g: 255, b: 255 });
}

#[test]
fn lone_dot_paths_are_refused_and_lone_names_accepted() {
    assert!(!validate_resource_path("."));
    assert!(!validate_resource_path(".."));
    assert!(validate_resource_path("app.html"));
    assert!(validate_resource_path("..hidden"));
}

#[test]
fn traversal_and_absolute_resource_paths_are_refused() {
    assert!(!validate_resource_path("a/../../index.html"));
    assert!(!validate_resource_path("/index.html"));
    assert!(!validate_resource_path("assets/.."));
    assert!(validate_resource_path("assets/css/site.css"));
    assert_eq!(
        resolve_document_resource("/index.html", Some("C:/pkg/index.html".to_string()), None),
        Err(ResourceError::InvalidPath)
    );
    assert_eq!(
        resolve_document_resource("assets/app.js", Some("C:/pkg/assets/app.js".to_string()), None),
        Ok("C:/pkg/assets/app.js".to_string())
    );
}

#[test]
fn a_leading_current_directory_is_refused() {
    assert!(!validate_resource_path("./index.html"));
    assert!(!validate_resource_path("."));
    assert!(validate_resource_path("index.html"));
}
