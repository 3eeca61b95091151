use tedana_core::assets::{asset_path, mime_type};

#[test]
fn request_names_the_path_behind_the_scheme() {
    assert_eq!(asset_path("tedana:///out/report.html"), Some("/out/report.html".to_string()));
    assert_eq!(asset_path("tedana://out/report.html"), Some("/out/report.html".to_string()));
    assert_eq!(asset_path("tedana://"), Some("/".to_string()));
}

#[test]
fn request_outside_the_scheme_names_nothing() {
    assert_eq!(asset_path("http://out/report.html"), None);
    assert_eq!(asset_path("tedana:/out"), None);
    assert_eq!(asset_path(""), None);
}

#[test]
fn media_type_goes_by_extension() {
    assert_eq!(mime_type("/out/report.html"), "text/html");
    assert_eq!(mime_type("/out/style.css"), "text/css");
    assert_eq!(mime_type("/out/app.min.js"), "application/javascript");
    assert_eq!(mime_type("/out/a.png"), "image/jpeg");
    assert_eq!(mime_type("/out/a.jpg"), "image/jpeg");
    assert_eq!(mime_type("/out/a.jpeg"), "image/jpeg");
    assert_eq!(mime_type("/out/a.svg"), "image/svg+xml");
    assert_eq!(mime_type("html"), "text/html");
}

#[test]
fn unknown_extension_is_served_as_bytes() {
    assert_eq!(mime_type("/out/data.tsv"), "application/octet-stream");
    assert_eq!(mime_type("/out/report.HTML"), "application/octet-stream");
    assert_eq!(mime_type("/out.html/report"), "application/octet-stream");
    assert_eq!(mime_type("/out/report."), "application/octet-stream");
    assert_eq!(mime_type(""), "application/octet-stream");
}
