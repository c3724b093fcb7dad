use sel::assets::{asset_path, asset_response};

#[test]
fn asset_path_root_is_index() {
    assert_eq!(asset_path("/"), "index.html");
}

#[test]
fn asset_path_drops_leading_slash() {
    assert_eq!(asset_path("/static/app.js"), "static/app.js");
    assert_eq!(asset_path("//x"), "/x");
    assert_eq!(asset_path("/é.png"), "é.png");
}

#[test]
fn asset_response_found_html() {
    let res = asset_response("index.html", Some(b"<html></html>".to_vec()));
    assert_eq!(res.status, 200);
    assert_eq!(res.content_type.as_deref(), Some("text/html"));
    assert_eq!(res.body, b"<html></html>".to_vec());
}

#[test]
fn asset_response_found_script_and_unknown() {
    let res = asset_response("static/app.js", Some(vec![1, 2]));
    assert_eq!(res.content_type.as_deref(), Some("text/javascript"));
    let res = asset_response("data.unknownextension", Some(vec![]));
    assert_eq!(res.content_type.as_deref(), Some("application/octet-stream"));
    assert_eq!(res.status, 200);
    assert!(res.body.is_empty());
}

#[test]
fn asset_response_not_found() {
    let res = asset_response("missing.css", None);
    assert_eq!(res.status, 404);
    assert_eq!(res.content_type, None);
    assert_eq!(res.body, b"404 Not found".to_vec());
}

#[test]
fn found_response_fields() {
    let res = sel::assets::found_response("image/png".to_string(), vec![9, 8]);
    assert_eq!(res.status, 200);
    assert_eq!(res.content_type.as_deref(), Some("image/png"));
    assert_eq!(res.body, vec![9, 8]);
}

#[test]
fn not_found_response_fields() {
    let res = sel::assets::not_found_response();
    assert_eq!(res.status, 404);
    assert_eq!(res.content_type, None);
    assert_eq!(res.body, b"404 Not found".to_vec());
}
