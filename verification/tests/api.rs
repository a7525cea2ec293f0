use inventory_dashboard::api::{
    asset_path, asset_reply, AssetReply, create_reply, delete_reply, list_reply, not_found_message, update_reply,
};

#[test]
fn asset_paths() {
    assert_eq!(asset_path("/"), "index.html");
    assert_eq!(asset_path(""), "index.html");
    assert_eq!(asset_path("///"), "index.html");
    assert_eq!(asset_path("/app.js"), "app.js");
    assert_eq!(asset_path("//pkg/app_bg.wasm"), "pkg/app_bg.wasm");
    assert_eq!(asset_path("style.css"), "style.css");
}

#[test]
fn not_found_names_the_id() {
    assert_eq!(not_found_message(17), "ID 17 tidak ditemukan");
}

#[test]
fn update_replies() {
    let r = update_reply(3, Ok(true));
    assert_eq!((r.status, r.error, r.notify), (200, None, true));
    let r = update_reply(3, Ok(false));
    assert_eq!((r.status, r.error.as_deref(), r.notify), (404, Some("ID 3 tidak ditemukan"), false));
    let r = update_reply(3, Err("disk".to_string()));
    assert_eq!((r.status, r.error.as_deref(), r.notify), (500, Some("disk"), false));
}

#[test]
fn delete_replies() {
    let r = delete_reply(8, Ok(true));
    assert_eq!((r.status, r.error, r.notify), (204, None, true));
    let r = delete_reply(8, Ok(false));
    assert_eq!((r.status, r.error.as_deref(), r.notify), (404, Some("ID 8 tidak ditemukan"), false));
    let r = delete_reply(8, Err("locked".to_string()));
    assert_eq!((r.status, r.error.as_deref(), r.notify), (500, Some("locked"), false));
}

#[test]
fn create_and_list_replies() {
    let r = create_reply(Ok(()));
    assert_eq!((r.status, r.error, r.notify), (201, None, true));
    let r = create_reply(Err("full".to_string()));
    assert_eq!((r.status, r.error.as_deref(), r.notify), (500, Some("full"), false));
    let r = list_reply(Ok(()));
    assert_eq!((r.status, r.error, r.notify), (200, None, false));
    let r = list_reply(Err("io".to_string()));
    assert_eq!((r.status, r.error.as_deref(), r.notify), (500, Some("io"), false));
}

#[test]
fn asset_replies() {
    match asset_reply("/app.js", true, true) {
        AssetReply::Asset { path, content_type } => {
            assert_eq!(path, "app.js");
            assert_eq!(content_type, "text/javascript");
        }
        _ => panic!("expected the asset"),
    }
    match asset_reply("//pkg/app_bg.wasm", true, false) {
        AssetReply::Asset { path, content_type } => {
            assert_eq!(path, "pkg/app_bg.wasm");
            assert_eq!(content_type, "application/wasm");
        }
        _ => panic!("expected the asset"),
    }
    match asset_reply("/", true, true) {
        AssetReply::Asset { path, content_type } => {
            assert_eq!(path, "index.html");
            assert_eq!(content_type, "text/html");
        }
        _ => panic!("expected the asset"),
    }
    match asset_reply("/data.unknownext", true, false) {
        AssetReply::Asset { content_type, .. } => assert_eq!(content_type, "application/octet-stream"),
        _ => panic!("expected the asset"),
    }
    match asset_reply("/missing.css", false, true) {
        AssetReply::Index { content_type } => assert_eq!(content_type, "text/html"),
        _ => panic!("expected the index"),
    }
    match asset_reply("/missing.css", false, false) {
        AssetReply::NotFound { message } => assert_eq!(message, "404 Not Found"),
        _ => panic!("expected a 404"),
    }
}
