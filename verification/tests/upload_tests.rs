use axum_admin::upload::{delete_target, get_file_type, upload_target};

#[test]
fn file_types() {
    assert_eq!(get_file_type("image/jpeg"), ".jpg");
    assert_eq!(get_file_type("image/png"), ".png");
    assert_eq!(get_file_type("image/gif"), ".gif");
    assert_eq!(get_file_type("text/plain"), "");
    assert_eq!(get_file_type(""), "");
}

#[test]
fn upload_layout() {
    let t = upload_target("./data/upload", "/upload", "2023-05", "07", "image/png");
    assert_eq!(t.dir, "./data/upload/2023-05");
    assert!(t.file_name.starts_with("07-"));
    assert!(t.file_name.ends_with(".png"));
    assert_eq!(t.file_name.len(), 3 + 25 + 4);
    assert_eq!(t.file_path, format!("./data/upload/2023-05/{}", t.file_name));
    assert_eq!(t.url_path, format!("/upload/2023-05/{}", t.file_name));
}

#[test]
fn url_names_the_stored_file() {
    let t = upload_target("./data/upload", "/upload", "2023-05", "07", "image/jpeg");
    assert_eq!(delete_target(&t.url_path, "/upload", "./data/upload"), t.file_path);
    assert_eq!(delete_target("/other/x", "/upload", "./d"), "/other/x");
}
