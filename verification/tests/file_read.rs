use app_server_core::file_read::{media_type_for_path, path_extension_exec, validate_client_file_type};

fn ext(path: &str) -> Option<String> {
    path_extension_exec(path).map(|v| v.into_iter().collect())
}

#[test]
fn extensions_follow_the_file_name() {
    assert_eq!(ext("/ws/docs/a.MD"), Some("MD".to_string()));
    assert_eq!(ext("/ws/.bashrc"), None);
    assert_eq!(ext("/ws/.a.b"), Some("b".to_string()));
    assert_eq!(ext("/ws/notes"), None);
    assert_eq!(ext("/ws/foo.txt/."), Some("txt".to_string()));
    assert_eq!(ext("/ws/foo.txt/.."), None);
    assert_eq!(ext("/"), None);
}

#[test]
fn media_types_by_extension() {
    assert_eq!(media_type_for_path("/ws/docs/readme.Md"), "text/markdown");
    assert_eq!(media_type_for_path("/ws/models/cube.scad"), "text/plain");
    assert_eq!(media_type_for_path("/ws/a.txt"), "text/plain");
    assert_eq!(media_type_for_path("/ws/shot.PNG"), "image/png");
    assert_eq!(media_type_for_path("/ws/shot.jpeg"), "image/jpeg");
    assert_eq!(media_type_for_path("/ws/shot.jpg"), "image/jpeg");
    assert_eq!(media_type_for_path("/ws/model.stl"), "application/octet-stream");
    assert_eq!(media_type_for_path("/ws/Makefile"), "application/octet-stream");
}

#[test]
fn clients_refuse_listed_types() {
    let denied = vec![".stl".to_string(), ".3mf".to_string()];
    assert_eq!(validate_client_file_type("/ws/outputs/part.STL", &denied), Err("当前 client 不允许读取 .stl 文件".to_string()));
    assert!(validate_client_file_type("/ws/outputs/part.step", &denied).is_ok());
    assert!(validate_client_file_type("/ws/README", &denied).is_ok());
}
