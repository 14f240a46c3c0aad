use agent_browser::error::Error;
use agent_browser::media::{parse_png_dimensions, screenshot_from_base64, screenshot_from_png};
use agent_browser::paths::{
    absolute_path, check_path_components, ensure_path_allowed, has_parent_component, validate_directory_path,
    validate_file_path,
};

fn png_header(width: u32, height: u32) -> Vec<u8> {
    let mut v = vec![0x89, b'P', b'N', b'G', 0x0d, 0x0a, 0x1a, 0x0a, 0, 0, 0, 13, b'I', b'H', b'D', b'R'];
    v.extend_from_slice(&width.to_be_bytes());
    v.extend_from_slice(&height.to_be_bytes());
    v
}

#[test]
fn png_dimensions_read_big_endian() {
    assert_eq!(parse_png_dimensions(&png_header(1280, 720)), Some((1280, 720)));
    assert_eq!(parse_png_dimensions(&png_header(0x01020304, 0xfffffffe)), Some((0x01020304, 0xfffffffe)));
    assert_eq!(parse_png_dimensions(&png_header(1, 1)[..23]), None);
}

#[test]
fn screenshot_from_png_encodes_and_measures() {
    let shot = screenshot_from_png(&png_header(3, 2));
    assert_eq!(shot.format, "png");
    assert_eq!((shot.width, shot.height), (3, 2));
    assert!(shot.data.starts_with("iVBORw0KGgo"));
    let short = screenshot_from_png(&vec![1, 2, 3]);
    assert_eq!(short.data, "AQID");
    assert_eq!((short.width, short.height), (0, 0));
}

#[test]
fn screenshot_from_base64_decodes() {
    let shot = screenshot_from_base64("AQID".to_string());
    match shot {
        Ok(s) => {
            assert_eq!(s.data, "AQID");
            assert_eq!((s.width, s.height), (0, 0));
        }
        Err(_) => panic!("valid base64"),
    }
    match screenshot_from_base64("not base64!".to_string()) {
        Err(Error::Other(m)) => assert!(m.starts_with("Base64 decode error: ")),
        _ => panic!("invalid base64 must fail"),
    }
}

#[test]
fn parent_components_are_refused() {
    assert!(has_parent_component("../etc/passwd"));
    assert!(has_parent_component("/tmp/a/../b"));
    assert!(has_parent_component("a/.."));
    assert!(!has_parent_component("/tmp/a..b/c"));
    assert!(!has_parent_component("/tmp/.../c"));
    match check_path_components("x/../y") {
        Err(Error::InvalidPath(m)) => assert_eq!(m, "Parent-directory components are not allowed"),
        _ => panic!("must refuse"),
    }
    assert!(check_path_components("x/y").is_ok());
}

#[test]
fn relative_paths_join_the_working_directory() {
    assert_eq!(absolute_path("/abs/file", "/cwd"), "/abs/file");
    assert_eq!(absolute_path("rel/file", "/cwd"), "/cwd/rel/file");
}

#[test]
fn file_paths_stay_inside_allowed_roots() {
    let roots = vec![None, Some("/srv/uploads".to_string())];
    assert!(ensure_path_allowed("/srv/uploads/a.txt", &roots).is_ok());
    assert!(ensure_path_allowed("/srv/uploads", &roots).is_ok());
    match ensure_path_allowed("/srv/uploads-evil/a.txt", &roots) {
        Err(Error::InvalidPath(m)) => {
            assert_eq!(m, "Path is outside configured allowed roots: /srv/uploads-evil/a.txt")
        }
        _ => panic!("must refuse"),
    }
    assert!(ensure_path_allowed("/srv/uploads/a.txt", &vec![None]).is_err());
    let ok = |p: &str| Ok::<String, Error>(p.to_string());
    assert_eq!(
        validate_file_path("uploads/a.txt", ok("/srv/uploads/a.txt"), true, &roots).ok(),
        Some("/srv/uploads/a.txt".to_string())
    );
    match validate_file_path("/srv/uploads/dir", ok("/srv/uploads/dir"), false, &roots) {
        Err(Error::InvalidPath(m)) => assert_eq!(m, "Upload path is not a regular file: /srv/uploads/dir"),
        _ => panic!("must refuse"),
    }
    match validate_file_path("/srv/other/secret.txt", ok("/srv/other/secret.txt"), true, &roots) {
        Err(Error::InvalidPath(m)) => assert_eq!(m, "Path is outside configured allowed roots: /srv/other/secret.txt"),
        _ => panic!("must refuse"),
    }
    match validate_file_path("/srv/uploads/sub/../upload.txt", ok("/srv/uploads/upload.txt"), true, &roots) {
        Err(Error::InvalidPath(m)) => assert_eq!(m, "Parent-directory components are not allowed"),
        _ => panic!("must refuse"),
    }
    let missing = Err(Error::InvalidPath("Path does not exist: /srv/uploads/none".to_string()));
    match validate_file_path("/srv/uploads/none", missing, false, &roots) {
        Err(Error::InvalidPath(m)) => assert_eq!(m, "Path does not exist: /srv/uploads/none"),
        _ => panic!("must refuse"),
    }
    assert!(validate_directory_path("downloads/new", ok("/srv/uploads/downloads/new"), &roots).is_ok());
    assert!(validate_directory_path("/srv/other", ok("/srv/other"), &roots).is_err());
    match validate_directory_path("/srv/uploads/../other", ok("/srv/other"), &roots) {
        Err(Error::InvalidPath(m)) => assert_eq!(m, "Parent-directory components are not allowed"),
        _ => panic!("must refuse"),
    }
}

#[test]
fn base64_is_standard_with_canonical_padding() {
    assert_eq!(screenshot_from_png(&b"Man".to_vec()).data, "TWFu");
    assert_eq!(screenshot_from_png(&b"Ma".to_vec()).data, "TWE=");
    assert_eq!(screenshot_from_png(&b"M".to_vec()).data, "TQ==");
    assert_eq!(screenshot_from_png(&vec![0xfb, 0xff]).data, "+/8=");
    assert!(screenshot_from_base64("TWE=".to_string()).is_ok());
    assert!(screenshot_from_base64("TWE".to_string()).is_err());
    assert!(screenshot_from_base64("TWF=".to_string()).is_err());
    assert!(screenshot_from_base64("TQ=".to_string()).is_err());
}
