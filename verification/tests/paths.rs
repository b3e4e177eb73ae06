//! Paths.

use voxtype_meeting_service::error::AppError;
use voxtype_meeting_service::paths::{current_uid, env_path, is_within, join, parent, PathResolver};

fn resolver(
    home: &str,
    config: Option<&str>,
    data: Option<&str>,
    runtime: Option<&str>,
) -> PathResolver {
    PathResolver::from_parts(
        home.to_string(),
        config.map(str::to_string),
        data.map(str::to_string),
        runtime.map(str::to_string),
        1000,
    )
}

#[test]
fn xdg_data_home() {
    let paths = resolver("/home/xa", None, Some("/custom/data"), None);
    assert_eq!(paths.data_dir(), "/custom/data/voxtype-meeting-service");
    assert_eq!(
        paths.db_path(),
        "/custom/data/voxtype-meeting-service/voxtype-meeting-service.db"
    );
}

#[test]
fn xdg_data_default() {
    let paths = resolver("/home/xa", None, None, None);
    assert_eq!(paths.data_dir(), "/home/xa/.local/share/voxtype-meeting-service");
    assert_eq!(
        paths.sessions_dir(),
        "/home/xa/.local/share/voxtype-meeting-service/sessions"
    );
    assert_eq!(
        paths.session_dir("90e351d4-24cc-4ca1-bfd7-87d36aa9b021"),
        "/home/xa/.local/share/voxtype-meeting-service/sessions/90e351d4-24cc-4ca1-bfd7-87d36aa9b021"
    );
    assert_eq!(
        paths.models_dir(),
        "/home/xa/.local/share/voxtype-meeting-service/models"
    );
}

#[test]
fn xdg_config_default() {
    let paths = resolver("/home/xa", None, None, None);
    assert_eq!(paths.config_dir(), "/home/xa/.config/voxtype-meeting-service");
    assert_eq!(
        paths.config_file(),
        "/home/xa/.config/voxtype-meeting-service/config.toml"
    );
}

#[test]
fn xdg_config_home() {
    let paths = resolver("/home/xa", Some("/custom/config"), None, None);
    assert_eq!(
        paths.config_file(),
        "/custom/config/voxtype-meeting-service/config.toml"
    );
}

#[test]
fn runtime_dir_from_xdg() {
    let paths = resolver("/home/xa", None, None, Some("/run/user/1000"));
    assert_eq!(
        paths.runtime_dir(false).expect("runtime"),
        "/run/user/1000/voxtype-meeting-service"
    );
    assert_eq!(
        paths.control_socket(false).expect("socket"),
        "/run/user/1000/voxtype-meeting-service/voxtype-meeting-service.sock"
    );
}

#[test]
fn the_runtime_directory_of_the_user() {
    let paths = resolver("/home/xa", None, None, None);
    assert_eq!(paths.user_runtime_dir(), "/run/user/1000");
    assert!(paths.runtime_dir(false).is_err());
    assert_eq!(
        paths.runtime_dir(true).unwrap(),
        "/run/user/1000/voxtype-meeting-service"
    );
}

#[test]
fn the_environment_is_read() {
    assert_eq!(env_path(Some(String::new())), None);
    let home = Some("/home/xa".to_string());
    let paths =
        PathResolver::from_env(home.clone(), Some(String::new()), None, None, Ok(7)).unwrap();
    assert_eq!(paths.config_dir(), "/home/xa/.config/voxtype-meeting-service");
    assert_eq!(paths.home(), "/home/xa");
    assert!(PathResolver::from_env(None, None, None, None, Ok(7)).is_err());
    assert!(PathResolver::from_env(home, None, None, None, Err(AppError::path("no"))).is_err());
    assert_eq!(current_uid("Name:\tx\nUid:\t1001\t1001\t1001\t1001\n").unwrap(), 1001);
    assert!(current_uid("Name:\tx\n").is_err());
}

#[test]
fn paths_are_joined_and_taken_apart() {
    let cases = [
        ("/a/b", "c"),
        ("/a/b/", "c"),
        ("/a", "/c"),
        ("", "c"),
        ("/a", ""),
        ("/", "c"),
    ];
    for (base, path) in cases {
        assert_eq!(
            join(base, path),
            std::path::Path::new(base).join(path).to_str().unwrap(),
            "{base} {path}"
        );
    }
    for path in ["/a/b/c", "/a/b/", "/a", "/", "a", "a/b", "", "/a//b", "a//", "//a"] {
        assert_eq!(
            parent(path).as_deref(),
            std::path::Path::new(path).parent().map(|p| p.to_str().unwrap()),
            "{path}"
        );
    }
    for (path, dir) in [
        ("/a/b/c", "/a/b"),
        ("/a/bc", "/a/b"),
        ("/a/b", "/a/b/"),
        ("/a//b/c", "/a/b"),
        ("a/b", "/a"),
        ("/a/./b/c", "/a/b"),
        ("/a", "/a/b"),
        ("/a/b", "/"),
        ("a", ""),
    ] {
        assert_eq!(
            is_within(path, dir),
            std::path::Path::new(path).starts_with(dir),
            "{path} {dir}"
        );
    }
}
