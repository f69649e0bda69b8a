use stk::config_path::{
    config_candidates, config_location, default_config_directory, default_config_path,
    discover_config_path, resolve_config_path, ConfigScope, DEFAULT_CONFIG_FILE_NAME,
};
use stk::environment::{Environment, Platform};
use stk::paths::{
    expand_tilde, file_name, is_absolute, join_path, read_prefix, split_path, HomeDirectory, PathStyle,
    PrefixKind,
};

fn environment() -> Environment {
    let mut environment = Environment::bare(Platform::Linux);
    environment.home = Some("/home/me".to_string());
    environment
}

#[test]
fn discovers_supported_config_formats_in_preference_order() {
    let mut files = vec!["/d/config.toml".to_string()];
    assert_eq!(
        discover_config_path(PathStyle::Unix, "/d", &files),
        Some("/d/config.toml".to_string())
    );

    files.push("/d/config.yaml".to_string());
    assert_eq!(
        discover_config_path(PathStyle::Unix, "/d", &files),
        Some("/d/config.yaml".to_string())
    );
    assert_eq!(discover_config_path(PathStyle::Unix, "/d", &vec![]), None);
    assert_eq!(
        config_candidates(PathStyle::Unix, "/d"),
        vec![
            "/d/config.yaml",
            "/d/config.yml",
            "/d/config.json",
            "/d/config.toml"
        ]
    );
}

#[test]
fn explicit_directory_uses_default_filename_when_empty() {
    assert_eq!(
        resolve_config_path(Some("/d"), ConfigScope::User, &environment(), true, &vec![]),
        format!("/d/{DEFAULT_CONFIG_FILE_NAME}")
    );
}

#[test]
fn explicit_file_is_preserved() {
    let path = "custom/settings.json";
    assert_eq!(
        resolve_config_path(
            Some(path),
            ConfigScope::System,
            &environment(),
            false,
            &vec![]
        ),
        path
    );
}

#[test]
fn each_scope_has_its_directory() {
    assert_eq!(
        default_config_directory(ConfigScope::User, &environment()),
        "/home/me/.config/stk"
    );
    assert_eq!(
        default_config_directory(ConfigScope::System, &environment()),
        "/etc/stk"
    );
    assert_eq!(
        default_config_path(ConfigScope::System, &environment(), &vec![]),
        "/etc/stk/config.yaml"
    );
    assert_eq!(
        config_location(Some("~/c"), ConfigScope::User, &environment()),
        "/home/me/c"
    );
    let mut windows = Environment::bare(Platform::Windows);
    windows.program_data = Some("D:\\data".to_string());
    assert!(default_config_directory(ConfigScope::System, &windows).starts_with("D:\\data"));
}

#[test]
fn an_unknown_home_is_a_tilde() {
    let mut environment = Environment::bare(Platform::Linux);
    assert_eq!(environment.home_directory(), "~");
    environment.user_profile = Some("/users/me".to_string());
    assert_eq!(environment.home_directory(), "/users/me");
    assert_eq!(environment.local_username(), None);
    environment.username = Some("me".to_string());
    assert_eq!(environment.local_username(), Some("me"));
    environment.user = Some(String::new());
    assert_eq!(environment.local_username(), None);
}

#[test]
fn paths_are_joined_and_expanded() {
    let home = HomeDirectory {
        path: "/h".to_string(),
        style: PathStyle::Unix,
    };
    assert_eq!(join_path(PathStyle::Unix, "/a", "b"), "/a/b");
    assert_eq!(join_path(PathStyle::Unix, "/a/", "b"), "/a/b");
    assert_eq!(join_path(PathStyle::Unix, "/a", "/b"), "/b");
    assert_eq!(expand_tilde("~", &home), "/h");
    assert_eq!(expand_tilde("~\\x", &home), "/h/x");
    assert_eq!(expand_tilde("~x", &home), "~x");
    assert_eq!(file_name(PathStyle::Unix, "/a/b.c"), "b.c");
    assert_eq!(file_name(PathStyle::Unix, "b/"), "b");
}

#[test]
fn windows_paths_are_joined_below_their_prefix() {
    let style = PathStyle::Windows;
    assert_eq!(join_path(style, "h", "C:\\a"), "C:\\a");
    assert_eq!(join_path(style, "C:\\h", "C:a"), "C:a");
    assert_eq!(join_path(style, "C:\\h", "\\\\s\\t\\a"), "\\\\s\\t\\a");
    assert_eq!(join_path(style, "C:\\h", "\\a"), "C:\\a");
    assert_eq!(join_path(style, "C:\\h", "/a"), "C:/a");
    assert_eq!(join_path(style, "\\\\s\\t\\h", "\\a"), "\\\\s\\t\\a");
    assert_eq!(join_path(style, "C:\\h", ".ssh"), "C:\\h\\.ssh");
    assert_eq!(join_path(style, "C:/h/", ".ssh"), "C:/h/.ssh");
    assert_eq!(join_path(style, "C:", "a"), "C:a");
    assert_eq!(join_path(style, "", "a"), "a");
    assert_eq!(join_path(style, "\\\\?\\C:\\h\\i", "..\\.\\a/b"), "\\\\?\\C:\\h\\a\\b");
    assert_eq!(join_path(style, "\\\\?\\C:\\h", "\\a"), "\\\\?\\C:\\a");
    assert_eq!(join_path(style, "\\\\?\\C:", "..\\a"), "\\\\?\\C:\\a");
}

#[test]
fn windows_directories_are_joined() {
    let mut environment = Environment::bare(Platform::Windows);
    environment.user_profile = Some("C:\\Users\\me".to_string());
    assert_eq!(
        default_config_directory(ConfigScope::User, &environment),
        "C:\\Users\\me\\.config/stk"
    );
    assert_eq!(
        default_config_directory(ConfigScope::System, &environment),
        "C:\\ProgramData\\stk"
    );
    environment.program_data = Some("D:\\data\\".to_string());
    assert_eq!(
        default_config_directory(ConfigScope::System, &environment),
        "D:\\data\\stk"
    );
}

#[test]
fn windows_paths_are_absolute_with_prefix_and_root() {
    let style = PathStyle::Windows;
    for path in ["C:\\a", "c:/", "\\\\s\\t", "\\\\?\\x", "\\\\.\\COM1", "//s/t/a"] {
        assert!(is_absolute(style, path), "{path}");
        assert!(!is_absolute(PathStyle::Unix, path) || path.starts_with('/'));
    }
    for path in ["C:a", "C:", "\\a", "/a", "a", "", "\\\\s", "\\\\s\\"] {
        assert!(!is_absolute(style, path), "{path}");
    }
    let kind = |path: &str| read_prefix(style, path).unwrap().kind;
    assert_eq!(kind("\\\\?\\UNC\\s\\t\\a"), PrefixKind::VerbatimShare);
    assert_eq!(kind("\\\\?\\C:\\a"), PrefixKind::VerbatimDrive);
    assert_eq!(kind("\\\\?\\C:a"), PrefixKind::Verbatim);
    assert_eq!(kind("\\\\.\\COM1"), PrefixKind::Device);
    assert_eq!(kind("//?/C:/a"), PrefixKind::Share);
    assert_eq!(kind("c:a"), PrefixKind::Drive);
    let share = read_prefix(style, "\\\\?\\UNC\\s\\t\\a").unwrap();
    assert_eq!((share.first.as_str(), share.second.as_str(), share.len), ("s", "t", 11));
    assert_eq!(split_path(style, "C:.\\a/./b"), vec![".", "a", "b"]);
    assert_eq!(file_name(style, "C:\\a.b\\c.d"), "c.d");
    assert_eq!(file_name(style, "C:c.d\\"), "c.d");
    assert_eq!(file_name(style, "\\\\?\\C:\\a/b"), "a/b");
    assert_eq!(file_name(style, "C:\\"), "");
}
