//! Where configurations are kept.
use crate::environment::{Environment, Platform};
use crate::paths;
use crate::paths::{joined_path, tilde_expanded, PathStyle};
use crate::text;
use crate::text::text_option;
use vstd::prelude::*;

verus! {

/// Whose configuration it is.
#[derive(Debug, Clone, Copy, PartialEq, Eq, Structural)]
pub enum ConfigScope {
    User,
    System,
}

/// The name of a configuration file that is yet to be written.
pub const DEFAULT_CONFIG_FILE_NAME: &'static str = "config.yaml";

/// The names of configuration files, the preferred one first.
pub open spec fn config_file_names() -> Seq<Seq<char>> {
    seq![DEFAULT_CONFIG_FILE_NAME@, "config.yml"@, "config.json"@, "config.toml"@]
}

/// The paths at which a directory may hold a configuration, the preferred one first.
pub open spec fn config_paths(style: PathStyle, directory: Seq<char>) -> Seq<Seq<char>> {
    config_file_names().map_values(|name: Seq<char>| joined_path(style, directory, name))
}

/// Where configurations for all users are kept.
pub open spec fn system_directory(environment: Environment) -> Seq<char> {
    if environment.platform == Platform::Windows {
        let base = match environment.program_data {
            Some(path) => path@,
            None => "C:\\ProgramData"@,
        };
        joined_path(PathStyle::Windows, base, "stk"@)
    } else {
        "/etc/stk"@
    }
}

/// Where configurations of a scope are kept.
pub open spec fn config_directory(scope: ConfigScope, environment: Environment) -> Seq<char> {
    match scope {
        ConfigScope::User => joined_path(
            environment.platform.path_style(),
            environment.home_path(),
            ".config/stk"@,
        ),
        ConfigScope::System => system_directory(environment),
    }
}

/// `found` is the first of the paths of `directory` that `files` holds.
pub open spec fn is_discovered(
    style: PathStyle,
    directory: Seq<char>,
    files: Seq<String>,
    found: Option<Seq<char>>,
) -> bool {
    let paths = config_paths(style, directory);
    match found {
        Some(path) => exists|k: int|
            0 <= k < paths.len() && #[trigger] paths[k] == path && text::texts(files).contains(path)
                && forall|j: int|
                0 <= j < k ==> !text::texts(files).contains(#[trigger] paths[j]),
        None => forall|j: int|
            0 <= j < paths.len() ==> !text::texts(files).contains(#[trigger] paths[j]),
    }
}

/// Where configurations of a scope are kept.
pub fn default_config_directory(scope: ConfigScope, environment: &Environment) -> (r: String)
    ensures
        r@ == config_directory(scope, *environment),
{
    match scope {
        ConfigScope::User => {
            paths::join_path(
                environment.platform.path_style(),
                environment.home_directory(),
                ".config/stk",
            )
        },
        ConfigScope::System => system_config_directory(environment),
    }
}

fn system_config_directory(environment: &Environment) -> (r: String)
    ensures
        r@ == system_directory(*environment),
{
    if environment.platform == Platform::Windows {
        match &environment.program_data {
            Some(path) => paths::join_path(PathStyle::Windows, path.as_str(), "stk"),
            None => paths::join_path(PathStyle::Windows, "C:\\ProgramData", "stk"),
        }
    } else {
        "/etc/stk".to_owned()
    }
}

/// The paths at which `directory` may hold a configuration, the preferred one first.
pub fn config_candidates(style: PathStyle, directory: &str) -> (r: Vec<String>)
    ensures
        text::texts(r@) == config_paths(style, directory@),
{
    let mut r: Vec<String> = Vec::new();
    r.push(paths::join_path(style, directory, DEFAULT_CONFIG_FILE_NAME));
    r.push(paths::join_path(style, directory, "config.yml"));
    r.push(paths::join_path(style, directory, "config.json"));
    r.push(paths::join_path(style, directory, "config.toml"));
    assert(text::texts(r@) =~= config_paths(style, directory@));
    r
}

/// The configuration that `directory` holds; `files` lists the paths of files.
pub fn discover_config_path(style: PathStyle, directory: &str, files: &Vec<String>) -> (r: Option<
    String,
>)
    ensures
        is_discovered(style, directory@, files@, text_option(r)),
{
    let candidates = config_candidates(style, directory);
    let ghost paths = config_paths(style, directory@);
    assert(paths.len() == candidates@.len());
    for i in 0..candidates.len()
        invariant
            text::texts(candidates@) == paths,
            paths == config_paths(style, directory@),
            forall|j: int| 0 <= j < i ==> !text::texts(files@).contains(#[trigger] paths[j]),
    {
        assert(paths[i as int] == candidates@[i as int]@);
        if text::contains_text(files, candidates[i].as_str()) {
            return Some(candidates[i].clone());
        }
    }
    None
}

/// `path` is the configuration that `directory` holds, or the one that it would hold.
pub open spec fn is_config_in(
    style: PathStyle,
    directory: Seq<char>,
    files: Seq<String>,
    path: Seq<char>,
) -> bool {
    is_discovered(style, directory, files, Some(path)) || (is_discovered(
        style,
        directory,
        files,
        None,
    ) && path == joined_path(style, directory, DEFAULT_CONFIG_FILE_NAME@))
}

fn config_in(style: PathStyle, directory: &str, files: &Vec<String>) -> (r: String)
    ensures
        is_config_in(style, directory@, files@, r@),
{
    match discover_config_path(style, directory, files) {
        Some(path) => path,
        None => paths::join_path(style, directory, DEFAULT_CONFIG_FILE_NAME),
    }
}

/// The configuration of a scope, where none is named; `files` lists the paths of files.
pub fn default_config_path(
    scope: ConfigScope,
    environment: &Environment,
    files: &Vec<String>,
) -> (r: String)
    ensures
        is_config_in(
            environment.platform.path_style(),
            config_directory(scope, *environment),
            files@,
            r@,
        ),
{
    let directory = default_config_directory(scope, environment);
    config_in(environment.platform.path_style(), directory.as_str(), files)
}

/// The path that is named, with the user's home directory for a tilde, or the directory of the
/// scope, where none is named.
pub fn config_location(
    explicit: Option<&str>,
    scope: ConfigScope,
    environment: &Environment,
) -> (r: String)
    ensures
        r@ == (match explicit {
            Some(path) => tilde_expanded(path@, environment.home_place()),
            None => config_directory(scope, *environment),
        }),
{
    match explicit {
        Some(path) => {
            paths::expand_tilde(path, &environment.user_home())
        },
        None => default_config_directory(scope, environment),
    }
}

/// The configuration to use: the file that is named, else what the directory that is named, or
/// the directory of the scope, holds. `is_directory` says whether `config_location` is a
/// directory, and `files` lists the paths of files.
pub fn resolve_config_path(
    explicit: Option<&str>,
    scope: ConfigScope,
    environment: &Environment,
    is_directory: bool,
    files: &Vec<String>,
) -> (r: String)
    ensures
        (match explicit {
            Some(path) => {
                let expanded = tilde_expanded(path@, environment.home_place());
                if is_directory {
                    is_config_in(environment.platform.path_style(), expanded, files@, r@)
                } else {
                    r@ == expanded
                }
            },
            None => is_config_in(
            environment.platform.path_style(),
            config_directory(scope, *environment),
            files@,
            r@,
        ),
        }),
{
    match explicit {
        Some(_) => {
            let path = config_location(explicit, scope, environment);
            if is_directory {
                config_in(environment.platform.path_style(), path.as_str(), files)
            } else {
                path
            }
        },
        None => default_config_path(scope, environment, files),
    }
}

/// A directory holds one configuration at most.
pub proof fn discovery_is_unique(
    style: PathStyle,
    directory: Seq<char>,
    files: Seq<String>,
    a: Option<Seq<char>>,
    b: Option<Seq<char>>,
)
    requires
        is_discovered(style, directory, files, a),
        is_discovered(style, directory, files, b),
    ensures
        a == b,
{
    let paths = config_paths(style, directory);
    if a is Some && b is Some {
        let i = choose|k: int|
            0 <= k < paths.len() && #[trigger] paths[k] == a->0 && text::texts(files).contains(
                a->0,
            ) && forall|j: int|
                0 <= j < k ==> !text::texts(files).contains(#[trigger] paths[j]);
        let j = choose|k: int|
            0 <= k < paths.len() && #[trigger] paths[k] == b->0 && text::texts(files).contains(
                b->0,
            ) && forall|j: int|
                0 <= j < k ==> !text::texts(files).contains(#[trigger] paths[j]);
        assert(i == j);
    }
}

/// A directory is looked through for four files, by name: YAML under two endings, then JSON, then
/// TOML. The first of them that is there is taken, and nothing else ever is.
pub proof fn yaml_comes_before_json_and_toml(
    style: PathStyle,
    directory: Seq<char>,
    files: Seq<String>,
    found: Option<Seq<char>>,
)
    requires
        is_discovered(style, directory, files, found),
    ensures
        ({
            let there = text::texts(files);
            let yaml = joined_path(style, directory, "config.yaml"@);
            let yml = joined_path(style, directory, "config.yml"@);
            let json = joined_path(style, directory, "config.json"@);
            let toml = joined_path(style, directory, "config.toml"@);
            if there.contains(yaml) {
                found == Some(yaml)
            } else if there.contains(yml) {
                found == Some(yml)
            } else if there.contains(json) {
                found == Some(json)
            } else if there.contains(toml) {
                found == Some(toml)
            } else {
                found is None
            }
        }),
{
    let paths = config_paths(style, directory);
    assert(paths.len() == 4);
    assert(paths[0] == joined_path(style, directory, "config.yaml"@));
    assert(paths[1] == joined_path(style, directory, "config.yml"@));
    assert(paths[2] == joined_path(style, directory, "config.json"@));
    assert(paths[3] == joined_path(style, directory, "config.toml"@));
    if found is Some {
        let k = choose|k: int|
            0 <= k < paths.len() && #[trigger] paths[k] == found->0 && text::texts(files).contains(
                found->0,
            ) && forall|j: int|
                0 <= j < k ==> !text::texts(files).contains(#[trigger] paths[j]);
        assert(k == 0 || k == 1 || k == 2 || k == 3);
    }
}

/// Where nothing is found, the configuration would be `config.yaml` in that directory.
pub proof fn new_configurations_are_yaml(
    style: PathStyle,
    directory: Seq<char>,
    files: Seq<String>,
    path: Seq<char>,
)
    requires
        is_config_in(style, directory, files, path),
        is_discovered(style, directory, files, None),
    ensures
        path == joined_path(style, directory, "config.yaml"@),
{
    if is_discovered(style, directory, files, Some(path)) {
        discovery_is_unique(style, directory, files, None, Some(path));
    }
}

/// A user's configuration is in `.config/stk` below their home directory; that for all users is
/// in `/etc/stk`, and on Windows in `stk` below the directory for the data of programs.
pub proof fn configurations_have_their_places(environment: Environment)
    ensures
        environment.platform != Platform::Windows ==> config_directory(
            ConfigScope::System,
            environment,
        ) == "/etc/stk"@,
        environment.platform == Platform::Windows && environment.program_data is Some
            ==> config_directory(ConfigScope::System, environment) == joined_path(
            PathStyle::Windows,
            environment.program_data->0@,
            "stk"@,
        ),
        environment.platform == Platform::Windows && environment.program_data is None
            ==> config_directory(ConfigScope::System, environment) == joined_path(
            PathStyle::Windows,
            "C:\\ProgramData"@,
            "stk"@,
        ),
        environment.home is Some ==> config_directory(ConfigScope::User, environment)
            == joined_path(
            environment.platform.path_style(),
            environment.home->0@,
            ".config/stk"@,
        ),
        environment.home is None && environment.user_profile is Some ==> config_directory(
            ConfigScope::User,
            environment,
        ) == joined_path(
            environment.platform.path_style(),
            environment.user_profile->0@,
            ".config/stk"@,
        ),
{
}

} // verus!
