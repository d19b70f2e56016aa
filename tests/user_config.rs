use std::path::PathBuf;

use jj_config::user_config::{
    config_from_overrides, config_path, default_mergetool_config, env_base, env_base_overrides, env_overrides,
    env_overrides_list, ConfigError,
};

fn some(s: &str) -> Option<String> {
    Some(s.to_string())
}

fn pairs(items: &[(&str, &str)]) -> Vec<(String, String)> {
    items.iter().map(|(k, v)| (k.to_string(), v.to_string())).collect()
}

#[test]
fn path_from_environment_wins() {
    let r = config_path(
        Some(PathBuf::from("/env/config.toml")),
        Some(PathBuf::from("/xdg/jj/config.toml")),
        Some(PathBuf::from("/home/.jjconfig.toml")),
    );
    assert_eq!(r.unwrap(), Some(PathBuf::from("/env/config.toml")));
}

#[test]
fn two_existing_files_are_ambiguous() {
    let r = config_path(
        None,
        Some(PathBuf::from("/xdg/jj/config.toml")),
        Some(PathBuf::from("/home/.jjconfig.toml")),
    );
    match r {
        Err(ConfigError::AmbiguousSource(a, b)) => {
            assert_eq!(a, PathBuf::from("/xdg/jj/config.toml"));
            assert_eq!(b, PathBuf::from("/home/.jjconfig.toml"));
        }
        other => panic!("unexpected: {other:?}"),
    }
}

#[test]
fn one_existing_file_is_used() {
    let r = config_path(None, Some(PathBuf::from("/xdg/jj/config.toml")), None);
    assert_eq!(r.unwrap(), Some(PathBuf::from("/xdg/jj/config.toml")));
    let r = config_path(None, None, Some(PathBuf::from("/home/.jjconfig.toml")));
    assert_eq!(r.unwrap(), Some(PathBuf::from("/home/.jjconfig.toml")));
    let r = config_path(None, None, None);
    assert_eq!(r.unwrap(), None);
}

#[test]
fn base_overrides_from_environment() {
    assert_eq!(env_base_overrides(false, None, None, None), Vec::new());
    assert_eq!(
        env_base_overrides(true, some("less"), some("code"), some("vi")),
        pairs(&[("ui.color", "never"), ("ui.pager", "less"), ("ui.editor", "code")])
    );
    assert_eq!(
        env_base_overrides(false, None, None, some("vi")),
        pairs(&[("ui.editor", "vi")])
    );
}

#[test]
fn user_overrides_from_environment() {
    assert_eq!(
        env_overrides_list(None, None, None, None, None, None, None),
        Vec::new()
    );
    assert_eq!(
        env_overrides_list(
            some("Test User"),
            some("test@example.com"),
            some("2001-02-03T04:05:06+07:00"),
            None,
            some("host.example.com"),
            some("test-username"),
            some("nano"),
        ),
        pairs(&[
            ("user.name", "Test User"),
            ("user.email", "test@example.com"),
            ("user.timestamp", "2001-02-03T04:05:06+07:00"),
            ("operation.hostname", "host.example.com"),
            ("operation.username", "test-username"),
            ("ui.editor", "nano"),
        ])
    );
}

#[test]
fn base_config_holds_the_overrides() {
    let c = env_base(true, some("less -R"), None, some("vi")).unwrap();
    assert_eq!(c.get_string("ui.color").unwrap(), "never");
    assert_eq!(c.get_string("ui.pager").unwrap(), "less -R");
    assert_eq!(c.get_string("ui.editor").unwrap(), "vi");
}

#[test]
fn override_config_holds_the_overrides() {
    let c = env_overrides(some("me"), None, None, some("t"), None, None, some("ed")).unwrap();
    assert_eq!(c.get_string("user.name").unwrap(), "me");
    assert_eq!(c.get_string("operation.timestamp").unwrap(), "t");
    assert_eq!(c.get_string("ui.editor").unwrap(), "ed");
    assert!(c.get_string("user.email").is_err());
}

#[test]
fn merge_tools_are_known_by_default() {
    let c = default_mergetool_config().unwrap();
    assert_eq!(c.get_string("merge-tools.vimdiff.program").unwrap(), "vim");
    assert!(c.get_bool("merge-tools.vimdiff.merge-tool-edits-conflict-markers").unwrap());
    let meld: Vec<String> = c.get("merge-tools.meld.merge-args").unwrap();
    assert_eq!(meld, ["$left", "$base", "$right", "-o", "$output", "--auto-merge"]);
}

#[test]
fn later_override_wins() {
    let c = config_from_overrides(&pairs(&[("a.b", "1"), ("a.b", "2"), ("c", "x")])).unwrap();
    assert_eq!(c.get_string("a.b").unwrap(), "2");
    assert_eq!(c.get_string("c").unwrap(), "x");
}

#[test]
fn nested_keys_still_build() {
    let r = config_from_overrides(&pairs(&[("a", "x"), ("a.b", "y")]));
    assert!(r.is_ok());
}

#[test]
fn keys_with_spaces_and_dashes() {
    let c = config_from_overrides(&pairs(&[("merge-tools.my tool", "v")])).unwrap();
    assert_eq!(c.get_string("merge-tools.my tool").unwrap(), "v");
}
