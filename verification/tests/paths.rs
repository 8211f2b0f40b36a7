use tailcloak::paths::{config_dir, config_path, join, pause_path, state_dir, DirError};

#[test]
fn xdg_variable_wins_when_set() {
    assert_eq!(
        config_dir(Some("/xdg/config"), Some("/home/me")),
        Ok("/xdg/config/tailcloak".to_string())
    );
    assert_eq!(
        state_dir(Some("/xdg/state/"), Some("/home/me")),
        Ok("/xdg/state/tailcloak".to_string())
    );
}

#[test]
fn empty_or_unset_variable_falls_back_to_home() {
    assert_eq!(
        config_dir(Some(""), Some("/home/me")),
        Ok("/home/me/.config/tailcloak".to_string())
    );
    assert_eq!(
        state_dir(None, Some("/home/me")),
        Ok("/home/me/.local/state/tailcloak".to_string())
    );
    assert_eq!(config_dir(None, None), Err(DirError::NoHomeDirectory));
    assert_eq!(DirError::NoHomeDirectory.message(), "could not determine home directory");
}

#[test]
fn files_inside_the_directories() {
    assert_eq!(
        config_path(None, Some("/home/me")),
        Ok("/home/me/.config/tailcloak/config.toml".to_string())
    );
    assert_eq!(
        pause_path(Some("/s"), None),
        Ok("/s/tailcloak/pause-until".to_string())
    );
}

#[test]
fn join_follows_path_rules() {
    assert_eq!(join("a", "b"), "a/b");
    assert_eq!(join("a/", "b"), "a/b");
    assert_eq!(join("", "b"), "b");
    assert_eq!(join("a", "/b"), "/b");
}
