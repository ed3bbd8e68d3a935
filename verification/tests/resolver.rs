use dot_manager::config::{Config, ConfigError, Dotfile, Dotfiles};
use dot_manager::resolve::{resolve_config, ResolvedDotfile};

fn config_with(remote: &str, home: Option<&str>, files: Vec<Dotfile>) -> Config {
    Config {
        remote_path: remote.to_string(),
        home_path: home.map(|h| h.to_string()),
        files: Dotfiles(files),
    }
}

fn entry(local: &str, remote: Option<&str>) -> Dotfile {
    Dotfile { local_path: local.to_string(), remote_path: remote.map(|r| r.to_string()) }
}

#[test]
fn resolves_relative_local_path_against_env_home() {
    let config = config_with("/mnt/sync", None, vec![entry(".bashrc", None)]);
    let resolved = resolve_config(&config, &Some("/home/u".to_string())).unwrap();
    assert_eq!(
        resolved,
        vec![ResolvedDotfile {
            local_short: ".bashrc".to_string(),
            local_full: "/home/u/.bashrc".to_string(),
            remote_short: ".bashrc".to_string(),
            remote_full: "/mnt/sync/.bashrc".to_string(),
        }]
    );
}

#[test]
fn configured_home_takes_precedence_over_env() {
    let config = config_with("/mnt/sync", Some("/override"), vec![entry(".bashrc", None)]);
    let resolved = resolve_config(&config, &Some("/home/u".to_string())).unwrap();
    assert_eq!(resolved[0].local_full, "/override/.bashrc");
}

#[test]
fn absolute_local_path_needs_no_home() {
    let config = config_with("/mnt/sync", None, vec![entry("/etc/hosts", Some("hosts"))]);
    let resolved = resolve_config(&config, &None).unwrap();
    assert_eq!(resolved[0].local_full, "/etc/hosts");
    assert_eq!(resolved[0].remote_full, "/mnt/sync/hosts");
}

#[test]
fn relative_remote_root_is_joined_onto_home() {
    let config = config_with("sync", None, vec![entry(".bashrc", None)]);
    let resolved = resolve_config(&config, &Some("/home/u".to_string())).unwrap();
    assert_eq!(resolved[0].remote_full, "/home/u/sync/.bashrc");
}

#[test]
fn explicit_remote_path_is_kept_as_short_path() {
    let config = config_with(
        "/mnt/sync",
        Some("/home/u"),
        vec![entry("nvim/init.lua", Some("init.lua"))],
    );
    let resolved = resolve_config(&config, &None).unwrap();
    assert_eq!(resolved[0].remote_short, "init.lua");
    assert_eq!(resolved[0].remote_full, "/mnt/sync/init.lua");
    assert_eq!(resolved[0].local_full, "/home/u/nvim/init.lua");
}

#[test]
fn missing_home_for_relative_path_is_fatal() {
    let config = config_with("/mnt/sync", None, vec![entry("nvim/init.lua", None)]);
    let err = resolve_config(&config, &None).unwrap_err();
    assert_eq!(err, ConfigError::NoHomePath);
    assert_eq!(err.message(), "failed to determine `HOME` path");
}

#[test]
fn missing_home_for_relative_remote_root_is_fatal() {
    let config = config_with("sync", None, vec![]);
    let err = resolve_config(&config, &None).unwrap_err();
    assert_eq!(err, ConfigError::NoHomePath);
}

#[test]
fn directory_local_path_without_remote_is_fatal() {
    let config = config_with("/mnt/sync", Some("/home/u"), vec![entry("config/", None)]);
    let err = resolve_config(&config, &None).unwrap_err();
    assert_eq!(err, ConfigError::NoRemotePath);
    assert_eq!(err.message(), "failed to determine remote path");
}

#[test]
fn first_fault_wins_over_later_files() {
    let config = config_with(
        "/mnt/sync",
        Some("/home/u"),
        vec![entry("config/", None), entry(".bashrc", None)],
    );
    assert_eq!(resolve_config(&config, &None).unwrap_err(), ConfigError::NoRemotePath);
}

#[test]
fn empty_file_list_resolves_to_nothing() {
    let config = config_with("/mnt/sync", None, vec![]);
    assert_eq!(resolve_config(&config, &None).unwrap(), vec![]);
    let files = Dotfiles::new();
    assert!(files.is_empty());
}

#[test]
fn pushing_a_tracked_file_fills_the_list() {
    let mut files = Dotfiles::new();
    assert!(files.is_empty());
    files.push(entry(".bashrc", None));
    assert!(!files.is_empty());
    assert_eq!(files.0.len(), 1);
    assert_eq!(files.0[0].local_path, ".bashrc");
}
