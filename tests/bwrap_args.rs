use shwrap::bwrap::BwrapBuilder;
use shwrap::config::{CommandConfig, EnvMap};

fn create_test_config() -> CommandConfig {
    CommandConfig {
        enabled: true,
        extends: None,
        share: vec![],
        bind: vec![],
        ro_bind: vec![],
        dev_bind: vec![],
        tmpfs: vec![],
        env: EnvMap::new(),
        unset_env: vec![],
    }
}

#[test]
fn test_build_args_unshare_all_default() {
    let config = create_test_config();
    let builder = BwrapBuilder::new(config);
    let args = builder.build_args();

    assert!(args.contains(&"--unshare-net".to_string()));
    assert!(args.contains(&"--unshare-pid".to_string()));
    assert!(args.contains(&"--unshare-ipc".to_string()));
    assert!(args.contains(&"--unshare-uts".to_string()));
    assert!(args.contains(&"--unshare-user".to_string()));
    assert!(args.contains(&"--unshare-cgroup".to_string()));
}

#[test]
fn test_build_args_share() {
    let mut config = create_test_config();
    config.share = vec!["network".to_string(), "user".to_string()];

    let builder = BwrapBuilder::new(config);
    let args = builder.build_args();

    assert!(!args.contains(&"--unshare-net".to_string()));
    assert!(!args.contains(&"--unshare-user".to_string()));

    assert!(args.contains(&"--unshare-pid".to_string()));
    assert!(args.contains(&"--unshare-ipc".to_string()));
    assert!(args.contains(&"--unshare-uts".to_string()));
    assert!(args.contains(&"--unshare-cgroup".to_string()));
}

#[test]
fn test_build_args_bind() {
    let mut config = create_test_config();
    config.bind = vec!["/src:/dest".to_string()];

    let builder = BwrapBuilder::new(config);
    let args = builder.build_args();

    let bind_idx = args.iter().position(|x| x == "--bind").unwrap();
    assert_eq!(args[bind_idx + 1], "/src");
    assert_eq!(args[bind_idx + 2], "/dest");
}

#[test]
fn test_build_args_ro_bind() {
    let mut config = create_test_config();
    config.ro_bind = vec!["/usr".to_string()];

    let builder = BwrapBuilder::new(config);
    let args = builder.build_args();

    assert!(args.contains(&"--ro-bind".to_string()));
    assert!(args.contains(&"/usr".to_string()));
}

#[test]
fn test_build_args_dev_bind() {
    let mut config = create_test_config();
    config.dev_bind = vec!["/dev/null".to_string()];

    let builder = BwrapBuilder::new(config);
    let args = builder.build_args();

    assert!(args.contains(&"--dev-bind".to_string()));
    assert!(args.contains(&"/dev/null".to_string()));
}

#[test]
fn test_build_args_tmpfs() {
    let mut config = create_test_config();
    config.tmpfs = vec!["/tmp".to_string(), "/var/tmp".to_string()];

    let builder = BwrapBuilder::new(config);
    let args = builder.build_args();

    assert!(args.contains(&"--tmpfs".to_string()));
    assert!(args.contains(&"/tmp".to_string()));
    assert!(args.contains(&"/var/tmp".to_string()));
}

#[test]
fn test_build_args_env() {
    let mut config = create_test_config();
    config.env.insert("NODE_ENV".to_string(), "production".to_string());
    config.env.insert("DEBUG".to_string(), "true".to_string());

    let builder = BwrapBuilder::new(config);
    let args = builder.build_args();

    let setenv_count = args.iter().filter(|x| *x == "--setenv").count();
    assert_eq!(setenv_count, 2);
    assert!(args.contains(&"NODE_ENV".to_string()));
    assert!(args.contains(&"production".to_string()));
}

#[test]
fn test_build_args_unset_env() {
    let mut config = create_test_config();
    config.unset_env = vec!["DEBUG".to_string(), "VERBOSE".to_string()];

    let builder = BwrapBuilder::new(config);
    let args = builder.build_args();

    assert!(args.contains(&"--unsetenv".to_string()));
    assert!(args.contains(&"DEBUG".to_string()));
    assert!(args.contains(&"VERBOSE".to_string()));
}

#[test]
fn test_build_args_combined() {
    let mut config = create_test_config();
    config.share = vec!["user".to_string()];
    config.ro_bind = vec!["/usr".to_string()];
    config.env.insert("TEST".to_string(), "value".to_string());

    let builder = BwrapBuilder::new(config);
    let args = builder.build_args();

    assert!(args.contains(&"--unshare-net".to_string()));
    assert!(!args.contains(&"--unshare-user".to_string()));
    assert!(args.contains(&"--ro-bind".to_string()));
    assert!(args.contains(&"--setenv".to_string()));
}

#[test]
fn test_show_command() {
    let mut config = create_test_config();
    config.share = vec!["user".to_string()];

    let builder = BwrapBuilder::new(config);
    let cmd = builder.show("node", &["script.js".to_string()]);

    assert!(cmd.starts_with("bwrap"));
    assert!(cmd.contains("--unshare-net"));
    assert!(cmd.contains("node"));
    assert!(cmd.contains("script.js"));
}

#[test]
fn test_show_command_with_multiple_args() {
    let config = create_test_config();
    let builder = BwrapBuilder::new(config);
    let cmd = builder.show("git", &["commit".to_string(), "-m".to_string(), "message".to_string()]);

    assert!(cmd.contains("git"));
    assert!(cmd.contains("commit"));
    assert!(cmd.contains("-m"));
    assert!(cmd.contains("message"));
}

#[test]
fn test_empty_config() {
    let config = create_test_config();
    let builder = BwrapBuilder::new(config);
    let args = builder.build_args();

    assert!(args.contains(&"--unshare-net".to_string()));
    assert!(args.contains(&"--unshare-pid".to_string()));
    assert!(args.contains(&"--unshare-ipc".to_string()));
    assert!(args.contains(&"--unshare-uts".to_string()));
    assert!(args.contains(&"--unshare-user".to_string()));
    assert!(args.contains(&"--unshare-cgroup".to_string()));
}

#[test]
fn test_bind_with_tilde() {
    let mut config = create_test_config();
    config.bind = vec!["~/.config:~/.config".to_string()];

    let builder = BwrapBuilder::new(config);
    let args = builder.build_args();

    let bind_idx = args.iter().position(|x| x == "--bind").unwrap();
    assert!(!args[bind_idx + 1].contains('~'));
}

#[test]
fn test_invalid_bind_format() {
    let mut config = create_test_config();
    config.bind = vec!["invalid".to_string()];

    let builder = BwrapBuilder::new(config);
    let args = builder.build_args();

    let bind_count = args.iter().filter(|x| *x == "--bind").count();
    assert_eq!(bind_count, 0);
}

#[test]
fn test_unshare_all_by_default() {
    let config = create_test_config();
    let builder = BwrapBuilder::new(config);
    let args = builder.build_args();

    assert!(args.contains(&"--unshare-net".to_string()));
    assert!(args.contains(&"--unshare-pid".to_string()));
    assert!(args.contains(&"--unshare-ipc".to_string()));
    assert!(args.contains(&"--unshare-uts".to_string()));
    assert!(args.contains(&"--unshare-user".to_string()));
    assert!(args.contains(&"--unshare-cgroup".to_string()));
}

#[test]
fn test_share_specific_namespaces() {
    let mut config = create_test_config();
    config.share = vec!["user".to_string(), "network".to_string()];

    let builder = BwrapBuilder::new(config);
    let args = builder.build_args();

    assert!(!args.contains(&"--unshare-user".to_string()));
    assert!(!args.contains(&"--unshare-net".to_string()));

    assert!(args.contains(&"--unshare-pid".to_string()));
    assert!(args.contains(&"--unshare-ipc".to_string()));
    assert!(args.contains(&"--unshare-uts".to_string()));
    assert!(args.contains(&"--unshare-cgroup".to_string()));
}

#[test]
fn test_share_all_namespaces() {
    let mut config = create_test_config();
    config.share = vec![
        "user".to_string(),
        "pid".to_string(),
        "network".to_string(),
        "ipc".to_string(),
        "uts".to_string(),
        "cgroup".to_string(),
    ];

    let builder = BwrapBuilder::new(config);
    let args = builder.build_args();

    assert!(!args.contains(&"--unshare-user".to_string()));
    assert!(!args.contains(&"--unshare-pid".to_string()));
    assert!(!args.contains(&"--unshare-net".to_string()));
    assert!(!args.contains(&"--unshare-ipc".to_string()));
    assert!(!args.contains(&"--unshare-uts".to_string()));
    assert!(!args.contains(&"--unshare-cgroup".to_string()));
}
