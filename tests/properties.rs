use shwrap::bind::{expand_path, normalize_bind};
use shwrap::bwrap::{assemble_args, exit_code, render, BwrapBuilder};
use shwrap::config::{BwrapConfig, CommandConfig, CommandError, EnvMap, TemplateConfig};
use shwrap::namespace::{compute_unshare_set, NamespaceKind};
use shwrap::shell_hooks::{BashHook, Shell, BASH_HOOK};
use shwrap::text::str_equal;

fn strings(items: &[&str]) -> Vec<String> {
    items.iter().map(|s| s.to_string()).collect()
}

fn node_document() -> BwrapConfig {
    let mut doc = BwrapConfig::new();
    let mut base = TemplateConfig::new();
    base.share = strings(&["user"]);
    base.ro_bind = strings(&["/usr"]);
    base.bind = strings(&["/srv:/srv"]);
    doc.insert_template("base".to_string(), base);
    let mut node = CommandConfig::new();
    node.extends = Some("base".to_string());
    node.share = strings(&["network"]);
    node.ro_bind = strings(&["/lib"]);
    node.tmpfs = strings(&["/tmp"]);
    node.env.insert("B".to_string(), "2".to_string());
    node.env.insert("A".to_string(), "1".to_string());
    node.unset_env = strings(&["DEBUG"]);
    doc.insert_command("node".to_string(), node);
    doc
}

#[test]
fn unshare_set_is_complement_in_fixed_order() {
    assert_eq!(compute_unshare_set(&vec![]), vec![NamespaceKind::User, NamespaceKind::Pid, NamespaceKind::Network, NamespaceKind::Ipc, NamespaceKind::Uts, NamespaceKind::Cgroup]);
    assert_eq!(compute_unshare_set(&vec![NamespaceKind::User]), vec![NamespaceKind::Pid, NamespaceKind::Network, NamespaceKind::Ipc, NamespaceKind::Uts, NamespaceKind::Cgroup]);
    assert_eq!(compute_unshare_set(&vec![NamespaceKind::Cgroup, NamespaceKind::Network]), vec![NamespaceKind::User, NamespaceKind::Pid, NamespaceKind::Ipc, NamespaceKind::Uts]);
    assert_eq!(compute_unshare_set(&vec![NamespaceKind::Network, NamespaceKind::Cgroup]), vec![NamespaceKind::User, NamespaceKind::Pid, NamespaceKind::Ipc, NamespaceKind::Uts]);
    assert_eq!(compute_unshare_set(&vec![NamespaceKind::Uts, NamespaceKind::Uts]), vec![NamespaceKind::User, NamespaceKind::Pid, NamespaceKind::Network, NamespaceKind::Ipc, NamespaceKind::Cgroup]);
    assert_eq!(compute_unshare_set(&vec![NamespaceKind::User, NamespaceKind::Pid, NamespaceKind::Network, NamespaceKind::Ipc, NamespaceKind::Uts, NamespaceKind::Cgroup]), vec![]);
}

#[test]
fn namespace_names_and_flags() {
    assert_eq!(NamespaceKind::from_name("network"), Some(NamespaceKind::Network));
    assert_eq!(NamespaceKind::from_name("net"), None);
    assert_eq!(NamespaceKind::from_name("User"), None);
    assert_eq!(NamespaceKind::Network.unshare_flag(), "--unshare-net");
    assert_eq!(NamespaceKind::Cgroup.name(), "cgroup");
}

#[test]
fn unknown_namespace_is_ignored() {
    let mut c = CommandConfig::new();
    c.share = strings(&["bogus", "pid"]);
    let args = BwrapBuilder::new(c).build_args();
    assert_eq!(
        args,
        strings(&["--unshare-user", "--unshare-net", "--unshare-ipc", "--unshare-uts", "--unshare-cgroup"])
    );
}

#[test]
fn resolving_twice_gives_identical_results() {
    let doc = node_document();
    let first = doc.resolve_command("node").unwrap();
    let second = doc.resolve_command("node").unwrap();
    assert_eq!(first.share, second.share);
    assert_eq!(first.bind, second.bind);
    assert_eq!(first.ro_bind, second.ro_bind);
    assert_eq!(first.extends, None);
    let again = doc.merge_with_template(first.duplicate());
    assert_eq!(again.share, first.share);
    assert_eq!(again.ro_bind, first.ro_bind);
    assert_eq!(BwrapBuilder::new(first).build_args(), BwrapBuilder::new(second).build_args());
}

#[test]
fn bind_round_trip_and_rejection() {
    let (src, dst) = normalize_bind("a:b").unwrap();
    assert_eq!(src, "a");
    assert_eq!(dst, "b");
    let (src, dst) = normalize_bind(":").unwrap();
    assert_eq!(src, "");
    assert_eq!(dst, "");
    let err = normalize_bind("a").unwrap_err();
    assert_eq!(err.spec, "a");
    assert!(normalize_bind("a:b:c").is_err());
    assert!(normalize_bind("").is_err());
}

#[test]
fn malformed_bind_is_left_out() {
    let mut c = CommandConfig::new();
    c.share = strings(&["user", "pid", "network", "ipc", "uts", "cgroup"]);
    c.bind = strings(&["a", "/x:/y", "/p:/q:/r"]);
    let args = BwrapBuilder::new(c).build_args();
    assert_eq!(args, strings(&["--bind", "/x", "/y"]));
}

#[test]
fn template_sequences_come_first() {
    let mut doc = BwrapConfig::new();
    let mut t = TemplateConfig::new();
    t.ro_bind = strings(&["/usr"]);
    doc.insert_template("T".to_string(), t);
    let mut c = CommandConfig::new();
    c.ro_bind = strings(&["/lib"]);
    c.extends = Some("T".to_string());
    let merged = doc.merge_with_template(c);
    assert_eq!(merged.ro_bind, vec!["/usr", "/lib"]);
}

#[test]
fn missing_template_keeps_own_fields() {
    let doc = node_document();
    let mut c = CommandConfig::new();
    c.extends = Some("ghost".to_string());
    c.share = strings(&["ipc"]);
    c.bind = strings(&["/a:/b"]);
    c.ro_bind = strings(&["/opt"]);
    let merged = doc.merge_with_template(c);
    assert_eq!(merged.share, vec!["ipc"]);
    assert_eq!(merged.bind, vec!["/a:/b"]);
    assert_eq!(merged.ro_bind, vec!["/opt"]);
    assert_eq!(merged.extends, None);
    assert!(merged.enabled);
}

#[test]
fn node_scenario_exact_arguments() {
    let mut doc = BwrapConfig::new();
    let mut node = CommandConfig::new();
    node.enabled = true;
    node.share = strings(&["user"]);
    node.ro_bind = strings(&["/usr"]);
    doc.insert_command("node".to_string(), node);
    let effective = doc.resolve_command("node").unwrap();
    let args = BwrapBuilder::new(effective).build_args();
    assert_eq!(
        args,
        strings(&[
            "--unshare-pid",
            "--unshare-net",
            "--unshare-ipc",
            "--unshare-uts",
            "--unshare-cgroup",
            "--ro-bind",
            "/usr",
            "/usr",
        ])
    );
}

#[test]
fn disabled_command_is_refused() {
    let mut doc = BwrapConfig::new();
    let mut x = CommandConfig::new();
    x.enabled = false;
    doc.insert_command("x".to_string(), x);
    assert_eq!(doc.resolve_command("x").unwrap_err(), CommandError::Disabled);
    assert_eq!(doc.resolve_command("y").unwrap_err(), CommandError::NotConfigured);
}

#[test]
fn resolutions_agree_in_either_order() {
    let doc_a = node_document();
    let doc_b = node_document();
    let second_first = BwrapBuilder::new(doc_b.resolve_command("node").unwrap()).build_args();
    let first_second = BwrapBuilder::new(doc_a.resolve_command("node").unwrap()).build_args();
    assert_eq!(first_second, second_first);
    assert_eq!(
        first_second,
        strings(&[
            "--unshare-pid",
            "--unshare-ipc",
            "--unshare-uts",
            "--unshare-cgroup",
            "--bind",
            "/srv",
            "/srv",
            "--ro-bind",
            "/usr",
            "/usr",
            "--ro-bind",
            "/lib",
            "/lib",
            "--tmpfs",
            "/tmp",
            "--setenv",
            "B",
            "2",
            "--setenv",
            "A",
            "1",
            "--unsetenv",
            "DEBUG",
        ])
    );
}

#[test]
fn env_insert_keeps_first_position() {
    let mut env = EnvMap::new();
    assert_eq!(env.insert("A".to_string(), "1".to_string()), None);
    assert_eq!(env.insert("B".to_string(), "2".to_string()), None);
    assert_eq!(env.insert("A".to_string(), "3".to_string()), Some("1".to_string()));
    assert_eq!(env.len(), 2);
    let (k, v) = env.entry(0);
    assert_eq!((k.as_str(), v.as_str()), ("A", "3"));
    assert_eq!(env.get("B"), Some(&"2".to_string()));
    assert_eq!(env.get("C"), None);
}

#[test]
fn same_name_replaces_command() {
    let mut doc = BwrapConfig::new();
    doc.insert_command("a".to_string(), CommandConfig::new());
    let mut second = CommandConfig::new();
    second.enabled = false;
    doc.insert_command("a".to_string(), second);
    assert_eq!(doc.command_count(), 1);
    assert!(!doc.get_command_config("a").unwrap().enabled);
    let (name, _) = doc.command_at(0);
    assert_eq!(name, "a");
}

#[test]
fn plain_paths_are_not_expanded() {
    assert_eq!(expand_path("/usr/lib"), "/usr/lib");
    assert_eq!(expand_path("a~b"), "a~b");
}

#[test]
fn tilde_expands_to_home() {
    let expanded = expand_path("~/data");
    assert!(!expanded.starts_with('~'));
    assert!(expanded.ends_with("/data"));
}

#[test]
fn command_line_and_rendering() {
    let mut c = CommandConfig::new();
    c.share = strings(&["user", "pid", "network", "ipc", "uts"]);
    let builder = BwrapBuilder::new(c);
    let parts = builder.command_line("ls", &["-la".to_string()]);
    assert_eq!(parts, strings(&["bwrap", "--unshare-cgroup", "ls", "-la"]));
    assert_eq!(builder.show("ls", &["-la".to_string()]), "bwrap --unshare-cgroup ls -la");
    assert_eq!(render(&strings(&[])), "");
    assert_eq!(render(&strings(&["one"])), "one");
    assert_eq!(render(&strings(&["a", "b c"])), "a b c");
}

#[test]
fn assemble_uses_given_expansions() {
    let mut c = CommandConfig::new();
    c.share = strings(&["user", "pid", "network", "ipc", "uts", "cgroup"]);
    c.tmpfs = strings(&["/t"]);
    let args = assemble_args(
        &c,
        &vec![("/h/a".to_string(), "/b".to_string())],
        &strings(&["/r"]),
        &strings(&["/d"]),
    );
    assert_eq!(
        args,
        strings(&["--bind", "/h/a", "/b", "--ro-bind", "/r", "/r", "--dev-bind", "/d", "/d", "--tmpfs", "/t"])
    );
}

#[test]
fn exit_code_defaults_to_one() {
    assert_eq!(exit_code(Some(0)), 0);
    assert_eq!(exit_code(Some(42)), 42);
    assert_eq!(exit_code(None), 1);
}

#[test]
fn shells_by_name() {
    assert_eq!(Shell::from_str("bash"), Some(Shell::Bash));
    assert_eq!(Shell::from_str("BASH"), Some(Shell::Bash));
    assert_eq!(Shell::from_str("Zsh"), Some(Shell::Zsh));
    assert_eq!(Shell::from_str("fish"), Some(Shell::Fish));
    assert_eq!(Shell::from_str("NuShell"), Some(Shell::Nushell));
    assert_eq!(Shell::from_str("powershell"), None);
    assert_eq!(Shell::from_lowercase("BASH"), None);
    assert_eq!(Shell::Nushell.to_str(), "nushell");
    assert_eq!(Shell::Fish.to_str(), "fish");
}

#[test]
fn hooks_per_shell() {
    assert_eq!(Shell::Bash.get_hook(), Some(BASH_HOOK));
    assert!(Shell::Zsh.get_hook().is_some());
    assert!(Shell::Fish.get_hook().is_some());
    assert_eq!(Shell::Nushell.get_hook(), None);
    assert_eq!(BashHook.generate(), BASH_HOOK);
}

#[test]
fn string_equality() {
    assert!(str_equal("abc", "abc"));
    assert!(!str_equal("abc", "abd"));
    assert!(!str_equal("ab", "abc"));
    assert!(str_equal("", ""));
}

#[test]
fn enabled_names_in_document_order() {
    let mut doc = BwrapConfig::new();
    let mut off = CommandConfig::new();
    off.enabled = false;
    doc.insert_command("zeta".to_string(), CommandConfig::new());
    doc.insert_command("alpha".to_string(), off);
    doc.insert_command("mid".to_string(), CommandConfig::new());
    assert_eq!(doc.enabled_command_names(), strings(&["zeta", "mid"]));
}
