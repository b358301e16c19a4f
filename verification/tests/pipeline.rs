use hostpick::config::get_config_path;
use hostpick::config::resolve_term;
use hostpick::config::Args;
use hostpick::config::Term;
use hostpick::error::Error;
use hostpick::hosts::parse_hosts;
use hostpick::hosts::selection_items;
use hostpick::hosts::HostEntry;
use hostpick::launch::launch_command;
use hostpick::launch::ssh_invocation;

fn entry(name: &str, host: &str, user: Option<&str>) -> HostEntry {
    HostEntry {
        name: name.to_string(),
        host: host.to_string(),
        user: user.map(|u| u.to_string()),
    }
}

#[test]
fn parse_keeps_only_usable_blocks() {
    let text = "Host web\n  HostName example.com\n  User alice\n\nHost nohost\n  User bob\n";
    let hosts = parse_hosts(&text.as_bytes().to_vec()).unwrap();
    assert_eq!(hosts.len(), 1);
    assert_eq!(hosts[0].name, "web");
    assert_eq!(hosts[0].host, "example.com");
    assert_eq!(hosts[0].user, Some("alice".to_string()));
}

#[test]
fn parse_drops_the_catch_all_block() {
    let text = "Host *\n  HostName everywhere\n\nHost db\n  HostName 10.0.0.5\n";
    let hosts = parse_hosts(&text.as_bytes().to_vec()).unwrap();
    assert_eq!(hosts.len(), 1);
    assert_eq!(hosts[0].name, "db");
    assert_eq!(hosts[0].host, "10.0.0.5");
    assert_eq!(hosts[0].user, None);
}

#[test]
fn parse_preserves_source_order() {
    let text = "Host a\n  HostName a.example\nHost b\n  HostName b.example\nHost c\n  HostName c.example\n";
    let hosts = parse_hosts(&text.as_bytes().to_vec()).unwrap();
    let names: Vec<String> = hosts.iter().map(|h| h.name.clone()).collect();
    assert_eq!(
        names,
        vec!["a".to_string(), "b".to_string(), "c".to_string()]
    );
}

#[test]
fn parse_rejects_malformed_config() {
    let text = "Host web\n  NotARealDirective yes\n";
    let result = parse_hosts(&text.as_bytes().to_vec());
    assert_eq!(result.unwrap_err(), Error::ConfigParseError);
}

#[test]
fn ssh_invocation_without_user() {
    let e = entry("db", "10.0.0.5", None);
    assert_eq!(ssh_invocation(&e), "ssh db");
}

#[test]
fn ssh_invocation_with_user() {
    let e = entry("db", "10.0.0.5", Some("root"));
    assert_eq!(ssh_invocation(&e), "ssh root@db");
}

#[test]
fn launch_command_wraps_ssh_in_terminal() {
    let e = entry("db", "10.0.0.5", None);
    let cmd = launch_command(&"alacritty".to_string(), &e);
    assert_eq!(cmd, "alacritty -e bash -c 'ssh db'");
}

#[test]
fn term_flag_overrides_environment() {
    let args = Args::new(None, Some(Term::Konsole));
    let term = resolve_term(&args, &Some("xterm".to_string()), Some(Term::Alacritty));
    assert_eq!(term.unwrap(), "konsole");
}

#[test]
fn term_environment_overrides_default() {
    let args = Args::new(None, None);
    let term = resolve_term(&args, &Some("xterm".to_string()), Some(Term::Alacritty));
    assert_eq!(term.unwrap(), "xterm");
}

#[test]
fn empty_term_environment_is_treated_as_unset() {
    let args = Args::new(None, None);
    let term = resolve_term(&args, &Some(String::new()), Some(Term::Alacritty));
    assert_eq!(term.unwrap(), "alacritty");
}

#[test]
fn no_terminal_resolvable_is_an_error() {
    let args = Args::new(None, None);
    let term = resolve_term(&args, &Some(String::new()), None);
    assert_eq!(term.unwrap_err(), Error::TermNotSet);
}

#[test]
fn explicit_config_path_wins() {
    let args = Args::new(Some("/tmp/myconfig".to_string()), None);
    let path = get_config_path(&args, &Some("/home/alice".to_string()));
    assert_eq!(path.unwrap(), "/tmp/myconfig");
}

#[test]
fn default_config_path_is_under_home() {
    let args = Args::new(None, None);
    let path = get_config_path(&args, &Some("/home/alice".to_string()));
    assert_eq!(path.unwrap(), "/home/alice/.ssh/config");
}

#[test]
fn missing_home_without_explicit_path_is_an_error() {
    let args = Args::new(None, None);
    let path = get_config_path(&args, &None);
    assert_eq!(path.unwrap_err(), Error::ConfigPathError);
}

#[test]
fn explicit_path_needs_no_home() {
    let args = Args::new(Some("/tmp/myconfig".to_string()), None);
    let path = get_config_path(&args, &None);
    assert_eq!(path.unwrap(), "/tmp/myconfig");
}

#[test]
fn selection_items_render_each_entry() {
    let hosts = vec![
        entry("web", "example.com", Some("alice")),
        entry("db", "10.0.0.5", None),
    ];
    let items = selection_items(&hosts).unwrap();
    assert_eq!(
        items,
        vec!["web example.com".to_string(), "db 10.0.0.5".to_string()]
    );
}

#[test]
fn empty_host_list_fails_fast() {
    let hosts: Vec<HostEntry> = Vec::new();
    let items = selection_items(&hosts);
    assert_eq!(items.unwrap_err(), Error::NoHostsFound);
}

#[test]
fn error_messages() {
    assert_eq!(Error::ConfigPathError.message(), "$HOME not set");
    assert_eq!(
        Error::ConfigParseError.message(),
        "could not parse the SSH config file"
    );
    assert_eq!(Error::MissingHostName.message(), "HostName not found");
    assert_eq!(Error::TermNotSet.message(), "$TERM not set or empty");
    assert_eq!(
        Error::NoHostsFound.message(),
        "no hosts found in the SSH config file"
    );
}

#[test]
fn term_names() {
    assert_eq!(Term::Alacritty.name(), "alacritty");
    assert_eq!(Term::Konsole.name(), "konsole");
}
