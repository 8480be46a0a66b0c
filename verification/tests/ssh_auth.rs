use solver_pilot::config::{
    AppConfig, GurobiConfig, PollingConfig, QueueSettings, RemoteConfig, SshConfig, ToolsConfig,
};
use solver_pilot::ssh::auth::{
    expand_tilde, find_identity_file, get_ssh_key_path, SecureString, SshAuth,
};

#[test]
fn test_secure_string_zeroizes() {
    let secret = "super_secret_passphrase";
    let secure = SecureString::new(secret.to_string());
    assert_eq!(secure.as_str(), secret);

    drop(secure);
}

#[test]
fn wiping_leaves_nothing() {
    let mut secure = SecureString::new("super_secret_passphrase".to_string());
    secure.wipe();
    assert_eq!(secure.as_str(), "");
    let mut auth = SshAuth::key_with_passphrase("/k", "pw");
    auth.forget_passphrase();
    match auth {
        SshAuth::Key { path, passphrase: Some(p) } => {
            assert_eq!(path, "/k");
            assert_eq!(p.as_str(), "");
        }
        _ => panic!("the key stays a key"),
    }
}

#[test]
fn test_expand_tilde() {
    let home = "/home/tester".to_string();
    assert_eq!(expand_tilde("~/test", Some(&home)), format!("{home}/test"));
    assert_eq!(expand_tilde(&home, Some(&home)), home);

    assert_eq!(expand_tilde("/absolute/path", None), "/absolute/path");
}

#[test]
fn tilde_in_detail() {
    let home = Some("/home/alice");
    assert_eq!(expand_tilde("~/.ssh/id", home), "/home/alice/.ssh/id");
    assert_eq!(expand_tilde("~/", home), "/home/alice/");
    assert_eq!(expand_tilde("~", home), "~");
    assert_eq!(expand_tilde("~bob/.ssh/id", home), "/home/bob/.ssh/id");
    assert_eq!(expand_tilde("~bob", home), "~bob");
    assert_eq!(expand_tilde("~bob/x", Some("/root")), "/bob/x");
    assert_eq!(expand_tilde("~bob/x", Some("/home/alice/")), "/home/bob/x");
    assert_eq!(expand_tilde("~bob/x", Some("/")), "~bob/x");
    assert_eq!(expand_tilde("~bob/x", Some("alice")), "bob/x");
    assert_eq!(expand_tilde("~/x", None), "~/x");
    assert_eq!(expand_tilde("a/~/x", home), "a/~/x");
    assert_eq!(expand_tilde("", home), "");
}

#[test]
fn test_ssh_auth_creation() {
    let auth = SshAuth::key("/path/to/key");
    assert!(matches!(
        auth,
        SshAuth::Key {
            passphrase: None,
            ..
        }
    ));

    let auth = SshAuth::key_with_passphrase("/path/to/key", "passphrase");
    assert!(matches!(
        auth,
        SshAuth::Key {
            passphrase: Some(_),
            ..
        }
    ));

    let auth = SshAuth::agent("/path/to/key");
    assert!(matches!(auth, SshAuth::Agent { .. }));
}

const SSH_CONFIG: &str = "# my hosts
Host github.com
    IdentityFile ~/.ssh/github

Host  compute  other
  User alice
  IdentityFile   ~/.ssh/compute_ed25519  
  IdentityFile ~/.ssh/second

Host *
    IdentityFile ~/.ssh/fallback
";

#[test]
fn identity_files() {
    assert_eq!(
        find_identity_file(SSH_CONFIG, "compute"),
        Some("~/.ssh/compute_ed25519".to_string())
    );
    assert_eq!(
        find_identity_file(SSH_CONFIG, "other"),
        Some("~/.ssh/compute_ed25519".to_string())
    );
    assert_eq!(
        find_identity_file(SSH_CONFIG, "github.com"),
        Some("~/.ssh/github".to_string())
    );
    assert_eq!(
        find_identity_file(SSH_CONFIG, "elsewhere"),
        Some("~/.ssh/fallback".to_string())
    );
    assert_eq!(find_identity_file("Host a\nUser b\n", "a"), None);
    assert_eq!(find_identity_file("IdentityFile x\n", "a"), None);
    assert_eq!(find_identity_file("host a\nIdentityFile x\n", "a"), None);
    assert_eq!(find_identity_file("", "a"), None);
}

fn config(key_path: &str) -> AppConfig {
    AppConfig {
        ssh: SshConfig {
            host: "compute".to_string(),
            user: "alice".to_string(),
            port: 22,
            key_path: key_path.to_string(),
        },
        remote: RemoteConfig { remote_base: "/srv".to_string() },
        polling: PollingConfig { interval_seconds: 2 },
        gurobi: GurobiConfig::default(),
        tools: ToolsConfig::default(),
        queue_settings: QueueSettings::default(),
    }
}

#[test]
fn key_path_order() {
    let home = Some("/home/alice");
    assert_eq!(
        get_ssh_key_path(&config("~/keys/mine"), home, Some(SSH_CONFIG)),
        "/home/alice/keys/mine"
    );
    assert_eq!(
        get_ssh_key_path(&config("~/.ssh/id_rsa"), home, Some(SSH_CONFIG)),
        "/home/alice/.ssh/compute_ed25519"
    );
    assert_eq!(
        get_ssh_key_path(&config(""), home, Some(SSH_CONFIG)),
        "/home/alice/.ssh/compute_ed25519"
    );
    assert_eq!(
        get_ssh_key_path(&config("~/.ssh/id_rsa"), home, Some("Host x\n")),
        "/home/alice/.ssh/id_rsa"
    );
    assert_eq!(
        get_ssh_key_path(&config("~/.ssh/id_rsa"), home, None),
        "/home/alice/.ssh/id_rsa"
    );
    assert_eq!(get_ssh_key_path(&config(""), None, None), "~/.ssh/id_rsa");
}

#[test]
fn the_default_key_comes_last() {
    let home = Some("/home/alice");
    // Nothing configured and no identity file for the host.
    assert_eq!(get_ssh_key_path(&config(""), home, None), "/home/alice/.ssh/id_rsa");
    assert_eq!(get_ssh_key_path(&config(""), home, Some("Host x\n")), "/home/alice/.ssh/id_rsa");
    // The default written out below the home directory is the default too.
    assert_eq!(
        get_ssh_key_path(&config("/home/alice/.ssh/id_rsa"), home, Some(SSH_CONFIG)),
        "/home/alice/.ssh/compute_ed25519"
    );
    assert_eq!(
        get_ssh_key_path(&config("/home/alice/.ssh/id_rsa"), home, None),
        "/home/alice/.ssh/id_rsa"
    );
    assert_eq!(
        get_ssh_key_path(&config("/home/.ssh/id_rsa"), None, Some(SSH_CONFIG)),
        "~/.ssh/compute_ed25519"
    );
    // Another user's default is a choice.
    assert_eq!(
        get_ssh_key_path(&config("/home/bob/.ssh/id_rsa"), home, Some(SSH_CONFIG)),
        "/home/bob/.ssh/id_rsa"
    );
}
