//! Where state is kept.

use pasteport::error::Error;
use pasteport::paths::{
    adopts_legacy, check_owner, config_path, data_dir, database_path, join, legacy_dir,
    mode_to_set, needs_runtime_dir, runtime_dir, socket_path, socket_path_fits,
};

fn b(s: &str) -> Vec<u8> {
    s.as_bytes().to_vec()
}

fn deep(c: &str) -> Vec<u8> {
    b(&format!("/tmp/{}", c.repeat(150)))
}

#[test]
fn short_data_dir_keeps_the_socket_beside_the_database() {
    let dir = b("/tmp/pp");
    let socket = socket_path(None, &dir, &b("/run/user/1/pasteport")).unwrap();
    assert_eq!(socket, b("/tmp/pp/daemon.sock"));
    assert!(socket_path_fits(&socket));
    assert!(!needs_runtime_dir(&None, &dir));
}

#[test]
fn long_data_dir_falls_back_to_a_short_runtime_path() {
    let dir = deep("x");
    assert!(needs_runtime_dir(&None, &dir));
    let socket = socket_path(None, &dir, &b("/run/user/1/pasteport")).unwrap();
    assert!(socket_path_fits(&socket));
    assert!(!socket.starts_with(&dir));
    assert!(socket.starts_with(b"/run/user/1/pasteport/"));
    assert!(socket.ends_with(b".sock"));
    // Sixteen hexadecimal digits of the BLAKE3 digest of the directory.
    let digest = blake3::hash(&dir).to_hex();
    assert_eq!(
        socket,
        b(&format!("/run/user/1/pasteport/{}.sock", &digest[..16]))
    );
}

#[test]
fn the_fallback_path_is_stable_for_a_given_data_dir() {
    let run = b("/run/pasteport");
    assert_eq!(
        socket_path(None, &deep("y"), &run).unwrap(),
        socket_path(None, &deep("y"), &run).unwrap()
    );
}

#[test]
fn different_long_data_dirs_get_different_sockets() {
    let run = b("/run/pasteport");
    assert_ne!(
        socket_path(None, &deep("a"), &run).unwrap(),
        socket_path(None, &deep("b"), &run).unwrap()
    );
}

#[test]
fn explicit_socket_override_is_honoured_verbatim() {
    let socket = socket_path(Some(b("/tmp/my-own.sock")), &b("/tmp/pp"), &b("/run")).unwrap();
    assert_eq!(socket, b("/tmp/my-own.sock"));
    assert_eq!(
        socket_path(Some(deep("z")), &b("/tmp/pp"), &b("/run")).unwrap(),
        deep("z")
    );
    assert!(!needs_runtime_dir(&Some(b("s")), &deep("z")));
}

#[test]
fn a_runtime_dir_that_is_too_deep_is_an_error() {
    let err = socket_path(None, &deep("x"), &deep("r")).unwrap_err();
    assert!(matches!(err, Error::SocketPathTooLong(_)));
    assert!(err.message().starts_with("control socket path /tmp/rrr"));
}

#[test]
fn default_data_dir_is_the_friendly_platform_path() {
    let base = Some(b("/Users/x/Library/Application Support"));
    assert_eq!(
        data_dir(None, base, true).unwrap(),
        b("/Users/x/Library/Application Support/Pasteport")
    );
    assert_eq!(
        data_dir(None, Some(b("/home/x/.local/share")), false).unwrap(),
        b("/home/x/.local/share/pasteport")
    );
    assert_eq!(data_dir(Some(b("/d")), None, false).unwrap(), b("/d"));
    let err = data_dir(None, None, false).unwrap_err();
    assert_eq!(
        err.message(),
        "could not determine a data directory for the current user"
    );
}

#[test]
fn legacy_directory_is_adopted_but_never_clobbers() {
    assert_eq!(legacy_dir(&b("/base")), b("/base/com.pasteport.Pasteport"));
    assert!(adopts_legacy(false, true));
    assert!(!adopts_legacy(true, true));
    assert!(!adopts_legacy(false, false));
}

#[test]
fn derived_paths_all_live_under_the_data_dir() {
    let dir = b("/tmp/pp-derived");
    assert_eq!(database_path(&dir), b("/tmp/pp-derived/history.sqlite3"));
    assert_eq!(config_path(&dir), b("/tmp/pp-derived/config.toml"));
    assert_eq!(join(&b("/a/"), "b"), b("/a/b"));
    assert_eq!(join(&b(""), "b"), b("b"));
}

#[test]
fn runtime_dir_is_owner_only() {
    assert_eq!(
        runtime_dir(Some(b("/run/user/1")), &b("/tmp")),
        b("/run/user/1/pasteport")
    );
    assert_eq!(runtime_dir(None, &b("/tmp")), b("/tmp/pasteport"));
    assert_eq!(mode_to_set(true, 0o40755), Some(0o700));
    assert_eq!(mode_to_set(true, 0o40700), None);
    assert_eq!(mode_to_set(false, 0o100644), Some(0o600));
    assert_eq!(mode_to_set(false, 0o100600), None);
}

#[test]
fn a_directory_of_somebody_else_is_refused() {
    assert!(check_owner(b("/tmp/p"), 1000, 1000).is_ok());
    let err = check_owner(b("/tmp/p"), 0, 1000).unwrap_err();
    assert_eq!(
        err.message(),
        "/tmp/p is not owned by the current user; refusing to use it"
    );
}
