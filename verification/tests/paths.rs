use std::time::{Duration, UNIX_EPOCH};

use herdr_navigator::clock::{nanoseconds, nanoseconds_at, now_ns, MAX_NANOSECONDS};
use herdr_navigator::direction::{ctrl_key, read_direction, Direction};
use herdr_navigator::paths::{
    cache_path, home_dir, join_name, join_path, nvim_panes_dir, session_cache_dir, session_file,
    socket_path, stable_hash, Environment,
};

fn bytes(text: &str) -> Option<Vec<u8>> {
    Some(text.as_bytes().to_vec())
}

fn no_environment() -> Environment {
    Environment {
        home: None,
        socket_path: None,
        session: None,
        cache_home: None,
        active_pane_id: None,
        pane_id: None,
        active_tab_id: None,
        active_pane_cwd: None,
    }
}

fn path_text(path: Result<Vec<u8>, String>) -> String {
    String::from_utf8(path.unwrap()).unwrap()
}

#[test]
fn paths_join_as_by_the_standard_library() {
    for (base, part) in [
        ("/home/u", ".config"), ("/home/u/", ".config"), ("", "x"), ("/", "x"), ("a", ""),
        ("a/", ""), ("a", "/b"), ("", ""), ("a", "b/c"),
    ] {
        let expected = std::path::Path::new(base).join(part);
        let joined = join_path(base.as_bytes(), part.as_bytes());
        assert_eq!(String::from_utf8(joined).unwrap(), expected.to_str().unwrap());
        let named = join_name(base.as_bytes(), part);
        assert_eq!(String::from_utf8(named).unwrap(), expected.to_str().unwrap());
    }
}

#[test]
fn a_missing_home_is_told() {
    let env = no_environment();
    assert_eq!(home_dir(&env).unwrap_err(), "HOME is not set");
    assert_eq!(socket_path(&env).unwrap_err(), "HOME is not set");
    assert_eq!(session_cache_dir(&env).unwrap_err(), "HOME is not set");
    assert_eq!(cache_path(&env).unwrap_err(), "HOME is not set");
    assert_eq!(nvim_panes_dir(&env).unwrap_err(), "HOME is not set");
}

#[test]
fn the_socket_is_found() {
    let mut env = no_environment();
    env.home = bytes("/home/u");
    assert_eq!(path_text(socket_path(&env)), "/home/u/.config/herdr/herdr.sock");
    env.session = bytes("work");
    assert_eq!(
        path_text(socket_path(&env)),
        "/home/u/.config/herdr/sessions/work/herdr.sock"
    );
    env.socket_path = bytes("/run/h.sock");
    assert_eq!(path_text(socket_path(&env)), "/run/h.sock");
    env.home = None;
    assert_eq!(path_text(socket_path(&env)), "/run/h.sock");
}

#[test]
fn hashes_are_stable() {
    assert_eq!(stable_hash(b""), "00001505");
    assert_eq!(stable_hash(b"a"), "0002b606");
    let mut hash = 5381_u32;
    for byte in b"/home/u/.config/herdr/herdr.sock" {
        hash = hash.wrapping_mul(33).wrapping_add(u32::from(*byte));
    }
    assert_eq!(stable_hash(b"/home/u/.config/herdr/herdr.sock"), format!("{hash:08x}"));
}

#[test]
fn session_files_are_named_by_the_hash_of_the_socket() {
    let mut env = no_environment();
    env.home = bytes("/home/u");
    env.socket_path = bytes("a");
    assert_eq!(
        path_text(session_cache_dir(&env)),
        "/home/u/.cache/herdr.nvim/sessions/0002b606"
    );
    assert_eq!(
        path_text(cache_path(&env)),
        "/home/u/.cache/herdr.nvim/sessions/0002b606/layout-cache.json"
    );
    assert_eq!(
        path_text(nvim_panes_dir(&env)),
        "/home/u/.cache/herdr.nvim/sessions/0002b606/panes"
    );
    env.cache_home = bytes("/var/cache");
    assert_eq!(
        path_text(session_cache_dir(&env)),
        "/var/cache/herdr.nvim/sessions/0002b606"
    );
    env.home = None;
    assert_eq!(session_cache_dir(&env).unwrap_err(), "HOME is not set");
}

#[test]
fn sessions_have_their_own_files() {
    let mut a = no_environment();
    a.home = bytes("/home/u");
    let mut b = no_environment();
    b.home = bytes("/home/u");
    b.session = bytes("work");
    assert_ne!(session_cache_dir(&a), session_cache_dir(&b));
    assert_ne!(cache_path(&a), cache_path(&b));
    assert_ne!(nvim_panes_dir(&a), nvim_panes_dir(&b));
}

#[test]
fn the_session_file_lies_beside_the_socket() {
    assert_eq!(path_text(session_file(bytes("/run/herdr"))), "/run/herdr/session.json");
    assert_eq!(path_text(session_file(bytes(""))), "session.json");
    assert_eq!(session_file(None).unwrap_err(), "Herdr socket path has no parent");
}

#[test]
fn directions_have_their_keys() {
    assert_eq!(ctrl_key("left"), Some("ctrl+h"));
    assert_eq!(ctrl_key("down"), Some("ctrl+j"));
    assert_eq!(ctrl_key("up"), Some("ctrl+k"));
    assert_eq!(ctrl_key("right"), Some("ctrl+l"));
    assert_eq!(ctrl_key("Left"), None);
    assert_eq!(ctrl_key(""), None);
    assert_eq!(read_direction("up"), Some(Direction::Up));
    assert_eq!(read_direction("upwards"), None);
}

#[test]
fn the_clock_counts_nanoseconds_from_the_epoch() {
    let now = now_ns();
    // The beginning of 2020 and of 2200.
    assert!(now > 1_577_836_800_000_000_000);
    assert!(now < 7_258_118_400_000_000_000);
    assert!(now <= MAX_NANOSECONDS);
    assert_eq!(nanoseconds(Some(7)), 7);
    assert_eq!(nanoseconds(None), 0);
}

#[test]
fn points_in_time_are_counted_from_the_epoch() {
    assert_eq!(nanoseconds_at(UNIX_EPOCH), 0);
    assert_eq!(nanoseconds_at(UNIX_EPOCH + Duration::new(5, 7)), 5_000_000_007);
    assert_eq!(nanoseconds_at(UNIX_EPOCH - Duration::new(1, 0)), 0);
}
