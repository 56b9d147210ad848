use aerowm::paths::{
    config_path, default_config_path, default_session_path, ipc_socket_path, join_path, parse_fd,
    socket_candidates,
    parse_euid, session_file_path,
};

#[test]
fn join_adds_one_separator() {
    assert_eq!(join_path("/run/user/1000", "aerowm.sock"), "/run/user/1000/aerowm.sock");
    assert_eq!(join_path("/run/user/1000/", "aerowm.sock"), "/run/user/1000/aerowm.sock");
    assert_eq!(join_path("", "aerowm.sock"), "aerowm.sock");
    assert_eq!(join_path("/home/u", "/etc/passwd"), "/etc/passwd");
    assert_eq!(join_path("/home/u", ".config/aerowm/bar.luau"), "/home/u/.config/aerowm/bar.luau");
}

#[test]
fn socket_path_prefers_runtime_dir() {
    assert_eq!(ipc_socket_path(Some("/run/user/1000"), Some(1000)), "/run/user/1000/aerowm.sock");
    assert_eq!(ipc_socket_path(Some(""), Some(1000)), "/tmp/aerowm-1000.sock");
    assert_eq!(ipc_socket_path(None, Some(0)), "/tmp/aerowm-0.sock");
    assert_eq!(ipc_socket_path(None, None), "/tmp/aerowm-0.sock");
    assert_eq!(ipc_socket_path(None, Some(4294967295)), "/tmp/aerowm-4294967295.sock");
}

#[test]
fn euid_from_status_text() {
    let status = "Name:\tcat\nUmask:\t0022\nState:\tR (running)\nUid:\t1000\t1000\t1000\t1000\nGid:\t100\t100\t100\t100\n";
    assert_eq!(parse_euid(status), Some(1000));
    assert_eq!(parse_euid("Uid: 42\r\n"), Some(42));
    assert_eq!(parse_euid("Uid:7"), Some(7));
    assert_eq!(parse_euid("Uid:\t+5\t5"), Some(5));
}

#[test]
fn euid_absent_or_malformed() {
    assert_eq!(parse_euid(""), None);
    assert_eq!(parse_euid("Name:\tcat\nGid:\t100\n"), None);
    assert_eq!(parse_euid("Uid:\n"), None);
    assert_eq!(parse_euid("Uid:\tx1000\n"), None);
    assert_eq!(parse_euid("Uid:\t-1\n"), None);
    assert_eq!(parse_euid("Uid:\t+\n"), None);
    assert_eq!(parse_euid("Uid:\t4294967296\n"), None);
    assert_eq!(parse_euid("Uid:\t4294967295\n"), Some(4294967295));
    // Only the first `Uid:` line counts, and only at the start of a line.
    assert_eq!(parse_euid("Uid:\tbad\nUid:\t3\n"), None);
    assert_eq!(parse_euid("XUid:\t9\nUid:\t3\n"), Some(3));
}

#[test]
fn config_and_session_locations() {
    assert_eq!(config_path(Some("/x"), Some("/home/u")), "/x/aerowm/bar.luau");
    assert_eq!(config_path(None, Some("/home/u")), "/home/u/.config/aerowm/bar.luau");
    assert_eq!(config_path(None, None), "./.config/aerowm/bar.luau");
    assert_eq!(default_session_path(Some("/run/user/1"), "/tmp"), "/run/user/1/aerowm-session.json");
    assert_eq!(default_session_path(None, "/tmp"), "/tmp/aerowm-session.json");
    assert_eq!(session_file_path(Some("/s.json"), Some("/run"), "/tmp"), "/s.json");
    assert_eq!(session_file_path(None, None, "/tmp"), "/tmp/aerowm-session.json");
    assert_eq!(default_config_path(Some("/home/u/.config")), Some("/home/u/.config/aerowm/config.luau".to_string()));
    assert_eq!(default_config_path(None), None);
}

#[test]
fn fd_numbers_parse_like_raw_fd() {
    assert_eq!(parse_fd("7"), Some(7));
    assert_eq!(parse_fd("+7"), Some(7));
    assert_eq!(parse_fd("-1"), Some(-1));
    assert_eq!(parse_fd("-0"), Some(0));
    assert_eq!(parse_fd("2147483647"), Some(i32::MAX));
    assert_eq!(parse_fd("-2147483648"), Some(i32::MIN));
    assert_eq!(parse_fd("2147483648"), None);
    assert_eq!(parse_fd("-2147483649"), None);
    assert_eq!(parse_fd(""), None);
    assert_eq!(parse_fd("-"), None);
    assert_eq!(parse_fd("+"), None);
    assert_eq!(parse_fd(" 7"), None);
    assert_eq!(parse_fd("7x"), None);
    for s in ["0", "12", "-12", "+3", "99999999999", "abc"] {
        assert_eq!(parse_fd(s), s.parse::<i32>().ok());
    }
}

#[test]
fn wayland_socket_names() {
    let v = socket_candidates(None);
    assert_eq!(v.len(), 32);
    assert_eq!(v[0], "aerowm-0");
    assert_eq!(v[31], "aerowm-31");
    let v = socket_candidates(Some("wayland-1"));
    assert_eq!(v.len(), 33);
    assert_eq!(v[0], "wayland-1");
    assert_eq!(v[1], "aerowm-0");
    assert_eq!(v[11], "aerowm-10");
}
