//! Front-door routing and socket-table parsing.

use autobahn::netstat::{
    get_proc_name, parse, parse_sock_tab, parse_v4, parse_v6, pick_port, socket_link_name,
    tab_path, HostAddr, Process, SockAddr, SockTabEntry, SockType,
};
use autobahn::config::{Config, DotReplit};
use autobahn::proxy::{route_request, PROXY_PORT, SERVER_PORT};

#[test]
fn tunnel_path_goes_to_tunnel_port() {
    assert_eq!(route_request(b"GET /__atbws HTTP/1.1\r\n", None), Some(SERVER_PORT));
    assert_eq!(route_request(b"GET /__atbws HTTP/1.1\r\n", Some(8080)), Some(SERVER_PORT));
    assert_eq!(route_request(b"GET /__atbws/extra HTTP/1.1\r\n", None), Some(SERVER_PORT));
}

#[test]
fn other_paths_go_to_the_workspace_port() {
    assert_eq!(route_request(b"GET / HTTP/1.1\r\n", Some(8080)), Some(8080));
    assert_eq!(route_request(b"GET /index.html HTTP/1.1\r\n", Some(3000)), Some(3000));
    assert_eq!(route_request(b"GET /__atb HTTP/1.1\r\n", Some(8080)), Some(8080));
}

#[test]
fn no_workspace_port_refuses_other_paths() {
    assert_eq!(route_request(b"GET / HTTP/1.1\r\n", None), None);
    // A request line without a space cannot name the tunnel path.
    assert_eq!(route_request(b"garbage", None), None);
    assert_eq!(route_request(b"", Some(9000)), Some(9000));
}

#[test]
fn config_carries_the_port() {
    let file = DotReplit { autobahn: Config { port: Some(8080) } };
    assert_eq!(file.config(), Config { port: Some(8080) });
    let file = DotReplit { autobahn: Config { port: None } };
    assert_eq!(file.config().port, None);
}

#[test]
fn port_constants() {
    assert_eq!(PROXY_PORT, 3321);
    assert_eq!(SERVER_PORT, 3322);
}

#[test]
fn v4_entries_parse_as_the_table_writes_them() {
    assert_eq!(
        parse_v4("7F000001:1F90"),
        Ok(SockAddr { host: HostAddr::V4(127, 0, 0, 1), port: 8080 })
    );
    // The reader takes the hexadecimal value's bytes highest first, so the
    // kernel's little-endian loopback entry reads back reversed.
    assert_eq!(
        parse_v4("0100007F:0050"),
        Ok(SockAddr { host: HostAddr::V4(1, 0, 0, 127), port: 80 })
    );
}

#[test]
fn v4_rejects_wrong_shapes() {
    assert_eq!(parse_v4("7F000001:1F9"), Err(()));
    assert_eq!(parse_v4("7F00000x:1F90"), Err(()));
    assert_eq!(parse_v4("7F000001.1F90"), Err(()));
    assert_eq!(parse_v4(""), Err(()));
}

#[test]
fn v6_entries_parse_from_the_low_bytes() {
    let a = parse_v6("00000000000000000000000000000001:0050").unwrap();
    assert_eq!(a, SockAddr { host: HostAddr::V6(0, 0, 0, 0, 0, 0, 0, 1), port: 80 });
    assert!(a.host.is_loopback());
    let b = parse_v6("00000000000000000000000000000000:0016").unwrap();
    assert_eq!(b.host, HostAddr::V6(0, 0, 0, 0, 0, 0, 0, 0));
    assert!(b.host.is_unspecified());
    assert_eq!(b.port, 22);
}

#[test]
fn either_family_parses() {
    assert_eq!(
        parse("7F000001:1F90"),
        Ok(SockAddr { host: HostAddr::V4(127, 0, 0, 1), port: 8080 })
    );
    assert!(matches!(
        parse("00000000000000000000000000000001:0050"),
        Ok(SockAddr { host: HostAddr::V6(..), .. })
    ));
    assert_eq!(parse("nonsense"), Err(()));
}

#[test]
fn loopback_and_unspecified() {
    assert!(HostAddr::V4(127, 0, 0, 1).is_loopback());
    assert!(HostAddr::V4(127, 33, 2, 9).is_loopback());
    assert!(!HostAddr::V4(10, 0, 0, 1).is_loopback());
    assert!(HostAddr::V4(0, 0, 0, 0).is_unspecified());
    assert!(!HostAddr::V4(0, 0, 0, 1).is_unspecified());
    assert!(!HostAddr::V6(0, 0, 0, 0, 0, 0, 0, 1).is_unspecified());
}

#[test]
fn sock_tab_parses_data_lines() {
    let tab = String::from(
        "  sl  local_address rem_address   st tx_queue rx_queue tr tm->when retrnsmt   uid  timeout inode\n   0: 7F000001:1F90 00000000:0000 0A 00000000:00000000 00:00000000 00000000  1000        0 12345 1 0000000000000000 100 0 0 10 0\n   1: bad line\n",
    );
    let entries = parse_sock_tab(tab);
    assert_eq!(entries.len(), 1);
    let e = &entries[0];
    assert_eq!(e.local_addr, SockAddr { host: HostAddr::V4(127, 0, 0, 1), port: 8080 });
    assert_eq!(e.remote_addr, SockAddr { host: HostAddr::V4(0, 0, 0, 0), port: 0 });
    assert_eq!(e.state, 10);
    assert_eq!(e.uid, 1000);
    assert_eq!(e.ino, "12345");
}

#[test]
fn sock_tab_skips_title_and_comments() {
    let entries = parse_sock_tab(String::from("title only, no data lines\n"));
    assert!(entries.is_empty());
    let tab = String::from(
        "header\n   0: 00000000:0016 00000000:0000 0A 0:0 00:0 0 55 0 777 1 x # trailing note\n",
    );
    let entries = parse_sock_tab(tab);
    assert_eq!(entries.len(), 1);
    assert_eq!(entries[0].local_addr.port, 22);
    assert_eq!(entries[0].uid, 55);
    assert_eq!(entries[0].ino, "777");
}

fn entry(state: u8, host: HostAddr, port: u16) -> SockTabEntry {
    SockTabEntry {
        ino: String::from("1"),
        local_addr: SockAddr { host, port },
        remote_addr: SockAddr { host: HostAddr::V4(0, 0, 0, 0), port: 0 },
        state,
        uid: 1000,
        process: Process { pid: 1, name: String::from("p") },
    }
}

#[test]
fn pick_port_takes_the_single_listener() {
    let entries = vec![
        entry(1, HostAddr::V4(127, 0, 0, 1), 9999),
        entry(10, HostAddr::V4(9, 9, 9, 9), 1234),
        entry(10, HostAddr::V4(0, 0, 0, 0), 8080),
    ];
    assert_eq!(pick_port(&entries), Some(8080));
    assert_eq!(pick_port(&vec![]), None);
    assert_eq!(pick_port(&vec![entry(1, HostAddr::V4(127, 0, 0, 1), 1)]), None);
}

#[test]
fn proc_names_come_from_the_stat_line() {
    assert_eq!(get_proc_name(String::from("1234 (bash) S 1 2 3")), "bash");
    assert_eq!(get_proc_name(String::from("7 (a b) R")), "a b");
}

#[test]
fn socket_links_and_table_paths() {
    assert_eq!(socket_link_name("123"), "socket:[123]");
    assert_eq!(tab_path(SockType::TCP), "/proc/net/tcp");
    assert_eq!(tab_path(SockType::TCP6), "/proc/net/tcp6");
    assert_eq!(tab_path(SockType::UDP), "/proc/net/udp");
    assert_eq!(tab_path(SockType::UDP6), "/proc/net/udp6");
}
