use desktop_gpui::settings::{DesktopConfig, Timeout};

fn config() -> DesktopConfig {
    DesktopConfig {
        default_download_location: "/home/u/Downloads".to_string(),
        dht_disable: false,
        dht_disable_persistence: false,
        dht_persistence_filename: "/home/u/.cache/dht.json".to_string(),
        persistence_disable: false,
        persistence_folder: "/home/u/.cache/session".to_string(),
        persistence_fastresume: false,
        download_bps: None,
        upload_bps: Some(1000),
        enable_tcp_listen: true,
        enable_utp: false,
        enable_upnp_port_forward: true,
        listen_port: 4240,
        enable_tcp_outgoing: true,
        socks_proxy: String::new(),
        peer_connect_timeout: Timeout { secs: 2, nanos: 0 },
        peer_read_write_timeout: Timeout { secs: 10, nanos: 0 },
        http_api_disable: false,
        http_api_read_only: false,
        upnp_enable_server: false,
        upnp_server_friendly_name: None,
    }
}

#[test]
fn rate_limits_show_as_numbers_or_nothing() {
    let c = config();
    assert_eq!(c.get_dl_rate(), "");
    assert_eq!(c.get_ul_rate(), "1000");
}

#[test]
fn rate_limit_text_is_read_back() {
    let mut c = config();
    c.set_dl_rate("2048");
    assert_eq!(c.download_bps, Some(2048));
    c.set_dl_rate("+7");
    assert_eq!(c.download_bps, Some(7));
    c.set_dl_rate("4294967295");
    assert_eq!(c.download_bps, Some(4294967295));
    c.set_ul_rate("250");
    assert_eq!(c.upload_bps, Some(250));
}

#[test]
fn zero_or_invalid_rate_means_unlimited() {
    let mut c = config();
    c.set_ul_rate("0");
    assert_eq!(c.upload_bps, None);
    c.set_ul_rate("1000");
    c.set_ul_rate("");
    assert_eq!(c.upload_bps, None);
    c.set_ul_rate("1000");
    c.set_ul_rate("fast");
    assert_eq!(c.upload_bps, None);
    c.set_dl_rate("4294967296");
    assert_eq!(c.download_bps, None);
    c.set_dl_rate("-5");
    assert_eq!(c.download_bps, None);
    c.set_dl_rate(" 5");
    assert_eq!(c.download_bps, None);
}

#[test]
fn shown_rate_writes_back_unchanged() {
    let mut c = config();
    let shown = c.get_ul_rate();
    c.set_ul_rate(&shown);
    assert_eq!(c.upload_bps, Some(1000));
    let shown = c.get_dl_rate();
    c.set_dl_rate(&shown);
    assert_eq!(c.download_bps, None);
}

#[test]
fn listen_port_changes_only_on_a_valid_port() {
    let mut c = config();
    assert_eq!(c.get_listen_port(), "4240");
    c.set_listen_port("6881");
    assert_eq!(c.listen_port, 6881);
    c.set_listen_port("70000");
    assert_eq!(c.listen_port, 6881);
    c.set_listen_port("port");
    assert_eq!(c.listen_port, 6881);
    c.set_listen_port("");
    assert_eq!(c.listen_port, 6881);
    c.set_listen_port("65535");
    assert_eq!(c.listen_port, 65535);
    let shown = c.get_listen_port();
    c.set_listen_port(&shown);
    assert_eq!(c.listen_port, 65535);
}

#[test]
fn timeouts_are_whole_seconds() {
    let mut c = config();
    assert_eq!(c.get_peer_ct(), "2");
    assert_eq!(c.get_peer_rw(), "10");
    c.set_peer_ct("30");
    assert_eq!(c.peer_connect_timeout, Timeout { secs: 30, nanos: 0 });
    c.set_peer_rw("x");
    assert_eq!(c.peer_read_write_timeout, Timeout { secs: 10, nanos: 0 });
    c.peer_read_write_timeout = Timeout { secs: 4, nanos: 500 };
    assert_eq!(c.get_peer_rw(), "4");
    let shown = c.get_peer_rw();
    c.set_peer_rw(&shown);
    assert_eq!(c.peer_read_write_timeout, Timeout { secs: 4, nanos: 0 });
    c.set_peer_ct("18446744073709551615");
    assert_eq!(c.peer_connect_timeout.secs, u64::MAX);
    c.set_peer_ct("18446744073709551616");
    assert_eq!(c.peer_connect_timeout.secs, u64::MAX);
}

#[test]
fn switches_invert_the_disable_flags() {
    let mut c = config();
    assert!(c.get_dht_disable());
    c.set_dht_disable(false);
    assert!(c.dht_disable);
    assert!(!c.get_dht_disable());
    c.set_dht_persist(false);
    assert!(c.dht_disable_persistence);
    c.set_persist_disable(false);
    assert!(c.persistence_disable);
    assert!(!c.get_persist_disable());
    c.set_http_disable(true);
    assert!(!c.http_api_disable);
    assert!(c.get_http_disable());
}

#[test]
fn plain_switches_read_back() {
    let mut c = config();
    c.set_fastresume(true);
    assert!(c.get_fastresume());
    c.set_tcp_listen(false);
    assert!(!c.get_tcp_listen());
    c.set_utp(true);
    assert!(c.get_utp());
    c.set_upnp_fwd(false);
    assert!(!c.get_upnp_fwd());
    c.set_tcp_outgoing(false);
    assert!(!c.get_tcp_outgoing());
    c.set_http_ro(true);
    assert!(c.get_http_ro());
    c.set_upnp_server(true);
    assert!(c.get_upnp_server());
}

#[test]
fn text_fields_are_taken_verbatim() {
    let mut c = config();
    c.set_dl_location("/data/torrents");
    assert_eq!(c.get_dl_location(), "/data/torrents");
    c.set_dht_filename("dht.bin");
    assert_eq!(c.get_dht_filename(), "dht.bin");
    c.set_persist_folder("/var/lib/rqbit");
    assert_eq!(c.get_persist_folder(), "/var/lib/rqbit");
    c.set_socks("socks5://127.0.0.1:9050");
    assert_eq!(c.get_socks(), "socks5://127.0.0.1:9050");
}

#[test]
fn empty_friendly_name_unsets_it() {
    let mut c = config();
    assert_eq!(c.get_upnp_name(), "");
    c.set_upnp_name("Living room");
    assert_eq!(c.upnp_server_friendly_name.as_deref(), Some("Living room"));
    assert_eq!(c.get_upnp_name(), "Living room");
    let shown = c.get_upnp_name();
    c.set_upnp_name(&shown);
    assert_eq!(c.upnp_server_friendly_name.as_deref(), Some("Living room"));
    c.set_upnp_name("");
    assert_eq!(c.upnp_server_friendly_name, None);
}

#[test]
fn setters_leave_other_fields_alone() {
    let mut c = config();
    c.set_listen_port("1");
    c.set_dl_rate("5");
    assert_eq!(c.upload_bps, Some(1000));
    assert_eq!(c.peer_connect_timeout, Timeout { secs: 2, nanos: 0 });
    assert_eq!(c.default_download_location, "/home/u/Downloads");
    assert!(c.enable_tcp_listen);
}
