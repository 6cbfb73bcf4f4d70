use hyerix_natsfixture::url::{banner_text, server_url, split_host_port, url_file_contents};

#[test]
fn split_host_port_works() {
    assert_eq!(
        split_host_port("nats://127.0.0.1:4222"),
        Some(("127.0.0.1".to_string(), 4222))
    );
}

#[test]
fn server_url_formats_host_and_port() {
    assert_eq!(server_url("127.0.0.1", 4222), "nats://127.0.0.1:4222");
    assert_eq!(server_url("localhost", 0), "nats://localhost:0");
    assert_eq!(server_url("h", 65535), "nats://h:65535");
}

#[test]
fn server_url_splits_back() {
    for (host, port) in [("127.0.0.1", 4222u16), ("::1", 1), ("", 65535), ("a:b", 80)] {
        let url = server_url(host, port);
        assert_eq!(split_host_port(&url), Some((host.to_string(), port)));
    }
}

#[test]
fn split_host_port_uses_last_colon() {
    assert_eq!(
        split_host_port("nats://[::1]:4222"),
        Some(("[::1]".to_string(), 4222))
    );
}

#[test]
fn split_host_port_accepts_plus_and_leading_zeros() {
    assert_eq!(
        split_host_port("nats://h:+0080"),
        Some(("h".to_string(), 80))
    );
}

#[test]
fn split_host_port_rejects_malformed_urls() {
    assert_eq!(split_host_port("tls://127.0.0.1:4222"), None);
    assert_eq!(split_host_port("nats://127.0.0.1"), None);
    assert_eq!(split_host_port("nats://127.0.0.1:"), None);
    assert_eq!(split_host_port("nats://127.0.0.1:65536"), None);
    assert_eq!(split_host_port("nats://127.0.0.1:-1"), None);
    assert_eq!(split_host_port("nats://127.0.0.1:+"), None);
    assert_eq!(split_host_port("nats:/"), None);
}

#[test]
fn banner_has_url_line_then_sentinel() {
    assert_eq!(
        banner_text("nats://127.0.0.1:4222"),
        "NATS_URL=nats://127.0.0.1:4222\nNATS_FIXTURE_READY\n"
    );
}

#[test]
fn url_file_holds_url_and_newline() {
    let contents = url_file_contents("nats://127.0.0.1:5000");
    assert_eq!(contents, "nats://127.0.0.1:5000\n");
    assert!(contents.trim().starts_with("nats://127.0.0.1:"));
}
