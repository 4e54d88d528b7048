use pulse_fm_rds_encoder::radiodns::{
    build_cname_line, build_dns_bundle, build_srv_record_line, derive_host_from_base_url,
};

#[test]
fn host_from_base_url() {
    assert_eq!(derive_host_from_base_url("https://radio.example/path"), Some("radio.example".to_string()));
    assert_eq!(derive_host_from_base_url("http://a.b"), Some("a.b".to_string()));
    assert_eq!(derive_host_from_base_url("  radio.org/x  "), Some("radio.org".to_string()));
    assert_eq!(derive_host_from_base_url(""), None);
    assert_eq!(derive_host_from_base_url("   "), None);
    assert_eq!(derive_host_from_base_url("https://"), None);
    assert_eq!(derive_host_from_base_url("https:///x"), None);
}

#[test]
fn srv_record_line() {
    assert_eq!(
        build_srv_record_line(" example.com ", "epg.example.com", ""),
        "_radioepg._tcp.example.com 86400 IN SRV 0 0 80 epg.example.com."
    );
    assert_eq!(
        build_srv_record_line("example.com", " epg ", " 8080 "),
        "_radioepg._tcp.example.com 86400 IN SRV 0 0 8080 epg."
    );
    assert_eq!(build_srv_record_line("  ", "epg", "80"), "—");
}

#[test]
fn cname_line() {
    assert_eq!(
        build_cname_line(Some("09800.7200.72e2.fm.radiodns.org"), "example.com"),
        "09800.7200.72e2.fm.radiodns.org 86400 IN CNAME example.com."
    );
    assert_eq!(build_cname_line(None, "example.com"), "—");
    assert_eq!(build_cname_line(Some("  "), "example.com"), "—");
    assert_eq!(build_cname_line(Some("a.fm"), " "), "—");
}

#[test]
fn dns_bundle_joins_lines() {
    assert_eq!(
        build_dns_bundle(Some("a.fm"), "example.com", "epg", "81"),
        "a.fm 86400 IN CNAME example.com.\n_radioepg._tcp.example.com 86400 IN SRV 0 0 81 epg."
    );
    assert_eq!(build_dns_bundle(None, "", "epg", "81"), "—\n—");
}
