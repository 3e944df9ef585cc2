use reverse_proxy::urls::parse_url;
use reverse_proxy::urls::Url;

#[test]
fn parse_reads_every_component() {
    let u = parse_url("http://localhost:3000/").unwrap();
    assert_eq!(u.scheme, "http".to_string());
    assert_eq!(u.host, "localhost".to_string());
    assert_eq!(u.port, Some(3000));
    assert_eq!(u.path, "/".to_string());
}

#[test]
fn parse_without_port_leaves_it_implicit() {
    let u = parse_url("https://example.test/x").unwrap();
    assert_eq!(u.scheme, "https".to_string());
    assert_eq!(u.host, "example.test".to_string());
    assert_eq!(u.port, None);
    assert_eq!(u.path, "/x".to_string());
}

#[test]
fn parse_and_render_round_trip() {
    for s in [
        "http://localhost:3000/",
        "https://thing/",
        "http://a.b.c:81/d/e?f=g#h",
        "ftp+x-1.0://host:21/file",
    ] {
        assert_eq!(parse_url(s).unwrap().url_string(), s.to_string());
    }
}

#[test]
fn render_elides_no_port_and_keeps_an_explicit_one() {
    let no_port = Url {
        scheme: "http".to_string(),
        host: "thing".to_string(),
        port: None,
        path: "/".to_string(),
    };
    assert_eq!(no_port.url_string(), "http://thing/".to_string());
    let explicit = Url {
        scheme: "https".to_string(),
        host: "thing".to_string(),
        port: Some(80),
        path: "/".to_string(),
    };
    assert_eq!(explicit.url_string(), "https://thing:80/".to_string());
}

#[test]
fn strings_that_are_no_absolute_url_parse_to_nothing() {
    assert!(parse_url("").is_none());
    assert!(parse_url("notaurl").is_none());
    assert!(parse_url("http//missing.colon/").is_none());
    assert!(parse_url("http:/one-slash/").is_none());
    assert!(parse_url("http://nopath").is_none());
    assert!(parse_url("http://:3000/").is_none());
    assert!(parse_url("http://host:bad/").is_none());
    assert!(parse_url("http://host:0/").is_none());
    assert!(parse_url("http://host:65536/").is_none());
    assert!(parse_url("1http://host/").is_none());
}

#[test]
fn the_largest_port_survives_a_round_trip() {
    let u = parse_url("http://host:65535/").unwrap();
    assert_eq!(u.port, Some(65535));
    assert_eq!(u.url_string(), "http://host:65535/".to_string());
}
