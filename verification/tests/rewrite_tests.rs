use reverse_proxy::headers::Headers;
use reverse_proxy::rewrite::rewrite;
use reverse_proxy::rewrite::RewriteError;
use reverse_proxy::urls::parse_url;

fn test_middleware(url: &str, headers: &[(&str, &[u8])], result: &str) {
    let mut h = Headers::new();
    for &(k, v) in headers {
        h.add(k, v.to_vec());
    }
    let u = parse_url(url).unwrap();
    let got = rewrite(&h, &u).unwrap();
    assert_eq!(got.url_string(), result.to_string());
}

#[test]
fn it_works() {
    test_middleware("http://localhost:3000/", &[], "http://localhost:3000/");
    test_middleware(
        "http://localhost:3000/",
        &[("x-forwarded-host", b"thing")],
        "http://thing:3000/",
    );
    test_middleware(
        "http://localhost:3000/",
        &[("x-forwarded-host", b"thing"), ("x-forwarded-port", b"80")],
        "http://thing/",
    );
    test_middleware(
        "http://localhost:3000/",
        &[
            ("x-forwarded-host", b"thing"),
            ("x-forwarded-port", b"80"),
            ("x-forwarded-proto", b"https"),
        ],
        "https://thing:80/",
    );
}

#[test]
fn no_host_means_no_op_whatever_else_is_present() {
    test_middleware(
        "http://localhost:3000/",
        &[("x-forwarded-proto", b"https"), ("x-forwarded-port", b"80")],
        "http://localhost:3000/",
    );
}

#[test]
fn https_default_port_is_elided() {
    test_middleware(
        "http://localhost:3000/",
        &[
            ("x-forwarded-host", b"thing"),
            ("x-forwarded-proto", b"https"),
            ("x-forwarded-port", b"443"),
        ],
        "https://thing/",
    );
}

#[test]
fn header_names_are_case_insensitive() {
    test_middleware(
        "http://localhost:3000/",
        &[("X-Forwarded-Host", b"thing"), ("X-FORWARDED-PORT", b"80")],
        "http://thing/",
    );
}

#[test]
fn only_the_first_value_is_used() {
    test_middleware(
        "http://localhost:3000/",
        &[("x-forwarded-host", b"thing"), ("x-forwarded-host", b"other")],
        "http://thing:3000/",
    );
}

#[test]
fn path_query_and_fragment_are_untouched() {
    test_middleware(
        "http://localhost:3000/a/b?q=1#frag",
        &[("x-forwarded-host", b"thing")],
        "http://thing:3000/a/b?q=1#frag",
    );
}

#[test]
fn malformed_port_is_a_fatal_error() {
    let mut h = Headers::new();
    h.add("x-forwarded-host", b"thing".to_vec());
    h.add("x-forwarded-port", b"notanumber".to_vec());
    let u = parse_url("http://localhost:3000/").unwrap();
    let r = rewrite(&h, &u);
    assert_eq!(r.unwrap_err(), RewriteError::InvalidPortValue);
    // the caller's URL is untouched by the failed rewrite
    assert_eq!(u.url_string(), "http://localhost:3000/".to_string());
}

#[test]
fn port_zero_is_rejected() {
    let mut h = Headers::new();
    h.add("x-forwarded-host", b"thing".to_vec());
    h.add("x-forwarded-port", b"0".to_vec());
    let u = parse_url("http://localhost:3000/").unwrap();
    assert_eq!(rewrite(&h, &u).unwrap_err(), RewriteError::InvalidPortValue);
}

#[test]
fn port_out_of_range_is_rejected() {
    let mut h = Headers::new();
    h.add("x-forwarded-host", b"thing".to_vec());
    h.add("x-forwarded-port", b"99999".to_vec());
    let u = parse_url("http://localhost:3000/").unwrap();
    assert_eq!(rewrite(&h, &u).unwrap_err(), RewriteError::InvalidPortValue);
}

#[test]
fn signed_port_is_rejected() {
    let mut h = Headers::new();
    h.add("x-forwarded-host", b"thing".to_vec());
    h.add("x-forwarded-port", b"+80".to_vec());
    let u = parse_url("http://localhost:3000/").unwrap();
    assert_eq!(rewrite(&h, &u).unwrap_err(), RewriteError::InvalidPortValue);
}

#[test]
fn port_bytes_that_are_not_utf8_are_rejected() {
    let mut h = Headers::new();
    h.add("x-forwarded-host", b"thing".to_vec());
    h.add("x-forwarded-port", vec![0xff, 0xfe]);
    let u = parse_url("http://localhost:3000/").unwrap();
    assert_eq!(rewrite(&h, &u).unwrap_err(), RewriteError::InvalidPortEncoding);
}

#[test]
fn host_bytes_that_are_not_utf8_are_rejected() {
    let mut h = Headers::new();
    h.add("x-forwarded-host", vec![0xc3]);
    let u = parse_url("http://localhost:3000/").unwrap();
    assert_eq!(rewrite(&h, &u).unwrap_err(), RewriteError::InvalidHostEncoding);
}

#[test]
fn host_with_illegal_characters_is_rejected() {
    let mut h = Headers::new();
    h.add("x-forwarded-host", b"th ing".to_vec());
    let u = parse_url("http://localhost:3000/").unwrap();
    assert_eq!(rewrite(&h, &u).unwrap_err(), RewriteError::InvalidHost);

    let mut h2 = Headers::new();
    h2.add("x-forwarded-host", b"thing/evil".to_vec());
    assert_eq!(rewrite(&h2, &u).unwrap_err(), RewriteError::InvalidHost);
}

#[test]
fn proto_bytes_that_are_not_utf8_are_rejected() {
    let mut h = Headers::new();
    h.add("x-forwarded-host", b"thing".to_vec());
    h.add("x-forwarded-proto", vec![0x80]);
    let u = parse_url("http://localhost:3000/").unwrap();
    assert_eq!(rewrite(&h, &u).unwrap_err(), RewriteError::InvalidSchemeEncoding);
}

#[test]
fn proto_that_is_no_scheme_is_rejected() {
    let mut h = Headers::new();
    h.add("x-forwarded-host", b"thing".to_vec());
    h.add("x-forwarded-proto", b"1https".to_vec());
    let u = parse_url("http://localhost:3000/").unwrap();
    assert_eq!(rewrite(&h, &u).unwrap_err(), RewriteError::InvalidScheme);
}

#[test]
fn rewriting_twice_gives_the_same_url() {
    let mut h = Headers::new();
    h.add("x-forwarded-host", b"thing".to_vec());
    h.add("x-forwarded-proto", b"https".to_vec());
    h.add("x-forwarded-port", b"443".to_vec());
    let u = parse_url("http://localhost:3000/").unwrap();
    let once = rewrite(&h, &u).unwrap();
    let twice = rewrite(&h, &once).unwrap();
    assert_eq!(once.url_string(), twice.url_string());
}

#[test]
fn elision_follows_the_rewritten_scheme_not_the_original() {
    // port 443 with the scheme left http stays explicit...
    test_middleware(
        "http://localhost:3000/",
        &[("x-forwarded-host", b"thing"), ("x-forwarded-port", b"443")],
        "http://thing:443/",
    );
    // ...and is elided once the proto header makes the scheme https.
    test_middleware(
        "http://localhost:3000/",
        &[
            ("x-forwarded-host", b"thing"),
            ("x-forwarded-port", b"443"),
            ("x-forwarded-proto", b"https"),
        ],
        "https://thing/",
    );
}
