//! The URL value type the rewriter works on: scheme, host, optional port,
//! and the remainder of the URL (path, query and fragment) kept as one
//! untouched string. Validity of each component is held to a minimal,
//! explicit policy: enough to parse and rebuild a host, scheme and port,
//! with no attempt at the full URL grammar.

use vstd::prelude::*;
use vstd::string::StrSliceExecFns;
use vstd::string::StringExecFns;

verus! {

/// A parsed absolute URL. `path` holds everything after the authority,
/// beginning with `/`; the rewriter never touches it.
#[derive(Debug)]
pub struct Url {
    pub scheme: String,
    pub host: String,
    pub port: Option<u16>,
    pub path: String,
}

/// The mathematical model of a [`Url`].
#[verifier::ext_equal]
pub ghost struct UrlV {
    pub scheme: Seq<char>,
    pub host: Seq<char>,
    pub port: Option<u16>,
    pub path: Seq<char>,
}

impl View for Url {
    type V = UrlV;

    open spec fn view(&self) -> UrlV {
        UrlV { scheme: self.scheme@, host: self.host@, port: self.port, path: self.path@ }
    }
}

/// An ASCII letter's code point.
pub open spec fn is_alpha_cp(cp: u32) -> bool {
    (0x41 <= cp && cp <= 0x5a) || (0x61 <= cp && cp <= 0x7a)
}

/// An ASCII digit's code point.
pub open spec fn is_digit_cp(cp: u32) -> bool {
    0x30 <= cp && cp <= 0x39
}

/// A code point allowed after the first character of a scheme:
/// a letter, a digit, `+`, `-` or `.`.
pub open spec fn is_scheme_cp(cp: u32) -> bool {
    is_alpha_cp(cp) || is_digit_cp(cp) || cp == 0x2b || cp == 0x2d || cp == 0x2e
}

/// A valid scheme: nonempty, a letter first, then scheme characters.
pub open spec fn valid_scheme(s: Seq<char>) -> bool {
    &&& s.len() > 0
    &&& is_alpha_cp(s[0] as u32)
    &&& forall|i: int| #![trigger s[i]] 0 <= i < s.len() ==> is_scheme_cp(s[i] as u32)
}

/// A code point allowed in a host: printable ASCII without the characters
/// that delimit or confuse a URL's authority
/// (`#`, `/`, `:`, `<`, `>`, `?`, `@`, `[`, `\`, `]`, `^`, `|`).
pub open spec fn is_host_cp(cp: u32) -> bool {
    &&& 0x21 <= cp && cp <= 0x7e
    &&& cp != 0x23 && cp != 0x2f && cp != 0x3a && cp != 0x3c && cp != 0x3e
    &&& cp != 0x3f && cp != 0x40 && cp != 0x5b && cp != 0x5c && cp != 0x5d
    &&& cp != 0x5e && cp != 0x7c
}

/// A valid host: nonempty, made of host characters.
pub open spec fn valid_host(s: Seq<char>) -> bool {
    &&& s.len() > 0
    &&& forall|i: int| #![trigger s[i]] 0 <= i < s.len() ==> is_host_cp(s[i] as u32)
}

/// A valid path remainder: ASCII, beginning with `/`.
pub open spec fn valid_path(s: Seq<char>) -> bool {
    &&& s.len() > 0
    &&& s[0] as u32 == 0x2f
    &&& forall|i: int| #![trigger s[i]] 0 <= i < s.len() ==> (s[i] as u32) < 0x80
}

/// A well-formed URL: valid components, and a port, when explicit,
/// in 1..=65535.
pub open spec fn url_wf(u: UrlV) -> bool {
    &&& valid_scheme(u.scheme)
    &&& valid_host(u.host)
    &&& valid_path(u.path)
    &&& match u.port {
        Some(p) => p >= 1,
        None => true,
    }
}

impl Url {
    /// Well-formedness of this URL's components.
    pub open spec fn wf(&self) -> bool {
        url_wf(self@)
    }
}

/// Whether `s` satisfies [`valid_scheme`].
pub fn check_scheme(s: &str) -> (r: bool)
    ensures
        r == valid_scheme(s@),
{
    let n: usize = s.unicode_len();
    if n == 0 {
        return false;
    }
    let c0: u32 = s.get_char(0) as u32;
    if !((0x41 <= c0 && c0 <= 0x5a) || (0x61 <= c0 && c0 <= 0x7a)) {
        return false;
    }
    let mut i: usize = 0;
    while i < n
        invariant
            n == s@.len(),
            0 <= i <= n,
            forall|j: int| #![trigger s@[j]] 0 <= j < i ==> is_scheme_cp(s@[j] as u32),
            is_alpha_cp(s@[0] as u32),
        decreases n - i,
    {
        let cp: u32 = s.get_char(i) as u32;
        if !((0x41 <= cp && cp <= 0x5a) || (0x61 <= cp && cp <= 0x7a) || (0x30 <= cp && cp <= 0x39)
            || cp == 0x2b || cp == 0x2d || cp == 0x2e) {
            return false;
        }
        i = i + 1;
    }
    true
}

/// Whether `s` satisfies [`valid_host`].
pub fn check_host(s: &str) -> (r: bool)
    ensures
        r == valid_host(s@),
{
    let n: usize = s.unicode_len();
    if n == 0 {
        return false;
    }
    let mut i: usize = 0;
    while i < n
        invariant
            n == s@.len(),
            0 <= i <= n,
            n > 0,
            forall|j: int| #![trigger s@[j]] 0 <= j < i ==> is_host_cp(s@[j] as u32),
        decreases n - i,
    {
        let cp: u32 = s.get_char(i) as u32;
        if !(0x21 <= cp && cp <= 0x7e) || cp == 0x23 || cp == 0x2f || cp == 0x3a || cp == 0x3c
            || cp == 0x3e || cp == 0x3f || cp == 0x40 || cp == 0x5b || cp == 0x5c || cp == 0x5d
            || cp == 0x5e || cp == 0x7c {
            return false;
        }
        i = i + 1;
    }
    true
}

/// The numeric value of an ASCII digit character; other characters count 0.
pub open spec fn digit_value(c: char) -> nat {
    if is_digit_cp(c as u32) {
        (c as u32 - 0x30) as nat
    } else {
        0
    }
}

/// The numeric value of a sequence of ASCII digits, most significant first.
pub open spec fn digits_value(s: Seq<char>) -> nat
    decreases s.len(),
{
    if s.len() == 0 {
        0
    } else {
        digits_value(s.drop_last()) * 10 + digit_value(s.last())
    }
}

/// A port string: nonempty, all digits, and a value in 1..=65535.
pub open spec fn is_port_seq(s: Seq<char>) -> bool {
    &&& s.len() > 0
    &&& (forall|i: int| #![trigger s[i]] 0 <= i < s.len() ==> is_digit_cp(s[i] as u32))
    &&& 1 <= digits_value(s) <= 65535
}

/// What parsing a port string yields: its value when it is a port string,
/// nothing otherwise.
pub open spec fn spec_parse_port(s: Seq<char>) -> Option<u16> {
    if is_port_seq(s) {
        Some(digits_value(s) as u16)
    } else {
        None
    }
}

/// Parses a decimal port number in 1..=65535; digits only, no sign.
pub fn parse_port(s: &str) -> (r: Option<u16>)
    ensures
        r == spec_parse_port(s@),
{
    let n: usize = s.unicode_len();
    if n == 0 {
        return None;
    }
    let mut i: usize = 0;
    // `val` follows the value of the digits read so far, capped at 65536
    // so that it stays far from overflow whatever the input length.
    let mut val: u32 = 0;
    while i < n
        invariant
            n == s@.len(),
            0 <= i <= n,
            forall|j: int| #![trigger s@[j]] 0 <= j < i ==> is_digit_cp(s@[j] as u32),
            val == if digits_value(s@.take(i as int)) > 65536 { 65536 } else { digits_value(s@.take(i as int)) as u32 },
        decreases n - i,
    {
        let cp: u32 = s.get_char(i) as u32;
        if !(0x30 <= cp && cp <= 0x39) {
            return None;
        }
        let d: u32 = cp - 0x30;
        if val > 65535 {
            val = 65536;
        } else {
            val = val * 10 + d;
            if val > 65536 {
                val = 65536;
            }
        }
        proof {
            assert(s@.take(i as int + 1).drop_last() =~= s@.take(i as int));
            assert(s@.take(i as int + 1).last() == s@[i as int]);
        }
        i = i + 1;
    }
    proof {
        assert(s@.take(n as int) =~= s@);
    }
    if val == 0 || val > 65535 {
        return None;
    }
    Some(val as u16)
}

/// The scheme's well-known default port: 80 for `http`, 443 for `https`,
/// none otherwise.
pub open spec fn default_port(scheme: Seq<char>) -> Option<u16> {
    if scheme == "http"@ {
        Some(80u16)
    } else if scheme == "https"@ {
        Some(443u16)
    } else {
        None
    }
}

/// Default-port elision: an explicit port equal to the scheme's default
/// is dropped, so the URL carries no explicit port; any other port is
/// kept explicit.
pub open spec fn elide_default_port(scheme: Seq<char>, p: u16) -> Option<u16> {
    if default_port(scheme) == Some(p) {
        None
    } else {
        Some(p)
    }
}

/// The digit character of a value below ten, as a one-character string view.
pub open spec fn digit_str(d: nat) -> Seq<char> {
    if d == 0 { "0"@ }
    else if d == 1 { "1"@ }
    else if d == 2 { "2"@ }
    else if d == 3 { "3"@ }
    else if d == 4 { "4"@ }
    else if d == 5 { "5"@ }
    else if d == 6 { "6"@ }
    else if d == 7 { "7"@ }
    else if d == 8 { "8"@ }
    else { "9"@ }
}

/// The decimal rendering of a number, without a sign or leading zeros
/// (a single zero for 0).
pub open spec fn dec_digits(n: nat) -> Seq<char>
    decreases n,
{
    if n < 10 {
        digit_str(n)
    } else {
        dec_digits(n / 10) + digit_str(n % 10)
    }
}

/// Appends the decimal rendering of `n` to `out`.
fn append_decimal(out: &mut String, n: u16)
    ensures
        final(out)@ == old(out)@ + dec_digits(n as nat),
    decreases n,
{
    if n >= 10 {
        append_decimal(out, n / 10);
    }
    let d: u16 = n % 10;
    let ds: &str = if d == 0 { "0" }
        else if d == 1 { "1" }
        else if d == 2 { "2" }
        else if d == 3 { "3" }
        else if d == 4 { "4" }
        else if d == 5 { "5" }
        else if d == 6 { "6" }
        else if d == 7 { "7" }
        else if d == 8 { "8" }
        else { "9" };
    out.append(ds);
    proof {
        if n >= 10 {
            assert(old(out)@ + dec_digits((n / 10) as nat) + digit_str((n % 10) as nat)
                =~= old(out)@ + dec_digits(n as nat));
        }
    }
}

/// The port part of a rendered URL: `:` and the digits, or nothing.
pub open spec fn spec_port_str(p: Option<u16>) -> Seq<char> {
    match p {
        None => Seq::<char>::empty(),
        Some(n) => ":"@ + dec_digits(n as nat),
    }
}

/// The rendering of a URL: scheme, `://`, host, the port part, then the rest.
pub open spec fn spec_url_string(u: UrlV) -> Seq<char> {
    u.scheme + "://"@ + u.host + spec_port_str(u.port) + u.path
}

/// Whether `s` satisfies [`valid_path`].
pub fn check_path(s: &str) -> (r: bool)
    ensures
        r == valid_path(s@),
{
    let n: usize = s.unicode_len();
    if n == 0 {
        return false;
    }
    if s.get_char(0) as u32 != 0x2f {
        return false;
    }
    let mut i: usize = 0;
    while i < n
        invariant
            n == s@.len(),
            0 <= i <= n,
            n > 0,
            s@[0] as u32 == 0x2f,
            forall|j: int| #![trigger s@[j]] 0 <= j < i ==> (s@[j] as u32) < 0x80,
        decreases n - i,
    {
        let cp: u32 = s.get_char(i) as u32;
        if cp >= 0x80 {
            return false;
        }
        i = i + 1;
    }
    true
}

/// The first position at or after `from` whose character has code point
/// `cp`, or -1 when there is none.
pub open spec fn find_cp(s: Seq<char>, cp: u32, from: int) -> int
    decreases s.len() - from,
{
    if from < 0 || from >= s.len() {
        -1
    } else if s[from] as u32 == cp {
        from
    } else {
        find_cp(s, cp, from + 1)
    }
}

/// Finds the first character at or after `from` with code point `cp`.
fn find_char_from(s: &str, cp: u32, from: usize) -> (r: Option<usize>)
    requires
        from <= s@.len(),
    ensures
        match r {
            Some(i) => from <= i < s@.len() && find_cp(s@, cp, from as int) == i as int,
            None => find_cp(s@, cp, from as int) == -1,
        },
{
    let n: usize = s.unicode_len();
    let mut i: usize = from;
    while i < n
        invariant
            n == s@.len(),
            from <= i <= n,
            find_cp(s@, cp, from as int) == find_cp(s@, cp, i as int),
        decreases n - i,
    {
        if s.get_char(i) as u32 == cp {
            return Some(i);
        }
        i = i + 1;
    }
    None
}

/// What [`find_cp`] returns: either -1 with no match anywhere at or after
/// `from`, or the position of the first match.
pub proof fn lemma_find_cp_props(s: Seq<char>, cp: u32, from: int)
    requires
        0 <= from,
    ensures
        find_cp(s, cp, from) == -1 ==> (forall|j: int|
            #![trigger s[j]]
            from <= j < s.len() ==> s[j] as u32 != cp),
        find_cp(s, cp, from) != -1 ==> from <= find_cp(s, cp, from) < s.len()
            && s[find_cp(s, cp, from)] as u32 == cp && (forall|j: int|
            #![trigger s[j]]
            from <= j < find_cp(s, cp, from) ==> s[j] as u32 != cp),
    decreases s.len() - from,
{
    if from < s.len() && s[from] as u32 != cp {
        lemma_find_cp_props(s, cp, from + 1);
    }
}

/// The decimal rendering of a number is nonempty, made of digits, and
/// reads back as that number.
pub proof fn lemma_dec_digits(n: nat)
    ensures
        dec_digits(n).len() > 0,
        forall|i: int| #![trigger dec_digits(n)[i]] 0 <= i < dec_digits(n).len()
            ==> is_digit_cp(dec_digits(n)[i] as u32),
        digits_value(dec_digits(n)) == n,
    decreases n,
{
    reveal_strlit("0");
    reveal_strlit("1");
    reveal_strlit("2");
    reveal_strlit("3");
    reveal_strlit("4");
    reveal_strlit("5");
    reveal_strlit("6");
    reveal_strlit("7");
    reveal_strlit("8");
    reveal_strlit("9");
    assert(digits_value(Seq::<char>::empty()) == 0);
    if n < 10 {
        assert(dec_digits(n).drop_last() =~= Seq::<char>::empty());
        assert(digit_value(dec_digits(n).last()) == n);
    } else {
        lemma_dec_digits(n / 10);
        assert(digit_value(digit_str(n % 10).last()) == n % 10);
        assert(dec_digits(n) =~= dec_digits(n / 10) + digit_str(n % 10));
        assert(dec_digits(n).drop_last() =~= dec_digits(n / 10));
        assert(digits_value(dec_digits(n))
            == digits_value(dec_digits(n / 10)) * 10 + digit_value(dec_digits(n).last()));
    }
}

/// What parsing a URL string yields: the string must read as
/// scheme `://` host, an optional `:` port, then a path beginning
/// with `/`, every component valid; anything else parses to nothing.
pub open spec fn spec_parse_url(s: Seq<char>) -> Option<UrlV> {
    let ci = find_cp(s, 0x3a, 0);
    if ci < 0 {
        None
    } else {
        let scheme = s.subrange(0, ci);
        if !valid_scheme(scheme) {
            None
        } else if s.len() - ci < 3 {
            None
        } else if s[ci + 1] as u32 != 0x2f || s[ci + 2] as u32 != 0x2f {
            None
        } else {
            let si = find_cp(s, 0x2f, ci + 3);
            if si < 0 {
                None
            } else {
                let path = s.subrange(si, s.len() as int);
                let colon = find_cp(s, 0x3a, ci + 3);
                if colon >= 0 && colon < si {
                    let host = s.subrange(ci + 3, colon);
                    let portstr = s.subrange(colon + 1, si);
                    if valid_host(host) && valid_path(path) {
                        match spec_parse_port(portstr) {
                            Some(p) => Some(UrlV { scheme, host, port: Some(p), path }),
                            None => None,
                        }
                    } else {
                        None
                    }
                } else {
                    let host = s.subrange(ci + 3, si);
                    if valid_host(host) && valid_path(path) {
                        Some(UrlV { scheme, host, port: None, path })
                    } else {
                        None
                    }
                }
            }
        }
    }
}

/// Parses an absolute URL of the shape scheme `://` host [`:` port] path.
pub fn parse_url(s: &str) -> (r: Option<Url>)
    ensures
        r matches Some(u) ==> (spec_parse_url(s@) matches Some(v) && u@ == v && u.wf()),
        r is None ==> spec_parse_url(s@) is None,
{
    let n: usize = s.unicode_len();
    let ci: usize = match find_char_from(s, 0x3a, 0) {
        None => {
            return None;
        },
        Some(i) => i,
    };
    let scheme_s: &str = s.substring_char(0, ci);
    if !check_scheme(scheme_s) {
        return None;
    }
    if n - ci < 3 {
        return None;
    }
    if s.get_char(ci + 1) as u32 != 0x2f || s.get_char(ci + 2) as u32 != 0x2f {
        return None;
    }
    let si: usize = match find_char_from(s, 0x2f, ci + 3) {
        None => {
            return None;
        },
        Some(i) => i,
    };
    let path_s: &str = s.substring_char(si, n);
    if !check_path(path_s) {
        return None;
    }
    let with_port: Option<u16>;
    let host_s: &str;
    match find_char_from(s, 0x3a, ci + 3) {
        Some(k) => {
            if k < si {
                host_s = s.substring_char(ci + 3, k);
                let port_s: &str = s.substring_char(k + 1, si);
                match parse_port(port_s) {
                    None => {
                        return None;
                    },
                    Some(p) => {
                        with_port = Some(p);
                    },
                }
            } else {
                host_s = s.substring_char(ci + 3, si);
                with_port = None;
            }
        },
        None => {
            host_s = s.substring_char(ci + 3, si);
            with_port = None;
        },
    }
    if !check_host(host_s) {
        return None;
    }
    let u = Url {
        scheme: scheme_s.to_owned(),
        host: host_s.to_owned(),
        port: with_port,
        path: path_s.to_owned(),
    };
    proof {
        assert(spec_parse_url(s@) matches Some(v) && u@ =~~= v);
    }
    Some(u)
}

/// Law: rendering a well-formed URL and parsing the rendering gives the
/// URL back — the parser inverts the renderer on every URL the library
/// can hold.
pub proof fn lemma_render_parse_round_trip(u: UrlV)
    requires
        url_wf(u),
    ensures
        spec_parse_url(spec_url_string(u)) == Some(u),
{
    reveal_strlit("://");
    reveal_strlit(":");
    let s = spec_url_string(u);
    let l = u.scheme.len() as int;
    let hl = u.host.len() as int;
    let prt = spec_port_str(u.port);
    let pl = prt.len() as int;
    let pi = l + 3 + hl + pl;

    match u.port {
        Some(p) => {
            lemma_dec_digits(p as nat);
            assert(prt[0] as u32 == 0x3a);
            assert(forall|j: int| #![trigger prt[j]] 1 <= j < pl
                ==> is_digit_cp(prt[j] as u32));
        },
        None => {
            assert(pl == 0);
        },
    }

    // where each component lies in the rendering
    assert(s.len() == pi + u.path.len());
    assert(forall|j: int| #![trigger s[j]] 0 <= j < l ==> s[j] == u.scheme[j]);
    assert(s[l] as u32 == 0x3a && s[l + 1] as u32 == 0x2f && s[l + 2] as u32 == 0x2f);
    assert(forall|j: int| #![trigger s[j]] l + 3 <= j < l + 3 + hl ==> s[j] == u.host[j - (l + 3)]);
    assert(forall|j: int| #![trigger s[j]] l + 3 + hl <= j < pi ==> s[j] == prt[j - (l + 3 + hl)]);
    assert(forall|j: int| #![trigger s[j]] pi <= j < s.len() ==> s[j] == u.path[j - pi]);

    // the first ':' ends the scheme
    lemma_find_cp_props(s, 0x3a, 0);
    let ci = find_cp(s, 0x3a, 0);
    assert(ci == l);
    assert(s.subrange(0, l) =~= u.scheme);

    // the first '/' at or after the authority starts the path
    lemma_find_cp_props(s, 0x2f, l + 3);
    let si = find_cp(s, 0x2f, l + 3);
    assert(s[pi] as u32 == 0x2f);
    assert(si == pi);
    assert(s.subrange(pi, s.len() as int) =~= u.path);

    // the first ':' at or after the authority starts the port, if any
    lemma_find_cp_props(s, 0x3a, l + 3);
    let colon = find_cp(s, 0x3a, l + 3);
    match u.port {
        None => {
            assert(!(colon >= 0 && colon < si));
            assert(s.subrange(l + 3, si) =~= u.host);
        },
        Some(p) => {
            assert(s[l + 3 + hl] as u32 == 0x3a);
            assert(colon == l + 3 + hl && colon < si);
            assert(s.subrange(l + 3, colon) =~= u.host);
            assert(s.subrange(colon + 1, si) =~= dec_digits(p as nat));
            lemma_dec_digits(p as nat);
            assert(is_port_seq(dec_digits(p as nat)));
            assert(spec_parse_port(s.subrange(colon + 1, si)) == Some(p));
        },
    }
    assert(spec_parse_url(s) matches Some(v) && v =~~= u);
}

impl Url {
    /// Renders this URL as a string.
    pub fn url_string(&self) -> (r: String)
        ensures
            r@ == spec_url_string(self@),
    {
        let mut out: String = String::new();
        out.append(self.scheme.as_str());
        out.append("://");
        out.append(self.host.as_str());
        match self.port {
            Some(p) => {
                out.append(":");
                append_decimal(&mut out, p);
            },
            None => {},
        }
        out.append(self.path.as_str());
        proof {
            assert(out@ =~= spec_url_string(self@));
        }
        out
    }
}

} // verus!
