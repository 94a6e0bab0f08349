//! Listen/forward addresses of the form `scheme://host:port`.
use vstd::prelude::*;
use vstd::string::*;

use crate::error::{RetError, RetResult};

verus! {

// ---------------------------------------------------------------------------
// Decimal numbers as text
// ---------------------------------------------------------------------------

/// The character of the decimal digit `d` (for `d < 10`).
pub open spec fn digit_char(d: nat) -> char {
    (d + 48) as char
}

/// `c` is one of `'0'..='9'`.
pub open spec fn is_digit(c: char) -> bool {
    '0' <= c && c <= '9'
}

/// Every character of `s` is a decimal digit.
pub open spec fn all_digits(s: Seq<char>) -> bool {
    forall|i: int| 0 <= i < s.len() ==> #[trigger] is_digit(s[i])
}

/// The number that the decimal digits `s` denote (most significant first).
pub open spec fn digits_value(s: Seq<char>) -> nat
    decreases s.len(),
{
    if s.len() == 0 {
        0
    } else {
        digits_value(s.drop_last()) * 10 + ((s.last() as int) - 48) as nat
    }
}

/// The shortest decimal text of `n`, with no sign and no leading zero.
pub open spec fn decimal(n: nat) -> Seq<char>
    decreases n,
{
    if n < 10 {
        seq![digit_char(n)]
    } else {
        decimal(n / 10).push(digit_char(n % 10))
    }
}

/// What parsing `s` as a `u16` gives, as std documents it: an optional `+`
/// followed by one or more ASCII digits whose value fits in 16 bits; any other
/// text is an error.
pub open spec fn spec_parse_u16(s: Seq<char>) -> Option<u16> {
    let ds = if s.len() > 0 && s[0] == '+' {
        s.drop_first()
    } else {
        s
    };
    if ds.len() > 0 && all_digits(ds) && digits_value(ds) <= 65535 {
        Some(digits_value(ds) as u16)
    } else {
        None
    }
}

/// The kinds of `std::num::IntErrorKind` that parsing a `u16` can report.
#[derive(PartialEq, Eq, Debug, Clone, Copy)]
pub enum PortErrorKind {
    /// `IntErrorKind::Empty`: the text is empty.
    Empty,
    /// `IntErrorKind::InvalidDigit`: the text holds something that is not a digit.
    InvalidDigit,
    /// `IntErrorKind::PosOverflow`: the number is larger than 65535.
    PosOverflow,
    /// Any other kind.
    Other,
}

/// The kind that `e.kind()` reports for a parse error, as a `PortErrorKind`.
pub uninterp spec fn int_error_kind(e: std::num::ParseIntError) -> PortErrorKind;

/// The kind of error that std's `u16::from_str` reports when it refuses the
/// text `s`.
pub uninterp spec fn u16_error_kind(s: Seq<char>) -> PortErrorKind;

/// The first position at or after `i` of `s` that holds no decimal digit.
pub open spec fn find_non_digit_from(s: Seq<char>, i: int) -> Option<int>
    decreases s.len() - i,
{
    if i < 0 || i >= s.len() {
        None
    } else if !is_digit(s[i]) {
        Some(i)
    } else {
        find_non_digit_from(s, i + 1)
    }
}

/// The kind of error that parsing `s` as a `u16` reports, where std's
/// documentation fixes it: `Empty` for empty text; `PosOverflow` for an
/// optional `+` and digits whose value exceeds 65535; `InvalidDigit` for a
/// lone sign, and for text whose first non-digit (after an optional `+`)
/// follows digits that still fit. `None` where the text parses, or where a
/// non-digit follows digits that already overflow.
pub open spec fn expected_u16_error(s: Seq<char>) -> Option<PortErrorKind> {
    let ds = if s.len() > 0 && s[0] == '+' {
        s.drop_first()
    } else {
        s
    };
    if s.len() == 0 {
        Some(PortErrorKind::Empty)
    } else if ds.len() == 0 {
        Some(PortErrorKind::InvalidDigit)
    } else {
        match find_non_digit_from(ds, 0) {
            None => if digits_value(ds) > 65535 {
                Some(PortErrorKind::PosOverflow)
            } else {
                None
            },
            Some(k) => if digits_value(ds.take(k)) <= 65535 {
                Some(PortErrorKind::InvalidDigit)
            } else {
                None
            },
        }
    }
}

/// Parses a port number with std's `str::parse::<u16>`.
///
/// Trusted: std documents that the text must be an optional `+` followed by
/// one or more digits and that a value out of range is an error; this is what
/// the contract states through `spec_parse_u16`. The kind of the error is
/// stated where `IntErrorKind`'s documentation fixes it (empty text; a lone
/// or misplaced sign or another invalid character; a number too large for the
/// type), through `expected_u16_error`. Where a non-digit follows digits that
/// already overflow, the documentation does not fix the kind; there the
/// contract says only that it is the one std reports for that text, named
/// `u16_error_kind` (a function of the text alone).
#[verifier::external_body]
fn parse_u16(text: &str) -> (r: Result<u16, std::num::ParseIntError>)
    ensures
        match r {
            Ok(v) => spec_parse_u16(text@) == Some(v),
            Err(e) => spec_parse_u16(text@) is None && int_error_kind(e) == u16_error_kind(text@)
                && (expected_u16_error(text@) matches Some(k) ==> int_error_kind(e) == k),
        },
{
    text.parse::<u16>()
}

/// The one-character text of the digit `d`.
fn digit_text(d: u16) -> (r: &'static str)
    requires
        d < 10,
    ensures
        r@ == seq![digit_char(d as nat)],
{
    proof {
        reveal_strlit("0");
        reveal_strlit("1");
        reveal_strlit("2");
        reveal_strlit("3");
        reveal_strlit("4");
        reveal_strlit("5");
        reveal_strlit("6");
        reveal_strlit("7");
        reveal_strlit("8");
        reveal_strlit("9");
    }
    let r = if d == 0 {
        "0"
    } else if d == 1 {
        "1"
    } else if d == 2 {
        "2"
    } else if d == 3 {
        "3"
    } else if d == 4 {
        "4"
    } else if d == 5 {
        "5"
    } else if d == 6 {
        "6"
    } else if d == 7 {
        "7"
    } else if d == 8 {
        "8"
    } else {
        "9"
    };
    assert(r@ =~= seq![digit_char(d as nat)]);
    r
}

/// Appends the decimal text of `n` to `out`.
fn push_decimal(out: &mut String, n: u16)
    ensures
        final(out)@ == old(out)@ + decimal(n as nat),
    decreases n,
{
    if n >= 10 {
        push_decimal(out, n / 10);
    }
    let d = n % 10;
    out.append(digit_text(d));
    assert(final(out)@ =~= old(out)@ + decimal(n as nat));
}

// ---------------------------------------------------------------------------
// Finding the separators
// ---------------------------------------------------------------------------

/// `"://"` starts at position `i` of `s`.
pub open spec fn sep_at(s: Seq<char>, i: int) -> bool {
    0 <= i && i + 3 <= s.len() && s[i] == ':' && s[i + 1] == '/' && s[i + 2] == '/'
}

/// The first position at or after `i` where `"://"` starts.
pub open spec fn find_sep_from(s: Seq<char>, i: int) -> Option<int>
    decreases s.len() - i,
{
    if i < 0 || i + 3 > s.len() {
        None
    } else if sep_at(s, i) {
        Some(i)
    } else {
        find_sep_from(s, i + 1)
    }
}

/// The first position at or after `i` that holds `c`.
pub open spec fn find_char_from(s: Seq<char>, c: char, i: int) -> Option<int>
    decreases s.len() - i,
{
    if i < 0 || i >= s.len() {
        None
    } else if s[i] == c {
        Some(i)
    } else {
        find_char_from(s, c, i + 1)
    }
}

/// The scheme given to an address written without `"://"`.
pub open spec fn default_scheme() -> Seq<char> {
    seq!['h', 't', 't', 'p']
}

/// How the part after the scheme splits: the host before its first `':'`;
/// after that `':'`, the port text up to the first `'/'` and the path from that
/// `'/'` on. Without a `':'` the whole is the host and port text and path are
/// empty; without a `'/'` after the `':'` the path is empty.
pub open spec fn spec_split_rest(rest: Seq<char>) -> (Seq<char>, Seq<char>, Seq<char>) {
    match find_char_from(rest, ':', 0) {
        Some(j) => {
            let after = rest.skip(j + 1);
            match find_char_from(after, '/', 0) {
                Some(k) => (rest.take(j), after.take(k), after.skip(k)),
                None => (rest.take(j), after, Seq::<char>::empty()),
            }
        },
        None => (rest, Seq::<char>::empty(), Seq::<char>::empty()),
    }
}

/// How an address splits into scheme, host, port text and path. With a
/// `"://"`, the scheme is what precedes the first one and the rest follows it;
/// without one, an address that holds a `':'` (such as `:443`) has the scheme
/// `http` and is all rest, and any other address is `None`.
pub open spec fn spec_split_url(s: Seq<char>) -> Option<
    (Seq<char>, Seq<char>, Seq<char>, Seq<char>),
> {
    let (scheme, rest) = match find_sep_from(s, 0) {
        Some(i) => (s.take(i), s.skip(i + 3)),
        None => (default_scheme(), s),
    };
    if find_sep_from(s, 0) is None && find_char_from(s, ':', 0) is None {
        None
    } else {
        let (host, port_text, path) = spec_split_rest(rest);
        Some((scheme, host, port_text, path))
    }
}

/// The `host:port` text of a target address.
pub open spec fn target_host_text(host: Seq<char>, port: u16) -> Seq<char> {
    host + seq![':'] + decimal(port as nat)
}

fn find_sep(s: &str, n: usize) -> (r: Option<usize>)
    requires
        n == s@.len(),
    ensures
        match r {
            Some(i) => find_sep_from(s@, 0) == Some(i as int) && i + 3 <= n,
            None => find_sep_from(s@, 0) is None,
        },
{
    if n < 3 {
        return None;
    }
    let mut i: usize = 0;
    while i <= n - 3
        invariant
            n == s@.len(),
            n >= 3,
            i <= n - 2,
            find_sep_from(s@, 0) == find_sep_from(s@, i as int),
        decreases n - i,
    {
        if s.get_char(i) == ':' && s.get_char(i + 1) == '/' && s.get_char(i + 2) == '/' {
            return Some(i);
        }
        i = i + 1;
    }
    None
}

fn find_char(s: &str, n: usize, c: char) -> (r: Option<usize>)
    requires
        n == s@.len(),
    ensures
        match r {
            Some(j) => find_char_from(s@, c, 0) == Some(j as int) && j < n,
            None => find_char_from(s@, c, 0) is None,
        },
{
    let mut j: usize = 0;
    while j < n
        invariant
            n == s@.len(),
            j <= n,
            find_char_from(s@, c, 0) == find_char_from(s@, c, j as int),
        decreases n - j,
    {
        if s.get_char(j) == c {
            return Some(j);
        }
        j = j + 1;
    }
    None
}

// ---------------------------------------------------------------------------
// Addresses
// ---------------------------------------------------------------------------

/// A parsed `scheme://host:port` address, with the path that may follow the
/// port (as the forwarding target in `tcp://:8080/192.168.1.1:80`).
#[derive(Debug)]
pub struct UrlProto {
    pub scheme: String,
    pub host: String,
    pub port: u16,
    /// The text from the first `'/'` after the port on; empty when there is none.
    pub path: String,
}

impl UrlProto {
    /// The `host:port` address to connect to.
    pub fn get_target_host(&self) -> (r: String)
        ensures
            r@ == target_host_text(self.host@, self.port),
    {
        let mut s = self.host.clone();
        proof {
            reveal_strlit(":");
        }
        s.append(":");
        push_decimal(&mut s, self.port);
        s
    }
}

/// Splits the part of an address after its scheme (see `spec_split_rest`).
fn split_rest(rest: &str) -> (r: (&str, &str, &str))
    ensures
        (r.0@, r.1@, r.2@) == spec_split_rest(rest@),
{
    let m = rest.unicode_len();
    proof {
        reveal_strlit("");
    }
    match find_char(rest, m, ':') {
        Some(j) => {
            let after = rest.substring_char(j + 1, m);
            let a = after.unicode_len();
            proof {
                assert(after@ =~= rest@.skip(j + 1));
            }
            match find_char(after, a, '/') {
                Some(k) => (
                    rest.substring_char(0, j),
                    after.substring_char(0, k),
                    after.substring_char(k, a),
                ),
                None => (rest.substring_char(0, j), after, ""),
            }
        },
        None => {
            assert(rest@.subrange(0, m as int) =~= rest@);
            (rest, "", "")
        },
    }
}

/// Parses a listen or forward address, such as `http://:8080`,
/// `ss://192.168.1.1:8081`, `:443` or `tcp://:8080/192.168.1.1:80`.
///
/// The scheme is what precedes the first `"://"`, or `http` for an address
/// without `"://"` that holds a `':'`. Of the rest, the host is what precedes
/// its first `':'`; after that `':'` the port runs to the first `'/'`, and
/// the path is what follows from there. An address with neither `"://"` nor
/// `':'` is refused with `AddrParseError` holding the input; a port that is
/// missing or not a `u16` is refused with `ParseIntError`, of the kind std
/// documents for that text.
pub fn parse_url(input: &str) -> (r: RetResult<UrlProto>)
    ensures
        match spec_split_url(input@) {
            None => r matches Err(RetError::AddrParseError(t)) && t@ == input@,
            Some((scheme, host, port_text, path)) => match spec_parse_u16(port_text) {
                Some(p) => r matches Ok(u) && u.scheme@ == scheme && u.host@ == host && u.port
                    == p && u.path@ == path,
                None => r matches Err(RetError::ParseIntError(e)) && int_error_kind(e)
                    == u16_error_kind(port_text) && (expected_u16_error(port_text) matches Some(k)
                    ==> int_error_kind(e) == k),
            },
        },
{
    let n = input.unicode_len();
    let (scheme, rest) = match find_sep(input, n) {
        Some(i) => {
            let scheme = input.substring_char(0, i).to_owned();
            let rest = input.substring_char(i + 3, n);
            proof {
                assert(rest@ =~= input@.skip(i + 3));
                assert(scheme@ =~= input@.take(i as int));
            }
            (scheme, rest)
        },
        None => {
            if find_char(input, n, ':').is_none() {
                return Err(RetError::AddrParseError(input.to_owned()));
            }
            proof {
                reveal_strlit("http");
            }
            let scheme = String::from_str("http");
            assert(scheme@ =~= default_scheme());
            (scheme, input)
        },
    };
    let (host_part, port_part, path_part) = split_rest(rest);
    let port = match parse_u16(port_part) {
        Ok(p) => p,
        Err(e) => {
            return Err(RetError::from(e));
        },
    };
    Ok(UrlProto { scheme, host: host_part.to_owned(), port, path: path_part.to_owned() })
}

// ---------------------------------------------------------------------------
// Laws
// ---------------------------------------------------------------------------

proof fn lemma_decimal_shape(n: nat)
    ensures
        decimal(n).len() > 0,
        all_digits(decimal(n)),
        digits_value(decimal(n)) == n,
        decimal(n)[0] != '+',
        forall|i: int| 0 <= i < decimal(n).len() ==> #[trigger] decimal(n)[i] != ':',
    decreases n,
{
    assert(((n % 10 + 48) as char) as int == n % 10 + 48);
    let d = decimal(n);
    if n >= 10 {
        lemma_decimal_shape(n / 10);
        assert(d.drop_last() =~= decimal(n / 10));
        assert(d.last() == digit_char(n % 10));
        assert(n == (n / 10) * 10 + n % 10);
        assert(digits_value(d) == digits_value(decimal(n / 10)) * 10 + n % 10);
    } else {
        assert(d.drop_last() =~= Seq::<char>::empty());
        assert(digits_value(d.drop_last()) == 0);
        assert(digits_value(d) == n);
    }
}

/// Writing a port in decimal and parsing that text back gives the port.
pub proof fn lemma_port_text_round_trip(p: u16)
    ensures
        spec_parse_u16(decimal(p as nat)) == Some(p),
{
    lemma_decimal_shape(p as nat);
}

proof fn lemma_find_sep_first(s: Seq<char>, i: int, k: int)
    requires
        0 <= i <= k,
        sep_at(s, k),
        forall|j: int| i <= j < k ==> !#[trigger] sep_at(s, j),
    ensures
        find_sep_from(s, i) == Some(k),
    decreases k - i,
{
    if i < k {
        lemma_find_sep_first(s, i + 1, k);
    }
}

pub(crate) proof fn lemma_find_char_first(s: Seq<char>, c: char, i: int, k: int)
    requires
        0 <= i <= k < s.len(),
        s[k] == c,
        forall|j: int| i <= j < k ==> #[trigger] s[j] != c,
    ensures
        find_char_from(s, c, i) == Some(k),
    decreases k - i,
{
    if i < k {
        lemma_find_char_first(s, c, i + 1, k);
    }
}

proof fn lemma_find_sep_none(s: Seq<char>, i: int)
    requires
        0 <= i,
        forall|j: int| i <= j ==> !#[trigger] sep_at(s, j),
    ensures
        find_sep_from(s, i) is None,
    decreases s.len() - i,
{
    if i + 3 <= s.len() {
        lemma_find_sep_none(s, i + 1);
    }
}

pub(crate) proof fn lemma_find_char_none(s: Seq<char>, c: char, i: int)
    requires
        0 <= i,
        forall|j: int| i <= j < s.len() ==> #[trigger] s[j] != c,
    ensures
        find_char_from(s, c, i) is None,
    decreases s.len() - i,
{
    if i < s.len() {
        lemma_find_char_none(s, c, i + 1);
    }
}

/// The part of an address after its scheme, written as `host ":" port path`
/// with no `':'` in the host, no `'/'` in the port text and a path that is
/// empty or starts with `'/'`, splits back into exactly that host, that whole
/// port text and that path.
pub proof fn law_split_rest(host: Seq<char>, port_text: Seq<char>, path: Seq<char>)
    requires
        forall|i: int| 0 <= i < host.len() ==> #[trigger] host[i] != ':',
        forall|i: int| 0 <= i < port_text.len() ==> #[trigger] port_text[i] != '/',
        path.len() == 0 || path[0] == '/',
    ensures
        spec_split_rest(host + seq![':'] + port_text + path) == (host, port_text, path),
{
    let rest = host + seq![':'] + port_text + path;
    let h = host.len() as int;
    assert forall|j: int| 0 <= j < h implies #[trigger] rest[j] != ':' by {
        assert(rest[j] == host[j]);
    }
    assert(rest[h] == ':');
    lemma_find_char_first(rest, ':', 0, h);
    let after = rest.skip(h + 1);
    assert(after =~= port_text + path);
    assert(rest.take(h) =~= host);
    assert forall|j: int| 0 <= j < port_text.len() implies #[trigger] after[j] != '/' by {
        assert(after[j] == port_text[j]);
    }
    if path.len() == 0 {
        lemma_find_char_none(after, '/', 0);
        assert(after =~= port_text);
    } else {
        assert(after[port_text.len() as int] == '/');
        lemma_find_char_first(after, '/', 0, port_text.len() as int);
        assert(after.take(port_text.len() as int) =~= port_text);
        assert(after.skip(port_text.len() as int) =~= path);
    }
}

/// How `host ":" decimal(port) path` splits, for a host without `':'` and a
/// path that is empty or starts with `'/'`.
proof fn lemma_split_rest_of(host: Seq<char>, port: u16, path: Seq<char>)
    requires
        forall|i: int| 0 <= i < host.len() ==> #[trigger] host[i] != ':',
        path.len() == 0 || path[0] == '/',
    ensures
        spec_split_rest(host + seq![':'] + decimal(port as nat) + path) == (
            host,
            decimal(port as nat),
            path,
        ),
{
    let dec = decimal(port as nat);
    lemma_decimal_shape(port as nat);
    assert forall|j: int| 0 <= j < dec.len() implies #[trigger] dec[j] != '/' by {
        assert(is_digit(dec[j]));
    }
    law_split_rest(host, dec, path);
}

/// An address written as `scheme "://" host ":" port path`, with no `"://"` in
/// the scheme, no `':'` in the host, no `'/'` in the port text and a path that
/// is empty or starts with `'/'`, splits into exactly that scheme, host, whole
/// port text and path (so `parse_url` reads the port from all of that text).
pub proof fn law_url_split(
    scheme: Seq<char>,
    host: Seq<char>,
    port_text: Seq<char>,
    path: Seq<char>,
)
    requires
        forall|i: int| !#[trigger] sep_at(scheme, i),
        forall|i: int| 0 <= i < host.len() ==> #[trigger] host[i] != ':',
        forall|i: int| 0 <= i < port_text.len() ==> #[trigger] port_text[i] != '/',
        path.len() == 0 || path[0] == '/',
    ensures
        spec_split_url(scheme + seq![':', '/', '/'] + host + seq![':'] + port_text + path) == Some(
            (scheme, host, port_text, path),
        ),
{
    let s = scheme + seq![':', '/', '/'] + host + seq![':'] + port_text + path;
    let k = scheme.len() as int;
    assert(s[k] == ':');
    assert forall|j: int| 0 <= j < k implies !#[trigger] sep_at(s, j) by {
        if j + 3 <= k {
            assert(s[j] == scheme[j]);
            assert(s[j + 1] == scheme[j + 1]);
            assert(s[j + 2] == scheme[j + 2]);
            assert(!sep_at(scheme, j));
        }
    }
    assert(sep_at(s, k));
    lemma_find_sep_first(s, 0, k);
    assert(s.skip(k + 3) =~= host + seq![':'] + port_text + path);
    assert(s.take(k) =~= scheme);
    law_split_rest(host, port_text, path);
}

/// The decimal text of a number is canonical: one or more ASCII digits whose
/// value is the number, with no leading zero (the text of zero is `0`).
pub proof fn law_decimal_canonical(n: nat)
    ensures
        decimal(n).len() > 0,
        forall|i: int| 0 <= i < decimal(n).len() ==> '0' <= #[trigger] decimal(n)[i] <= '9',
        digits_value(decimal(n)) == n,
        n > 0 ==> decimal(n)[0] != '0',
        n == 0 ==> decimal(n) == seq!['0'],
    decreases n,
{
    lemma_decimal_shape(n);
    assert forall|i: int| 0 <= i < decimal(n).len() implies '0' <= #[trigger] decimal(n)[i]
        <= '9' by {
        assert(is_digit(decimal(n)[i]));
    }
    if n >= 10 {
        law_decimal_canonical(n / 10);
        assert(decimal(n)[0] == decimal(n / 10)[0]);
    } else {
        assert((n + 48) as int == (((n + 48) as char) as int));
        assert(decimal(n) =~= seq![digit_char(n)]);
    }
}

/// An address written as `scheme "://" host ":" port path`, with no `"://"`
/// in the scheme, no `':'` in the host, the port in plain decimal and a path
/// that is empty or starts with `'/'`, parses back into that scheme, host,
/// port and path; and the target address of the result, followed by the path,
/// is exactly the text that follows `"://"`.
pub proof fn law_address_round_trip(
    scheme: Seq<char>,
    host: Seq<char>,
    port: u16,
    path: Seq<char>,
)
    requires
        forall|i: int| !#[trigger] sep_at(scheme, i),
        forall|i: int| 0 <= i < host.len() ==> #[trigger] host[i] != ':',
        path.len() == 0 || path[0] == '/',
    ensures
        ({
            let s = scheme + seq![':', '/', '/'] + host + seq![':'] + decimal(port as nat) + path;
            &&& spec_split_url(s) == Some((scheme, host, decimal(port as nat), path))
            &&& spec_parse_u16(decimal(port as nat)) == Some(port)
            &&& target_host_text(host, port) + path == s.skip(scheme.len() + 3int)
        }),
{
    let dec = decimal(port as nat);
    let s = scheme + seq![':', '/', '/'] + host + seq![':'] + dec + path;
    let k = scheme.len() as int;
    assert(s[k] == ':');
    assert forall|j: int| 0 <= j < k implies !#[trigger] sep_at(s, j) by {
        if j + 3 <= k {
            assert(s[j] == scheme[j]);
            assert(s[j + 1] == scheme[j + 1]);
            assert(s[j + 2] == scheme[j + 2]);
            assert(!sep_at(scheme, j));
        }
    }
    assert(sep_at(s, k));
    lemma_find_sep_first(s, 0, k);
    let rest = s.skip(k + 3);
    assert(rest =~= host + seq![':'] + dec + path);
    assert(s.take(k) =~= scheme);
    lemma_split_rest_of(host, port, path);
    lemma_port_text_round_trip(port);
    assert(target_host_text(host, port) + path =~= rest);
}

/// An address written without a scheme as `host ":" port path` (such as
/// `:443`), with no `':'` in the host, the port in plain decimal and a path
/// that is empty or starts with `'/'` and holds no `"://"`, parses into the
/// scheme `http` and that host, port and path.
pub proof fn law_bare_address(host: Seq<char>, port: u16, path: Seq<char>)
    requires
        forall|i: int| 0 <= i < host.len() ==> #[trigger] host[i] != ':',
        path.len() == 0 || path[0] == '/',
        forall|i: int| !#[trigger] sep_at(path, i),
    ensures
        spec_split_url(host + seq![':'] + decimal(port as nat) + path) == Some(
            (default_scheme(), host, decimal(port as nat), path),
        ),
{
    let dec = decimal(port as nat);
    lemma_decimal_shape(port as nat);
    let s = host + seq![':'] + dec + path;
    let h = host.len() as int;
    let o = h + 1 + dec.len();
    assert forall|j: int| 0 <= j implies !#[trigger] sep_at(s, j) by {
        if sep_at(s, j) {
            if j < h {
                assert(s[j] == host[j]);
            } else if j == h {
                assert(s[j + 1] == dec[0]);
                assert(is_digit(dec[0]));
            } else if j < o {
                assert(s[j] == dec[j - h - 1]);
                assert(is_digit(dec[j - h - 1]));
            } else {
                assert(s[j] == path[j - o]);
                assert(s[j + 1] == path[j - o + 1]);
                assert(s[j + 2] == path[j - o + 2]);
                assert(sep_at(path, j - o));
            }
        }
    }
    lemma_find_sep_none(s, 0);
    assert forall|j: int| 0 <= j < h implies #[trigger] s[j] != ':' by {
        assert(s[j] == host[j]);
    }
    lemma_find_char_first(s, ':', 0, h);
    lemma_split_rest_of(host, port, path);
}

} // verus!
