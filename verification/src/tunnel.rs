//! The Shadowsocks server the proxy forwards through: its configuration.
use vstd::prelude::*;

use shadowsocks::config::{ServerConfig, ServerConfigError};
use shadowsocks::relay::socks5::AddressError;
use shadowsocks::relay::Address;
use shadowsocks_crypto::kind::ParseCipherKindError;
use shadowsocks_crypto::CipherKind;
use vstd::utf8::*;

use crate::common::{find_char_from, lemma_find_char_first, lemma_find_char_none, spec_parse_u16};
use crate::proxy::str_from_utf8;

verus! {

/// `shadowsocks_crypto::CipherKind`, an encryption method.
#[verifier::external_type_specification]
#[verifier::external_body]
pub struct ExCipherKind(CipherKind);

/// `shadowsocks_crypto::kind::ParseCipherKindError`.
#[verifier::external_type_specification]
#[verifier::external_body]
pub struct ExParseCipherKindError(ParseCipherKindError);

/// `shadowsocks::config::ServerConfig`, a server to connect through.
#[verifier::external_type_specification]
#[verifier::external_body]
pub struct ExServerConfig(ServerConfig);

/// `shadowsocks::config::ServerConfigError`.
#[verifier::external_type_specification]
#[verifier::external_body]
pub struct ExServerConfigError(ServerConfigError);

/// `shadowsocks::relay::Address`, the address of a target.
#[verifier::external_type_specification]
#[verifier::external_body]
pub struct ExAddress(Address);

/// `shadowsocks::relay::socks5::AddressError`.
#[verifier::external_type_specification]
#[verifier::external_body]
pub struct ExAddressError(AddressError);

/// The name of an encryption method, as `CipherKind`'s `Display` writes it.
pub uninterp spec fn cipher_kind_name(k: CipherKind) -> Seq<char>;

/// What a server configuration holds: the host and port of its domain-name
/// address (`ServerAddr::DomainName`), its password, and the name of its
/// encryption method, as `addr()`, `password()` and the `Display` of
/// `method()` give them.
pub uninterp spec fn server_config_contents(c: ServerConfig) -> (
    Seq<char>,
    u16,
    Seq<char>,
    Seq<char>,
);

/// Whether std's `SocketAddr::from_str` reads `s` as a socket address (an IP
/// address and a port).
pub uninterp spec fn is_socket_addr_text(s: Seq<char>) -> bool;

/// The domain name and port of an address, `None` for a socket address.
pub uninterp spec fn address_domain(a: Address) -> Option<(Seq<char>, u16)>;

/// `c` with an ASCII capital letter turned into its small letter.
pub open spec fn ascii_lower(c: char) -> char {
    if 'A' <= c && c <= 'Z' {
        ((c as int) + 32) as char
    } else {
        c
    }
}

/// `s` with its ASCII capital letters turned into small letters.
pub open spec fn lowered(s: Seq<char>) -> Seq<char> {
    s.map_values(|c: char| ascii_lower(c))
}

/// The encryption method names this build knows, ignoring case: `plain`,
/// `none`, `aes-128-gcm`, `aes-256-gcm` and `chacha20-ietf-poly1305`.
pub open spec fn supported_cipher_name(name: Seq<char>) -> bool {
    let l = lowered(name);
    ||| l == seq!['p', 'l', 'a', 'i', 'n']
    ||| l == seq!['n', 'o', 'n', 'e']
    ||| l == seq!['a', 'e', 's', '-', '1', '2', '8', '-', 'g', 'c', 'm']
    ||| l == seq!['a', 'e', 's', '-', '2', '5', '6', '-', 'g', 'c', 'm']
    ||| l == seq![
        'c',
        'h',
        'a',
        'c',
        'h',
        'a',
        '2',
        '0',
        '-',
        'i',
        'e',
        't',
        'f',
        '-',
        'p',
        'o',
        'l',
        'y',
        '1',
        '3',
        '0',
        '5',
    ]
}

/// The name of the method that a known cipher name selects: `plain` selects
/// `none`; any other known name, lowered, is its own.
pub open spec fn canonical_cipher_name(name: Seq<char>) -> Seq<char> {
    let l = lowered(name);
    if l == seq!['p', 'l', 'a', 'i', 'n'] {
        seq!['n', 'o', 'n', 'e']
    } else {
        l
    }
}

/// Reads an encryption method name with `CipherKind::from_str`.
///
/// Trusted: `from_str` lowercases the name and matches it against the names
/// of the ciphers compiled in; with the features this crate builds
/// shadowsocks with (`aead-cipher`, which gives shadowsocks-crypto `v1-aead`),
/// those are the five of `supported_cipher_name`. No character outside ASCII
/// lowercases to a letter of those names, so ASCII lowering decides it.
/// `plain` and `none` select `NONE`, which `Display` writes as `none`; each
/// other name selects the method that `Display` writes as that name.
#[verifier::external_body]
fn parse_cipher_kind(name: &str) -> (r: Result<CipherKind, ParseCipherKindError>)
    ensures
        r is Ok <==> supported_cipher_name(name@),
        r matches Ok(k) ==> cipher_kind_name(k) == canonical_cipher_name(name@),
{
    name.parse::<CipherKind>()
}

/// Builds a server configuration with `ServerConfig::new`, for the domain
/// address `host:port`.
///
/// Trusted: `ServerConfig::new` fails only when deriving the key for an
/// AEAD-2022 cipher fails (`make_derived_key` under the `aead-cipher-2022`
/// feature, and the identity keys of `password_to_keys` under the same
/// feature); that feature is not compiled in, so it always succeeds. The
/// configuration keeps the address, the method and the password (which
/// `password_to_keys` hands back unchanged for every method compiled in).
#[verifier::external_body]
fn new_server_config(host: String, port: u16, password: String, method: CipherKind) -> (r: Result<
    ServerConfig,
    ServerConfigError,
>)
    ensures
        r is Ok,
        r matches Ok(c) ==> server_config_contents(c) == (
            host@,
            port,
            password@,
            cipher_kind_name(method),
        ),
{
    ServerConfig::new(shadowsocks::config::ServerAddr::DomainName(host, port), password, method)
}

/// The configuration of the Shadowsocks server at `ss_server_addr:ss_server_port`,
/// with the given password and encryption method. The method must be one this
/// build knows.
pub fn get_server_config(
    ss_server_addr: &str,
    ss_server_port: u16,
    ss_password: &str,
    ss_cipher: &str,
) -> (r: ServerConfig)
    requires
        supported_cipher_name(ss_cipher@),
    ensures
        server_config_contents(r) == (
            ss_server_addr@,
            ss_server_port,
            ss_password@,
            canonical_cipher_name(ss_cipher@),
        ),
{
    let method = parse_cipher_kind(ss_cipher).unwrap();
    new_server_config(ss_server_addr.to_owned(), ss_server_port, ss_password.to_owned(), method).unwrap()
}

/// Like `get_server_config`, but `None` when the encryption method is not one
/// this build knows.
pub fn try_get_server_config(
    ss_server_addr: &str,
    ss_server_port: u16,
    ss_password: &str,
    ss_cipher: &str,
) -> (r: Option<ServerConfig>)
    ensures
        r is Some <==> supported_cipher_name(ss_cipher@),
        r matches Some(c) ==> server_config_contents(c) == (
            ss_server_addr@,
            ss_server_port,
            ss_password@,
            canonical_cipher_name(ss_cipher@),
        ),
{
    match parse_cipher_kind(ss_cipher) {
        Ok(_) => Some(get_server_config(ss_server_addr, ss_server_port, ss_password, ss_cipher)),
        Err(_) => None,
    }
}

/// The port text of a domain address: what follows its first `':'` up to the
/// next `':'`, or `None` when it has no `':'`.
pub open spec fn address_port_text(s: Seq<char>) -> Option<Seq<char>> {
    match find_char_from(s, ':', 0) {
        None => None,
        Some(i) => {
            let after = s.skip(i + 1);
            match find_char_from(after, ':', 0) {
                Some(j) => Some(after.take(j)),
                None => Some(after),
            }
        },
    }
}

/// The domain name and port that text which is no socket address names: the
/// text before the first `':'` and the port after it, or the whole text and
/// port 80 when there is no `':'`; `None` when the port text is not a `u16`.
pub open spec fn spec_domain_address(s: Seq<char>) -> Option<(Seq<char>, u16)> {
    match find_char_from(s, ':', 0) {
        None => Some((s, 80)),
        Some(i) => match spec_parse_u16(address_port_text(s).unwrap()) {
            Some(p) => Some((s.take(i), p)),
            None => None,
        },
    }
}

/// What a target text names: `None` when it is refused, `Some(None)` for a
/// socket address, `Some(Some((name, port)))` for a domain address.
pub open spec fn spec_address(s: Seq<char>) -> Option<Option<(Seq<char>, u16)>> {
    if is_socket_addr_text(s) {
        Some(None)
    } else {
        match spec_domain_address(s) {
            Some(d) => Some(Some(d)),
            None => None,
        }
    }
}

/// Reads a target address with `Address::from_str`.
///
/// Trusted: in the shadowsocks source, `from_str` first tries std's
/// `SocketAddr::from_str` (named `is_socket_addr_text`) and gives a socket
/// address; otherwise it splits at `':'` and gives the domain address of the
/// first piece with the second piece as port, or port 80 when there is no
/// `':'`, and fails when the second piece is not a `u16`.
#[verifier::external_body]
fn parse_address(s: &str) -> (r: Result<Address, AddressError>)
    ensures
        if is_socket_addr_text(s@) {
            r matches Ok(a) && address_domain(a) is None
        } else {
            match spec_domain_address(s@) {
                None => r is Err,
                Some(d) => r matches Ok(a) && address_domain(a) == Some(d),
            }
        },
{
    s.parse::<Address>()
}

/// The address that a `Host` value names, for connecting through the
/// Shadowsocks server: `None` when the value is not UTF-8 or names no address.
pub fn shadowsocks_target(target: &[u8]) -> (r: Option<Address>)
    ensures
        !valid_utf8(target@) ==> r is None,
        valid_utf8(target@) ==> match spec_address(decode_utf8(target@)) {
            None => r is None,
            Some(d) => r matches Some(a) && address_domain(a) == d,
        },
{
    match str_from_utf8(target) {
        None => None,
        Some(s) => {
            proof {
                broadcast use encode_utf8_decode_utf8;

                assert(decode_utf8(target@) == s@);
            }
            match parse_address(s) {
                Ok(a) => Some(a),
                Err(_) => None,
            }
        },
    }
}

/// Text that std reads as a socket address names that socket address,
/// whatever its length.
pub proof fn law_address_socket(s: Seq<char>)
    requires
        is_socket_addr_text(s),
    ensures
        spec_address(s) == Some(None::<(Seq<char>, u16)>),
{
}

/// Other text of the form `name ":" port rest`, with no `':'` in the name or
/// the port text and a rest that is empty or starts with `':'`, names the
/// domain `name` with that port when the port text is a `u16`, and nothing
/// otherwise, whatever the text's length.
pub proof fn law_address_domain(name: Seq<char>, port_text: Seq<char>, rest: Seq<char>)
    requires
        !is_socket_addr_text(name + seq![':'] + port_text + rest),
        forall|i: int| 0 <= i < name.len() ==> #[trigger] name[i] != ':',
        forall|i: int| 0 <= i < port_text.len() ==> #[trigger] port_text[i] != ':',
        rest.len() == 0 || rest[0] == ':',
    ensures
        spec_address(name + seq![':'] + port_text + rest) == match spec_parse_u16(port_text) {
            Some(p) => Some(Some((name, p))),
            None => None,
        },
{
    let s = name + seq![':'] + port_text + rest;
    let n = name.len() as int;
    assert forall|j: int| 0 <= j < n implies #[trigger] s[j] != ':' by {
        assert(s[j] == name[j]);
    }
    assert(s[n] == ':');
    lemma_find_char_first(s, ':', 0, n);
    let after = s.skip(n + 1);
    assert(after =~= port_text + rest);
    assert forall|j: int| 0 <= j < port_text.len() implies #[trigger] after[j] != ':' by {
        assert(after[j] == port_text[j]);
    }
    if rest.len() == 0 {
        lemma_find_char_none(after, ':', 0);
        assert(after =~= port_text);
    } else {
        assert(after[port_text.len() as int] == ':');
        lemma_find_char_first(after, ':', 0, port_text.len() as int);
        assert(after.take(port_text.len() as int) =~= port_text);
    }
    assert(s.take(n) =~= name);
}

/// Other text with no `':'` names the domain of the whole text, with port 80.
pub proof fn law_address_default_port(name: Seq<char>)
    requires
        !is_socket_addr_text(name),
        forall|i: int| 0 <= i < name.len() ==> #[trigger] name[i] != ':',
    ensures
        spec_address(name) == Some(Some((name, 80u16))),
{
    lemma_find_char_none(name, ':', 0);
}

} // verus!
