//! Who is let in: those who know the token, from pages of this machine.
use crate::text::number::{
    decimal, is_digit, lemma_decimal_value, lemma_parse_decimal, parse_u16, parsed_u16,
};
use crate::text::split::{
    after_last, before_first, behind_last, lemma_behind_last, lemma_run_until, run_until,
};
use crate::text::{chars_of, has_prefix, same_text, text_between};
use vstd::prelude::*;
use vstd::utf8::encode_utf8_decode_utf8;

verus! {

/// A digit of a hexadecimal number, with small letters.
pub open spec fn is_hex_digit(c: char) -> bool {
    ('0' <= c && c <= '9') || ('a' <= c && c <= 'f')
}

/// The text of a random identifier: hexadecimal digits in groups of 8, 4, 4, 4 and 12 with hyphens
/// between them; the third group begins with the version, 4, and the fourth with the variant.
pub open spec fn is_uuid_v4(text: Seq<char>) -> bool {
    &&& text.len() == 36
    &&& forall|i: int|
        0 <= i < 36 ==> if i == 8 || i == 13 || i == 18 || i == 23 {
            #[trigger] text[i] == '-'
        } else {
            is_hex_digit(text[i])
        }
    &&& text[14] == '4'
    &&& text[19] == '8' || text[19] == '9' || text[19] == 'a' || text[19] == 'b'
}

/// Calls `uuid::Uuid::new_v4` and writes the identifier as `to_string` does. Which one it is rests
/// on chance, so nothing is claimed but the form; that two calls give different ones is left unsaid
/// too, though it is all but certain.
#[verifier::external_body]
pub(crate) fn random_uuid() -> (text: String)
    ensures
        is_uuid_v4(text@),
{
    uuid::Uuid::new_v4().to_string()
}

/// What a client must know.
#[derive(Debug, Clone)]
pub struct AuthState {
    token: String,
}

impl View for AuthState {
    type V = Seq<char>;

    closed spec fn view(&self) -> Seq<char> {
        self.token@
    }
}

/// What a request says of the token.
#[derive(Debug)]
pub struct WsAuthQuery {
    pub token: Option<String>,
}

proof fn lemma_or_xor(r: u8, a: u8, b: u8)
    ensures
        ((r | (a ^ b)) == 0) == (r == 0 && a == b),
{
    assert(((r | (a ^ b)) == 0) == (r == 0 && a == b)) by (bit_vector);
}

impl AuthState {
    /// A new token.
    pub fn new() -> (auth: Self)
        ensures
            is_uuid_v4(auth@),
    {
        AuthState { token: random_uuid() }
    }

    /// The state for a token that was made before.
    pub fn with_token(token: String) -> (auth: Self)
        ensures
            auth@ == token@,
    {
        AuthState { token }
    }

    /// The token.
    pub fn token(&self) -> (token: &str)
        ensures
            token@ == self@,
    {
        self.token.as_str()
    }

    /// Is it the token? How long the comparison takes depends on the length of the texts alone: all
    /// the bytes are looked at, wherever they differ.
    pub fn validate_token(&self, provided: &str) -> (valid: bool)
        ensures
            valid == (provided@ == self@),
    {
        let expected = self.token.as_str().as_bytes();
        let given = provided.as_bytes();
        proof {
            encode_utf8_decode_utf8(self.token@);
            encode_utf8_decode_utf8(provided@);
        }
        if given.len() != expected.len() {
            return false;
        }
        let mut result: u8 = 0;
        let mut i: usize = 0;
        while i < expected.len()
            invariant
                i <= expected@.len() == given@.len(),
                (result == 0) == (forall|j: int| 0 <= j < i ==> expected@[j] == given@[j]),
            decreases expected.len() - i,
        {
            proof {
                lemma_or_xor(result, expected@[i as int], given@[i as int]);
            }
            result = result | (expected[i] ^ given[i]);
            i += 1;
        }
        assert(result == 0 ==> expected@ =~= given@);
        result == 0
    }

    /// May a page of this origin connect? A client that names none is no page of a browser, and
    /// may. A page must come from this machine, and a port that its origin names must be the port
    /// of the server.
    pub fn validate_origin(origin: Option<&str>, port: u16) -> (valid: bool)
        ensures
            valid == match origin {
                Some(o) => allows_origin(o@, port),
                None => true,
            },
    {
        match origin {
            None => true,
            Some(o) => {
                if !is_local(o) {
                    return false;
                }
                match extract_port(o) {
                    Some(p) => p == port,
                    None => true,
                }
            },
        }
    }
}

impl Default for AuthState {
    /// A new token.
    fn default() -> (auth: Self)
        ensures
            is_uuid_v4(auth@),
    {
        AuthState::new()
    }
}

// ---------------------------------------------------------------------------------------------
// Origins
// ---------------------------------------------------------------------------------------------

/// The beginnings of origins that name this machine.
pub open spec fn local_hosts() -> Seq<Seq<char>> {
    seq![
        "http://localhost"@,
        "https://localhost"@,
        "http://127.0.0.1"@,
        "https://127.0.0.1"@,
        "http://[::1]"@,
        "https://[::1]"@,
    ]
}

/// The character ends the part of an address that names a host.
pub open spec fn ends_authority(c: char) -> bool {
    c == '/' || c == '?' || c == '#'
}

/// The rest of an address has an `@` in the part that names a host: what stands before it is not
/// the host.
pub open spec fn has_user(rest: Seq<char>) -> bool {
    exists|i: int|
        #![trigger rest[i]]
        0 <= i < rest.len() && rest[i] == '@' && forall|j: int|
            0 <= j < i ==> !ends_authority(#[trigger] rest[j])
}

/// The host ends before the rest of an address, so that what came before is all of its name.
pub open spec fn host_ends(rest: Seq<char>) -> bool {
    &&& rest.len() == 0 || rest[0] == ':' || ends_authority(rest[0])
    &&& !has_user(rest)
}

/// The origin begins with this scheme and host, and the host is no longer than that.
pub open spec fn has_host(origin: Seq<char>, host: Seq<char>) -> bool {
    host.is_prefix_of(origin) && host_ends(origin.skip(host.len() as int))
}

/// The origin names this machine, or is that of a page without one.
pub open spec fn is_local_origin(origin: Seq<char>) -> bool {
    origin == "null"@ || exists|i: int|
        #![trigger local_hosts()[i]]
        0 <= i < local_hosts().len() && has_host(origin, local_hosts()[i])
}

/// What follows the scheme of an origin.
pub open spec fn after_scheme(origin: Seq<char>) -> Option<Seq<char>> {
    if "https://"@.is_prefix_of(origin) {
        Some(origin.skip(8))
    } else if "http://"@.is_prefix_of(origin) {
        Some(origin.skip(7))
    } else {
        None
    }
}

/// The port that an origin names: what stands behind the last colon, up to a slash, if that is a
/// number.
pub open spec fn port_of(origin: Seq<char>) -> Option<u16> {
    match after_scheme(origin) {
        Some(rest) => match behind_last(rest, ':') {
            Some(port) => parsed_u16(port.take(run_until(port, '/'))),
            None => None,
        },
        None => None,
    }
}

/// A page of this origin may connect to the server at this port.
pub open spec fn allows_origin(origin: Seq<char>, port: u16) -> bool {
    &&& is_local_origin(origin)
    &&& match port_of(origin) {
        Some(p) => p == port,
        None => true,
    }
}

fn skip_chars(chars: &Vec<char>, n: usize) -> (rest: String)
    requires
        n <= chars@.len(),
    ensures
        rest@ == chars@.skip(n as int),
{
    assert(chars@.subrange(n as int, chars@.len() as int) =~= chars@.skip(n as int));
    text_between(chars, n, chars.len())
}

/// The port that an origin names.
pub fn extract_port(origin: &str) -> (port: Option<u16>)
    ensures
        port == port_of(origin@),
{
    proof {
        reveal_strlit("https://");
        reveal_strlit("http://");
    }
    let chars = chars_of(origin);
    let rest = if has_prefix(origin, "https://") {
        skip_chars(&chars, 8)
    } else if has_prefix(origin, "http://") {
        skip_chars(&chars, 7)
    } else {
        return None;
    };
    match after_last(rest.as_str(), ':') {
        Some(port) => {
            let number = before_first(port.as_str(), '/');
            parse_u16(number.as_str())
        },
        None => None,
    }
}

fn rest_has_user(rest: &Vec<char>, from: usize) -> (user: bool)
    requires
        from <= rest@.len(),
    ensures
        user == has_user(rest@.skip(from as int)),
{
    let ghost r = rest@.skip(from as int);
    let mut i: usize = from;
    while i < rest.len()
        invariant
            from <= i <= rest@.len(),
            r == rest@.skip(from as int),
            forall|j: int|
                0 <= j < i - from ==> !ends_authority(#[trigger] r[j]) && r[j] != '@',
        decreases rest.len() - i,
    {
        let c = rest[i];
        assert(c == r[i - from]);
        if c == '@' {
            return true;
        }
        if c == '/' || c == '?' || c == '#' {
            return false;
        }
        i += 1;
    }
    false
}

fn names_host(origin: &str, host: &str) -> (names: bool)
    ensures
        names == has_host(origin@, host@),
{
    if !has_prefix(origin, host) {
        return false;
    }
    let chars = chars_of(origin);
    let n: usize = chars_of(host).len();
    let ghost rest = chars@.skip(n as int);
    if n < chars.len() {
        let c = chars[n];
        assert(c == rest[0]);
        if c != ':' && c != '/' && c != '?' && c != '#' {
            return false;
        }
    }
    !rest_has_user(&chars, n)
}

fn is_local(origin: &str) -> (local: bool)
    ensures
        local == is_local_origin(origin@),
{
    let ghost hosts = local_hosts();
    assert(hosts[0] == "http://localhost"@ && hosts[1] == "https://localhost"@ && hosts[2]
        == "http://127.0.0.1"@ && hosts[3] == "https://127.0.0.1"@ && hosts[4] == "http://[::1]"@
        && hosts[5] == "https://[::1]"@);
    same_text(origin, "null") || names_host(origin, "http://localhost") || names_host(
        origin,
        "https://localhost",
    ) || names_host(origin, "http://127.0.0.1") || names_host(origin, "https://127.0.0.1")
        || names_host(origin, "http://[::1]") || names_host(origin, "https://[::1]")
}

/// The origin of the pages that a server hands out itself.
pub open spec fn own_address(host: Seq<char>, port: u16) -> Seq<char> {
    host + ":"@ + decimal(port as nat)
}

proof fn lemma_own_address(host: Seq<char>, i: int, port: u16)
    requires
        0 <= i < local_hosts().len(),
        local_hosts()[i] == host,
        "http://"@.is_prefix_of(host),
        !"https://"@.is_prefix_of(host),
        host.len() > 8,
    ensures
        allows_origin(own_address(host, port), port),
{
    reveal_strlit("https://");
    reveal_strlit("http://");
    reveal_strlit(":");
    let digits = decimal(port as nat);
    let origin = own_address(host, port);
    lemma_decimal_value(port as nat);
    let rest = origin.skip(host.len() as int);
    assert(rest =~= ":"@ + digits);
    assert(!has_user(rest)) by {
        assert forall|k: int| #![trigger rest[k]] 0 <= k < rest.len() implies rest[k] != '@' by {
            if k > 0 {
                assert(rest[k] == digits[k - 1]);
            }
        }
    }
    assert(has_host(origin, local_hosts()[i]));
    // The scheme is the one of the host.
    assert("http://"@.is_prefix_of(origin)) by {
        assert forall|k: int| 0 <= k < 7 implies origin[k] == "http://"@[k] by {
            assert(origin[k] == host[k]);
            assert(host[k] == host.subrange(0, 7)[k]);
        }
        assert(origin.subrange(0, 7) =~= "http://"@);
    }
    assert(!"https://"@.is_prefix_of(origin)) by {
        if "https://"@.is_prefix_of(origin) {
            assert(host.subrange(0, 8) =~= origin.subrange(0, 8));
        }
    }
    // The last colon is the one before the port.
    let tail = origin.skip(7);
    let at = host.len() - 7;
    assert(tail[at] == ':');
    assert forall|k: int| at < k < tail.len() implies tail[k] != ':' by {
        assert(tail[k] == digits[k - at - 1]);
        assert(is_digit(digits[k - at - 1]));
    }
    lemma_behind_last(tail, ':', at);
    assert(tail.skip(at + 1) =~= digits);
    // No slash follows.
    assert forall|k: int| 0 <= k < digits.len() implies digits[k] != '/' by {
        assert(is_digit(digits[k]));
    }
    lemma_run_until(digits, '/', digits.len() as int);
    assert(digits.take(digits.len() as int) =~= digits);
    lemma_parse_decimal(port);
}

/// The pages that the server hands out itself may connect to it.
pub proof fn law_own_pages_may_connect(port: u16)
    ensures
        allows_origin(own_address("http://127.0.0.1"@, port), port),
        allows_origin(own_address("http://localhost"@, port), port),
{
    reveal_strlit("https://");
    reveal_strlit("http://");
    reveal_strlit("http://127.0.0.1");
    reveal_strlit("http://localhost");
    assert("http://127.0.0.1"@.subrange(0, 7) =~= "http://"@);
    assert("http://localhost"@.subrange(0, 7) =~= "http://"@);
    assert("http://127.0.0.1"@[4] == ':' && "http://localhost"@[4] == ':' && "https://"@[4] == 's');
    assert(!"https://"@.is_prefix_of("http://127.0.0.1"@));
    assert(!"https://"@.is_prefix_of("http://localhost"@));
    lemma_own_address("http://127.0.0.1"@, 2, port);
    lemma_own_address("http://localhost"@, 0, port);
}

/// A page of another host may not connect, even where the name of the host begins like one of this
/// machine.
pub proof fn law_longer_host_names_are_refused(origin: Seq<char>, i: int, port: u16)
    requires
        0 <= i < local_hosts().len(),
        local_hosts()[i].is_prefix_of(origin),
        origin.len() > local_hosts()[i].len(),
        origin[local_hosts()[i].len() as int] != ':',
        !ends_authority(origin[local_hosts()[i].len() as int]),
    ensures
        !allows_origin(origin, port),
{
    reveal_strlit("null");
    reveal_strlit("http://localhost");
    reveal_strlit("https://localhost");
    reveal_strlit("http://127.0.0.1");
    reveal_strlit("https://127.0.0.1");
    reveal_strlit("http://[::1]");
    reveal_strlit("https://[::1]");
    let host = local_hosts()[i];
    let n = host.len() as int;
    assert(origin.skip(n)[0] == origin[n]);
    assert(!has_host(origin, host));
    assert(origin[0] == origin.subrange(0, n)[0] && origin[4] == origin.subrange(0, n)[4]
        && origin[7] == origin.subrange(0, n)[7] && origin[8] == origin.subrange(0, n)[8]);
    assert("null"@[0] == 'n');
    if "null"@.is_prefix_of(origin) {
        assert(origin[0] == origin.subrange(0, 4)[0]);
    }
    assert forall|j: int|
        #![trigger local_hosts()[j]]
        0 <= j < local_hosts().len() implies !has_host(origin, local_hosts()[j]) by {
        let other = local_hosts()[j];
        let k = other.len() as int;
        if j != i && other.is_prefix_of(origin) {
            // The scheme, then the first letter of the host, tell the two apart.
            assert(origin[4] == origin.subrange(0, k)[4] && origin[7] == origin.subrange(0, k)[7]
                && origin[8] == origin.subrange(0, k)[8]);
        }
    }
}

/// A page of this machine that names another port may not connect.
pub proof fn law_other_ports_are_refused(origin: Seq<char>, port: u16)
    requires
        port_of(origin) is Some,
        port_of(origin)->0 != port,
    ensures
        !allows_origin(origin, port),
{
}

}
