//! Who may use the server and where it listens, whatever is asked for.
use super::auth::{
    after_scheme, ends_authority, extract_port, has_host, has_user, local_hosts, port_of,
    AuthState, WsAuthQuery,
};
use super::server::{
    bind_addr, bind_failure, list_terminals, start_server, ws_upgrade, AppState, Refusal,
    ServerHandle, ServerPlan,
};
use super::DEFAULT_PORT;
use crate::pty::instance::TerminalInfo;
use crate::pty::manager::PtyManager;
use crate::text::number::{
    decimal, is_digit, lemma_decimal_injective, lemma_decimal_value, lemma_parse_decimal, parsed_u16,
};
use crate::text::split::{lemma_behind_last, lemma_behind_last_none, lemma_run_until, run_until};
use vstd::prelude::*;

verus! {

// ---------------------------------------------------------------------------------------------
// Tokens
// ---------------------------------------------------------------------------------------------

/// A token is taken for the right one exactly where it is the same text, from the first character to
/// the last.
pub proof fn law_token_is_compared_whole(
    text: String,
    auth: AuthState,
    provided: &str,
    valid: bool,
    token: &str,
)
    requires
        call_ensures(AuthState::with_token, (text,), auth),
        call_ensures(AuthState::validate_token, (&auth, provided), valid),
        call_ensures(AuthState::token, (&auth,), token),
    ensures
        token@ == text@,
        valid <==> provided@.len() == text@.len() && forall|i: int|
            0 <= i < text@.len() ==> #[trigger] provided@[i] == text@[i],
{
    if provided@.len() == text@.len() && forall|i: int|
        0 <= i < text@.len() ==> #[trigger] provided@[i] == text@[i] {
        assert(provided@ =~= text@);
    }
}

/// A new token has the form of a random identifier: hexadecimal digits in five groups.
pub proof fn law_new_token_has_its_form(a: AuthState, b: AuthState)
    requires
        call_ensures(AuthState::new, (), a),
        call_ensures(<AuthState as Default>::default, (), b),
    ensures
        a@.len() == 36,
        a@[8] == '-' && a@[13] == '-' && a@[18] == '-' && a@[23] == '-',
        a@[14] == '4',
        b@.len() == 36,
        b@[8] == '-' && b@[13] == '-' && b@[18] == '-' && b@[23] == '-',
        b@[14] == '4',
{
}

// ---------------------------------------------------------------------------------------------
// Origins
// ---------------------------------------------------------------------------------------------

/// The text names this machine, with the scheme of a page.
pub open spec fn is_this_machine(host: Seq<char>) -> bool {
    ||| host == "http://localhost"@
    ||| host == "https://localhost"@
    ||| host == "http://127.0.0.1"@
    ||| host == "https://127.0.0.1"@
    ||| host == "http://[::1]"@
    ||| host == "https://[::1]"@
}

proof fn lemma_hosts(host: Seq<char>)
    ensures
        local_hosts().contains(host) <==> is_this_machine(host),
        local_hosts().len() == 6,
{
    let all = local_hosts();
    assert(all[0] == "http://localhost"@ && all[1] == "https://localhost"@ && all[2]
        == "http://127.0.0.1"@ && all[3] == "https://127.0.0.1"@ && all[4] == "http://[::1]"@
        && all[5] == "https://[::1]"@);
}

/// A client that names no origin may connect, and so may a page without one.
pub proof fn law_pages_without_an_origin_may_connect(
    origin: &str,
    port: u16,
    none: bool,
    null: bool,
)
    requires
        call_ensures(AuthState::validate_origin, (None::<&str>, port), none),
        call_ensures(AuthState::validate_origin, (Some(origin), port), null),
        origin@ == "null"@,
    ensures
        none,
        null,
{
    reveal_strlit("null");
    reveal_strlit("https://");
    reveal_strlit("http://");
}

/// A page may connect only where it has no origin or comes from this machine: the origin is the name of
/// this machine, then a port, a path or nothing.
pub proof fn law_foreign_pages_may_not_connect(origin: &str, port: u16, valid: bool)
    requires
        call_ensures(AuthState::validate_origin, (Some(origin), port), valid),
        origin@ != "null"@,
        valid,
    ensures
        exists|host: Seq<char>, rest: Seq<char>|
            is_this_machine(host) && origin@ == #[trigger] (host + rest) && (rest.len() == 0
                || rest[0] == ':' || rest[0] == '/' || rest[0] == '?' || rest[0] == '#'),
{
    let i = choose|i: int|
        #![trigger local_hosts()[i]]
        0 <= i < local_hosts().len() && has_host(origin@, local_hosts()[i]);
    let host = local_hosts()[i];
    lemma_hosts(host);
    assert(local_hosts().contains(host));
    let n = host.len() as int;
    let rest = origin@.skip(n);
    assert(origin@.subrange(0, n) == host);
    assert(origin@ =~= host + rest);
}

/// A page whose origin has a user before the host may not connect: what stands before an `@` is no
/// host.
pub proof fn law_user_is_no_host(origin: &str, port: u16, valid: bool, user: Seq<char>, host: Seq<char>)
    requires
        call_ensures(AuthState::validate_origin, (Some(origin), port), valid),
        origin@ == "http://"@ + user + "@"@ + host,
        forall|i: int| 0 <= i < user.len() ==> !ends_authority(#[trigger] user[i]),
    ensures
        !valid,
{
    reveal_strlit("null");
    reveal_strlit("http://");
    reveal_strlit("@");
    reveal_strlit("http://localhost");
    reveal_strlit("https://localhost");
    reveal_strlit("http://127.0.0.1");
    reveal_strlit("https://127.0.0.1");
    reveal_strlit("http://[::1]");
    reveal_strlit("https://[::1]");
    let o = origin@;
    assert(o[0] == 'h' && o[4] == ':');
    assert("null"@[0] == 'n');
    let at = 7 + user.len();
    assert(o[at as int] == '@');
    assert forall|k: int|
        #![trigger local_hosts()[k]]
        0 <= k < local_hosts().len() implies !has_host(o, local_hosts()[k]) by {
        let h = local_hosts()[k];
        lemma_hosts(h);
        assert(local_hosts().contains(h));
        let n = h.len() as int;
        if has_host(o, h) {
            assert(o.subrange(0, n) == h);
            assert forall|j: int| 0 <= j < n implies o[j] == h[j] by {
                assert(o.subrange(0, n)[j] == o[j]);
            }
            assert(h[4] == ':');
            assert forall|j: int| 7 <= j < n implies h[j] != '@' by {}
            assert(n <= at);
            let rest = o.skip(n);
            assert(rest[at - n] == '@');
            assert forall|j: int| 0 <= j < at - n implies !ends_authority(#[trigger] rest[j]) by {
                assert(rest[j] == o[n + j]);
                assert(o[n + j] == user[n + j - 7]);
            }
            assert(has_user(rest));
        }
    }
}

proof fn lemma_port_behind(front: Seq<char>, p: u16, path: Seq<char>, secure: bool)
    requires
        path.len() == 0 || path[0] == '/',
        !path.contains(':'),
    ensures
        port_of(
            (if secure {
                "https://"@
            } else {
                "http://"@
            }) + front + ":"@ + decimal(p as nat) + path,
        ) == Some(p),
{
    reveal_strlit("https://");
    reveal_strlit("http://");
    reveal_strlit(":");
    let scheme = if secure {
        "https://"@
    } else {
        "http://"@
    };
    let digits = decimal(p as nat);
    let o = scheme + front + ":"@ + digits + path;
    lemma_decimal_value(p as nat);
    if secure {
        assert(o.subrange(0, 8) =~= "https://"@);
    } else {
        assert(o.subrange(0, 7) =~= "http://"@);
        assert(o[4] == ':');
        if "https://"@.is_prefix_of(o) {
            assert(o.subrange(0, 8)[4] == o[4]);
        }
    }
    let tail = o.skip(scheme.len() as int);
    assert(after_scheme(o) == Some(tail));
    let at = front.len() as int;
    assert(tail =~= front + ":"@ + digits + path);
    assert(tail[at] == ':');
    assert forall|k: int| at < k < tail.len() implies tail[k] != ':' by {
        if k - at - 1 < digits.len() {
            assert(tail[k] == digits[k - at - 1]);
            assert(is_digit(digits[k - at - 1]));
        } else {
            assert(tail[k] == path[k - at - 1 - digits.len()]);
        }
    }
    lemma_behind_last(tail, ':', at);
    let behind = tail.skip(at + 1);
    assert(behind =~= digits + path);
    assert forall|k: int| 0 <= k < digits.len() implies behind[k] != '/' by {
        assert(is_digit(digits[k]));
    }
    lemma_run_until(behind, '/', digits.len() as int);
    assert(behind.take(digits.len() as int) =~= digits);
    lemma_parse_decimal(p);
}

/// The port of an origin is the number behind its last colon, up to a path.
pub proof fn law_port_of_an_origin(
    origin: &str,
    front: Seq<char>,
    p: u16,
    path: Seq<char>,
    secure: bool,
    port: Option<u16>,
)
    requires
        call_ensures(extract_port, (origin,), port),
        origin@ == (if secure {
            "https://"@
        } else {
            "http://"@
        }) + front + ":"@ + decimal(p as nat) + path,
        path.len() == 0 || path[0] == '/',
        !path.contains(':'),
    ensures
        port == Some(p),
{
    lemma_port_behind(front, p, path, secure);
}

/// An origin without the scheme of a page, or without a colon behind it, names no port.
pub proof fn law_origins_without_a_port(origin: &str, rest: Seq<char>, port: Option<u16>)
    requires
        call_ensures(extract_port, (origin,), port),
        (origin@.len() > 0 && origin@[0] != 'h') || ((origin@ == "http://"@ + rest || origin@
            == "https://"@ + rest) && !rest.contains(':')),
    ensures
        port is None,
{
    reveal_strlit("https://");
    reveal_strlit("http://");
    let o = origin@;
    if o.len() > 0 && o[0] != 'h' {
        if "https://"@.is_prefix_of(o) {
            assert(o.subrange(0, 8)[0] == o[0]);
        }
        if "http://"@.is_prefix_of(o) {
            assert(o.subrange(0, 7)[0] == o[0]);
        }
    } else {
        assert forall|i: int| 0 <= i < rest.len() implies rest[i] != ':' by {}
        lemma_behind_last_none(rest, ':');
        if o == "https://"@ + rest {
            assert(o.subrange(0, 8) =~= "https://"@);
            assert(o.skip(8) =~= rest);
        } else {
            assert(o.subrange(0, 7) =~= "http://"@);
            assert(o[4] == ':');
            if "https://"@.is_prefix_of(o) {
                assert(o.subrange(0, 8)[4] == o[4]);
            }
            assert(o.skip(7) =~= rest);
        }
    }
}

/// A page of this machine that names a port may connect exactly where it is the port of the server.
pub proof fn law_pages_of_this_machine_must_name_the_port(
    host: Seq<char>,
    origin: &str,
    named: u16,
    port: u16,
    valid: bool,
)
    requires
        is_this_machine(host),
        origin@ == host + ":"@ + decimal(named as nat),
        call_ensures(AuthState::validate_origin, (Some(origin), port), valid),
    ensures
        valid <==> named == port,
{
    reveal_strlit(":");
    reveal_strlit("https://");
    reveal_strlit("http://");
    reveal_strlit("http://localhost");
    reveal_strlit("https://localhost");
    reveal_strlit("http://127.0.0.1");
    reveal_strlit("https://127.0.0.1");
    reveal_strlit("http://[::1]");
    reveal_strlit("https://[::1]");
    lemma_hosts(host);
    let i = choose|i: int| 0 <= i < local_hosts().len() && local_hosts()[i] == host;
    let n = host.len() as int;
    let o = origin@;
    let digits = decimal(named as nat);
    lemma_decimal_value(named as nat);
    let rest = o.skip(n);
    assert(rest =~= ":"@ + digits);
    assert(o.subrange(0, n) =~= host);
    assert(!has_user(rest)) by {
        assert forall|k: int| #![trigger rest[k]] 0 <= k < rest.len() implies rest[k] != '@' by {
            if k > 0 {
                assert(rest[k] == digits[k - 1]);
                assert(is_digit(digits[k - 1]));
            }
        }
    }
    assert(has_host(o, local_hosts()[i]));
    let secure = host[4] == 's';
    let k: int = if secure {
        8
    } else {
        7
    };
    let front = host.skip(k);
    if secure {
        assert(host =~= "https://"@ + front);
    } else {
        assert(host =~= "http://"@ + front);
    }
    assert(o =~= (if secure {
        "https://"@
    } else {
        "http://"@
    }) + front + ":"@ + digits + Seq::<char>::empty());
    lemma_port_behind(front, named, Seq::empty(), secure);
}

/// A page of this machine that names no port may connect, whatever the port of the server is and
/// whatever path, question or fragment follows the host.
pub proof fn law_pages_of_this_machine_may_connect(
    host: Seq<char>,
    rest: Seq<char>,
    origin: &str,
    port: u16,
    valid: bool,
)
    requires
        is_this_machine(host),
        origin@ == host + rest,
        rest.len() == 0 || rest[0] == '/' || rest[0] == '?' || rest[0] == '#',
        !rest.contains(':'),
        call_ensures(AuthState::validate_origin, (Some(origin), port), valid),
    ensures
        valid,
{
    reveal_strlit("https://");
    reveal_strlit("http://");
    reveal_strlit("http://localhost");
    reveal_strlit("https://localhost");
    reveal_strlit("http://127.0.0.1");
    reveal_strlit("https://127.0.0.1");
    reveal_strlit("http://[::1]");
    reveal_strlit("https://[::1]");
    let o = origin@;
    lemma_hosts(host);
    let i = choose|i: int| 0 <= i < local_hosts().len() && local_hosts()[i] == host;
    let n = host.len() as int;
    assert(o.subrange(0, n) =~= host);
    assert(o.skip(n) =~= rest);
    assert(!has_user(rest)) by {
        if has_user(rest) {
            let k = choose|k: int|
                #![trigger rest[k]]
                0 <= k < rest.len() && rest[k] == '@' && forall|j: int|
                    0 <= j < k ==> !ends_authority(#[trigger] rest[j]);
            assert(ends_authority(rest[0]));
        }
    }
    assert(has_host(o, local_hosts()[i]));
    let secure = host[4] == 's';
    let k: int = if secure {
        8
    } else {
        7
    };
    assert forall|j: int| 0 <= j < n implies o[j] == host[j] by {}
    if secure {
        assert(o.subrange(0, 8) =~= "https://"@);
    } else {
        assert(o.subrange(0, 7) =~= "http://"@);
        assert(o[4] == ':');
        if "https://"@.is_prefix_of(o) {
            assert(o.subrange(0, 8)[4] == o[4]);
        }
    }
    let tail = o.skip(k);
    assert(after_scheme(o) == Some(tail));
    assert forall|j: int| 0 <= j < rest.len() implies rest[j] != ':' by {
        if rest[j] == ':' {
            assert(rest.contains(':'));
        }
    }
    let bracket = host[k] == '[';
    if bracket {
        // What stands behind the last colon is `1]`, and then the rest: no number.
        assert(tail[2] == ':' && tail[3] == '1' && tail[4] == ']');
        assert forall|j: int| 2 < j < tail.len() implies tail[j] != ':' by {
            if j + k < n {
                assert(tail[j] == host[j + k]);
            } else {
                assert(tail[j] == rest[j + k - n]);
            }
        }
        lemma_behind_last(tail, ':', 2);
        let behind = tail.skip(3);
        assert(behind[0] == '1' && behind[1] == ']');
        lemma_not_a_number(behind);
    } else {
        assert forall|j: int| 0 <= j < tail.len() implies tail[j] != ':' by {
            if j + k < n {
                assert(tail[j] == host[j + k]);
            } else {
                assert(tail[j] == rest[j + k - n]);
            }
        }
        lemma_behind_last_none(tail, ':');
    }
}

proof fn lemma_not_a_number(s: Seq<char>)
    requires
        s.len() >= 2,
        s[0] == '1',
        s[1] == ']',
    ensures
        parsed_u16(s.take(run_until(s, '/'))) is None,
{
    let one = s.skip(1);
    assert(one[0] == ']');
    let two = one.skip(1);
    lemma_run_is_nonnegative(two, '/');
    assert(run_until(s, '/') == 1 + run_until(one, '/'));
    assert(run_until(one, '/') == 1 + run_until(two, '/'));
    let n = run_until(s, '/');
    lemma_run_is_nonnegative(s, '/');
    let part = s.take(n);
    assert(part[1] == ']');
    assert(!is_digit(part[1]));
}

proof fn lemma_run_is_nonnegative(s: Seq<char>, c: char)
    ensures
        0 <= run_until(s, c) <= s.len(),
    decreases s.len(),
{
    if s.len() > 0 && s[0] != c {
        lemma_run_is_nonnegative(s.skip(1), c);
    }
}

// ---------------------------------------------------------------------------------------------
// Requests
// ---------------------------------------------------------------------------------------------

/// A request for a socket is granted exactly where it names the token, its origin may connect and
/// fewer than fifty clients are there. Of several reasons to refuse it, the token comes first, then
/// the origin.
pub proof fn law_sockets_are_granted(
    state: AppState,
    query: WsAuthQuery,
    origin: Option<&str>,
    answer: Result<(), Refusal>,
    valid: bool,
)
    requires
        call_ensures(ws_upgrade, (&state, &query, origin), answer),
        call_ensures(AuthState::validate_origin, (origin, state.port), valid),
    ensures
        ({
            let known = if query.token is Some {
                query.token->0@ == state.auth@
            } else {
                state.auth@.len() == 0
            };
            &&& answer is Ok <==> known && valid && state.connection_count < 50
            &&& !known ==> answer == Err::<(), Refusal>(Refusal::Unauthorized)
            &&& known && !valid ==> answer == Err::<(), Refusal>(Refusal::Forbidden)
            &&& known && valid && state.connection_count >= 50 ==> answer == Err::<(), Refusal>(
                Refusal::ServiceUnavailable,
            )
        }),
{
    if query.token is None {
        if state.auth@.len() == 0 {
            assert(state.auth@ =~= Seq::empty());
        }
    }
}

/// Terminals are listed for those who name the token, every one of them as it is, and for nobody else.
pub proof fn law_terminals_are_listed_for_those_who_know(
    state: AppState,
    manager: PtyManager,
    query: WsAuthQuery,
    answer: Result<Vec<TerminalInfo>, Refusal>,
    i: int,
)
    requires
        query.token is Some,
        call_ensures(list_terminals, (&state, &manager, &query), answer),
    ensures
        answer is Ok <==> query.token->0@ == state.auth@,
        answer is Err ==> answer->Err_0 == Refusal::Unauthorized,
        answer is Ok ==> answer->Ok_0@.len() == manager@.terminals.len(),
        answer is Ok && 0 <= i < manager@.terminals.len() ==> {
            let told = answer->Ok_0@[i];
            let t = manager@.terminals[i];
            &&& told.id@ == t.id
            &&& told.shell@ == t.shell
            &&& told.cwd@ == t.cwd
            &&& told.pid == t.pid
            &&& told.cols == t.cols
            &&& told.rows == t.rows
        },
{
    if answer is Ok {
        let told = answer->Ok_0@;
        let seen = crate::pty::instance::info_views(told);
        assert(seen.len() == told.len());
        if 0 <= i < told.len() {
            assert(seen[i] == told[i]@);
            assert(seen[i] == manager@.terminals[i].info());
        }
    }
}

/// The refusals have the numbers that HTTP has for them.
pub proof fn law_refusals_have_their_numbers(refusal: Refusal, code: u16)
    requires
        call_ensures(Refusal::status, (refusal,), code),
    ensures
        refusal is Unauthorized ==> code == 401,
        refusal is Forbidden ==> code == 403,
        refusal is ServiceUnavailable ==> code == 503,
{
}

// ---------------------------------------------------------------------------------------------
// The server
// ---------------------------------------------------------------------------------------------

/// A server listens at the port that is asked for, to this machine alone unless the whole network is
/// asked for; it begins with a new token and without clients.
pub proof fn law_server_listens_where_asked(
    port: u16,
    lan: bool,
    addr: String,
    plan: ServerPlan,
)
    requires
        call_ensures(bind_addr, (port, lan), addr),
        call_ensures(start_server, (port, lan), plan),
    ensures
        lan ==> addr@ == "0.0.0.0:"@ + decimal(port as nat),
        !lan ==> addr@ == "127.0.0.1:"@ + decimal(port as nat),
        plan.bind_addr@ == addr@,
        plan.state.connection_count == 0,
        plan.state.port == port,
        plan.state.auth@.len() == 36,
        DEFAULT_PORT == 19480,
{
}

/// Servers at different ports listen in different places.
pub proof fn law_ports_are_told_apart(a: u16, b: u16, lan: bool, first: String, second: String)
    requires
        a != b,
        call_ensures(bind_addr, (a, lan), first),
        call_ensures(bind_addr, (b, lan), second),
    ensures
        first@ != second@,
{
    let head = if lan {
        "0.0.0.0:"@
    } else {
        "127.0.0.1:"@
    };
    if first@ == second@ {
        let n = head.len() as int;
        assert((head + decimal(a as nat)).skip(n) =~= decimal(a as nat));
        assert((head + decimal(b as nat)).skip(n) =~= decimal(b as nat));
        lemma_decimal_injective(a as nat, b as nat);
    }
}

/// A server that cannot listen is told of with the place and the reason.
pub proof fn law_failed_bind_is_told(addr: &str, reason: &str, message: String)
    requires
        call_ensures(bind_failure, (addr, reason), message),
    ensures
        message@ == "Failed to bind to "@ + addr@ + ": "@ + reason@,
{
}

/// The handle of a server shows the port that it listens on and its token, and the server goes by that
/// port from then on; its token and its clients stay.
pub proof fn law_handle_shows_the_server(
    state: &mut AppState,
    listening: u16,
    handle: ServerHandle,
    port: u16,
    token: &str,
)
    requires
        call_ensures(ServerHandle::new, (state, listening), handle),
        call_ensures(ServerHandle::port, (&handle,), port),
        call_ensures(ServerHandle::token, (&handle,), token),
    ensures
        port == listening,
        token@ == old(state).auth@,
        final(state).port == listening,
        final(state).auth@ == old(state).auth@,
        final(state).connection_count == old(state).connection_count,
{
}

/// A server that was stopped ended as it should, or it is told why its task failed.
pub proof fn law_stopped_server_is_told_of(
    handle: ServerHandle,
    failure: Option<String>,
    result: Result<(), String>,
)
    requires
        call_ensures(ServerHandle::stop, (handle, &failure), result),
    ensures
        result is Ok <==> failure is None,
        failure is Some ==> result->Err_0@ == "Server task panicked: "@ + failure->0@,
{
}

}
