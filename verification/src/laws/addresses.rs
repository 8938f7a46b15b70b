//! Addresses of pages.

use vstd::prelude::*;
use crate::text;
use crate::url;
use crate::url::{UrlError, UrlParts};

verus! {

/// The same text with small letters in place of the capital letters of ASCII.
pub open spec fn is_small_form(small: Seq<char>, value: Seq<char>) -> bool {
    &&& small.len() == value.len()
    &&& forall|i: int|
        0 <= i < value.len() ==> #[trigger] small[i] == (if 'A' <= value[i] <= 'Z' {
            (value[i] as u32 + 32) as char
        } else {
            value[i]
        })
}

/// A name of a host: letters, digits, hyphens, dots and underscores.
pub open spec fn is_host_name(host: Seq<char>) -> bool {
    host.len() > 0 && forall|i: int|
        0 <= i < host.len() ==> {
            let c = #[trigger] host[i];
            'a' <= c <= 'z' || 'A' <= c <= 'Z' || '0' <= c <= '9' || c == '-' || c == '.' || c
                == '_'
        }
}

/// What may stand in front of the host: nothing, or a user's name with an at sign behind it.
pub open spec fn is_user(user: Seq<char>) -> bool {
    &&& user.len() == 0 || user.last() == '@'
    &&& forall|i: int|
        0 <= i < user.len() ==> (#[trigger] user[i]) != '/' && user[i] != '?' && user[i] != '#'
}

/// A path of visible characters that need no encoding: empty, or from a slash on.
pub open spec fn is_visible_path(path: Seq<char>) -> bool {
    &&& path.len() == 0 || path[0] == '/'
    &&& forall|i: int|
        0 <= i < path.len() ==> {
            let c = #[trigger] path[i];
            '!' <= c <= '~' && c != '"' && c != '<' && c != '>' && c != '`' && c != '{' && c != '}'
                && c != '?' && c != '#'
        }
}

/// What may stand behind the path: nothing, a query or a fragment.
pub open spec fn is_tail(tail: Seq<char>) -> bool {
    tail.len() == 0 || tail[0] == '?' || tail[0] == '#'
}

pub open spec fn with_colon(port: Option<nat>) -> Seq<char> {
    match port {
        Some(port) => seq![':'] + text::decimal_of(port),
        None => Seq::empty(),
    }
}

/// What is left of a port: nothing of the one that the scheme has anyway.
pub open spec fn kept_port(port: Option<nat>, secure: bool) -> Option<nat> {
    if port == Some(if secure {
        443nat
    } else {
        80nat
    }) {
        None
    } else {
        port
    }
}

proof fn authority_ends(address: Seq<char>, from: int, k: int)
    requires
        0 <= from <= k <= address.len(),
        forall|i: int|
            from <= i < k ==> (#[trigger] address[i]) != '/' && address[i] != '?' && address[i]
                != '#',
        k == address.len() || address[k] == '/' || address[k] == '?' || address[k] == '#',
    ensures
        url::authority_end(address, from) == k,
    decreases k - from,
{
    if from < k {
        authority_ends(address, from + 1, k);
    }
}

proof fn path_ends(address: Seq<char>, from: int, k: int)
    requires
        0 <= from <= k <= address.len(),
        forall|i: int| from <= i < k ==> (#[trigger] address[i]) != '?' && address[i] != '#',
        k == address.len() || address[k] == '?' || address[k] == '#',
    ensures
        url::path_end(address, from) == k,
    decreases k - from,
{
    if from < k {
        path_ends(address, from + 1, k);
    }
}

proof fn user_ends(authority: Seq<char>, n: int, k: int)
    requires
        0 <= k <= n <= authority.len(),
        forall|i: int| k <= i < n ==> (#[trigger] authority[i]) != '@',
        k == 0 || authority[k - 1] == '@',
    ensures
        url::behind_user(authority, n) == k,
    decreases n - k,
{
    if k < n {
        user_ends(authority, n - 1, k);
    }
}

proof fn colon_is_at(server: Seq<char>, from: int, k: int)
    requires
        0 <= from <= k <= server.len(),
        forall|i: int| from <= i < k ==> (#[trigger] server[i]) != ':',
        k == server.len() || server[k] == ':',
    ensures
        url::place_of(server, ':', from) == k,
    decreases k - from,
{
    if from < k {
        colon_is_at(server, from + 1, k);
    }
}

proof fn visible_paths_stay(path: Seq<char>)
    requires
        forall|i: int| 0 <= i < path.len() ==> url::is_plain(#[trigger] path[i]),
    ensures
        url::written_path(path) == path,
    decreases path.len(),
{
    if path.len() > 0 {
        let rest = path.skip(1);
        assert forall|i: int| 0 <= i < rest.len() implies url::is_plain(#[trigger] rest[i]) by {
            assert(rest[i] == path[i + 1]);
        }
        visible_paths_stay(rest);
        assert(url::is_plain(path[0]));
        assert(path =~= seq![path[0]] + rest);
    }
}

proof fn small_forms_are_lowered(small: Seq<char>, value: Seq<char>)
    requires
        is_small_form(small, value),
    ensures
        url::lowered(value) == small,
{
    assert(url::lowered(value) =~= small);
}

proof fn scheme_is_read(scheme: Seq<char>, secure: bool, rest: Seq<char>)
    requires
        is_small_form(
            if secure {
                "https://"@
            } else {
                "http://"@
            },
            scheme,
        ),
    ensures
        url::has_scheme(scheme + rest, secure),
        !secure ==> !url::has_scheme(scheme + rest, true),
        scheme.len() == url::scheme_text(secure).len(),
{
    reveal_strlit("https://");
    reveal_strlit("http://");
    let address = scheme + rest;
    let wanted = url::scheme_text(secure);
    small_forms_are_lowered(wanted, scheme);
    assert(address.take(scheme.len() as int) =~= scheme);
    if !secure && url::has_scheme(address, true) {
        assert(url::lowered(address.take(8))[4] == text::lower_of(address[4]));
        assert(address[4] == scheme[4]);
        assert(url::lowered(scheme)[4] == text::lower_of(scheme[4]));
        assert("https://"@[4] == 's');
        assert("http://"@[4] == ':');
    }
}

proof fn colon_and_digits(port: Option<nat>, k: int)
    requires
        0 <= k < with_colon(port).len(),
    ensures
        k == 0 ==> with_colon(port)[k] == ':',
        k > 0 ==> '0' <= with_colon(port)[k] <= '9',
{
    if port is Some {
        text::decimal_reads_back(port->0);
        if k > 0 {
            assert(with_colon(port)[k] == text::decimal_of(port->0)[k - 1]);
            assert(text::is_digit(text::decimal_of(port->0)[k - 1]));
        }
    }
}

proof fn name_ends_at_colon(host: Seq<char>, port: Option<nat>)
    requires
        is_host_name(host),
    ensures
        url::host_end(host + with_colon(port)) == host.len(),
        url::is_host(host),
        stands_in_authority(host),
{
    let colon = with_colon(port);
    let server = host + colon;
    let h = host.len() as int;
    assert(server[0] == host[0]);
    assert forall|i: int| 0 <= i < h implies (#[trigger] server[i]) != ':' by {
        assert(server[i] == host[i]);
    }
    if h < server.len() {
        assert(server[h] == colon[0]);
        colon_and_digits(port, 0);
    }
    colon_is_at(server, 0, h);
    assert forall|i: int| 0 <= i < host.len() implies url::is_host_char(#[trigger] host[i]) by {}
}

/// Characters that end neither the host nor what stands in front of it.
spec fn stands_in_authority(host: Seq<char>) -> bool {
    forall|i: int|
        0 <= i < host.len() ==> (#[trigger] host[i]) != '/' && host[i] != '?' && host[i] != '#'
            && host[i] != '@'
}

proof fn bracket_closes(server: Seq<char>, from: int, k: int)
    requires
        0 <= from <= k < server.len(),
        forall|i: int| from <= i < k ==> (#[trigger] server[i]) != ']',
        server[k] == ']',
    ensures
        url::place_of(server, ']', from) == k,
    decreases k - from,
{
    if from < k {
        bracket_closes(server, from + 1, k);
    }
}

proof fn literal_ends_at_colon(number: Seq<char>, port: Option<nat>)
    requires
        url::is_ipv6(number),
    ensures
        url::host_end(seq!['['] + number + seq![']'] + with_colon(port)) == number.len() + 2,
        url::is_host(seq!['['] + number + seq![']']),
        stands_in_authority(seq!['['] + number + seq![']']),
{
    let host = seq!['['] + number + seq![']'];
    let server = host + with_colon(port);
    let n = number.len() as int;
    assert forall|i: int| 0 <= i < host.len() implies (#[trigger] host[i]) != '/' && host[i] != '?'
        && host[i] != '#' && host[i] != '@' && (i <= n ==> host[i] != ']') by {
        if 1 <= i <= n {
            assert(host[i] == number[i - 1]);
            assert(url::is_hex(number[i - 1]) || number[i - 1] == ':');
        }
    }
    assert forall|i: int| 0 <= i < n + 1 implies (#[trigger] server[i]) != ']' by {
        assert(server[i] == host[i]);
    }
    assert(server[n + 1] == host[n + 1]);
    bracket_closes(server, 0, n + 1);
    if n + 2 < server.len() {
        assert(server[n + 2] == with_colon(port)[0]);
        colon_and_digits(port, 0);
    }
    assert forall|i: int| n + 1 <= i < n + 2 implies (#[trigger] server[i]) != ':' by {
        assert(server[i] == ']');
    }
    colon_is_at(server, n + 1, n + 2);
    assert(host.subrange(1, host.len() - 1) =~= number);
}

proof fn server_is_read(host: Seq<char>, port: Option<nat>, secure: bool)
    requires
        url::host_end(host + with_colon(port)) == host.len(),
        port is Some ==> port->0 <= 65_535,
    ensures
        ({
            let server = host + with_colon(port);
            let digits = if host.len() < server.len() {
                server.skip(host.len() as int + 1)
            } else {
                Seq::empty()
            };
            &&& server.take(host.len() as int) == host
            &&& url::port_of(digits, secure) == Ok::<Option<nat>, UrlError>(
                kept_port(port, secure),
            )
        }),
{
    let server = host + with_colon(port);
    let h = host.len() as int;
    assert(server.take(h) =~= host);
    if port is Some {
        assert(server.skip(h + 1) =~= text::decimal_of(port->0));
        text::decimal_reads_back(port->0);
    }
}

proof fn authority_is_read(user: Seq<char>, host: Seq<char>, port: Option<nat>)
    requires
        is_user(user),
        stands_in_authority(host),
    ensures
        ({
            let authority = user + (host + with_colon(port));
            &&& forall|i: int|
                0 <= i < authority.len() ==> (#[trigger] authority[i]) != '/' && authority[i] != '?'
                    && authority[i] != '#'
            &&& url::behind_user(authority, authority.len() as int) == user.len()
            &&& authority.skip(user.len() as int) == host + with_colon(port)
        }),
{
    let server = host + with_colon(port);
    let authority = user + server;
    let u = user.len() as int;
    let h = host.len() as int;
    assert forall|i: int| 0 <= i < server.len() implies (#[trigger] server[i]) != '/' && server[i]
        != '?' && server[i] != '#' && server[i] != '@' by {
        if i < h {
            assert(server[i] == host[i]);
        } else {
            colon_and_digits(port, i - h);
            assert(server[i] == with_colon(port)[i - h]);
        }
    }
    assert forall|i: int| 0 <= i < authority.len() implies (#[trigger] authority[i]) != '/'
        && authority[i] != '?' && authority[i] != '#' by {
        if i < u {
            assert(authority[i] == user[i]);
        } else {
            assert(authority[i] == server[i - u]);
        }
    }
    assert forall|i: int| u <= i < authority.len() implies (#[trigger] authority[i]) != '@' by {
        assert(authority[i] == server[i - u]);
    }
    if u > 0 {
        assert(authority[u - 1] == user.last());
    }
    user_ends(authority, authority.len() as int, u);
    assert(authority.skip(u) =~= server);
}

proof fn frame_is_read(scheme: Seq<char>, authority: Seq<char>, path: Seq<char>, tail: Seq<char>)
    requires
        forall|i: int|
            0 <= i < authority.len() ==> (#[trigger] authority[i]) != '/' && authority[i] != '?'
                && authority[i] != '#',
        path.len() == 0 || path[0] == '/',
        forall|i: int| 0 <= i < path.len() ==> (#[trigger] path[i]) != '?' && path[i] != '#',
        is_tail(tail),
    ensures
        ({
            let address = scheme + (authority + path + tail);
            let stop = (scheme.len() + authority.len()) as int;
            &&& url::authority_end(address, scheme.len() as int) == stop
            &&& address.subrange(scheme.len() as int, stop) == authority
            &&& url::path_end(address, stop) == stop + path.len()
            &&& address.subrange(stop, stop + path.len()) == path
        }),
{
    let address = scheme + (authority + path + tail);
    let s = scheme.len() as int;
    let stop = s + authority.len();
    let close = stop + path.len();
    assert forall|i: int| s <= i < stop implies (#[trigger] address[i]) != '/' && address[i] != '?'
        && address[i] != '#' by {
        assert(address[i] == authority[i - s]);
    }
    if stop < address.len() {
        if path.len() > 0 {
            assert(address[stop] == path[0]);
        } else {
            assert(address[stop] == tail[0]);
        }
    }
    authority_ends(address, s, stop);
    assert(address.subrange(s, stop) =~= authority);
    assert forall|i: int| stop <= i < close implies (#[trigger] address[i]) != '?' && address[i]
        != '#' by {
        assert(address[i] == path[i - stop]);
    }
    if close < address.len() {
        assert(address[close] == tail[0]);
    }
    path_ends(address, stop, close);
    assert(address.subrange(stop, close) =~= path);
}

proof fn address_is_read(
    scheme: Seq<char>,
    secure: bool,
    user: Seq<char>,
    host: Seq<char>,
    small_host: Seq<char>,
    port: Option<nat>,
    path: Seq<char>,
    tail: Seq<char>,
)
    requires
        is_small_form(
            if secure {
                "https://"@
            } else {
                "http://"@
            },
            scheme,
        ),
        is_user(user),
        url::is_host(host),
        url::host_end(host + with_colon(port)) == host.len(),
        stands_in_authority(host),
        is_small_form(small_host, host),
        port is Some ==> port->0 <= 65_535,
        is_visible_path(path),
        is_tail(tail),
    ensures
        ({
            let address = scheme + user + host + with_colon(port) + path + tail;
            let shown = if path.len() == 0 {
                seq!['/']
            } else {
                path
            };
            let parts = UrlParts {
                secure,
                host: small_host,
                port: kept_port(port, secure),
                path: shown,
            };
            let begin = (if secure {
                "https://"@
            } else {
                "http://"@
            }) + small_host + with_colon(kept_port(port, secure));
            &&& url::parts_of(address) == Ok::<UrlParts, UrlError>(parts)
            &&& url::rendered(parts) == begin + shown
            &&& url::origin_text(parts) == begin + "/*"@
        }),
{
    let authority = user + (host + with_colon(port));
    let rest = authority + path + tail;
    let address = scheme + user + host + with_colon(port) + path + tail;
    assert(address =~= scheme + rest);
    scheme_is_read(scheme, secure, rest);
    authority_is_read(user, host, port);
    server_is_read(host, port, secure);
    frame_is_read(scheme, authority, path, tail);
    small_forms_are_lowered(small_host, host);
    assert forall|i: int| 0 <= i < path.len() implies url::is_plain(#[trigger] path[i]) by {}
    assert forall|i: int| 0 <= i < path.len() implies !url::is_ascii_control(
        #[trigger] path[i],
    ) by {}
    visible_paths_stay(path);
}

/// An address says its scheme and its host, in letters of either case, the port unless the
/// scheme has it anyway, and the path; who visits it, its query and its fragment say
/// nothing. Its canonical form and the pattern of its origin say just that.
pub proof fn addresses_say_what_they_name(
    scheme: Seq<char>,
    secure: bool,
    user: Seq<char>,
    host: Seq<char>,
    small_host: Seq<char>,
    port: Option<nat>,
    path: Seq<char>,
    tail: Seq<char>,
)
    requires
        is_small_form(
            if secure {
                "https://"@
            } else {
                "http://"@
            },
            scheme,
        ),
        is_user(user),
        is_host_name(host),
        is_small_form(small_host, host),
        port is Some ==> port->0 <= 65_535,
        is_visible_path(path),
        is_tail(tail),
    ensures
        ({
            let address = scheme + user + host + with_colon(port) + path + tail;
            let shown = if path.len() == 0 {
                seq!['/']
            } else {
                path
            };
            let parts = UrlParts {
                secure,
                host: small_host,
                port: kept_port(port, secure),
                path: shown,
            };
            let begin = (if secure {
                "https://"@
            } else {
                "http://"@
            }) + small_host + with_colon(kept_port(port, secure));
            &&& url::parts_of(address) == Ok::<UrlParts, UrlError>(parts)
            &&& url::rendered(parts) == begin + shown
            &&& url::origin_text(parts) == begin + "/*"@
        }),
{
    name_ends_at_colon(host, port);
    address_is_read(scheme, secure, user, host, small_host, port, path, tail);
}

/// An address may also name its host by a number in brackets, and says as much then.
pub proof fn numbered_hosts_are_read_alike(
    scheme: Seq<char>,
    secure: bool,
    user: Seq<char>,
    number: Seq<char>,
    small_number: Seq<char>,
    port: Option<nat>,
    path: Seq<char>,
    tail: Seq<char>,
)
    requires
        is_small_form(
            if secure {
                "https://"@
            } else {
                "http://"@
            },
            scheme,
        ),
        is_user(user),
        url::is_ipv6(number),
        is_small_form(small_number, number),
        port is Some ==> port->0 <= 65_535,
        is_visible_path(path),
        is_tail(tail),
    ensures
        ({
            let host = seq!['['] + number + seq![']'];
            let small_host = seq!['['] + small_number + seq![']'];
            let address = scheme + user + host + with_colon(port) + path + tail;
            let shown = if path.len() == 0 {
                seq!['/']
            } else {
                path
            };
            let parts = UrlParts {
                secure,
                host: small_host,
                port: kept_port(port, secure),
                path: shown,
            };
            let begin = (if secure {
                "https://"@
            } else {
                "http://"@
            }) + small_host + with_colon(kept_port(port, secure));
            &&& url::parts_of(address) == Ok::<UrlParts, UrlError>(parts)
            &&& url::rendered(parts) == begin + shown
            &&& url::origin_text(parts) == begin + "/*"@
        }),
{
    let host = seq!['['] + number + seq![']'];
    let small_host = seq!['['] + small_number + seq![']'];
    literal_ends_at_colon(number, port);
    assert forall|i: int| 0 <= i < host.len() implies #[trigger] small_host[i] == (if 'A' <= host[i]
        <= 'Z' {
        (host[i] as u32 + 32) as char
    } else {
        host[i]
    }) by {
        if 1 <= i <= number.len() {
            assert(small_host[i] == small_number[i - 1]);
            assert(host[i] == number[i - 1]);
        }
    }
    address_is_read(scheme, secure, user, host, small_host, port, path, tail);
}

/// A number in brackets has hexadecimal digits and colons in it, never five digits in a row,
/// and at most one pair of colons.
pub proof fn numbers_have_short_groups(number: Seq<char>, i: int, j: int)
    requires
        url::is_ipv6(number),
    ensures
        0 <= i < number.len() ==> {
            let c = number[i];
            c == ':' || '0' <= c <= '9' || 'a' <= c <= 'f' || 'A' <= c <= 'F'
        },
        0 <= i && i + 4 < number.len() ==> number[i] == ':' || number[i + 1] == ':' || number[i + 2]
            == ':' || number[i + 3] == ':' || number[i + 4] == ':',
        0 <= i < j && j + 1 < number.len() && number[i] == ':' && number[i + 1] == ':'
            ==> number[j] != ':' || number[j + 1] != ':',
{
    assert(!url::long_at(number, i));
    if 0 <= i < j && j + 1 < number.len() {
        assert(url::double_at(number, i) && url::double_at(number, j) ==> i == j);
    }
    if 0 <= i && i + 4 < number.len() {
        assert(url::is_hex(number[i]) || number[i] == ':');
        assert(url::is_hex(number[i + 1]) || number[i + 1] == ':');
        assert(url::is_hex(number[i + 2]) || number[i + 2] == ':');
        assert(url::is_hex(number[i + 3]) || number[i + 3] == ':');
        assert(url::is_hex(number[i + 4]) || number[i + 4] == ':');
    }
}

/// Exactly the addresses of other schemes are refused for their scheme.
pub proof fn other_schemes_are_refused(address: Seq<char>)
    ensures
        url::parts_of(address) is Err && url::parts_of(address)->Err_0
            == UrlError::UnsupportedScheme <==> {
            &&& address.len() < 7 || !is_small_form("http://"@, address.take(7))
            &&& address.len() < 8 || !is_small_form("https://"@, address.take(8))
        },
{
    reveal_strlit("https://");
    reveal_strlit("http://");
    if address.len() >= 7 {
        let seven = address.take(7);
        if is_small_form("http://"@, seven) {
            small_forms_are_lowered("http://"@, seven);
        }
        if url::lowered(seven) == "http://"@ {
            assert forall|i: int| 0 <= i < 7 implies #[trigger] "http://"@[i] == (if 'A' <= seven[i]
                <= 'Z' {
                (seven[i] as u32 + 32) as char
            } else {
                seven[i]
            }) by {
                assert(url::lowered(seven)[i] == text::lower_of(seven[i]));
            }
        }
    }
    if address.len() >= 8 {
        let eight = address.take(8);
        if is_small_form("https://"@, eight) {
            small_forms_are_lowered("https://"@, eight);
        }
        if url::lowered(eight) == "https://"@ {
            assert forall|i: int| 0 <= i < 8 implies #[trigger] "https://"@[i] == (if 'A'
                <= eight[i] <= 'Z' {
                (eight[i] as u32 + 32) as char
            } else {
                eight[i]
            }) by {
                assert(url::lowered(eight)[i] == text::lower_of(eight[i]));
            }
        }
    }
}

/// A port is read as the number that it says, left out where the scheme has it anyway, and
/// refused where it is none or above 65535.
pub proof fn ports_are_numbers(digits: Seq<char>, port: nat, secure: bool)
    ensures
        url::port_of(Seq::empty(), secure) == Ok::<Option<nat>, UrlError>(None),
        port <= 65_535 ==> url::port_of(text::decimal_of(port), secure) == Ok::<
            Option<nat>,
            UrlError,
        >(kept_port(Some(port), secure)),
        port > 65_535 ==> url::port_of(text::decimal_of(port), secure) == Err::<
            Option<nat>,
            UrlError,
        >(UrlError::InvalidPort),
        (exists|i: int| 0 <= i < digits.len() && !('0' <= #[trigger] digits[i] <= '9'))
            ==> url::port_of(digits, secure) == Err::<Option<nat>, UrlError>(UrlError::InvalidPort),
{
    text::decimal_reads_back(port);
    if exists|i: int| 0 <= i < digits.len() && !('0' <= #[trigger] digits[i] <= '9') {
        let i = choose|i: int| 0 <= i < digits.len() && !('0' <= #[trigger] digits[i] <= '9');
        assert(!text::is_digit(digits[i]));
    }
}

/// The value of a capital hexadecimal digit.
pub open spec fn digit_value(c: char) -> int {
    if '0' <= c <= '9' {
        c as int - 48
    } else {
        c as int - 55
    }
}

proof fn bytes_are_written(bytes: Seq<u8>, i: int)
    requires
        0 <= i < bytes.len(),
    ensures
        url::percents(bytes).len() == 3 * bytes.len(),
        url::percents(bytes)[3 * i] == '%',
        16 * digit_value(url::percents(bytes)[3 * i + 1]) + digit_value(
            url::percents(bytes)[3 * i + 2],
        ) == bytes[i],
    decreases bytes.len(),
{
    let rest = bytes.drop_last();
    percents_have_a_length(rest);
    if i < rest.len() {
        bytes_are_written(rest, i);
        let before = url::percents(rest);
        assert(url::percents(bytes)[3 * i] == before[3 * i]);
        assert(url::percents(bytes)[3 * i + 1] == before[3 * i + 1]);
        assert(url::percents(bytes)[3 * i + 2] == before[3 * i + 2]);
    } else {
        let value = bytes.last() as int;
        assert(value == 16 * (value / 16) + value % 16);
    }
}

proof fn percents_have_a_length(bytes: Seq<u8>)
    ensures
        url::percents(bytes).len() == 3 * bytes.len(),
    decreases bytes.len(),
{
    if bytes.len() > 0 {
        percents_have_a_length(bytes.drop_last());
    }
}

/// Every character of a path that cannot stand as it is stands as its bytes, each as a
/// percent sign and two capital hexadecimal digits; paths are written piece by piece.
pub proof fn other_characters_are_encoded(c: char, head: Seq<char>, tail: Seq<char>, i: int)
    ensures
        url::written_path(head + tail) == url::written_path(head) + url::written_path(tail),
        !('!' <= c <= '~') && 0 <= i < vstd::utf8::encode_utf8(seq![c]).len() ==> {
            let shown = url::written_path(seq![c]);
            &&& shown.len() == 3 * vstd::utf8::encode_utf8(seq![c]).len()
            &&& shown[3 * i] == '%'
            &&& 16 * digit_value(shown[3 * i + 1]) + digit_value(shown[3 * i + 2])
                == vstd::utf8::encode_utf8(seq![c])[i]
        },
{
    pieces_are_written(head, tail);
    let one = seq![c];
    assert(one.skip(1) =~= Seq::<char>::empty());
    assert(url::written_path(one) =~= url::written(c)) by {
        reveal_with_fuel(url::written_path, 2);
    }
    if !('!' <= c <= '~') && 0 <= i < vstd::utf8::encode_utf8(one).len() {
        bytes_are_written(vstd::utf8::encode_utf8(one), i);
    }
}

proof fn pieces_are_written(head: Seq<char>, tail: Seq<char>)
    ensures
        url::written_path(head + tail) == url::written_path(head) + url::written_path(tail),
    decreases head.len(),
{
    if head.len() == 0 {
        assert(head + tail =~= tail);
        assert(url::written_path(head) =~= Seq::<char>::empty());
    } else {
        pieces_are_written(head.skip(1), tail);
        assert((head + tail).skip(1) =~= head.skip(1) + tail);
        assert((head + tail)[0] == head[0]);
        assert(url::written_path(head + tail) =~= url::written_path(head) + url::written_path(
            tail,
        ));
    }
}

/// Addresses whose host is missing or holds anything but letters, digits, hyphens, dots and
/// underscores are refused for their host; those whose path holds a control character are
/// refused for that.
pub proof fn strange_characters_are_refused(
    scheme: Seq<char>,
    secure: bool,
    host: Seq<char>,
    path: Seq<char>,
    tail: Seq<char>,
)
    requires
        is_small_form(
            if secure {
                "https://"@
            } else {
                "http://"@
            },
            scheme,
        ),
        forall|i: int|
            0 <= i < host.len() ==> {
                let c = #[trigger] host[i];
                c != '/' && c != '?' && c != '#' && c != '@' && c != ':' && c != '['
            },
        path.len() == 0 || path[0] == '/',
        forall|i: int| 0 <= i < path.len() ==> (#[trigger] path[i]) != '?' && path[i] != '#',
        is_tail(tail),
    ensures
        !is_host_name(host) ==> url::parts_of(scheme + (host + path + tail)) == Err::<
            UrlParts,
            UrlError,
        >(UrlError::InvalidHost),
        is_host_name(host) && (exists|i: int|
            0 <= i < path.len() && ((#[trigger] path[i]) < ' ' || path[i] == '\u{7f}'))
            ==> url::parts_of(scheme + (host + path + tail)) == Err::<UrlParts, UrlError>(
            UrlError::InvalidCharacter,
        ),
{
    scheme_is_read(scheme, secure, host + path + tail);
    frame_is_read(scheme, host, path, tail);
    user_ends(host, host.len() as int, 0);
    assert(host.skip(0) =~= host);
    colon_is_at(host, 0, host.len() as int);
    assert(host.take(host.len() as int) =~= host);
    if is_host_name(host) {
        assert forall|i: int| 0 <= i < host.len() implies url::is_host_char(
            #[trigger] host[i],
        ) by {}
        assert(url::is_host(host));
        if exists|i: int|
            0 <= i < path.len() && ((#[trigger] path[i]) < ' ' || path[i] == '\u{7f}') {
            let i = choose|i: int|
                0 <= i < path.len() && ((#[trigger] path[i]) < ' ' || path[i] == '\u{7f}');
            assert(url::is_ascii_control(path[i]));
        }
    } else if host.len() > 0 {
        let i = choose|i: int|
            0 <= i < host.len() && {
                let c = #[trigger] host[i];
                !('a' <= c <= 'z' || 'A' <= c <= 'Z' || '0' <= c <= '9' || c == '-' || c == '.' || c
                    == '_')
            };
        assert(!url::is_host_char(host[i]));
        assert(host[0] != '[');
    }
}

} // verus!
