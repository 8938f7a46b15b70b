//! The canonical form of a web page's address.

use vstd::prelude::*;
use crate::text;

verus! {

pub const MAX_PORT: u64 = 65_535;

#[derive(Clone, Copy, Debug, PartialEq, Eq, Structural)]
pub enum UrlError {
    /// The address is neither an http nor an https one.
    UnsupportedScheme,
    /// The host is neither a name in ASCII nor an IPv6 address in brackets.
    InvalidHost,
    /// The port is not a number that a port can have.
    InvalidPort,
    /// The path holds a control character.
    InvalidCharacter,
}

impl UrlError {
    pub open spec fn message_text(self) -> Seq<char> {
        match self {
            UrlError::UnsupportedScheme => "only http and https URLs can be observed"@,
            UrlError::InvalidHost => "URL host is invalid"@,
            UrlError::InvalidPort => "URL port is invalid"@,
            UrlError::InvalidCharacter => "URL path contains a control character"@,
        }
    }

    pub fn message(&self) -> (message: String)
        ensures
            message@ == self.message_text(),
    {
        match self {
            UrlError::UnsupportedScheme => "only http and https URLs can be observed".to_owned(),
            UrlError::InvalidHost => "URL host is invalid".to_owned(),
            UrlError::InvalidPort => "URL port is invalid".to_owned(),
            UrlError::InvalidCharacter => "URL path contains a control character".to_owned(),
        }
    }
}

/// What a canonical address says.
pub struct UrlParts {
    pub secure: bool,
    pub host: Seq<char>,
    pub port: Option<nat>,
    pub path: Seq<char>,
}

pub open spec fn scheme_text(secure: bool) -> Seq<char> {
    if secure {
        "https://"@
    } else {
        "http://"@
    }
}

pub open spec fn lowered(s: Seq<char>) -> Seq<char> {
    s.map_values(|c: char| text::lower_of(c))
}

/// Whether an address has a scheme, in letters of either case.
pub open spec fn has_scheme(url: Seq<char>, secure: bool) -> bool {
    &&& scheme_text(secure).len() <= url.len()
    &&& lowered(url.take(scheme_text(secure).len() as int)) == scheme_text(secure)
}

/// The characters that end the host and port of an address.
pub open spec fn ends_authority(c: char) -> bool {
    c == '/' || c == '?' || c == '#'
}

/// The characters that end the path of an address.
pub open spec fn ends_path(c: char) -> bool {
    c == '?' || c == '#'
}

/// The first place from `from` on at which the host and port are over.
pub open spec fn authority_end(url: Seq<char>, from: int) -> int
    decreases url.len() - from,
{
    if from < 0 || from >= url.len() || ends_authority(url[from]) {
        from
    } else {
        authority_end(url, from + 1)
    }
}

/// The first place from `from` on at which the path is over.
pub open spec fn path_end(url: Seq<char>, from: int) -> int
    decreases url.len() - from,
{
    if from < 0 || from >= url.len() || ends_path(url[from]) {
        from
    } else {
        path_end(url, from + 1)
    }
}

/// The first place from `from` on at which a character stands.
pub open spec fn place_of(text: Seq<char>, c: char, from: int) -> int
    decreases text.len() - from,
{
    if from < 0 || from >= text.len() || text[from] == c {
        from
    } else {
        place_of(text, c, from + 1)
    }
}

/// The place behind the last at sign among the first `n` characters: what stands in front
/// of it names a user.
pub open spec fn behind_user(authority: Seq<char>, n: int) -> int
    decreases n,
{
    if n <= 0 {
        0
    } else if authority[n - 1] == '@' {
        n
    } else {
        behind_user(authority, n - 1)
    }
}

/// The place at which the host is over: at the first colon that is not inside brackets.
pub open spec fn host_end(server: Seq<char>) -> int {
    place_of(
        server,
        ':',
        if server.len() > 0 && server[0] == '[' {
            place_of(server, ']', 0)
        } else {
            0
        },
    )
}

pub open spec fn is_host_char(c: char) -> bool {
    'a' <= c <= 'z' || 'A' <= c <= 'Z' || '0' <= c <= '9' || c == '-' || c == '.' || c == '_'
}

pub open spec fn is_name(host: Seq<char>) -> bool {
    host.len() > 0 && forall|i: int| 0 <= i < host.len() ==> is_host_char(#[trigger] host[i])
}

pub open spec fn is_hex(c: char) -> bool {
    '0' <= c <= '9' || 'a' <= c <= 'f' || 'A' <= c <= 'F'
}

/// Whether two colons stand at a place.
pub open spec fn double_at(address: Seq<char>, i: int) -> bool {
    0 <= i && i + 1 < address.len() && address[i] == ':' && address[i + 1] == ':'
}

/// Whether five digits stand at a place.
pub open spec fn long_at(address: Seq<char>, i: int) -> bool {
    &&& 0 <= i && i + 5 <= address.len()
    &&& is_hex(address[i]) && is_hex(address[i + 1]) && is_hex(address[i + 2])
    &&& is_hex(address[i + 3]) && is_hex(address[i + 4])
}

/// How many groups of digits begin within the first `n` characters.
pub open spec fn groups(address: Seq<char>, n: int) -> nat
    decreases n,
{
    if n <= 0 {
        0
    } else if is_hex(address[n - 1]) && (n == 1 || !is_hex(address[n - 2])) {
        groups(address, n - 1) + 1
    } else {
        groups(address, n - 1)
    }
}

/// An IPv6 address: eight groups of one to four hexadecimal digits between colons, or fewer
/// around one pair of colons that stands for the groups that are missing.
pub open spec fn is_ipv6(address: Seq<char>) -> bool {
    &&& address.len() >= 2
    &&& forall|i: int|
        0 <= i < address.len() ==> is_hex(#[trigger] address[i]) || address[i] == ':'
    &&& forall|i: int| !(#[trigger] long_at(address, i))
    &&& forall|i: int, j: int| #[trigger]
        double_at(address, i) && #[trigger] double_at(address, j) ==> i == j
    &&& address[0] == ':' ==> double_at(address, 0)
    &&& address.last() == ':' ==> double_at(address, address.len() - 2)
    &&& if exists|i: int| double_at(address, i) {
        groups(address, address.len() as int) <= 7
    } else {
        groups(address, address.len() as int) == 8
    }
}

/// An IPv6 address in brackets.
pub open spec fn is_literal(host: Seq<char>) -> bool {
    &&& host.len() >= 2
    &&& host[0] == '['
    &&& host.last() == ']'
    &&& is_ipv6(host.subrange(1, host.len() - 1))
}

pub open spec fn is_host(host: Seq<char>) -> bool {
    is_name(host) || is_literal(host)
}

/// A character that stands in a canonical path as it is.
pub open spec fn is_plain(c: char) -> bool {
    '!' <= c <= '~' && c != '"' && c != '<' && c != '>' && c != '`' && c != '{' && c != '}'
}

/// A control character of ASCII.
pub open spec fn is_ascii_control(c: char) -> bool {
    c < ' ' || c == '\u{7f}'
}

/// Whether a path can be written: it holds no control character.
pub open spec fn is_path(path: Seq<char>) -> bool {
    forall|i: int| 0 <= i < path.len() ==> !is_ascii_control(#[trigger] path[i])
}

/// The upper-case hexadecimal digit for a value below sixteen.
pub open spec fn upper_hex(value: int) -> char {
    if value < 10 {
        (48 + value) as char
    } else {
        (55 + value) as char
    }
}

/// Bytes in percent encoding.
pub open spec fn percents(bytes: Seq<u8>) -> Seq<char>
    decreases bytes.len(),
{
    if bytes.len() == 0 {
        Seq::empty()
    } else {
        percents(bytes.drop_last()) + seq![
            '%',
            upper_hex(bytes.last() as int / 16),
            upper_hex(bytes.last() as int % 16),
        ]
    }
}

/// How a character of the path is written: as it is, or its UTF-8 bytes in percent encoding.
pub open spec fn written(c: char) -> Seq<char> {
    if is_plain(c) {
        seq![c]
    } else {
        percents(vstd::utf8::encode_utf8(seq![c]))
    }
}

pub open spec fn written_path(path: Seq<char>) -> Seq<char>
    decreases path.len(),
{
    if path.len() == 0 {
        Seq::empty()
    } else {
        written(path[0]) + written_path(path.skip(1))
    }
}

pub open spec fn default_port(secure: bool) -> nat {
    if secure {
        443
    } else {
        80
    }
}

/// What the text behind the colon says of the port: none where it is empty or says the
/// port that the scheme has anyway.
pub open spec fn port_of(digits: Seq<char>, secure: bool) -> Result<Option<nat>, UrlError> {
    if digits.len() == 0 {
        Ok(None)
    } else if !text::all_digits(digits) || text::digits_value(digits) > MAX_PORT {
        Err(UrlError::InvalidPort)
    } else if text::digits_value(digits) == default_port(secure) {
        Ok(None)
    } else {
        Ok(Some(text::digits_value(digits)))
    }
}

/// What the rest of an address says, behind its scheme.
pub open spec fn parts_behind(url: Seq<char>, secure: bool) -> Result<UrlParts, UrlError> {
    let start = scheme_text(secure).len() as int;
    let stop = authority_end(url, start);
    let authority = url.subrange(start, stop);
    let server = authority.skip(behind_user(authority, authority.len() as int));
    let colon = host_end(server);
    let host = server.take(colon);
    let digits = if colon < server.len() {
        server.skip(colon + 1)
    } else {
        Seq::empty()
    };
    let path = url.subrange(stop, path_end(url, stop));
    if !is_host(host) {
        Err(UrlError::InvalidHost)
    } else if port_of(digits, secure) is Err {
        Err(port_of(digits, secure)->Err_0)
    } else if !is_path(path) {
        Err(UrlError::InvalidCharacter)
    } else {
        Ok(
            UrlParts {
                secure,
                host: lowered(host),
                port: port_of(digits, secure)->Ok_0,
                path: if path.len() == 0 {
                    seq!['/']
                } else {
                    written_path(path)
                },
            },
        )
    }
}

/// What an address says: the user that it names, its query and its fragment are not part of
/// it.
pub open spec fn parts_of(url: Seq<char>) -> Result<UrlParts, UrlError> {
    if has_scheme(url, true) {
        parts_behind(url, true)
    } else if has_scheme(url, false) {
        parts_behind(url, false)
    } else {
        Err(UrlError::UnsupportedScheme)
    }
}

pub open spec fn port_text(port: Option<nat>) -> Seq<char> {
    match port {
        Some(port) => seq![':'] + text::decimal_of(port),
        None => Seq::empty(),
    }
}

/// The address that says just that.
pub open spec fn rendered(parts: UrlParts) -> Seq<char> {
    scheme_text(parts.secure) + parts.host + port_text(parts.port) + parts.path
}

/// The pattern that stands for every page of the address's origin.
pub open spec fn origin_text(parts: UrlParts) -> Seq<char> {
    scheme_text(parts.secure) + parts.host + port_text(parts.port) + "/*"@
}

proof fn authority_end_is(url: Seq<char>, from: int, k: int)
    requires
        0 <= from <= k <= url.len(),
        forall|i: int| from <= i < k ==> !ends_authority(#[trigger] url[i]),
        k == url.len() || ends_authority(url[k]),
    ensures
        authority_end(url, from) == k,
    decreases k - from,
{
    if from < k {
        assert(!ends_authority(url[from]));
        authority_end_is(url, from + 1, k);
    }
}

proof fn path_end_is(url: Seq<char>, from: int, k: int)
    requires
        0 <= from <= k <= url.len(),
        forall|i: int| from <= i < k ==> !ends_path(#[trigger] url[i]),
        k == url.len() || ends_path(url[k]),
    ensures
        path_end(url, from) == k,
    decreases k - from,
{
    if from < k {
        assert(!ends_path(url[from]));
        path_end_is(url, from + 1, k);
    }
}

proof fn place_of_is(text: Seq<char>, c: char, from: int, k: int)
    requires
        0 <= from <= k <= text.len(),
        forall|i: int| from <= i < k ==> #[trigger] text[i] != c,
        k == text.len() || text[k] == c,
    ensures
        place_of(text, c, from) == k,
    decreases k - from,
{
    if from < k {
        assert(text[from] != c);
        place_of_is(text, c, from + 1, k);
    }
}

fn find(chars: &Vec<char>, c: char, from: usize) -> (k: usize)
    requires
        from <= chars@.len(),
    ensures
        from <= k <= chars@.len(),
        k == place_of(chars@, c, from as int),
{
    let mut k: usize = from;
    while k < chars.len() && chars[k] != c
        invariant
            from <= k <= chars@.len(),
            forall|i: int| from <= i < k ==> #[trigger] chars@[i] != c,
        decreases chars@.len() - k,
    {
        k = k + 1;
    }
    proof {
        place_of_is(chars@, c, from as int, k as int);
    }
    k
}

fn find_authority_end(url: &Vec<char>, from: usize) -> (k: usize)
    requires
        from <= url@.len(),
    ensures
        from <= k <= url@.len(),
        k == authority_end(url@, from as int),
{
    let mut k: usize = from;
    while k < url.len() && url[k] != '/' && url[k] != '?' && url[k] != '#'
        invariant
            from <= k <= url@.len(),
            forall|i: int| from <= i < k ==> !ends_authority(#[trigger] url@[i]),
        decreases url@.len() - k,
    {
        k = k + 1;
    }
    proof {
        authority_end_is(url@, from as int, k as int);
    }
    k
}

fn find_path_end(url: &Vec<char>, from: usize) -> (k: usize)
    requires
        from <= url@.len(),
    ensures
        from <= k <= url@.len(),
        k == path_end(url@, from as int),
{
    let mut k: usize = from;
    while k < url.len() && url[k] != '?' && url[k] != '#'
        invariant
            from <= k <= url@.len(),
            forall|i: int| from <= i < k ==> !ends_path(#[trigger] url@[i]),
        decreases url@.len() - k,
    {
        k = k + 1;
    }
    proof {
        path_end_is(url@, from as int, k as int);
    }
    k
}

fn find_scheme(url: &Vec<char>, secure: bool) -> (r: bool)
    ensures
        r == has_scheme(url@, secure),
{
    let scheme: Vec<char> = if secure {
        text::chars_of("https://")
    } else {
        text::chars_of("http://")
    };
    if scheme.len() > url.len() {
        return false;
    }
    let ghost head = lowered(url@.take(scheme@.len() as int));
    for i in 0..scheme.len()
        invariant
            scheme@ == scheme_text(secure),
            scheme@.len() <= url@.len(),
            head == lowered(url@.take(scheme@.len() as int)),
            forall|j: int| 0 <= j < i ==> #[trigger] head[j] == scheme@[j],
    {
        if text::lower(url[i]) != scheme[i] {
            assert(head[i as int] == text::lower_of(url@[i as int]));
            assert(head != scheme@);
            return false;
        }
        assert(head[i as int] == scheme@[i as int]);
    }
    assert(head =~= scheme@);
    true
}

fn host_char(c: char) -> (r: bool)
    ensures
        r == is_host_char(c),
{
    (c >= 'a' && c <= 'z') || (c >= 'A' && c <= 'Z') || (c >= '0' && c <= '9') || c == '-' || c
        == '.' || c == '_'
}

fn hex_char(c: char) -> (r: bool)
    ensures
        r == is_hex(c),
{
    (c >= '0' && c <= '9') || (c >= 'a' && c <= 'f') || (c >= 'A' && c <= 'F')
}

fn name(host: &Vec<char>) -> (r: bool)
    ensures
        r == is_name(host@),
{
    for i in 0..host.len()
        invariant
            forall|j: int| 0 <= j < i ==> is_host_char(#[trigger] host@[j]),
    {
        if !host_char(host[i]) {
            assert(!is_host_char(host@[i as int]));
            return false;
        }
    }
    host.len() > 0
}

/// Whether five digits in a row are nowhere.
fn short_groups(address: &Vec<char>) -> (r: bool)
    ensures
        r == forall|i: int| !(#[trigger] long_at(address@, i)),
{
    let mut i: usize = 0;
    while i < address.len() && address.len() - i >= 5
        invariant
            i <= address@.len(),
            forall|j: int| j < i ==> !(#[trigger] long_at(address@, j)),
        decreases address@.len() - i,
    {
        if hex_char(address[i]) && hex_char(address[i + 1]) && hex_char(address[i + 2])
            && hex_char(address[i + 3]) && hex_char(address[i + 4]) {
            assert(long_at(address@, i as int));
            return false;
        }
        i = i + 1;
    }
    true
}

/// The only place at which two colons stand, where there is one; nothing where there are
/// several.
fn one_double(address: &Vec<char>) -> (r: Option<Option<usize>>)
    ensures
        match r {
            None => exists|i: int, j: int| #[trigger]
                double_at(address@, i) && #[trigger] double_at(address@, j) && i != j,
            Some(None) => forall|i: int| !(#[trigger] double_at(address@, i)),
            Some(Some(k)) => double_at(address@, k as int) && forall|i: int| #[trigger]
                double_at(address@, i) ==> i == k,
        },
{
    let mut found: Option<usize> = None;
    let mut i: usize = 0;
    while i < address.len() && address.len() - i >= 2
        invariant
            i <= address@.len(),
            match found {
                None => forall|j: int| j < i ==> !(#[trigger] double_at(address@, j)),
                Some(k) => k < i && double_at(address@, k as int) && forall|j: int|
                    j < i && #[trigger] double_at(address@, j) ==> j == k,
            },
        decreases address@.len() - i,
    {
        if address[i] == ':' && address[i + 1] == ':' {
            assert(double_at(address@, i as int));
            if let Some(k) = found {
                assert(double_at(address@, k as int));
                return None;
            }
            found = Some(i);
        }
        i = i + 1;
    }
    Some(found)
}

/// Whether there are as many groups as there have to be.
fn enough_groups(address: &Vec<char>, double: bool) -> (r: bool)
    ensures
        r == (if double {
            groups(address@, address@.len() as int) <= 7
        } else {
            groups(address@, address@.len() as int) == 8
        }),
{
    let mut count: usize = 0;
    for i in 0..address.len()
        invariant
            count <= i,
            count == groups(address@, i as int),
    {
        if hex_char(address[i]) && (i == 0 || !hex_char(address[i - 1])) {
            count = count + 1;
        }
    }
    if double {
        count <= 7
    } else {
        count == 8
    }
}

fn ipv6(address: &Vec<char>) -> (r: bool)
    ensures
        r == is_ipv6(address@),
{
    if address.len() < 2 {
        return false;
    }
    for i in 0..address.len()
        invariant
            forall|j: int| 0 <= j < i ==> is_hex(#[trigger] address@[j]) || address@[j] == ':',
    {
        if !hex_char(address[i]) && address[i] != ':' {
            assert(!(is_hex(address@[i as int]) || address@[i as int] == ':'));
            return false;
        }
    }
    if !short_groups(address) {
        return false;
    }
    let double = match one_double(address) {
        Some(double) => double,
        None => return false,
    };
    let n: usize = address.len();
    let opens: bool = address[0] != ':' || address[1] == ':';
    let closes: bool = address[n - 1] != ':' || address[n - 2] == ':';
    assert(opens == (address@[0] == ':' ==> double_at(address@, 0)));
    assert(closes == (address@.last() == ':' ==> double_at(address@, address@.len() - 2)));
    opens && closes && enough_groups(address, double.is_some())
}

fn valid_host(host: &Vec<char>) -> (r: bool)
    ensures
        r == is_host(host@),
{
    if host.len() < 2 || host[0] != '[' || host[host.len() - 1] != ']' {
        return name(host);
    }
    let inner = text::part_of(host, 1, host.len() - 1);
    assert(!is_name(host@)) by {
        assert(!is_host_char(host@[0]));
    }
    ipv6(&inner)
}

fn plain(c: char) -> (r: bool)
    ensures
        r == is_plain(c),
{
    c >= '!' && c <= '~' && c != '"' && c != '<' && c != '>' && c != '`' && c != '{' && c != '}'
}

fn push_percents(out: &mut Vec<char>, bytes: &[u8])
    ensures
        final(out)@ == old(out)@ + percents(bytes@),
{
    let ghost start = out@;
    proof {
        assert(bytes@.take(0) =~= Seq::<u8>::empty());
        assert(out@ =~= start + percents(bytes@.take(0)));
    }
    for i in 0..bytes.len()
        invariant
            out@ == start + percents(bytes@.take(i as int)),
    {
        let byte: u8 = bytes[i];
        let ghost before = out@;
        out.push('%');
        out.push(hex_digit(byte / 16));
        out.push(hex_digit(byte % 16));
        proof {
            assert(bytes@.take(i + 1).drop_last() =~= bytes@.take(i as int));
            assert(bytes@.take(i + 1).last() == byte);
            assert(out@ =~= start + percents(bytes@.take(i + 1)));
        }
    }
    proof {
        assert(bytes@.take(bytes@.len() as int) =~= bytes@);
    }
}

fn hex_digit(value: u8) -> (c: char)
    requires
        value < 16,
    ensures
        c == upper_hex(value as int),
{
    if value < 10 {
        (48 + value) as char
    } else {
        (55 + value) as char
    }
}

/// Writes a path, unless it holds a control character.
fn write_path(path: &Vec<char>) -> (r: Option<Vec<char>>)
    ensures
        match r {
            Some(out) => is_path(path@) && out@ == written_path(path@),
            None => !is_path(path@),
        },
{
    let mut out: Vec<char> = Vec::new();
    proof {
        assert(path@.skip(0) =~= path@);
        assert(out@ + written_path(path@.skip(0)) =~= written_path(path@));
    }
    for i in 0..path.len()
        invariant
            forall|j: int| 0 <= j < i ==> !is_ascii_control(#[trigger] path@[j]),
            out@ + written_path(path@.skip(i as int)) == written_path(path@),
    {
        let c: char = path[i];
        if c < ' ' || c == '\u{7f}' {
            assert(is_ascii_control(path@[i as int]));
            return None;
        }
        let ghost before = out@;
        let ghost rest = path@.skip(i as int);
        if plain(c) {
            out.push(c);
        } else {
            let mut one = String::new();
            one.push(c);
            proof {
                assert(one@ =~= seq![c]);
            }
            push_percents(&mut out, one.as_str().as_bytes());
        }
        proof {
            assert(rest[0] == c);
            assert(rest.skip(1) =~= path@.skip(i + 1));
            assert(out@ =~= before + written(c));
            assert(out@ + written_path(path@.skip(i + 1)) =~= before + written_path(rest));
        }
    }
    proof {
        assert(path@.skip(path@.len() as int) =~= Seq::<char>::empty());
        assert(out@ =~= out@ + written_path(path@.skip(path@.len() as int)));
    }
    Some(out)
}

/// The parts of an address, as values.
struct Address {
    secure: bool,
    host: Vec<char>,
    port: Option<u64>,
    path: Vec<char>,
}

impl Address {
    spec fn parts(self) -> UrlParts {
        UrlParts {
            secure: self.secure,
            host: self.host@,
            port: match self.port {
                Some(port) => Some(port as nat),
                None => None,
            },
            path: self.path@,
        }
    }
}

fn read_port(digits: &Vec<char>, secure: bool) -> (r: Result<Option<u64>, UrlError>)
    ensures
        match r {
            Ok(Some(port)) => port_of(digits@, secure) == Ok::<Option<nat>, UrlError>(
                Some(port as nat),
            ),
            Ok(None) => port_of(digits@, secure) == Ok::<Option<nat>, UrlError>(None),
            Err(error) => port_of(digits@, secure) == Err::<Option<nat>, UrlError>(error),
        },
{
    if digits.len() == 0 {
        return Ok(None);
    }
    let port: u64 = match text::parse_digits(digits.as_slice()) {
        Some(port) => port,
        None => return Err(UrlError::InvalidPort),
    };
    if port > MAX_PORT {
        return Err(UrlError::InvalidPort);
    }
    if port == (if secure {
        443u64
    } else {
        80u64
    }) {
        return Ok(None);
    }
    Ok(Some(port))
}

fn read_behind(url: &Vec<char>, secure: bool) -> (r: Result<Address, UrlError>)
    requires
        has_scheme(url@, secure),
    ensures
        match r {
            Ok(address) => parts_behind(url@, secure) == Ok::<UrlParts, UrlError>(address.parts()),
            Err(error) => parts_behind(url@, secure) == Err::<UrlParts, UrlError>(error),
        },
{
    let start: usize = if secure {
        8
    } else {
        7
    };
    proof {
        reveal_strlit("https://");
        reveal_strlit("http://");
    }
    let stop: usize = find_authority_end(url, start);
    let end: usize = find_path_end(url, stop);
    let authority: Vec<char> = text::part_of(url, start, stop);
    let mut behind: usize = authority.len();
    while behind > 0 && authority[behind - 1] != '@'
        invariant
            behind <= authority@.len(),
            behind_user(authority@, authority@.len() as int) == behind_user(
                authority@,
                behind as int,
            ),
        decreases behind,
    {
        behind = behind - 1;
    }
    let server: Vec<char> = text::part_of(&authority, behind, authority.len());
    proof {
        assert(server@ =~= authority@.skip(behind as int));
    }
    let from: usize = if server.len() > 0 && server[0] == '[' {
        find(&server, ']', 0)
    } else {
        0
    };
    let colon: usize = find(&server, ':', from);
    let raw: Vec<char> = text::part_of(&server, 0, colon);
    proof {
        assert(raw@ =~= server@.take(colon as int));
    }
    if !valid_host(&raw) {
        return Err(UrlError::InvalidHost);
    }
    let mut host: Vec<char> = Vec::new();
    for i in 0..raw.len()
        invariant
            host@ == lowered(raw@.take(i as int)),
    {
        host.push(text::lower(raw[i]));
        proof {
            assert(host@ =~= lowered(raw@.take(i + 1)));
        }
    }
    proof {
        assert(raw@.take(raw@.len() as int) =~= raw@);
    }
    let digits: Vec<char> = if colon < server.len() {
        let digits = text::part_of(&server, colon + 1, server.len());
        proof {
            assert(digits@ =~= server@.skip(colon + 1));
        }
        digits
    } else {
        Vec::new()
    };
    let port: Option<u64> = match read_port(&digits, secure) {
        Ok(port) => port,
        Err(error) => return Err(error),
    };
    let path: Vec<char> = text::part_of(url, stop, end);
    let mut written: Vec<char> = match write_path(&path) {
        Some(written) => written,
        None => return Err(UrlError::InvalidCharacter),
    };
    if path.len() == 0 {
        written.push('/');
        proof {
            assert(written@ =~= seq!['/']);
        }
    }
    Ok(Address { secure, host, port, path: written })
}

fn read(url: &str) -> (r: Result<Address, UrlError>)
    ensures
        match r {
            Ok(address) => parts_of(url@) == Ok::<UrlParts, UrlError>(address.parts()),
            Err(error) => parts_of(url@) == Err::<UrlParts, UrlError>(error),
        },
{
    let chars = text::chars_of(url);
    if find_scheme(&chars, true) {
        read_behind(&chars, true)
    } else if find_scheme(&chars, false) {
        read_behind(&chars, false)
    } else {
        Err(UrlError::UnsupportedScheme)
    }
}

fn write_origin(address: &Address) -> (out: String)
    ensures
        out@ == scheme_text(address.secure) + address.host@ + port_text(address.parts().port),
{
    let mut out: String = if address.secure {
        "https://".to_owned()
    } else {
        "http://".to_owned()
    };
    let host = text::text_of(address.host.as_slice());
    out.append(host.as_str());
    if let Some(port) = address.port {
        out.push(':');
        let digits = text::decimal(port);
        out.append(digits.as_str());
    }
    proof {
        assert(out@ =~= scheme_text(address.secure) + address.host@ + port_text(
            address.parts().port,
        ));
    }
    out
}

/// Brings an address into its canonical form: the scheme and host in lower case, no user,
/// no default port, no empty path, no query and no fragment.
pub fn canonicalize(url: &str) -> (r: Result<String, UrlError>)
    ensures
        match parts_of(url@) {
            Ok(parts) => r is Ok && r->Ok_0@ == rendered(parts),
            Err(error) => r is Err && r->Err_0 == error,
        },
{
    let address = match read(url) {
        Ok(address) => address,
        Err(error) => return Err(error),
    };
    let mut out = write_origin(&address);
    let path = text::text_of(address.path.as_slice());
    out.append(path.as_str());
    Ok(out)
}

/// The pattern for the origin of an address.
pub fn origin_pattern(url: &str) -> (r: Result<String, UrlError>)
    ensures
        match parts_of(url@) {
            Ok(parts) => r is Ok && r->Ok_0@ == origin_text(parts),
            Err(error) => r is Err && r->Err_0 == error,
        },
{
    let address = match read(url) {
        Ok(address) => address,
        Err(error) => return Err(error),
    };
    let mut out = write_origin(&address);
    out.append("/*");
    Ok(out)
}

/// What every canonical address has.
pub open spec fn is_canonical(parts: UrlParts) -> bool {
    &&& is_host(parts.host)
    &&& lowered(parts.host) == parts.host
    &&& parts.port is Some ==> parts.port->0 <= MAX_PORT && parts.port->0 != default_port(
        parts.secure,
    )
    &&& parts.path.len() > 0 && parts.path[0] == '/'
    &&& forall|i: int|
        0 <= i < parts.path.len() ==> is_plain(#[trigger] parts.path[i]) && !ends_path(
            parts.path[i],
        )
}

proof fn path_has_no_end(url: Seq<char>, from: int, i: int)
    requires
        0 <= from <= i < path_end(url, from),
    ensures
        i < url.len(),
        !ends_path(url[i]),
    decreases url.len() - from,
{
    if i > from {
        path_has_no_end(url, from + 1, i);
    }
}

proof fn end_is_behind(url: Seq<char>, from: int)
    requires
        0 <= from <= url.len(),
    ensures
        from <= authority_end(url, from) <= url.len(),
        authority_end(url, from) < url.len() ==> ends_authority(url[authority_end(url, from)]),
        from <= path_end(url, from) <= url.len(),
    decreases url.len() - from,
{
    if from < url.len() {
        end_is_behind(url, from + 1);
    }
}

proof fn percents_are_plain(bytes: Seq<u8>, i: int)
    requires
        0 <= i < percents(bytes).len(),
    ensures
        is_plain(percents(bytes)[i]),
        !ends_path(percents(bytes)[i]),
    decreases bytes.len(),
{
    if bytes.len() > 0 {
        let before = percents(bytes.drop_last());
        if i < before.len() {
            percents_are_plain(bytes.drop_last(), i);
        }
    }
}

proof fn written_is_plain(path: Seq<char>, i: int)
    requires
        forall|j: int| 0 <= j < path.len() ==> !ends_path(#[trigger] path[j]),
        0 <= i < written_path(path).len(),
    ensures
        is_plain(written_path(path)[i]),
        !ends_path(written_path(path)[i]),
    decreases path.len(),
{
    if path.len() > 0 {
        let head = written(path[0]);
        let rest = path.skip(1);
        assert forall|j: int| 0 <= j < rest.len() implies !ends_path(#[trigger] rest[j]) by {
            assert(rest[j] == path[j + 1]);
        }
        if i < head.len() {
            assert(!ends_path(path[0]));
            if !is_plain(path[0]) {
                percents_are_plain(vstd::utf8::encode_utf8(seq![path[0]]), i);
            }
        } else {
            written_is_plain(rest, i - head.len());
        }
    }
}

proof fn plain_path_stays(path: Seq<char>)
    requires
        forall|j: int| 0 <= j < path.len() ==> is_plain(#[trigger] path[j]),
    ensures
        is_path(path),
        written_path(path) == path,
    decreases path.len(),
{
    if path.len() > 0 {
        let rest = path.skip(1);
        assert forall|j: int| 0 <= j < rest.len() implies is_plain(#[trigger] rest[j]) by {
            assert(rest[j] == path[j + 1]);
        }
        plain_path_stays(rest);
        assert(is_plain(path[0]));
        assert(written_path(path) =~= path);
    } else {
        assert(written_path(path) =~= path);
    }
}

proof fn groups_lowered(address: Seq<char>, n: int)
    requires
        0 <= n <= address.len(),
    ensures
        groups(lowered(address), n) == groups(address, n),
    decreases n,
{
    if n > 0 {
        groups_lowered(address, n - 1);
        assert(lowered(address)[n - 1] == text::lower_of(address[n - 1]));
        if n > 1 {
            assert(lowered(address)[n - 2] == text::lower_of(address[n - 2]));
        }
    }
}

proof fn ipv6_lowered(address: Seq<char>)
    requires
        is_ipv6(address),
    ensures
        is_ipv6(lowered(address)),
{
    let low = lowered(address);
    groups_lowered(address, address.len() as int);
    assert forall|i: int| 0 <= i < low.len() implies is_hex(#[trigger] low[i]) || low[i]
        == ':' by {
        assert(is_hex(address[i]) || address[i] == ':');
    }
    assert forall|i: int| #[trigger] double_at(low, i) == double_at(address, i) by {
        if 0 <= i && i + 1 < address.len() {
            assert(low[i] == text::lower_of(address[i]));
            assert(low[i + 1] == text::lower_of(address[i + 1]));
        }
    }
    assert forall|i: int| !(#[trigger] long_at(low, i)) by {
        assert(!long_at(address, i));
        if 0 <= i && i + 5 <= address.len() {
            assert(is_hex(low[i]) == is_hex(address[i]));
            assert(is_hex(low[i + 1]) == is_hex(address[i + 1]));
            assert(is_hex(low[i + 2]) == is_hex(address[i + 2]));
            assert(is_hex(low[i + 3]) == is_hex(address[i + 3]));
            assert(is_hex(low[i + 4]) == is_hex(address[i + 4]));
        }
    }
    if exists|i: int| double_at(address, i) {
        let i = choose|i: int| double_at(address, i);
        assert(double_at(low, i));
    }
    if exists|i: int| double_at(low, i) {
        let i = choose|i: int| double_at(low, i);
        assert(double_at(address, i));
    }
    assert(low[0] == text::lower_of(address[0]));
    assert(low.last() == text::lower_of(address.last()));
    assert(double_at(low, 0) == double_at(address, 0));
    let n = address.len() - 2;
    assert(double_at(low, n) == double_at(address, n));
}

proof fn host_lowered(host: Seq<char>)
    requires
        is_host(host),
    ensures
        is_host(lowered(host)),
        lowered(lowered(host)) == lowered(host),
{
    let low = lowered(host);
    assert(lowered(low) =~= low);
    if is_name(host) {
        assert forall|i: int| 0 <= i < low.len() implies is_host_char(#[trigger] low[i]) by {
            assert(is_host_char(host[i]));
        }
    } else {
        let inner = host.subrange(1, host.len() - 1);
        ipv6_lowered(inner);
        assert(low.subrange(1, low.len() - 1) =~= lowered(inner));
        assert(low[0] == text::lower_of('['));
        assert(low.last() == text::lower_of(']'));
    }
}

proof fn parts_are_canonical(url: Seq<char>, secure: bool)
    requires
        has_scheme(url, secure),
        parts_behind(url, secure) is Ok,
    ensures
        is_canonical(parts_behind(url, secure)->Ok_0),
        parts_behind(url, secure)->Ok_0.secure == secure,
{
    let start = scheme_text(secure).len() as int;
    end_is_behind(url, start);
    let stop = authority_end(url, start);
    end_is_behind(url, stop);
    let authority = url.subrange(start, stop);
    let server = authority.skip(behind_user(authority, authority.len() as int));
    host_lowered(server.take(host_end(server)));
    let end = path_end(url, stop);
    let path = url.subrange(stop, end);
    let parts = parts_behind(url, secure)->Ok_0;
    if path.len() > 0 {
        path_has_no_end(url, stop, stop);
        assert(url[stop] == '/');
        assert(path[0] == '/');
        assert(written('/') =~= seq!['/']);
        assert(parts.path[0] == '/');
        assert forall|i: int| 0 <= i < path.len() implies !ends_path(#[trigger] path[i]) by {
            path_has_no_end(url, stop, stop + i);
        }
        assert forall|i: int| 0 <= i < parts.path.len() implies is_plain(
            #[trigger] parts.path[i],
        ) && !ends_path(parts.path[i]) by {
            written_is_plain(path, i);
        }
    }
}

/// What a host holds: neither what would end it nor an at sign.
proof fn host_characters(host: Seq<char>, i: int)
    requires
        is_host(host),
        0 <= i < host.len(),
    ensures
        !ends_authority(host[i]),
        host[i] != '@',
        is_name(host) ==> host[i] != ':' && host[i] != '[',
        !is_name(host) && i < host.len() - 1 ==> host[i] != ']',
{
    if is_name(host) {
        assert(is_host_char(host[i]));
    } else if 0 < i < host.len() - 1 {
        let inner = host.subrange(1, host.len() - 1);
        assert(inner[i - 1] == host[i]);
        assert(is_hex(inner[i - 1]) || inner[i - 1] == ':');
    }
}

/// The host is over where its port begins.
proof fn host_ends(host: Seq<char>, ports: Seq<char>)
    requires
        is_host(host),
        ports.len() == 0 || ports[0] == ':',
    ensures
        host_end(host + ports) == host.len(),
{
    let server = host + ports;
    let n = host.len() as int;
    assert(server[0] == host[0]);
    if n < server.len() {
        assert(server[n] == ports[0]);
    }
    if is_name(host) {
        host_characters(host, 0);
        assert forall|i: int| 0 <= i < n implies #[trigger] server[i] != ':' by {
            host_characters(host, i);
        }
        place_of_is(server, ':', 0, n);
    } else {
        assert forall|i: int| 0 <= i < n - 1 implies #[trigger] server[i] != ']' by {
            host_characters(host, i);
        }
        assert(server[n - 1] == ']');
        place_of_is(server, ']', 0, n - 1);
        place_of_is(server, ':', n - 1, n);
    }
}

proof fn no_user(authority: Seq<char>, n: int)
    requires
        0 <= n <= authority.len(),
        forall|i: int| 0 <= i < n ==> #[trigger] authority[i] != '@',
    ensures
        behind_user(authority, n) == 0,
    decreases n,
{
    if n > 0 {
        assert(authority[n - 1] != '@');
        no_user(authority, n - 1);
    }
}

proof fn rendered_reads_back(parts: UrlParts)
    requires
        is_canonical(parts),
    ensures
        parts_of(rendered(parts)) == Ok::<UrlParts, UrlError>(parts),
{
    reveal_strlit("https://");
    reveal_strlit("http://");
    let url = rendered(parts);
    let scheme = scheme_text(parts.secure);
    let start = scheme.len() as int;
    assert(lowered(url.take(start)) =~= scheme);
    if !parts.secure {
        assert(lowered(url.take(8))[4] == text::lower_of(url[4]));
        assert(url[4] == ':');
        assert(scheme_text(true)[4] == 's');
        assert(!has_scheme(url, true));
    }
    assert(has_scheme(url, parts.secure));
    let behind = start + parts.host.len();
    let ports = port_text(parts.port);
    let stop = behind + ports.len();
    if parts.port is Some {
        text::decimal_reads_back(parts.port->0);
    }
    assert forall|i: int| start <= i < stop implies !ends_authority(#[trigger] url[i]) && url[i]
        != '@' by {
        if i < behind {
            assert(url[i] == parts.host[i - start]);
            host_characters(parts.host, i - start);
        } else {
            assert(url[i] == ports[i - behind]);
            if i > behind {
                assert(ports[i - behind] == text::decimal_of(parts.port->0)[i - behind - 1]);
                assert(text::is_digit(text::decimal_of(parts.port->0)[i - behind - 1]));
            }
        }
    }
    assert(url[stop] == parts.path[0]);
    authority_end_is(url, start, stop);
    let authority = url.subrange(start, stop);
    assert forall|i: int| 0 <= i < authority.len() implies #[trigger] authority[i] != '@' by {
        assert(authority[i] == url[start + i]);
    }
    no_user(authority, authority.len() as int);
    assert(authority.skip(0) =~= authority);
    assert(authority =~= parts.host + ports);
    host_ends(parts.host, ports);
    let colon = parts.host.len() as int;
    assert(authority.take(colon) =~= parts.host);
    if parts.port is Some {
        assert(authority.skip(colon + 1) =~= text::decimal_of(parts.port->0));
    }
    assert forall|i: int| stop <= i < url.len() implies !ends_path(#[trigger] url[i]) by {
        assert(url[i] == parts.path[i - stop]);
    }
    path_end_is(url, stop, url.len() as int);
    assert(url.subrange(stop, url.len() as int) =~= parts.path);
    plain_path_stays(parts.path);
}

/// Bringing a canonical address into its canonical form leaves it as it is.
pub proof fn canonical_form_is_stable(url: Seq<char>)
    requires
        parts_of(url) is Ok,
    ensures
        parts_of(rendered(parts_of(url)->Ok_0)) == parts_of(url),
{
    parts_are_canonical(url, has_scheme(url, true));
    rendered_reads_back(parts_of(url)->Ok_0);
}

/// A canonical address keeps nothing of a query or a fragment.
pub proof fn canonical_form_has_no_query(url: Seq<char>, i: int)
    requires
        parts_of(url) is Ok,
        0 <= i < rendered(parts_of(url)->Ok_0).len(),
    ensures
        !ends_path(rendered(parts_of(url)->Ok_0)[i]),
{
    reveal_strlit("https://");
    reveal_strlit("http://");
    parts_are_canonical(url, has_scheme(url, true));
    let parts = parts_of(url)->Ok_0;
    let all = rendered(parts);
    let start = scheme_text(parts.secure).len() as int;
    let host_end = start + parts.host.len();
    let ports = port_text(parts.port);
    let stop = host_end + ports.len();
    if i < start {
        assert(all[i] == scheme_text(parts.secure)[i]);
    } else if i < host_end {
        assert(all[i] == parts.host[i - start]);
        host_characters(parts.host, i - start);
    } else if i < stop {
        assert(all[i] == ports[i - host_end]);
        text::decimal_reads_back(parts.port->0);
        if i > host_end {
            assert(ports[i - host_end] == text::decimal_of(parts.port->0)[i - host_end - 1]);
            assert(text::is_digit(text::decimal_of(parts.port->0)[i - host_end - 1]));
        }
    } else {
        assert(all[i] == parts.path[i - stop]);
    }
}

} // verus!
