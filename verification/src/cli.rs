//! What the command line decides: durations, browser host files and their contents.

use vstd::prelude::*;
use crate::clock::Timestamp;
use crate::json;
use crate::order;
use crate::paths;
use crate::resource::{ObservationSource, Sensitivity};
use crate::storage::StorageError;
use crate::text;

verus! {

pub const HOST_NAME: &'static str = "dev.fubun.browser";

pub const HOST_DESCRIPTION: &'static str = "Fubun browser integration";

pub const EXTENSION_ID_LENGTH: usize = 32;

#[derive(Clone, Debug, PartialEq, Eq)]
pub enum CliError {
    InvalidDuration(String),
    UnexpectedResponse,
}

impl CliError {
    pub open spec fn message_text(self) -> Seq<char> {
        match self {
            CliError::InvalidDuration(input) => "invalid duration: "@ + input@
                + "; expected a positive integer followed by s, m, h, or d"@,
            CliError::UnexpectedResponse => "unexpected daemon response"@,
        }
    }

    pub fn message(&self) -> (message: String)
        ensures
            message@ == self.message_text(),
    {
        match self {
            CliError::InvalidDuration(input) => {
                let mut message: String = "invalid duration: ".to_owned();
                message.append(input.as_str());
                message.append("; expected a positive integer followed by s, m, h, or d");
                message
            },
            CliError::UnexpectedResponse => "unexpected daemon response".to_owned(),
        }
    }
}

/// How many seconds a unit letter stands for.
pub open spec fn unit_seconds(unit: char) -> Option<int> {
    if unit == 's' {
        Some(1)
    } else if unit == 'm' {
        Some(60)
    } else if unit == 'h' {
        Some(3_600)
    } else if unit == 'd' {
        Some(86_400)
    } else {
        None
    }
}

/// The number in front of the unit, behind a plus sign where there is one.
pub open spec fn magnitude_of(number: Seq<char>) -> Seq<char> {
    if number.len() > 0 && number[0] == '+' {
        number.skip(1)
    } else {
        number
    }
}

/// The seconds that a duration says: a positive whole number and a unit. One that does
/// not fit says nothing.
pub open spec fn duration_of(input: Seq<char>) -> Option<int> {
    if input.len() < 2 {
        None
    } else {
        let digits = magnitude_of(input.drop_last());
        let value = text::digits_value(digits);
        match unit_seconds(input.last()) {
            Some(unit) => if text::all_digits(digits) && 0 < value && value * unit <= i64::MAX {
                Some(value * unit)
            } else {
                None
            },
            None => None,
        }
    }
}

/// Reads a duration.
pub fn parse_duration(input: &str) -> (r: Option<i64>)
    ensures
        match r {
            Some(seconds) => duration_of(input@) == Some(seconds as int),
            None => duration_of(input@) is None,
        },
{
    let mut chars = text::chars_of(input);
    if chars.len() < 2 {
        return None;
    }
    let unit: u64 = match chars[chars.len() - 1] {
        's' => 1,
        'm' => 60,
        'h' => 3_600,
        'd' => 86_400,
        _ => return None,
    };
    let _unit = chars.pop();
    proof {
        assert(chars@ =~= input@.drop_last());
    }
    if chars[0] == '+' {
        let _sign = chars.remove(0);
        proof {
            assert(chars@ =~= input@.drop_last().skip(1));
        }
    }
    assert(chars@ == magnitude_of(input@.drop_last()));
    let value: u64 = match text::parse_digits(chars.as_slice()) {
        Some(value) => value,
        None => {
            proof {
                let value = text::digits_value(chars@);
                assert(value > u64::MAX ==> value * unit > i64::MAX) by (nonlinear_arith)
                    requires
                        unit >= 1,
                ;
            }
            return None;
        },
    };
    if value == 0 {
        return None;
    }
    match value.checked_mul(unit) {
        Some(seconds) => if seconds <= i64::MAX as u64 {
            Some(seconds as i64)
        } else {
            None
        },
        None => None,
    }
}

/// The time that lies a duration before now, where the duration is one and the time can be
/// held.
pub open spec fn since_of(input: Seq<char>, now: Timestamp) -> Option<Timestamp> {
    match duration_of(input) {
        Some(seconds) => if now.unix_seconds - seconds >= i64::MIN {
            Some(Timestamp { unix_seconds: (now.unix_seconds - seconds) as i64, ..now })
        } else {
            None
        },
        None => None,
    }
}

/// The time that lies a duration after now, where the duration is one and the time can be
/// held.
pub open spec fn until_of(input: Seq<char>, now: Timestamp) -> Option<Timestamp> {
    match duration_of(input) {
        Some(seconds) => if now.unix_seconds + seconds <= i64::MAX {
            Some(Timestamp { unix_seconds: (now.unix_seconds + seconds) as i64, ..now })
        } else {
            None
        },
        None => None,
    }
}

/// The time that lies a duration before now.
pub fn parse_since(input: &str, now: Timestamp) -> (r: Result<Timestamp, CliError>)
    ensures
        match r {
            Ok(since) => duration_of(input@) is Some && since == (Timestamp {
                unix_seconds: (now.unix_seconds - duration_of(input@)->0) as i64,
                ..now
            }) && now.unix_seconds - duration_of(input@)->0 >= i64::MIN,
            Err(error) => error is InvalidDuration && error->InvalidDuration_0@ == input@ && (
            duration_of(input@) is None || now.unix_seconds - duration_of(input@)->0 < i64::MIN),
        },
        r is Ok <==> since_of(input@, now) is Some,
        r is Ok ==> Some(r->Ok_0) == since_of(input@, now),
{
    let seconds: i64 = match parse_duration(input) {
        Some(seconds) => seconds,
        None => return Err(CliError::InvalidDuration(input.to_owned())),
    };
    match now.plus_seconds(-seconds) {
        Some(since) => Ok(since),
        None => Err(CliError::InvalidDuration(input.to_owned())),
    }
}

/// The time until which a suggestion is put off.
pub fn snooze_until(input: &str, now: Timestamp) -> (r: Result<Timestamp, StorageError>)
    ensures
        match r {
            Ok(until) => duration_of(input@) is Some && until == (Timestamp {
                unix_seconds: (now.unix_seconds + duration_of(input@)->0) as i64,
                ..now
            }) && now.unix_seconds + duration_of(input@)->0 <= i64::MAX,
            Err(error) => error == StorageError::InvalidSnoozeDuration && (duration_of(input@)
                is None || now.unix_seconds + duration_of(input@)->0 > i64::MAX),
        },
        r is Ok <==> until_of(input@, now) is Some,
        r is Ok ==> Some(r->Ok_0) == until_of(input@, now),
{
    let seconds: i64 = match parse_duration(input) {
        Some(seconds) => seconds,
        None => return Err(StorageError::InvalidSnoozeDuration),
    };
    match now.plus_seconds(seconds) {
        Some(until) => Ok(until),
        None => Err(StorageError::InvalidSnoozeDuration),
    }
}

/// The sensitivity that a word names.
pub open spec fn sensitivity_named(word: Seq<char>) -> Option<Sensitivity> {
    if word == "normal"@ {
        Some(Sensitivity::Normal)
    } else if word == "sensitive"@ {
        Some(Sensitivity::Sensitive)
    } else {
        None
    }
}

pub fn parse_sensitivity(word: &str) -> (r: Result<Sensitivity, CliError>)
    ensures
        r == (match sensitivity_named(word@) {
            Some(sensitivity) => Ok(sensitivity),
            None => Err(CliError::UnexpectedResponse),
        }),
{
    if text::same(word, "normal") {
        Ok(Sensitivity::Normal)
    } else if text::same(word, "sensitive") {
        Ok(Sensitivity::Sensitive)
    } else {
        Err(CliError::UnexpectedResponse)
    }
}

/// The observation source that a word names.
pub open spec fn source_named(word: Seq<char>) -> Option<ObservationSource> {
    if word == "browser.chromium"@ {
        Some(ObservationSource::BrowserChromium)
    } else if word == "vscode.workspace"@ {
        Some(ObservationSource::VscodeWorkspace)
    } else {
        None
    }
}

pub fn parse_source(word: &str) -> (r: Result<ObservationSource, CliError>)
    ensures
        r == (match source_named(word@) {
            Some(source) => Ok(source),
            None => Err(CliError::UnexpectedResponse),
        }),
{
    if text::same(word, "browser.chromium") {
        Ok(ObservationSource::BrowserChromium)
    } else if text::same(word, "vscode.workspace") {
        Ok(ObservationSource::VscodeWorkspace)
    } else {
        Err(CliError::UnexpectedResponse)
    }
}

/// An identifier that the browser gives an extension: 32 letters from a to p.
pub open spec fn is_extension_id(id: Seq<char>) -> bool {
    id.len() == EXTENSION_ID_LENGTH && forall|i: int|
        0 <= i < id.len() ==> 'a' <= #[trigger] id[i] <= 'p'
}

/// Whether a text is an extension identifier.
pub fn extension_id(id: &str) -> (r: bool)
    ensures
        r == is_extension_id(id@),
{
    let chars = text::chars_of(id);
    if chars.len() != EXTENSION_ID_LENGTH {
        return false;
    }
    for i in 0..chars.len()
        invariant
            chars@ == id@,
            chars@.len() == EXTENSION_ID_LENGTH,
            forall|j: int| 0 <= j < i ==> 'a' <= #[trigger] id@[j] <= 'p',
    {
        if chars[i] < 'a' || chars[i] > 'p' {
            assert(!('a' <= id@[i as int] <= 'p'));
            return false;
        }
    }
    true
}

pub fn validate_extension_id(id: &str) -> (r: Result<(), CliError>)
    ensures
        r == (if is_extension_id(id@) {
            Ok(())
        } else {
            Err(CliError::UnexpectedResponse)
        }),
{
    if !extension_id(id) {
        return Err(CliError::UnexpectedResponse);
    }
    Ok(())
}

#[derive(Clone, Copy, Debug, PartialEq, Eq, Structural)]
pub enum Browser {
    Chrome,
    Chromium,
}

pub open spec fn browser_named(name: Seq<char>) -> Option<Browser> {
    if name == "chrome"@ {
        Some(Browser::Chrome)
    } else if name == "chromium"@ {
        Some(Browser::Chromium)
    } else {
        None
    }
}

pub fn parse_browser(name: &str) -> (r: Option<Browser>)
    ensures
        r == browser_named(name@),
{
    if text::same(name, "chrome") {
        Some(Browser::Chrome)
    } else if text::same(name, "chromium") {
        Some(Browser::Chromium)
    } else {
        None
    }
}

/// Where the host's settings and a browser's manifest lie.
#[derive(Clone, Debug, PartialEq, Eq)]
pub struct HostPaths {
    pub config: String,
    pub manifest: String,
}

pub open spec fn manifest_directory(browser: Browser) -> Seq<char> {
    match browser {
        Browser::Chrome => "google-chrome/NativeMessagingHosts"@,
        Browser::Chromium => "chromium/NativeMessagingHosts"@,
    }
}

pub open spec fn are_host_paths(host: HostPaths, config_home: Seq<char>, browser: Browser) -> bool {
    &&& host.config@ == paths::joined(config_home, "fubun/browser-native-host.json"@)
    &&& host.manifest@ == paths::joined(
        paths::joined(config_home, manifest_directory(browser)),
        "dev.fubun.browser.json"@,
    )
}

/// The directory of settings: the one that the environment names, or else the one below
/// the home directory.
pub open spec fn config_home_of(config_home: Option<&str>, home: Option<&str>) -> Option<Seq<char>> {
    match (config_home, home) {
        (Some(config_home), _) => Some(config_home@),
        (None, Some(home)) => Some(paths::joined(home@, ".config"@)),
        (None, None) => None,
    }
}

/// The paths of the host's files for a browser.
pub fn native_host_paths(config_home: Option<&str>, home: Option<&str>, browser: &str) -> (r: Result<
    HostPaths,
    CliError,
>)
    ensures
        match (config_home_of(config_home, home), browser_named(browser@)) {
            (Some(base), Some(browser)) => r is Ok && are_host_paths(r->Ok_0, base, browser),
            _ => r == Err::<HostPaths, CliError>(CliError::UnexpectedResponse),
        },
{
    let base: String = match config_home {
        Some(config_home) => config_home.to_owned(),
        None => match home {
            Some(home) => paths::join(home, ".config"),
            None => return Err(CliError::UnexpectedResponse),
        },
    };
    let directory: String = match parse_browser(browser) {
        Some(Browser::Chrome) => paths::join(base.as_str(), "google-chrome/NativeMessagingHosts"),
        Some(Browser::Chromium) => paths::join(base.as_str(), "chromium/NativeMessagingHosts"),
        None => return Err(CliError::UnexpectedResponse),
    };
    Ok(
        HostPaths {
            config: paths::join(base.as_str(), "fubun/browser-native-host.json"),
            manifest: paths::join(directory.as_str(), "dev.fubun.browser.json"),
        },
    )
}

/// A mode that lets somebody execute a file.
pub open spec fn is_executable_mode(mode: u32) -> bool {
    mode & 0o111 != 0
}

/// Whether a file may be installed as the host: an executable file.
pub fn installable_host(is_absolute: bool, is_file: bool, mode: u32) -> (r: Result<(), CliError>)
    ensures
        r == (if is_absolute && is_file && mode & 0o111 != 0 {
            Ok(())
        } else {
            Err(CliError::UnexpectedResponse)
        }),
        r is Ok <==> is_absolute && is_file && is_executable_mode(mode),
{
    if !is_absolute || !is_file || mode & 0o111 == 0 {
        return Err(CliError::UnexpectedResponse);
    }
    Ok(())
}

/// Whether one text sorts before another, or is the same.
pub open spec fn sorts_first(a: Seq<char>, b: Seq<char>) -> bool {
    a == b || order::lex_before(order::code_points(a), order::code_points(b))
}

pub open spec fn is_sorted(ids: Seq<String>) -> bool {
    forall|i: int, j: int|
        0 <= i < j < ids.len() ==> sorts_first((#[trigger] ids[i])@, (#[trigger] ids[j])@)
}

pub open spec fn texts(ids: Seq<String>) -> Seq<Seq<char>> {
    ids.map_values(|id: String| id@)
}

/// The items of a list that are strings, in their order.
pub open spec fn strings_among(items: Seq<Option<Seq<char>>>) -> Seq<Seq<char>>
    decreases items.len(),
{
    if items.len() == 0 {
        Seq::empty()
    } else {
        let before = strings_among(items.drop_last());
        match items.last() {
            Some(id) => before.push(id),
            None => before,
        }
    }
}

/// The extensions that the host's settings list: the strings of the one list that counts,
/// none where there is no such list, and nothing where the settings cannot be read.
pub open spec fn listed_ids(config: Seq<char>) -> Option<Seq<Seq<char>>> {
    match json::members_of(config) {
        None => None,
        Some(None) => Some(Seq::empty()),
        Some(Some(members)) => match json::member_value(members, "allowed_extension_ids"@, 0) {
            None => Some(Seq::empty()),
            Some(value) => match json::strings_of(value) {
                Some(Some(items)) => Some(strings_among(items)),
                _ => Some(Seq::empty()),
            },
        },
    }
}

fn keep_strings(items: Vec<Option<String>>) -> (ids: Vec<String>)
    ensures
        texts(ids@) == strings_among(json::items_view(items@)),
{
    let ghost all = json::items_view(items@);
    let mut ids: Vec<String> = Vec::new();
    proof {
        assert(texts(ids@) =~= strings_among(all.take(0)));
    }
    for i in 0..items.len()
        invariant
            all == json::items_view(items@),
            texts(ids@) == strings_among(all.take(i as int)),
    {
        proof {
            assert(all.take(i + 1).drop_last() =~= all.take(i as int));
            assert(all.take(i + 1).last() == all[i as int]);
        }
        let ghost before = ids@;
        if let Some(id) = &items[i] {
            ids.push(id.clone());
            proof {
                assert(texts(ids@) =~= texts(before).push(id@));
            }
        }
    }
    proof {
        assert(all.take(all.len() as int) =~= all);
    }
    ids
}

/// Reads the extensions that the host's settings list.
pub fn allowed_extension_ids(config: &str) -> (r: Result<Vec<String>, StorageError>)
    ensures
        match listed_ids(config@) {
            None => r == Err::<Vec<String>, StorageError>(StorageError::Json),
            Some(ids) => r is Ok && texts(r->Ok_0@) == ids,
        },
{
    let none: Vec<String> = Vec::new();
    proof {
        assert(texts(none@) =~= Seq::<Seq<char>>::empty());
    }
    let members = match json::members(config) {
        Ok(Some(members)) => members,
        Ok(None) => return Ok(none),
        Err(_) => return Err(StorageError::Json),
    };
    let value = match json::find_member(&members, "allowed_extension_ids") {
        Some(value) => value,
        None => return Ok(none),
    };
    match json::strings(value.as_str()) {
        Ok(Some(items)) => Ok(keep_strings(items)),
        Ok(None) => Ok(none),
        Err(_) => Err(StorageError::Json),
    }
}

pub open spec fn among(ids: Seq<String>, id: Seq<char>) -> bool {
    exists|i: int| 0 <= i < ids.len() && (#[trigger] ids[i])@ == id
}

/// The extensions that are allowed after one was added: the ones before and the new one,
/// which stands in the list once even if it is added again, in sorted order.
pub fn allow_extension(known: Vec<String>, id: &str) -> (ids: Vec<String>)
    ensures
        is_sorted(ids@),
        if among(known@, id@) {
            texts(ids@).to_multiset() == texts(known@).to_multiset()
        } else {
            texts(ids@).to_multiset() == texts(known@).push(id@).to_multiset()
        },
{
    let mut present: bool = false;
    for i in 0..known.len()
        invariant
            present <==> exists|j: int| 0 <= j < i && (#[trigger] known@[j])@ == id@,
    {
        if text::same(known[i].as_str(), id) {
            assert(known@[i as int]@ == id@);
            present = true;
        }
    }
    let mut all = known;
    if !present {
        all.push(id.to_owned());
        proof {
            assert(texts(all@) =~= texts(known@).push(id@));
        }
    }
    sorted(all)
}

/// Puts texts into order.
fn sorted(unsorted: Vec<String>) -> (ids: Vec<String>)
    ensures
        is_sorted(ids@),
        texts(ids@).to_multiset() == texts(unsorted@).to_multiset(),
{
    let mut rest = unsorted;
    let mut ids: Vec<String> = Vec::new();
    let ghost all = texts(unsorted@).to_multiset();
    proof {
        assert(texts(ids@) =~= Seq::<Seq<char>>::empty());
        texts(ids@).to_multiset_ensures();
        assert(texts(ids@).to_multiset() =~= vstd::multiset::Multiset::empty());
        assert(texts(ids@).to_multiset().add(texts(rest@).to_multiset()) =~= all);
    }
    while rest.len() > 0
        invariant
            is_sorted(ids@),
            texts(ids@).to_multiset().add(texts(rest@).to_multiset()) == all,
        decreases rest@.len(),
    {
        let ghost rest_before = rest@;
        let ghost ids_before = ids@;
        let item = rest.remove(0);
        let ghost added = item;
        let mut at: usize = 0;
        while at < ids.len() && !order::text_before(item.as_str(), ids[at].as_str())
            invariant
                at <= ids@.len(),
                ids@ == ids_before,
                forall|j: int|
                    0 <= j < at ==> !order::lex_before(
                        order::code_points(item@),
                        order::code_points((#[trigger] ids@[j])@),
                    ),
            decreases ids@.len() - at,
        {
            at = at + 1;
        }
        proof {
            assert forall|j: int| 0 <= j < at implies sorts_first(
                (#[trigger] ids_before[j])@,
                added@,
            ) by {
                order::lex_total(
                    order::code_points(ids_before[j]@),
                    order::code_points(added@),
                );
                order::code_points_injective(ids_before[j]@, added@);
            }
            assert forall|j: int| at <= j < ids_before.len() implies sorts_first(
                added@,
                (#[trigger] ids_before[j])@,
            ) by {
                if j > at {
                    assert(sorts_first(ids_before[at as int]@, ids_before[j]@));
                    if ids_before[at as int]@ != ids_before[j]@ {
                        order::lex_transitive(
                            order::code_points(added@),
                            order::code_points(ids_before[at as int]@),
                            order::code_points(ids_before[j]@),
                        );
                    }
                }
            }
        }
        ids.insert(at, item);
        proof {
            let waiting = texts(rest_before);
            assert(texts(ids@) =~= texts(ids_before).insert(at as int, added@));
            assert(texts(rest@) =~= waiting.remove(0));
            vstd::seq_lib::to_multiset_insert(texts(ids_before), at as int, added@);
            vstd::seq_lib::to_multiset_remove(waiting, 0);
            assert(waiting[0] == added@);
            assert(waiting.contains(added@));
            waiting.to_multiset_ensures();
            assert(texts(ids@).to_multiset().add(texts(rest@).to_multiset()) =~= all);
            assert forall|i: int, j: int| 0 <= i < j < ids@.len() implies sorts_first(
                (#[trigger] ids@[i])@,
                (#[trigger] ids@[j])@,
            ) by {
                let x = if i < at { i } else { i - 1 };
                let y = if j < at { j } else { j - 1 };
                if i != at {
                    assert(ids@[i] == ids_before[x]);
                }
                if j != at {
                    assert(ids@[j] == ids_before[y]);
                }
            }
        }
    }
    proof {
        assert(texts(rest@) =~= Seq::<Seq<char>>::empty());
        texts(rest@).to_multiset_ensures();
        assert(texts(rest@).to_multiset() =~= vstd::multiset::Multiset::empty());
        assert(texts(ids@).to_multiset().add(texts(rest@).to_multiset()) =~= texts(
            ids@,
        ).to_multiset());
    }
    ids
}

/// The browser that is not this one.
pub fn other_browser(browser: Browser) -> (other: Browser)
    ensures
        other != browser,
{
    match browser {
        Browser::Chrome => Browser::Chromium,
        Browser::Chromium => Browser::Chrome,
    }
}

/// Whether the host's settings go when a browser's manifest goes: only with the last one.
pub fn removes_config(config_exists: bool, other_manifest_exists: bool) -> (r: bool)
    ensures
        r == (config_exists && !other_manifest_exists),
{
    config_exists && !other_manifest_exists
}

/// The one origin that may call the host for an extension.
pub open spec fn origin_of(id: Seq<char>) -> Seq<char> {
    "chrome-extension://"@ + id + "/"@
}

pub fn extension_origin(id: &str) -> (origin: String)
    ensures
        origin@ == origin_of(id@),
{
    let mut origin: String = "chrome-extension://".to_owned();
    origin.append(id);
    origin.append("/");
    origin
}

} // verus!
