//! What the command line reads, and where it puts files.

use vstd::prelude::*;
use crate::cli;
use crate::cli::{Browser, HostPaths};
use crate::digest;
use crate::json;
use crate::linux;
use crate::order;
use crate::resource::{ObservationSource, Sensitivity};
use crate::storage::migration;

verus! {

/// The words of the command line, and no others, name what they stand for.
pub proof fn words_name_what_they_stand_for(word: Seq<char>)
    ensures
        cli::sensitivity_named(word) == Some(Sensitivity::Normal) <==> word == "normal"@,
        cli::sensitivity_named(word) == Some(Sensitivity::Sensitive) <==> word == "sensitive"@,
        cli::source_named(word) == Some(ObservationSource::BrowserChromium) <==> word
            == "browser.chromium"@,
        cli::source_named(word) == Some(ObservationSource::VscodeWorkspace) <==> word
            == "vscode.workspace"@,
        cli::browser_named(word) == Some(Browser::Chrome) <==> word == "chrome"@,
        cli::browser_named(word) == Some(Browser::Chromium) <==> word == "chromium"@,
{
    reveal_strlit("normal");
    reveal_strlit("sensitive");
    reveal_strlit("browser.chromium");
    reveal_strlit("vscode.workspace");
    reveal_strlit("chrome");
    reveal_strlit("chromium");
    assert("normal"@.len() == 6 && "sensitive"@.len() == 9);
    assert("browser.chromium"@[0] == 'b' && "vscode.workspace"@[0] == 'v');
    assert("chrome"@.len() == 6 && "chromium"@.len() == 8);
}

/// The files of the browser host lie below the directory of settings, the manifest where its
/// browser looks for it.
pub proof fn host_files_lie_below_the_settings(
    host: HostPaths,
    config_home: Seq<char>,
    browser: Browser,
)
    requires
        cli::are_host_paths(host, config_home, browser),
        config_home.len() > 0,
        config_home.last() != '/',
    ensures
        host.config@ == config_home + "/fubun/browser-native-host.json"@,
        browser == Browser::Chrome ==> host.manifest@ == config_home
            + "/google-chrome/NativeMessagingHosts/dev.fubun.browser.json"@,
        browser == Browser::Chromium ==> host.manifest@ == config_home
            + "/chromium/NativeMessagingHosts/dev.fubun.browser.json"@,
{
    reveal_strlit("fubun/browser-native-host.json");
    reveal_strlit("/fubun/browser-native-host.json");
    reveal_strlit("google-chrome/NativeMessagingHosts");
    reveal_strlit("chromium/NativeMessagingHosts");
    reveal_strlit("dev.fubun.browser.json");
    reveal_strlit("/google-chrome/NativeMessagingHosts/dev.fubun.browser.json");
    reveal_strlit("/chromium/NativeMessagingHosts/dev.fubun.browser.json");
    assert("/fubun/browser-native-host.json"@ =~= seq!['/'] + "fubun/browser-native-host.json"@);
    assert("/google-chrome/NativeMessagingHosts/dev.fubun.browser.json"@ =~= seq!['/']
        + "google-chrome/NativeMessagingHosts"@ + seq!['/'] + "dev.fubun.browser.json"@);
    assert("/chromium/NativeMessagingHosts/dev.fubun.browser.json"@ =~= seq!['/']
        + "chromium/NativeMessagingHosts"@ + seq!['/'] + "dev.fubun.browser.json"@);
    assert(host.config@ =~= config_home + "/fubun/browser-native-host.json"@);
    let directory = cli::manifest_directory(browser);
    assert(directory.last() == 's');
    let joined = config_home + seq!['/'] + directory;
    assert(joined.last() == 's');
    assert(host.manifest@ =~= joined + seq!['/'] + "dev.fubun.browser.json"@);
    if browser == Browser::Chrome {
        assert(host.manifest@ =~= config_home
            + "/google-chrome/NativeMessagingHosts/dev.fubun.browser.json"@);
    } else {
        assert(host.manifest@ =~= config_home
            + "/chromium/NativeMessagingHosts/dev.fubun.browser.json"@);
    }
}

/// The directory of settings that the environment names comes before the one of the home
/// directory, and there is none without either.
pub proof fn named_settings_come_first(config_home: Option<&str>, home: Option<&str>)
    ensures
        config_home is Some ==> cli::config_home_of(config_home, home) == Some(config_home->0@),
        config_home is None && home is Some ==> cli::config_home_of(config_home, home) == Some(
            crate::paths::joined(home->0@, ".config"@),
        ),
        config_home is None && home is None ==> cli::config_home_of(config_home, home) is None,
{
}

/// Of a list in the settings the strings count, in their order, whatever stands between
/// them.
pub proof fn strings_of_a_list_count(items: Seq<Option<Seq<char>>>)
    ensures
        cli::strings_among(items) == items.filter(|item: Option<Seq<char>>| item is Some).map_values(
            |item: Option<Seq<char>>| item->0,
        ),
    decreases items.len(),
{
    reveal(Seq::filter);
    let is_string = |item: Option<Seq<char>>| item is Some;
    let text = |item: Option<Seq<char>>| item->0;
    if items.len() > 0 {
        let rest = items.drop_last();
        strings_of_a_list_count(rest);
        if items.last() is Some {
            assert(rest.filter(is_string).push(items.last()).map_values(text) =~= rest.filter(
                is_string,
            ).map_values(text).push(items.last()->0));
        }
    } else {
        assert(items.filter(is_string).map_values(text) =~= Seq::<Seq<char>>::empty());
    }
}

/// The value of a small hexadecimal digit.
pub open spec fn digit_value(c: char) -> int {
    if '0' <= c <= '9' {
        c as int - 48
    } else {
        c as int - 87
    }
}

/// Bytes are written as two small hexadecimal digits each, the high half first.
pub proof fn bytes_are_written_in_hexadecimal(bytes: Seq<u8>, i: int)
    requires
        0 <= i < bytes.len(),
    ensures
        digest::hex_of(bytes).len() == 2 * bytes.len(),
        ({
            let high = digest::hex_of(bytes)[2 * i];
            let low = digest::hex_of(bytes)[2 * i + 1];
            &&& '0' <= high <= '9' || 'a' <= high <= 'f'
            &&& '0' <= low <= '9' || 'a' <= low <= 'f'
            &&& bytes[i] == 16 * digit_value(high) + digit_value(low)
        }),
{
    assert((2 * i) / 2 == i && (2 * i) % 2 == 0);
    assert((2 * i + 1) / 2 == i && (2 * i + 1) % 2 == 1);
}

/// The settings allow the strings of the list under its name, wherever in the settings that
/// stands, and none where there is no such list.
pub proof fn settings_allow_what_they_list(
    config: Seq<char>,
    members: Seq<(Seq<char>, Seq<char>)>,
    items: Seq<Option<Seq<char>>>,
    k: int,
)
    requires
        json::members_of(config) == Some(Some(members)),
    ensures
        (forall|i: int|
            0 <= i < members.len() ==> (#[trigger] members[i]).0 != "allowed_extension_ids"@)
            ==> cli::listed_ids(config) == Some(Seq::<Seq<char>>::empty()),
        0 <= k < members.len() && members[k].0 == "allowed_extension_ids"@ && (forall|i: int|
            0 <= i < k ==> (#[trigger] members[i]).0 != "allowed_extension_ids"@)
            && json::strings_of(members[k].1) == Some(Some(items)) ==> cli::listed_ids(config)
            == Some(cli::strings_among(items)),
{
    if forall|i: int|
        0 <= i < members.len() ==> (#[trigger] members[i]).0 != "allowed_extension_ids"@ {
        member_is_missing(members, "allowed_extension_ids"@, 0);
    }
    if 0 <= k < members.len() && members[k].0 == "allowed_extension_ids"@ && (forall|i: int|
        0 <= i < k ==> (#[trigger] members[i]).0 != "allowed_extension_ids"@) {
        first_member_is_found(members, "allowed_extension_ids"@, 0, k);
    }
}

proof fn member_is_missing(members: Seq<(Seq<char>, Seq<char>)>, key: Seq<char>, from: int)
    requires
        0 <= from <= members.len(),
        forall|i: int| from <= i < members.len() ==> (#[trigger] members[i]).0 != key,
    ensures
        json::member_value(members, key, from) is None,
    decreases members.len() - from,
{
    if from < members.len() {
        member_is_missing(members, key, from + 1);
    }
}

proof fn first_member_is_found(
    members: Seq<(Seq<char>, Seq<char>)>,
    key: Seq<char>,
    from: int,
    k: int,
)
    requires
        0 <= from <= k < members.len(),
        members[k].0 == key,
        forall|i: int| from <= i < k ==> (#[trigger] members[i]).0 != key,
    ensures
        json::member_value(members, key, from) == Some(members[k].1),
    decreases k - from,
{
    if from < k {
        first_member_is_found(members, key, from + 1, k);
    }
}

/// A stored synthetic event is in the old form exactly when both its data and the data in its
/// canonical JSON have a label and a counter and say no kind.
pub proof fn old_payloads_say_no_kind(
    data: Seq<char>,
    canonical: Seq<char>,
    members: Seq<(Seq<char>, Seq<char>)>,
    inner: Seq<(Seq<char>, Seq<char>)>,
)
    requires
        json::members_of(data) == Some(Some(members)),
        migration::canonical_data(canonical) is Some,
        json::members_of(migration::canonical_data(canonical)->0) == Some(Some(inner)),
    ensures
        migration::is_legacy(data, canonical) <==> {
            &&& json::has_member(members, "label"@) && json::has_member(members, "counter"@)
            &&& !json::has_member(members, "kind"@)
            &&& json::has_member(inner, "label"@) && json::has_member(inner, "counter"@)
            &&& !json::has_member(inner, "kind"@)
        },
{
}

/// A file is private exactly when its mode gives nothing to the group or to others, and
/// executable exactly when it lets the owner, the group or others execute it.
pub proof fn modes_give_rights(mode: u32)
    ensures
        crate::native_host::is_private_mode(mode) <==> mode % 64 == 0,
        cli::is_executable_mode(mode) <==> mode % 2 == 1 || (mode / 8) % 2 == 1 || (mode / 64) % 2
            == 1,
{
    assert(mode & 0o077 == 0 <==> mode % 64 == 0) by (bit_vector);
    assert(mode & 0o111 != 0 <==> mode % 2 == 1 || (mode / 8) % 2 == 1 || (mode / 64) % 2 == 1)
        by (bit_vector);
}

/// Texts in order stand by the first character in which they differ, and a text stands
/// before those that only go on from it. Where nothing may stand twice, nothing does.
pub proof fn lists_are_in_order(list: Seq<String>, i: int, j: int, k: int)
    requires
        0 <= i < j < list.len(),
        0 <= k <= list[i]@.len(),
        k <= list[j]@.len(),
        list[i]@.take(k) == list[j]@.take(k),
    ensures
        cli::is_sorted(list) && k < list[i]@.len() ==> k < list[j]@.len() && list[i]@[k]
            <= list[j]@[k],
        linux::is_strictly_sorted(list) && k < list[i]@.len() ==> k < list[j]@.len()
            && list[i]@[k] <= list[j]@[k],
        linux::is_strictly_sorted(list) ==> list[i]@ != list[j]@,
{
    let a = order::code_points(list[i]@);
    let b = order::code_points(list[j]@);
    assert(cli::is_sorted(list) ==> cli::sorts_first(list[i]@, list[j]@));
    assert(linux::is_strictly_sorted(list) ==> linux::sorts_before(list[i]@, list[j]@));
    order::lex_irreflexive(a);
    if list[i]@ != list[j]@ && k < a.len() && order::lex_before(a, b) {
        assert(a == a.take(k) + a.skip(k));
        assert(b == b.take(k) + b.skip(k));
        assert forall|n: int| 0 <= n < k implies a[n] == b[n] by {
            assert(list[i]@.take(k)[n] == list[i]@[n]);
            assert(list[j]@.take(k)[n] == list[j]@[n]);
        }
        assert(a.take(k) =~= b.take(k));
        order::lex_shared_prefix(a.take(k), a.skip(k), b.skip(k));
        assert(order::lex_before(a.skip(k), b.skip(k)));
        assert(b.skip(k).len() > 0);
        assert(a.skip(k)[0] == a[k] && b.skip(k)[0] == b[k]);
    }
}

} // verus!
