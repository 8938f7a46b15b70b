//! Times, durations and paths.

use vstd::prelude::*;
use crate::cli;
use crate::clock;
use crate::clock::Timestamp;
use crate::paths;
use crate::paths::FubunPaths;
use crate::text;

verus! {

/// Between two times lie as many whole seconds and milliseconds as fit, and as many back.
pub proof fn differences_are_whole(later: Timestamp, earlier: Timestamp)
    requires
        later.instant() >= earlier.instant(),
    ensures
        ({
            let nanos = later.instant() - earlier.instant();
            let seconds = clock::seconds_from(later, earlier);
            let milliseconds = clock::milliseconds_from(later, earlier);
            &&& 1_000_000_000 * seconds <= nanos < 1_000_000_000 * (seconds + 1)
            &&& 1_000_000 * milliseconds <= nanos < 1_000_000 * (milliseconds + 1)
            &&& clock::seconds_from(earlier, later) == -seconds
            &&& clock::milliseconds_from(earlier, later) == -milliseconds
        }),
{
}

/// A time lies where its second and its nanosecond say, wherever its clock stands.
pub proof fn offsets_move_nothing(a: Timestamp, b: Timestamp)
    requires
        a.unix_seconds == b.unix_seconds,
        a.nanosecond == b.nanosecond,
    ensures
        a.instant() == b.instant(),
        a.instant() == 1_000_000_000 * a.unix_seconds + a.nanosecond,
{
}

/// A number and a unit say so many seconds, with or without a plus sign, as long as they
/// are some and can be held.
pub proof fn durations_are_read(n: nat, unit: char)
    requires
        unit == 's' || unit == 'm' || unit == 'h' || unit == 'd',
    ensures
        ({
            let seconds: int = n * (if unit == 's' {
                1int
            } else if unit == 'm' {
                60int
            } else if unit == 'h' {
                3_600int
            } else {
                86_400int
            });
            let said = if n > 0 && seconds <= 0x7fff_ffff_ffff_ffff {
                Some(seconds)
            } else {
                None
            };
            &&& cli::duration_of(text::decimal_of(n).push(unit)) == said
            &&& cli::duration_of((seq!['+'] + text::decimal_of(n)).push(unit)) == said
        }),
{
    let number = text::decimal_of(n);
    text::decimal_reads_back(n);
    assert(number.push(unit).drop_last() =~= number);
    let signed = seq!['+'] + number;
    assert(signed.push(unit).drop_last() =~= signed);
    assert(signed.skip(1) =~= number);
    assert(text::is_digit(number[0]));
    assert(cli::magnitude_of(number) == number);
    assert(cli::magnitude_of(signed) == number);
}

/// Nothing else is a duration: one has digits, behind at most one plus sign, and one of the
/// four units behind them.
pub proof fn only_numbers_with_units_are_durations(input: Seq<char>)
    requires
        cli::duration_of(input) is Some,
    ensures
        input.len() >= 2,
        input.last() == 's' || input.last() == 'm' || input.last() == 'h' || input.last() == 'd',
        forall|i: int| 1 <= i < input.len() - 1 ==> '0' <= #[trigger] input[i] <= '9',
        '0' <= input[0] <= '9' || input[0] == '+' && input.len() >= 3,
        cli::duration_of(input)->0 > 0,
        cli::duration_of(input)->0 <= 0x7fff_ffff_ffff_ffff,
{
    let number = input.drop_last();
    let digits = cli::magnitude_of(number);
    assert(text::all_digits(digits));
    assert forall|i: int| 1 <= i < input.len() - 1 implies '0' <= #[trigger] input[i] <= '9' by {
        assert(input[i] == number[i]);
        if number[0] == '+' {
            assert(digits[i - 1] == number[i]);
            assert(text::is_digit(digits[i - 1]));
        } else {
            assert(text::is_digit(digits[i]));
        }
    }
    assert(text::is_digit(digits[0]));
    let value = text::digits_value(digits);
    let unit = cli::unit_seconds(input.last())->0;
    assert(value * unit > 0) by (nonlinear_arith)
        requires
            value > 0,
            unit > 0,
    ;
}

/// A name is joined to a directory with exactly one slash between them.
pub proof fn names_are_joined_with_one_slash(base: Seq<char>, name: Seq<char>)
    requires
        base.len() > 0,
        base.last() != '/',
    ensures
        paths::joined(base, name) == base + seq!['/'] + name,
        paths::joined(base.push('/'), name) == base + seq!['/'] + name,
{
    assert(base.push('/') =~= base + seq!['/']);
}

/// The socket and the database lie below the two base directories, under fixed names.
pub proof fn files_lie_below_their_directories(
    found: FubunPaths,
    runtime_home: Seq<char>,
    data_home: Seq<char>,
)
    requires
        paths::are_below(found, runtime_home, data_home),
        runtime_home.len() > 0,
        data_home.len() > 0,
        runtime_home.last() != '/',
        data_home.last() != '/',
    ensures
        found.runtime_directory@ == runtime_home + "/fubun"@,
        found.socket_path@ == runtime_home + "/fubun/core.sock"@,
        found.data_directory@ == data_home + "/fubun"@,
        found.database_path@ == data_home + "/fubun/fubun.db"@,
{
    reveal_strlit("fubun");
    reveal_strlit("core.sock");
    reveal_strlit("fubun.db");
    reveal_strlit("/fubun");
    reveal_strlit("/fubun/core.sock");
    reveal_strlit("/fubun/fubun.db");
    assert(found.runtime_directory@ =~= runtime_home + "/fubun"@);
    assert(found.data_directory@ =~= data_home + "/fubun"@);
    assert(found.runtime_directory@.last() == 'n');
    assert(found.data_directory@.last() == 'n');
    assert("/fubun/core.sock"@ =~= "/fubun"@ + seq!['/'] + "core.sock"@);
    assert("/fubun/fubun.db"@ =~= "/fubun"@ + seq!['/'] + "fubun.db"@);
    assert(found.socket_path@ =~= runtime_home + "/fubun/core.sock"@);
    assert(found.database_path@ =~= data_home + "/fubun/fubun.db"@);
}

/// Numbers are read and written in tens: a digit behind a number makes it ten times as much
/// and as much more as the digit says, and no number but zero begins with a zero.
pub proof fn numbers_are_decimal(digits: Seq<char>, digit: char, n: nat)
    requires
        '0' <= digit <= '9',
    ensures
        text::digits_value(Seq::empty()) == 0,
        text::digits_value(digits.push(digit)) == 10 * text::digits_value(digits) + (digit as int
            - 48),
        text::decimal_of(n).len() > 0,
        n > 0 ==> text::decimal_of(n)[0] != '0',
        n < 10 ==> text::decimal_of(n).len() == 1,
        text::signed_decimal_of(n as int) == text::decimal_of(n),
        n > 0 ==> text::signed_decimal_of(-(n as int)) == seq!['-'] + text::decimal_of(n),
{
    assert(digits.push(digit).drop_last() =~= digits);
    no_leading_zero(n);
}

proof fn no_leading_zero(n: nat)
    ensures
        text::decimal_of(n).len() > 0,
        n > 0 ==> text::decimal_of(n)[0] != '0',
    decreases n,
{
    if n >= 10 {
        no_leading_zero(n / 10);
        assert(text::decimal_of(n)[0] == text::decimal_of(n / 10)[0]);
    } else {
        assert(text::decimal_of(n)[0] as int == 48 + n);
    }
}

/// A duration before now lies just so many seconds back, and one after now so many ahead.
pub proof fn durations_reach_back_and_ahead(input: Seq<char>, now: Timestamp)
    ensures
        cli::duration_of(input) is None ==> cli::since_of(input, now) is None && cli::until_of(
            input,
            now,
        ) is None,
        cli::since_of(input, now) matches Some(since) ==> now.instant() - since.instant()
            == 1_000_000_000 * cli::duration_of(input)->0,
        cli::until_of(input, now) matches Some(until) ==> until.instant() - now.instant()
            == 1_000_000_000 * cli::duration_of(input)->0,
        cli::duration_of(input) is Some && -0x7fff_ffff_ffff_ffff <= now.unix_seconds
            - cli::duration_of(input)->0 ==> cli::since_of(input, now) is Some,
        cli::duration_of(input) is Some && now.unix_seconds + cli::duration_of(input)->0
            <= 0x7fff_ffff_ffff_ffff ==> cli::until_of(input, now) is Some,
{
    if cli::duration_of(input) is Some {
        only_numbers_with_units_are_durations(input);
    }
}

} // verus!
