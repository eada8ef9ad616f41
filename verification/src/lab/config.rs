//! The lab's command line and time limits.

use crate::text::{chars_of, parse_digits, spells};
#[allow(unused_imports)]
use crate::text::{
    all_digits, decimal, digits_value, is_digit, law_decimal_denotes_its_number,
};
use vstd::prelude::*;

verus! {

/// What the lab is asked to do.
#[derive(Clone, Copy, Debug, PartialEq, Eq, Structural)]
pub enum Mode {
    Test,
    EngineCrash,
    UblkFio,
    Ext4,
    Ext4Preflight,
    Ext4Populate,
    Ext4Verify,
}

/// A length of time.
#[derive(Clone, Copy, Debug, PartialEq, Eq, Structural)]
pub struct Span {
    pub secs: u64,
    /// Below one billion.
    pub nanos: u32,
}

impl Span {
    /// Whether the nanoseconds make up less than a second.
    pub open spec fn wf(self) -> bool {
        self.nanos < 1_000_000_000
    }

    /// The length in nanoseconds.
    pub open spec fn total(self) -> int {
        1_000_000_000 * self.secs + self.nanos
    }

    pub fn from_secs(secs: u64) -> (span: Span)
        ensures
            span.wf(),
            span.total() == 1_000_000_000 * secs,
            span.secs == secs,
            span.nanos == 0,
    {
        Span { secs, nanos: 0 }
    }

    pub fn from_millis(millis: u64) -> (span: Span)
        ensures
            span.wf(),
            span.total() == 1_000_000 * millis,
    {
        Span { secs: millis / 1000, nanos: (millis % 1000) as u32 * 1_000_000 }
    }

    /// Whether this is longer than `other`.
    pub fn longer_than(&self, other: &Span) -> (longer: bool)
        requires
            self.wf(),
            other.wf(),
        ensures
            longer == (self.total() > other.total()),
    {
        self.secs > other.secs || (self.secs == other.secs && self.nanos > other.nanos)
    }
}

/// What the lab runs and how long it may take.
#[derive(Clone, Copy, Debug, PartialEq, Eq, Structural)]
pub struct Config {
    pub mode: Mode,
    pub slow: Span,
    pub per_test: Span,
    pub suite: Span,
}

/// The values of the environment variables that set the limits.
#[derive(Debug, Default)]
pub struct EnvValues {
    /// `TEST_SLOW_SECONDS`
    pub slow: Option<String>,
    /// `TEST_PER_TEST_SECONDS`
    pub per_test: Option<String>,
    /// `TEST_SUITE_SECONDS`
    pub suite: Option<String>,
}

pub const SLOW_ENV: &'static str = "TEST_SLOW_SECONDS";

pub const PER_TEST_ENV: &'static str = "TEST_PER_TEST_SECONDS";

pub const SUITE_ENV: &'static str = "TEST_SUITE_SECONDS";

/// The mode that a subcommand names.
pub open spec fn mode_of(subcommand: Seq<char>) -> Option<Mode> {
    if subcommand == "test"@ {
        Some(Mode::Test)
    } else if subcommand == "engine-crash"@ {
        Some(Mode::EngineCrash)
    } else if subcommand == "ublk-fio"@ {
        Some(Mode::UblkFio)
    } else if subcommand == "ext4"@ {
        Some(Mode::Ext4)
    } else if subcommand == "ext4-preflight"@ {
        Some(Mode::Ext4Preflight)
    } else if subcommand == "ext4-populate"@ {
        Some(Mode::Ext4Populate)
    } else if subcommand == "ext4-verify"@ {
        Some(Mode::Ext4Verify)
    } else {
        None
    }
}

/// How the lab is used.
pub open spec fn usage_text(program: Seq<char>) -> Seq<char> {
    "usage: "@ + program + " test | engine-crash | ublk-fio | ext4 | ext4-preflight"@
}

/// The name under which the lab was called.
pub open spec fn program_of(args: Seq<String>) -> Seq<char> {
    if args.len() == 0 {
        "block-storage-lab"@
    } else {
        args[0]@
    }
}

fn usage(program: &str) -> (text: String)
    ensures
        text@ == usage_text(program@),
{
    let mut text = String::from_str("usage: ");
    text.append(program);
    text.append(" test | engine-crash | ublk-fio | ext4 | ext4-preflight");
    text
}

/// The mode that the command line asks for: the program's name and exactly one subcommand.
pub fn parse_args(args: &Vec<String>) -> (result: Result<Mode, String>)
    ensures
        match result {
            Ok(mode) => args@.len() == 2 && mode_of(args@[1]@) == Some(mode),
            Err(text) => {
                &&& args@.len() != 2 || mode_of(args@[1]@) is None
                &&& text@ == usage_text(program_of(args@))
            },
        },
{
    if args.len() == 0 {
        return Err(usage("block-storage-lab"));
    }
    if args.len() != 2 {
        return Err(usage(args[0].as_str()));
    }
    let subcommand = chars_of(args[1].as_str());
    let name = subcommand.as_slice();
    if spells(name, "test") {
        Ok(Mode::Test)
    } else if spells(name, "engine-crash") {
        Ok(Mode::EngineCrash)
    } else if spells(name, "ublk-fio") {
        Ok(Mode::UblkFio)
    } else if spells(name, "ext4") {
        Ok(Mode::Ext4)
    } else if spells(name, "ext4-preflight") {
        Ok(Mode::Ext4Preflight)
    } else if spells(name, "ext4-populate") {
        Ok(Mode::Ext4Populate)
    } else if spells(name, "ext4-verify") {
        Ok(Mode::Ext4Verify)
    } else {
        Err(usage(args[0].as_str()))
    }
}

/// The seconds that a test may take unless the environment says otherwise.
pub open spec fn default_per_test(mode: Mode) -> u64 {
    match mode {
        Mode::Test => 15,
        Mode::EngineCrash => 1800,
        Mode::UblkFio => 30,
        Mode::Ext4 | Mode::Ext4Preflight | Mode::Ext4Populate | Mode::Ext4Verify => 60,
    }
}

/// The seconds that the suite may take unless the environment says otherwise.
pub open spec fn default_suite(mode: Mode) -> u64 {
    match mode {
        Mode::Test => 55,
        Mode::EngineCrash => 3600,
        Mode::UblkFio => 180,
        Mode::Ext4 | Mode::Ext4Preflight | Mode::Ext4Populate | Mode::Ext4Verify => 600,
    }
}

/// What is wrong with the value of an environment variable.
pub open spec fn invalid_env_text(name: Seq<char>, value: Seq<char>, allow_zero: bool) -> Seq<
    char,
> {
    "invalid "@ + name + ": "@ + value + " (expected "@ + (if allow_zero {
        "non-negative"@
    } else {
        "positive"@
    }) + " integer)"@
}

/// Whether `value` is a number of seconds.
pub open spec fn is_seconds(value: Seq<char>, allow_zero: bool) -> bool {
    &&& value.len() > 0
    &&& all_digits(value)
    &&& digits_value(value) <= u64::MAX
    &&& allow_zero || digits_value(value) > 0
}

/// Whether a setting stands for `secs` seconds: the default where it is not set, and otherwise
/// a number of seconds that can be added to the present.
pub open spec fn setting_gives<A: Fn(u64) -> bool>(
    value: Option<String>,
    default: u64,
    allow_zero: bool,
    addable: A,
    secs: u64,
) -> bool {
    match value {
        None => secs == default,
        Some(text) => {
            &&& is_seconds(text@, allow_zero)
            &&& secs == digits_value(text@)
            &&& call_ensures(addable, (secs,), true)
        },
    }
}

/// Whether a setting is refused with `message`.
pub open spec fn setting_refused<A: Fn(u64) -> bool>(
    name: Seq<char>,
    value: Option<String>,
    allow_zero: bool,
    addable: A,
    message: Seq<char>,
) -> bool {
    match value {
        None => false,
        Some(text) => {
            &&& message == invalid_env_text(name, text@, allow_zero)
            &&& is_seconds(text@, allow_zero) ==> call_ensures(
                addable,
                (digits_value(text@) as u64,),
                false,
            )
        },
    }
}

fn invalid_env(name: &str, value: &str, allow_zero: bool) -> (text: String)
    ensures
        text@ == invalid_env_text(name@, value@, allow_zero),
{
    let mut text = String::from_str("invalid ");
    text.append(name);
    text.append(": ");
    text.append(value);
    text.append(" (expected ");
    if allow_zero {
        text.append("non-negative");
    } else {
        text.append("positive");
    }
    text.append(" integer)");
    text
}

/// The seconds that a setting stands for.
fn seconds_from_env<A: Fn(u64) -> bool>(
    name: &str,
    value: &Option<String>,
    default: u64,
    allow_zero: bool,
    addable: &A,
) -> (result: Result<u64, String>)
    requires
        forall|secs: u64| call_requires(*addable, (secs,)),
    ensures
        match result {
            Ok(secs) => setting_gives(*value, default, allow_zero, *addable, secs),
            Err(message) => setting_refused(name@, *value, allow_zero, *addable, message@),
        },
{
    let raw = match value {
        None => {
            return Ok(default);
        },
        Some(raw) => raw,
    };
    let text = chars_of(raw.as_str());
    let secs: u64 = match parse_digits(text.as_slice(), u64::MAX) {
        Some(secs) => secs,
        None => {
            return Err(invalid_env(name, raw.as_str(), allow_zero));
        },
    };
    if secs == 0 && !allow_zero {
        return Err(invalid_env(name, raw.as_str(), allow_zero));
    }
    if !addable(secs) {
        return Err(invalid_env(name, raw.as_str(), allow_zero));
    }
    Ok(secs)
}

/// The limits for `mode`. `addable` says whether so many seconds can be added to the present.
pub fn from_env<A: Fn(u64) -> bool>(mode: Mode, values: &EnvValues, addable: A) -> (result: Result<
    Config,
    String,
>)
    requires
        forall|secs: u64| call_requires(addable, (secs,)),
    ensures
        match result {
            Ok(config) => {
                &&& config.mode == mode
                &&& config.slow.nanos == 0 && config.per_test.nanos == 0 && config.suite.nanos == 0
                &&& setting_gives(values.slow, 1, true, addable, config.slow.secs)
                &&& setting_gives(
                    values.per_test,
                    default_per_test(mode),
                    false,
                    addable,
                    config.per_test.secs,
                )
                &&& setting_gives(
                    values.suite,
                    default_suite(mode),
                    false,
                    addable,
                    config.suite.secs,
                )
            },
            Err(message) => {
                ||| setting_refused(SLOW_ENV@, values.slow, true, addable, message@)
                ||| {
                    &&& exists|secs: u64| setting_gives(values.slow, 1, true, addable, secs)
                    &&& setting_refused(PER_TEST_ENV@, values.per_test, false, addable, message@)
                }
                ||| {
                    &&& exists|secs: u64| setting_gives(values.slow, 1, true, addable, secs)
                    &&& exists|secs: u64|
                        setting_gives(
                            values.per_test,
                            default_per_test(mode),
                            false,
                            addable,
                            secs,
                        )
                    &&& setting_refused(SUITE_ENV@, values.suite, false, addable, message@)
                }
            },
        },
{
    let (per_test_secs, suite_secs): (u64, u64) = match mode {
        Mode::Test => (15, 55),
        Mode::EngineCrash => (1800, 3600),
        Mode::UblkFio => (30, 180),
        Mode::Ext4 | Mode::Ext4Preflight | Mode::Ext4Populate | Mode::Ext4Verify => (60, 600),
    };
    let slow: u64 = match seconds_from_env(SLOW_ENV, &values.slow, 1, true, &addable) {
        Ok(secs) => secs,
        Err(message) => {
            return Err(message);
        },
    };
    let per_test: u64 = match seconds_from_env(
        PER_TEST_ENV,
        &values.per_test,
        per_test_secs,
        false,
        &addable,
    ) {
        Ok(secs) => secs,
        Err(message) => {
            return Err(message);
        },
    };
    assert(setting_gives(values.slow, 1, true, addable, slow));
    assert(setting_gives(
        values.per_test,
        default_per_test(mode),
        false,
        addable,
        per_test,
    ));
    let suite: u64 = match seconds_from_env(SUITE_ENV, &values.suite, suite_secs, false, &addable) {
        Ok(secs) => secs,
        Err(message) => {
            return Err(message);
        },
    };
    Ok(
        Config {
            mode,
            slow: Span::from_secs(slow),
            per_test: Span::from_secs(per_test),
            suite: Span::from_secs(suite),
        },
    )
}

/// Law: each mode has one name, each name one mode, and nothing else names one.
pub proof fn law_modes_have_their_names(name: Seq<char>)
    ensures
        mode_of(name) == Some(Mode::Test) <==> name == "test"@,
        mode_of(name) == Some(Mode::EngineCrash) <==> name == "engine-crash"@,
        mode_of(name) == Some(Mode::UblkFio) <==> name == "ublk-fio"@,
        mode_of(name) == Some(Mode::Ext4) <==> name == "ext4"@,
        mode_of(name) == Some(Mode::Ext4Preflight) <==> name == "ext4-preflight"@,
        mode_of(name) == Some(Mode::Ext4Populate) <==> name == "ext4-populate"@,
        mode_of(name) == Some(Mode::Ext4Verify) <==> name == "ext4-verify"@,
{
    reveal_strlit("test");
    reveal_strlit("engine-crash");
    reveal_strlit("ublk-fio");
    reveal_strlit("ext4");
    reveal_strlit("ext4-preflight");
    reveal_strlit("ext4-populate");
    reveal_strlit("ext4-verify");
    assert("test"@[0] == 't' && "ext4"@[0] == 'e');
    assert("test"@.len() == 4 && "ext4"@.len() == 4 && "ublk-fio"@.len() == 8);
    assert("engine-crash"@.len() == 12 && "ext4-verify"@.len() == 11);
    assert("ext4-preflight"@.len() == 14 && "ext4-populate"@.len() == 13);
}

/// Law: how long a test and the whole may take where nothing else is set: a test never longer than
/// the whole, and everything that works on a file system as long.
pub proof fn law_default_limits(mode: Mode)
    ensures
        1 <= default_per_test(mode) < default_suite(mode),
        mode is Test ==> default_per_test(mode) == 15 && default_suite(mode) == 55,
        mode is EngineCrash ==> default_per_test(mode) == 30 * 60 && default_suite(mode) == 60 * 60,
        mode is UblkFio ==> default_per_test(mode) == 30 && default_suite(mode) == 3 * 60,
        mode is Ext4 || mode is Ext4Preflight || mode is Ext4Populate || mode is Ext4Verify
            ==> default_per_test(mode) == 60 && default_suite(mode) == 10 * 60,
{
}

/// Law: a setting is a number of seconds in decimal digits that fits, and zero only where that is
/// allowed.
pub proof fn law_settings_are_seconds(number: int, text: Seq<char>, allow_zero: bool)
    requires
        0 <= number,
    ensures
        is_seconds(decimal(number), allow_zero) <==> number <= 0xffff_ffff_ffff_ffff && (number > 0
            || allow_zero),
        is_seconds(text, allow_zero) ==> text.len() > 0 && forall|i: int|
            0 <= i < text.len() ==> '0' <= #[trigger] text[i] <= '9',
{
    law_decimal_denotes_its_number(number);
    if is_seconds(text, allow_zero) {
        assert forall|i: int| 0 <= i < text.len() implies '0' <= #[trigger] text[i] <= '9' by {
            assert(is_digit(text[i]));
        }
    }
}

/// Law: lengths of time are compared by the second and then by the nanosecond.
pub proof fn law_longer_spans(span: Span, other: Span)
    requires
        span.wf(),
        other.wf(),
    ensures
        span.total() > other.total() <==> span.secs > other.secs || (span.secs == other.secs
            && span.nanos > other.nanos),
        span.total() == other.total() <==> span == other,
{
}

/// Law: a setting that is a number of seconds is refused only if it cannot be added to the present,
/// and is otherwise taken as that number; one that is not set has its default.
pub proof fn law_settings_are_taken<A: Fn(u64) -> bool>(
    name: Seq<char>,
    text: String,
    default: u64,
    allow_zero: bool,
    addable: A,
    secs: u64,
    message: Seq<char>,
)
    ensures
        is_seconds(text@, allow_zero) && setting_refused(
            name,
            Some(text),
            allow_zero,
            addable,
            message,
        ) ==> call_ensures(addable, (digits_value(text@) as u64,), false),
        setting_gives(Some(text), default, allow_zero, addable, secs) ==> secs == digits_value(
            text@,
        ) && is_seconds(text@, allow_zero),
        setting_gives(None, default, allow_zero, addable, secs) <==> secs == default,
        !setting_refused(name, None, allow_zero, addable, message),
{
}

} // verus!
