//! Settings taken from environment variables: each setting may be given
//! under several variable names, and the values found for those names (in
//! order, `None` where a variable is unset) decide it.

use vstd::prelude::*;
use vstd::string::StrSliceExecFns;
use crate::meter::MeterConfig;
use crate::text::{str_eq, trim, trim_chars};

verus! {

/// What `str::to_lowercase` makes of a string (full Unicode lowercase mapping).
pub uninterp spec fn unicode_lowercase(s: Seq<char>) -> Seq<char>;

/// `str::to_lowercase`; its result is named by `unicode_lowercase`.
#[verifier::external_body]
fn to_lowercase(s: &str) -> (lower: String)
    ensures
        lower@ == unicode_lowercase(s@),
{
    s.to_lowercase()
}

/// The switch value a lowercased text stands for: "true", "1", "yes", "on"
/// and "y" switch on, "false", "0", "no", "off" and "n" switch off, and
/// anything else leaves the default.
pub open spec fn switch_value(s: Seq<char>, default: bool) -> bool {
    if s == "true"@ || s == "1"@ || s == "yes"@ || s == "on"@ || s == "y"@ {
        true
    } else if s == "false"@ || s == "0"@ || s == "no"@ || s == "off"@ || s == "n"@ {
        false
    } else {
        default
    }
}

/// Reads a switch from an already trimmed and lowercased text.
pub fn parse_switch(lowered: &str, default: bool) -> (b: bool)
    ensures
        b == switch_value(lowered@, default),
{
    if str_eq(lowered, "true") || str_eq(lowered, "1") || str_eq(lowered, "yes") || str_eq(
        lowered,
        "on",
    ) || str_eq(lowered, "y") {
        true
    } else if str_eq(lowered, "false") || str_eq(lowered, "0") || str_eq(lowered, "no") || str_eq(
        lowered,
        "off",
    ) || str_eq(lowered, "n") {
        false
    } else {
        default
    }
}

/// A boolean setting: the first variable that is set decides it, by its
/// trimmed and lowercased value; with none set, the default.
pub open spec fn bool_setting(values: Seq<Option<String>>, default: bool) -> bool
    decreases values.len(),
{
    if values.len() == 0 {
        default
    } else {
        match values[0] {
            Some(v) => switch_value(unicode_lowercase(trim_chars(v@)), default),
            None => bool_setting(values.drop_first(), default),
        }
    }
}

/// The boolean setting given by `values` (see `bool_setting`).
pub fn parse_bool_env(values: &Vec<Option<String>>, default: bool) -> (b: bool)
    ensures
        b == bool_setting(values@, default),
{
    let mut i: usize = 0;
    assert(values@.subrange(0, values@.len() as int) =~= values@);
    while i < values.len()
        invariant
            i <= values@.len(),
            bool_setting(values@, default) == bool_setting(
                values@.subrange(i as int, values@.len() as int),
                default,
            ),
        decreases values@.len() - i,
    {
        let ghost rest = values@.subrange(i as int, values@.len() as int);
        assert(rest.drop_first() =~= values@.subrange(i + 1, values@.len() as int));
        match &values[i] {
            Some(v) => {
                let lowered = to_lowercase(trim(v.as_str()));
                return parse_switch(lowered.as_str(), default);
            },
            None => {},
        }
        i = i + 1;
    }
    default
}

pub open spec fn is_ascii_digit(c: char) -> bool {
    '0' <= c && c <= '9'
}

/// The number written by a string of decimal digits.
pub open spec fn decimal_value(s: Seq<char>) -> int
    decreases s.len(),
{
    if s.len() == 0 {
        0
    } else {
        decimal_value(s.drop_last()) * 10 + (s.last() as int - '0' as int)
    }
}

/// The digits of an unsigned number text: all of it, or what follows a
/// leading '+' when there is more than the sign.
pub open spec fn unsigned_digits(s: Seq<char>) -> Seq<char> {
    if s.len() > 1 && s[0] == '+' {
        s.drop_first()
    } else {
        s
    }
}

/// A digit string that does not make a number of at most `max`.
pub open spec fn digits_exceed(digits: Seq<char>, max: int) -> bool {
    !((forall|i: int| 0 <= i < digits.len() ==> is_ascii_digit(#[trigger] digits[i]))
        && decimal_value(digits) <= max)
}

/// What `str::parse` gives for an unsigned integer type whose largest value
/// is `max`: an optional '+' sign, then one or more decimal digits whose
/// value is at most `max`.
pub open spec fn parsed_unsigned(s: Seq<char>, max: int) -> Option<int> {
    if unsigned_digits(s).len() > 0 && !digits_exceed(unsigned_digits(s), max) {
        Some(decimal_value(unsigned_digits(s)))
    } else {
        None
    }
}

/// `u8::from_str`.
pub open spec fn parsed_u8(s: Seq<char>) -> Option<u8> {
    match parsed_unsigned(s, 255) {
        Some(v) => Some(v as u8),
        None => None,
    }
}

/// `u16::from_str`.
pub open spec fn parsed_u16(s: Seq<char>) -> Option<u16> {
    match parsed_unsigned(s, 65535) {
        Some(v) => Some(v as u16),
        None => None,
    }
}

proof fn lemma_decimal_value_grows(s: Seq<char>, k: int)
    requires
        0 <= k <= s.len(),
        forall|i: int| 0 <= i < s.len() ==> is_ascii_digit(#[trigger] s[i]),
    ensures
        0 <= decimal_value(s.subrange(0, k)) <= decimal_value(s),
    decreases s.len() - k,
{
    if k < s.len() {
        lemma_decimal_value_grows(s.drop_last(), k);
        assert(s.drop_last().subrange(0, k) =~= s.subrange(0, k));
        lemma_decimal_value_nonneg(s.drop_last());
    } else {
        assert(s.subrange(0, k) =~= s);
        lemma_decimal_value_nonneg(s);
    }
}

proof fn lemma_decimal_value_nonneg(s: Seq<char>)
    requires
        forall|i: int| 0 <= i < s.len() ==> is_ascii_digit(#[trigger] s[i]),
    ensures
        0 <= decimal_value(s),
    decreases s.len(),
{
    if s.len() > 0 {
        lemma_decimal_value_nonneg(s.drop_last());
    }
}

/// Once the digits read so far exceed `max`, so does the whole number (or a
/// later character is not a digit).
proof fn lemma_prefix_exceeds(digits: Seq<char>, k: int, max: int)
    requires
        0 <= k <= digits.len(),
        forall|j: int| 0 <= j < k ==> is_ascii_digit(#[trigger] digits[j]),
        decimal_value(digits.subrange(0, k)) > max,
    ensures
        digits_exceed(digits, max),
{
    if forall|i: int| 0 <= i < digits.len() ==> is_ascii_digit(#[trigger] digits[i]) {
        lemma_decimal_value_grows(digits, k);
    }
}

/// Parses an unsigned decimal number of at most `max`.
fn parse_decimal(s: &str, max: u16) -> (r: Option<u16>)
    ensures
        match parsed_unsigned(s@, max as int) {
            Some(v) => r == Some(v as u16),
            None => r is None,
        },
        r matches Some(v) ==> v <= max,
        parsed_unsigned(s@, max as int) matches Some(v) ==> 0 <= v <= max,
{
    let n = s.unicode_len();
    let start: usize = if n > 1 && s.get_char(0) == '+' {
        1
    } else {
        0
    };
    let ghost digits = s@.subrange(start as int, n as int);
    assert(digits =~= unsigned_digits(s@));
    if start == n {
        return None;
    }
    let mut value: u32 = 0;
    let mut i: usize = start;
    while i < n
        invariant
            n == s@.len(),
            start <= i <= n,
            digits == s@.subrange(start as int, n as int),
            digits == unsigned_digits(s@),
            forall|j: int| 0 <= j < i - start ==> is_ascii_digit(#[trigger] digits[j]),
            value == decimal_value(digits.subrange(0, i - start)),
            value <= max,
        decreases n - i,
    {
        let c = s.get_char(i);
        if !('0' <= c && c <= '9') {
            assert(!is_ascii_digit(digits[i - start]));
            assert(digits_exceed(digits, max as int));
            return None;
        }
        let ghost before = digits.subrange(0, i - start);
        let ghost after = digits.subrange(0, i - start + 1);
        assert(after.drop_last() =~= before);
        assert(after.last() == c);
        value = value * 10 + (c as u32 - '0' as u32);
        i = i + 1;
        if value > max as u32 {
            proof {
                lemma_prefix_exceeds(digits, i - start, max as int);
            }
            return None;
        }
    }
    assert(digits.subrange(0, n - start) =~= digits);
    proof {
        lemma_decimal_value_nonneg(digits);
    }
    Some(value as u16)
}

/// Parses a `u8` written in decimal (as `str::parse::<u8>`).
pub fn parse_u8(s: &str) -> (r: Option<u8>)
    ensures
        r == parsed_u8(s@),
{
    match parse_decimal(s, 255) {
        Some(v) => Some(v as u8),
        None => None,
    }
}

/// Parses a `u16` written in decimal (as `str::parse::<u16>`).
pub fn parse_u16(s: &str) -> (r: Option<u16>)
    ensures
        r == parsed_u16(s@),
{
    parse_decimal(s, 65535)
}

/// The character of a decimal digit.
pub open spec fn digit_char(d: int) -> char {
    if d == 0 {
        '0'
    } else if d == 1 {
        '1'
    } else if d == 2 {
        '2'
    } else if d == 3 {
        '3'
    } else if d == 4 {
        '4'
    } else if d == 5 {
        '5'
    } else if d == 6 {
        '6'
    } else if d == 7 {
        '7'
    } else if d == 8 {
        '8'
    } else {
        '9'
    }
}

/// `n` written in decimal, without leading zeros.
pub open spec fn decimal_text(n: nat) -> Seq<char>
    decreases n,
{
    if n < 10 {
        seq![digit_char(n as int)]
    } else {
        decimal_text(n / 10).push(digit_char((n % 10) as int))
    }
}

proof fn lemma_digit_char(d: int)
    requires
        0 <= d < 10,
    ensures
        digit_char(d) as int - '0' as int == d,
        is_ascii_digit(digit_char(d)),
{
}

proof fn lemma_decimal_text(n: nat)
    ensures
        decimal_text(n).len() > 0,
        decimal_text(n)[0] != '+' && decimal_text(n)[0] != '-',
        forall|i: int| 0 <= i < decimal_text(n).len() ==> is_ascii_digit(#[trigger] decimal_text(n)[i]),
        decimal_value(decimal_text(n)) == n,
    decreases n,
{
    if n >= 10 {
        lemma_decimal_text(n / 10);
        let d = decimal_text(n / 10);
        let t = decimal_text(n);
        assert(t.drop_last() =~= d);
        assert(t[0] == d[0]);
        lemma_digit_char((n % 10) as int);
        assert(t.last() == digit_char((n % 10) as int));
        assert(n == (n / 10) * 10 + n % 10);
        assert(decimal_value(t) == decimal_value(t.drop_last()) * 10 + (t.last() as int - '0' as int));
        assert forall|i: int| 0 <= i < t.len() implies is_ascii_digit(#[trigger] t[i]) by {
            if i < d.len() {
                assert(t[i] == d[i]);
            }
        }
    } else {
        let t = decimal_text(n);
        assert(t.drop_last() =~= Seq::<char>::empty());
        lemma_digit_char(n as int);
        assert(decimal_value(t.drop_last()) == 0);
        assert(decimal_value(t) == decimal_value(t.drop_last()) * 10 + (t.last() as int - '0' as int));
    }
}

/// Numbers written in decimal parse back: as a `u8` exactly when they are at
/// most 255, as a `u16` exactly when they are at most 65535, with or without
/// a leading '+'; a leading '-' is never accepted.
pub proof fn law_decimal_roundtrip(n: nat)
    ensures
        parsed_u8(decimal_text(n)) == (if n <= 255 {
            Some(n as u8)
        } else {
            None
        }),
        parsed_u16(decimal_text(n)) == (if n <= 65535 {
            Some(n as u16)
        } else {
            None
        }),
        parsed_u8(seq!['+'] + decimal_text(n)) == parsed_u8(decimal_text(n)),
        parsed_u16(seq!['+'] + decimal_text(n)) == parsed_u16(decimal_text(n)),
        parsed_u8(seq!['-'] + decimal_text(n)) is None,
        parsed_u16(seq!['-'] + decimal_text(n)) is None,
{
    lemma_decimal_text(n);
    let t = decimal_text(n);
    assert(unsigned_digits(t) == t);
    assert((seq!['+'] + t).drop_first() =~= t);
    assert(unsigned_digits(seq!['+'] + t) == t);
    let m = seq!['-'] + t;
    assert(unsigned_digits(m) == m);
    assert(!is_ascii_digit(m[0]));
}

/// A `u8` setting: the first variable whose trimmed value parses as a `u8`
/// decides it; otherwise the default.
pub open spec fn u8_setting(values: Seq<Option<String>>, default: u8) -> u8
    decreases values.len(),
{
    if values.len() == 0 {
        default
    } else {
        match values[0] {
            Some(v) => match parsed_u8(trim_chars(v@)) {
                Some(x) => x,
                None => u8_setting(values.drop_first(), default),
            },
            None => u8_setting(values.drop_first(), default),
        }
    }
}

/// The `u8` setting given by `values` (see `u8_setting`).
pub fn parse_u8_env(values: &Vec<Option<String>>, default: u8) -> (r: u8)
    ensures
        r == u8_setting(values@, default),
{
    let mut i: usize = 0;
    assert(values@.subrange(0, values@.len() as int) =~= values@);
    while i < values.len()
        invariant
            i <= values@.len(),
            u8_setting(values@, default) == u8_setting(
                values@.subrange(i as int, values@.len() as int),
                default,
            ),
        decreases values@.len() - i,
    {
        let ghost rest = values@.subrange(i as int, values@.len() as int);
        assert(rest.drop_first() =~= values@.subrange(i + 1, values@.len() as int));
        match &values[i] {
            Some(v) => match parse_u8(trim(v.as_str())) {
                Some(x) => {
                    return x;
                },
                None => {},
            },
            None => {},
        }
        i = i + 1;
    }
    default
}

/// A text setting: the trimmed value of the first variable whose value is
/// not blank; `None` if there is none.
pub open spec fn text_setting(values: Seq<Option<String>>) -> Option<Seq<char>>
    decreases values.len(),
{
    if values.len() == 0 {
        None
    } else {
        match values[0] {
            Some(v) => if trim_chars(v@).len() > 0 {
                Some(trim_chars(v@))
            } else {
                text_setting(values.drop_first())
            },
            None => text_setting(values.drop_first()),
        }
    }
}

/// The text setting given by `values` (see `text_setting`).
pub fn parse_string_env(values: &Vec<Option<String>>) -> (r: Option<String>)
    ensures
        r matches Some(s) ==> text_setting(values@) == Some(s@),
        r is None ==> text_setting(values@) is None,
{
    let mut i: usize = 0;
    assert(values@.subrange(0, values@.len() as int) =~= values@);
    while i < values.len()
        invariant
            i <= values@.len(),
            text_setting(values@) == text_setting(values@.subrange(i as int, values@.len() as int)),
        decreases values@.len() - i,
    {
        let ghost rest = values@.subrange(i as int, values@.len() as int);
        assert(rest.drop_first() =~= values@.subrange(i + 1, values@.len() as int));
        match &values[i] {
            Some(v) => {
                let trimmed = trim(v.as_str());
                if !trimmed.is_empty() {
                    return Some(trimmed.to_owned());
                }
            },
            None => {},
        }
        i = i + 1;
    }
    None
}

/// The switch words: "true", "1", "yes", "on" and "y" switch on, "false",
/// "0", "no", "off" and "n" switch off, whatever the default.
pub proof fn law_switch_words(default: bool)
    ensures
        switch_value("true"@, default) && switch_value("1"@, default) && switch_value("yes"@, default)
            && switch_value("on"@, default) && switch_value("y"@, default),
        !switch_value("false"@, default) && !switch_value("0"@, default) && !switch_value(
            "no"@,
            default,
        ) && !switch_value("off"@, default) && !switch_value("n"@, default),
{
    reveal_strlit("true");
    reveal_strlit("1");
    reveal_strlit("yes");
    reveal_strlit("on");
    reveal_strlit("y");
    reveal_strlit("false");
    reveal_strlit("0");
    reveal_strlit("no");
    reveal_strlit("off");
    reveal_strlit("n");
    assert("true"@ =~= seq!['t', 'r', 'u', 'e']);
    assert("1"@ =~= seq!['1']);
    assert("yes"@ =~= seq!['y', 'e', 's']);
    assert("on"@ =~= seq!['o', 'n']);
    assert("y"@ =~= seq!['y']);
    assert("false"@ =~= seq!['f', 'a', 'l', 's', 'e']);
    assert("0"@ =~= seq!['0']);
    assert("no"@ =~= seq!['n', 'o']);
    assert("off"@ =~= seq!['o', 'f', 'f']);
    assert("n"@ =~= seq!['n']);
    assert("false"@.len() != "true"@.len());
    assert("false"@.len() != "1"@.len());
    assert("false"@.len() != "yes"@.len());
    assert("false"@.len() != "on"@.len());
    assert("false"@.len() != "y"@.len());
    assert("0"@.len() != "true"@.len());
    assert("0"@[0] != "1"@[0]);
    assert("0"@.len() != "yes"@.len());
    assert("0"@.len() != "on"@.len());
    assert("0"@[0] != "y"@[0]);
    assert("no"@.len() != "true"@.len());
    assert("no"@.len() != "1"@.len());
    assert("no"@.len() != "yes"@.len());
    assert("no"@[0] != "on"@[0]);
    assert("no"@.len() != "y"@.len());
    assert("off"@.len() != "true"@.len());
    assert("off"@.len() != "1"@.len());
    assert("off"@[0] != "yes"@[0]);
    assert("off"@.len() != "on"@.len());
    assert("off"@.len() != "y"@.len());
    assert("n"@.len() != "true"@.len());
    assert("n"@[0] != "1"@[0]);
    assert("n"@.len() != "yes"@.len());
    assert("n"@.len() != "on"@.len());
    assert("n"@[0] != "y"@[0]);
}

/// The first variable that is set decides a boolean setting, by its trimmed
/// and lowercased value, whatever the later ones hold; with none set, the default.
pub proof fn law_first_set_switch_decides(values: Seq<Option<String>>, default: bool, k: int)
    requires
        0 <= k <= values.len(),
        forall|j: int| 0 <= j < k ==> #[trigger] values[j] is None,
    ensures
        k < values.len() && values[k] is Some ==> bool_setting(values, default) == switch_value(
            unicode_lowercase(trim_chars(values[k]->0@)),
            default,
        ),
        k == values.len() ==> bool_setting(values, default) == default,
    decreases k,
{
    if k > 0 {
        assert(values[0] is None);
        let rest = values.drop_first();
        assert forall|j: int| 0 <= j < k - 1 implies #[trigger] rest[j] is None by {
            assert(rest[j] == values[j + 1]);
        }
        law_first_set_switch_decides(rest, default, k - 1);
        if k < values.len() {
            assert(rest[k - 1] == values[k]);
        }
    }
}

/// The first variable whose trimmed value parses as a `u8` decides a `u8`
/// setting, whatever the later ones hold; with none, the default.
pub proof fn law_first_number_decides(values: Seq<Option<String>>, default: u8, k: int)
    requires
        0 <= k <= values.len(),
        forall|j: int|
            0 <= j < k ==> #[trigger] values[j] is None || parsed_u8(trim_chars(values[j]->0@)) is None,
    ensures
        k < values.len() && values[k] is Some && parsed_u8(trim_chars(values[k]->0@)) is Some
            ==> u8_setting(values, default) == parsed_u8(trim_chars(values[k]->0@))->0,
        k == values.len() ==> u8_setting(values, default) == default,
    decreases k,
{
    if k > 0 {
        assert(values[0] is None || parsed_u8(trim_chars(values[0]->0@)) is None);
        let rest = values.drop_first();
        assert forall|j: int| 0 <= j < k - 1 implies #[trigger] rest[j] is None || parsed_u8(
            trim_chars(rest[j]->0@),
        ) is None by {
            assert(rest[j] == values[j + 1]);
        }
        law_first_number_decides(rest, default, k - 1);
        if k < values.len() {
            assert(rest[k - 1] == values[k]);
        }
    }
}

/// The first variable whose value is not blank decides a text setting, as
/// that value trimmed; with none, there is no setting.
pub proof fn law_first_text_decides(values: Seq<Option<String>>, k: int)
    requires
        0 <= k <= values.len(),
        forall|j: int|
            0 <= j < k ==> #[trigger] values[j] is None || trim_chars(values[j]->0@).len() == 0,
    ensures
        k < values.len() && values[k] is Some && trim_chars(values[k]->0@).len() > 0 ==> text_setting(
            values,
        ) == Some(trim_chars(values[k]->0@)),
        k == values.len() ==> text_setting(values) is None,
    decreases k,
{
    if k > 0 {
        assert(values[0] is None || trim_chars(values[0]->0@).len() == 0);
        let rest = values.drop_first();
        assert forall|j: int| 0 <= j < k - 1 implies #[trigger] rest[j] is None || trim_chars(
            rest[j]->0@,
        ).len() == 0 by {
            assert(rest[j] == values[j + 1]);
        }
        law_first_text_decides(rest, k - 1);
        if k < values.len() {
            assert(rest[k - 1] == values[k]);
        }
    }
}

/// The text held by an optional string.
pub open spec fn text_of(o: Option<String>) -> Option<Seq<char>> {
    match o {
        Some(s) => Some(s@),
        None => None,
    }
}

/// The serial number of the first (Fronius) meter: its own setting, else
/// the inverter's serial, else "00000001".
pub open spec fn first_meter_serial(own: Option<Seq<char>>, inverter: Option<Seq<char>>) -> Seq<char> {
    match own {
        Some(s) => s,
        None => match inverter {
            Some(sn) => sn,
            None => "00000001"@,
        },
    }
}

/// The serial number of the second (EVCC) meter: its own setting, else the
/// inverter's serial, else "00000002".
pub open spec fn second_meter_serial(own: Option<Seq<char>>, inverter: Option<Seq<char>>) -> Seq<char> {
    match own {
        Some(s) => s,
        None => match inverter {
            Some(sn) => sn,
            None => "00000002"@,
        },
    }
}

/// A meter's own serial setting always wins; the inverter's serial is the
/// fallback of both meters only when their own is unset; without either,
/// the first meter reports "00000001" and the second "00000002".
pub proof fn law_meter_serial_fallbacks(own: Option<Seq<char>>, inverter: Option<Seq<char>>)
    ensures
        own matches Some(s) ==> first_meter_serial(own, inverter) == s && second_meter_serial(
            own,
            inverter,
        ) == s,
        own is None ==> (inverter matches Some(sn) ==> first_meter_serial(own, inverter) == sn
            && second_meter_serial(own, inverter) == sn),
        own is None && inverter is None ==> first_meter_serial(own, inverter) == "00000001"@
            && second_meter_serial(own, inverter) == "00000002"@,
{
}

/// The two meters of the bridge: first the Fronius meter, then the EVCC meter.
pub fn bridge_meter_configs(
    meter1_slave_id: u8,
    meter1_invert: bool,
    meter1_serial: Option<String>,
    meter2_slave_id: u8,
    meter2_invert: bool,
    meter2_serial: Option<String>,
    inverter_serial: Option<String>,
) -> (configs: Vec<MeterConfig>)
    ensures
        configs@.len() == 2,
        configs@[0].slave_id == meter1_slave_id,
        configs@[0].invert_power == meter1_invert,
        configs@[0].serial_number@ == first_meter_serial(text_of(meter1_serial), text_of(inverter_serial)),
        configs@[0].name@ == "Fronius (Inverted Power)"@,
        configs@[1].slave_id == meter2_slave_id,
        configs@[1].invert_power == meter2_invert,
        configs@[1].serial_number@ == second_meter_serial(text_of(meter2_serial), text_of(inverter_serial)),
        configs@[1].name@ == "EVCC (Plain Power)"@,
{
    let serial1: String = match meter1_serial {
        Some(s) => s,
        None => match &inverter_serial {
            Some(sn) => sn.clone(),
            None => "00000001".to_owned(),
        },
    };
    let serial2: String = match meter2_serial {
        Some(s) => s,
        None => match &inverter_serial {
            Some(sn) => sn.clone(),
            None => "00000002".to_owned(),
        },
    };
    let mut configs: Vec<MeterConfig> = Vec::new();
    configs.push(
        MeterConfig {
            slave_id: meter1_slave_id,
            serial_number: serial1,
            invert_power: meter1_invert,
            name: "Fronius (Inverted Power)".to_owned(),
        },
    );
    configs.push(
        MeterConfig {
            slave_id: meter2_slave_id,
            serial_number: serial2,
            invert_power: meter2_invert,
            name: "EVCC (Plain Power)".to_owned(),
        },
    );
    configs
}

} // verus!
