use vstd::prelude::*;
use vstd::string::*;

verus! {

/// Size in bytes of one sector, the unit of verifiable content.
pub const SECTOR_SIZE: usize = 512;

/// Size in bytes of one full test file.
pub const GIB: u64 = 0x4000_0000;

/// The word that follows `seed` in the generator's chain:
/// `seed * 4294967311 + 17` modulo 2^64.
pub open spec fn next_word(seed: u64) -> u64 {
    ((seed as int * 4294967311 + 17) % 0x1_0000_0000_0000_0000) as u64
}

/// The generator never maps two seeds to one word.
pub proof fn lemma_next_word_injective(x: u64, y: u64)
    requires
        x != y,
    ensures
        next_word(x) != next_word(y),
{
    assert(x != y ==> ((x as int * 4294967311 + 17) % 0x1_0000_0000_0000_0000) as u64 != ((y as int
        * 4294967311 + 17) % 0x1_0000_0000_0000_0000) as u64) by (bit_vector);
}

/// Next value of the deterministic sequence that fills a sector.
pub fn random_number(prv_number: u64) -> (next: u64)
    ensures
        next == next_word(prv_number),
{
    let product: u64 = prv_number.wrapping_mul(4_294_967_311u64);
    let next: u64 = product.wrapping_add(17);
    proof {
        vstd::arithmetic::div_mod::lemma_add_mod_noop(
            prv_number as int * 4294967311,
            17,
            0x1_0000_0000_0000_0000,
        );
    }
    next
}

/// Microseconds from the clock reading `t1` to the later reading `t2`, both
/// taken in microseconds on one monotonic clock; zero if `t2` is the earlier.
#[inline]
pub fn diff_in_us(t1: u64, t2: u64) -> (elapsed: u64)
    ensures
        elapsed == if t2 >= t1 {
            t2 - t1
        } else {
            0
        },
{
    if t2 >= t1 {
        t2 - t1
    } else {
        0
    }
}

/// Whole milliseconds from the clock reading `t1` to the later reading `t2`,
/// both taken in microseconds on one monotonic clock; zero if `t2` is the
/// earlier.
pub fn delay_ms(t1: u64, t2: u64) -> (elapsed: i64)
    ensures
        elapsed == if t2 >= t1 {
            (t2 - t1) / 1000
        } else {
            0
        },
{
    if t2 >= t1 {
        ((t2 - t1) / 1000) as i64
    } else {
        0
    }
}

/// Whether `c` is one of the ten decimal digits.
pub open spec fn is_digit(c: char) -> bool {
    '0' <= c <= '9'
}

/// Number of decimal digits at the end of `s`.
pub open spec fn trailing_digits(s: Seq<char>) -> nat
    decreases s.len(),
{
    if s.len() > 0 && is_digit(s.last()) {
        1 + trailing_digits(s.drop_last())
    } else {
        0
    }
}

/// The number that the decimal digits `digits` write.
pub open spec fn decimal_value(digits: Seq<char>) -> nat
    decreases digits.len(),
{
    if digits.len() == 0 {
        0
    } else {
        10 * decimal_value(digits.drop_last()) + (digits.last() as nat - '0' as nat) as nat
    }
}

/// The extension of a test file's name.
pub open spec fn h2w_suffix() -> Seq<char> {
    seq!['.', 'h', '2', 'w']
}

/// Whether `full` ends in `.h2w`.
pub fn has_h2w_suffix(full: &str) -> (found: bool)
    ensures
        found == (full@.len() >= 4 && full@.subrange(full@.len() - 4, full@.len() as int)
            == h2w_suffix()),
{
    let len = full.unicode_len();
    if len < 4 {
        return false;
    }
    let ghost tail = full@.subrange(len - 4, len as int);
    assert(tail[0] == full@[len - 4] && tail[1] == full@[len - 3] && tail[2] == full@[len - 2]
        && tail[3] == full@[len - 1]);
    let found = full.get_char(len - 4) == '.' && full.get_char(len - 3) == 'h' && full.get_char(
        len - 2,
    ) == '2' && full.get_char(len - 1) == 'w';
    assert(found ==> tail =~= h2w_suffix());
    found
}

/// What `parse_dev_and_num` makes of the path `full`: the path must end in
/// `.h2w`, and at least one digit must stand before that. The digits give the
/// file's number, which must fit in an `i32`; what stands before them is the
/// device path.
pub open spec fn dev_and_num(full: Seq<char>) -> Option<(Seq<char>, i32)> {
    if full.len() >= 4 && full.subrange(full.len() - 4, full.len() as int) == h2w_suffix() {
        let name = full.subrange(0, full.len() - 4);
        let start = name.len() - trailing_digits(name);
        let number = decimal_value(name.subrange(start, name.len() as int));
        if start < name.len() && number <= i32::MAX {
            Some((name.subrange(0, start), number as i32))
        } else {
            None
        }
    } else {
        None
    }
}

/// Splits the path of one test file into the device path and the file's
/// number: `"/mnt/usb/12.h2w"` gives `("/mnt/usb/", 12)`.
pub fn parse_dev_and_num<'a>(full: &'a str) -> (parsed: Option<(&'a str, i32)>)
    ensures
        match parsed {
            Some((dev_path, num)) => dev_and_num(full@) == Some((dev_path@, num)),
            None => dev_and_num(full@) is None,
        },
{
    if !has_h2w_suffix(full) {
        return None;
    }
    let len = full.unicode_len();
    let name_len: usize = len - 4;
    let ghost name = full@.subrange(0, name_len as int);

    // Find where the digits start.
    let mut i: usize = name_len;
    assert(name.subrange(0, name_len as int) =~= name);
    while i > 0 && is_digit_char(full.get_char(i - 1))
        invariant
            i <= name_len,
            name_len + 4 == full@.len(),
            name == full@.subrange(0, name_len as int),
            trailing_digits(name) == (name_len - i) + trailing_digits(name.subrange(0, i as int)),
            forall|k: int| i <= k < name_len ==> is_digit(full@[k]),
        decreases i,
    {
        proof {
            let prefix = name.subrange(0, i as int);
            assert(prefix.drop_last() =~= name.subrange(0, i - 1));
        }
        i -= 1;
    }
    assert(trailing_digits(name.subrange(0, i as int)) == 0) by {
        if i > 0 {
            assert(name.subrange(0, i as int).last() == full@[i - 1]);
        }
    }
    if i == name_len {
        return None;  // no number before the extension
    }
    // Read the number, giving up once it leaves the range of `i32`.
    let ghost digits = name.subrange(i as int, name_len as int);
    assert forall|k: int| 0 <= k < digits.len() implies is_digit(#[trigger] digits[k]) by {
        assert(digits[k] == full@[i + k]);
    }
    let mut num: i32 = 0;
    let mut j: usize = i;
    while j < name_len
        invariant
            i <= j <= name_len,
            name_len + 4 == full@.len(),
            name == full@.subrange(0, name_len as int),
            digits == name.subrange(i as int, name_len as int),
            trailing_digits(name) == name_len - i,
            all_digits(digits),
            0 <= num == decimal_value(digits.subrange(0, j - i)),
        decreases name_len - j,
    {
        let c = full.get_char(j);
        assert(is_digit(c)) by {
            assert(c == digits[j - i]);
        }
        let digit: i32 = (c as u32 - '0' as u32) as i32;
        proof {
            let upto = digits.subrange(0, j + 1 - i);
            assert(upto.drop_last() =~= digits.subrange(0, j - i));
            if 10 * num + digit > i32::MAX {
                lemma_decimal_value_grows(digits, j + 1 - i);
            }
        }
        if num > (i32::MAX - digit) / 10 {
            return None;
        }
        num = 10 * num + digit;
        j += 1;
    }
    assert(digits.subrange(0, name_len - i) =~= digits);
    let dev_path = full.substring_char(0, i);
    Some((dev_path, num))
}

/// Whether all of `s` is decimal digits.
pub open spec fn all_digits(s: Seq<char>) -> bool {
    forall|k: int| 0 <= k < s.len() ==> is_digit(#[trigger] s[k])
}

/// The integer that `s` writes in decimal: an optional `+` or `-`, then at
/// least one digit and nothing else.
pub open spec fn signed_decimal(s: Seq<char>) -> Option<int> {
    let signed = s.len() > 0 && (s[0] == '-' || s[0] == '+');
    let digits = if signed {
        s.subrange(1, s.len() as int)
    } else {
        s
    };
    if digits.len() > 0 && all_digits(digits) {
        if signed && s[0] == '-' {
            Some(-(decimal_value(digits) as int))
        } else {
            Some(decimal_value(digits) as int)
        }
    } else {
        None
    }
}

/// The number of the test file named `name`: the name is a decimal integer
/// within 64 bits followed by `.h2w`.
pub open spec fn file_number(name: Seq<char>) -> Option<i64> {
    if name.len() >= 4 && name.subrange(name.len() - 4, name.len() as int) == h2w_suffix() {
        match signed_decimal(name.subrange(0, name.len() - 4)) {
            Some(number) => if i64::MIN <= number <= i64::MAX {
                Some(number as i64)
            } else {
                None
            },
            None => None,
        }
    } else {
        None
    }
}

/// Whether a run from file `start_at` to file `end_at` takes in the file
/// `number`; an `end_at` of zero is no limit.
pub open spec fn in_range(number: i64, start_at: i64, end_at: i64) -> bool {
    number >= start_at && (number <= end_at || end_at == 0)
}

/// The numbers of the test files among `names` that a run from `start_at`
/// to `end_at` takes in, in the order of the names.
pub open spec fn my_files(names: Seq<Seq<char>>, start_at: i64, end_at: i64) -> Seq<i64>
    decreases names.len(),
{
    if names.len() == 0 {
        Seq::empty()
    } else {
        let before = my_files(names.drop_last(), start_at, end_at);
        match file_number(names.last()) {
            Some(number) => if in_range(number, start_at, end_at) {
                before.push(number)
            } else {
                before
            },
            None => before,
        }
    }
}

/// Whether `s` is in ascending order.
pub open spec fn ascending(s: Seq<i64>) -> bool {
    forall|i: int, j: int| 0 <= i <= j < s.len() ==> s[i] <= s[j]
}

/// Reads the number of the test file named `name`, if it is the name of one.
pub fn parse_file_number(name: &str) -> (parsed: Option<i64>)
    ensures
        parsed == file_number(name@),
{
    if !has_h2w_suffix(name) {
        return None;
    }
    let len = name.unicode_len();
    let end: usize = len - 4;
    let ghost text = name@.subrange(0, end as int);
    if end == 0 {
        return None;
    }
    let first = name.get_char(0);
    let negative = first == '-';
    let start: usize = if first == '-' || first == '+' {
        1
    } else {
        0
    };
    let ghost digits = text.subrange(start as int, end as int);
    if start == end {
        return None;
    }
    // The magnitude may reach 2^63 behind a minus sign, and one less else.
    let limit: u64 = if negative {
        0x8000_0000_0000_0000
    } else {
        0x7fff_ffff_ffff_ffff
    };
    let mut magnitude: u64 = 0;
    let mut j: usize = start;
    while j < end
        invariant
            start <= j <= end,
            end + 4 == name@.len(),
            text == name@.subrange(0, end as int),
            digits == text.subrange(start as int, end as int),
            text.len() == end,
            start == if text[0] == '-' || text[0] == '+' {
                1int
            } else {
                0int
            },
            negative == (text[0] == '-'),
            limit == if negative {
                0x8000_0000_0000_0000u64
            } else {
                0x7fff_ffff_ffff_ffffu64
            },
            name@.len() >= 4 && name@.subrange(name@.len() - 4, name@.len() as int)
                == h2w_suffix(),
            all_digits(digits.subrange(0, j - start)),
            magnitude == decimal_value(digits.subrange(0, j - start)),
            magnitude <= limit,
        decreases end - j,
    {
        let c = name.get_char(j);
        assert(c == digits[j - start]);
        if !is_digit_char(c) {
            assert(text.subrange(0, end as int) =~= text);
            return None;
        }
        let digit: u64 = (c as u32 - '0' as u32) as u64;
        proof {
            let upto = digits.subrange(0, j + 1 - start);
            assert(upto.drop_last() =~= digits.subrange(0, j - start));
            assert forall|k: int| 0 <= k < upto.len() implies is_digit(#[trigger] upto[k]) by {
                if k < j - start {
                    assert(upto[k] == digits.subrange(0, j - start)[k]);
                }
            }
            if 10 * magnitude + digit > limit && all_digits(digits) {
                lemma_decimal_value_grows(digits, j + 1 - start);
            }
        }
        if magnitude > (limit - digit) / 10 {
            proof {
                // Either something else than a digit follows, or the number
                // is beyond the limit.
                assert(text.subrange(0, end as int) =~= text);
                if all_digits(digits) {
                    assert(signed_decimal(text) == Some(
                        if negative {
                            -(decimal_value(digits) as int)
                        } else {
                            decimal_value(digits) as int
                        },
                    ));
                }
            }
            return None;
        }
        magnitude = 10 * magnitude + digit;
        j += 1;
    }
    assert(digits.subrange(0, end - start) =~= digits);
    assert(text.subrange(0, end as int) =~= text);
    if negative {
        if magnitude == 0x8000_0000_0000_0000 {
            Some(i64::MIN)
        } else {
            Some(-(magnitude as i64))
        }
    } else {
        Some(magnitude as i64)
    }
}

/// Puts `number` into the ascending `files`, behind the numbers that are no
/// larger.
fn insert_ascending(files: &mut Vec<i64>, number: i64)
    requires
        ascending(old(files)@),
    ensures
        ascending(final(files)@),
        final(files)@.to_multiset() == old(files)@.to_multiset().insert(number),
{
    let mut i: usize = 0;
    while i < files.len() && files[i] <= number
        invariant
            i <= files@.len(),
            files@ == old(files)@,
            forall|k: int| 0 <= k < i ==> files@[k] <= number,
        decreases files@.len() - i,
    {
        i += 1;
    }
    proof {
        vstd::seq_lib::to_multiset_insert(files@, i as int, number);
    }
    files.insert(i, number);
}

/// Lists the numbers of the test files among the file names `names` that a
/// run from file `start_at` to file `end_at` takes in, in ascending order.
/// An `end_at` of zero is no limit.
pub fn ls_my_files(names: &Vec<String>, start_at: i64, end_at: i64) -> (files: Vec<i64>)
    ensures
        ascending(files@),
        files@.to_multiset() == my_files(names.deep_view(), start_at, end_at).to_multiset(),
{
    let mut files: Vec<i64> = Vec::new();
    let mut i: usize = 0;
    while i < names.len()
        invariant
            i <= names@.len(),
            ascending(files@),
            files@.to_multiset() == my_files(
                names.deep_view().subrange(0, i as int),
                start_at,
                end_at,
            ).to_multiset(),
        decreases names@.len() - i,
    {
        let ghost before = names.deep_view().subrange(0, i as int);
        let ghost upto = names.deep_view().subrange(0, i + 1);
        proof {
            assert(upto.drop_last() =~= before);
        }
        match parse_file_number(names[i].as_str()) {
            Some(number) => {
                if number >= start_at && (number <= end_at || end_at == 0) {
                    proof {
                        vstd::seq_lib::to_multiset_build(
                            my_files(before, start_at, end_at),
                            number,
                        );
                    }
                    insert_ascending(&mut files, number);
                }
            },
            None => {},
        }
        i += 1;
    }
    assert(names.deep_view().subrange(0, i as int) =~= names.deep_view());
    files
}

/// The character that writes the digit `d`.
pub open spec fn digit_char(d: nat) -> char
    recommends
        d < 10,
{
    ('0' as nat + d) as char
}

/// `n` in decimal, without leading zeros.
pub open spec fn decimal_text(n: nat) -> Seq<char>
    decreases n,
{
    if n < 10 {
        seq![digit_char(n)]
    } else {
        decimal_text(n / 10).push(digit_char(n % 10))
    }
}

/// `n`, less than 100, in two decimal digits.
pub open spec fn two_digits(n: nat) -> Seq<char>
    recommends
        n < 100,
{
    seq![digit_char(n / 10), digit_char(n % 10)]
}

/// A time of `sec` seconds in hours, minutes and seconds, such as
/// `1h02m03s`. A unit is written only if it is not zero or a larger unit is
/// written; minutes and seconds take two digits.
pub open spec fn duration_text(sec: nat) -> Seq<char> {
    let hours = sec / 3600;
    let minutes = sec % 3600 / 60;
    let seconds = sec % 60;
    let h = if hours > 0 {
        decimal_text(hours).push('h')
    } else {
        Seq::empty()
    };
    let m = if minutes > 0 || hours > 0 {
        two_digits(minutes).push('m')
    } else {
        Seq::empty()
    };
    let s = if seconds > 0 || minutes > 0 || hours > 0 {
        two_digits(seconds).push('s')
    } else {
        Seq::empty()
    };
    h + m + s
}

/// The digit `d` as text.
fn digit_str(d: u64) -> (text: &'static str)
    requires
        d < 10,
    ensures
        text@ == seq![digit_char(d as nat)],
{
    proof {
        reveal_strlit("0");
        reveal_strlit("1");
        reveal_strlit("2");
        reveal_strlit("3");
        reveal_strlit("4");
        reveal_strlit("5");
        reveal_strlit("6");
        reveal_strlit("7");
        reveal_strlit("8");
        reveal_strlit("9");
    }
    let text = match d {
        0 => "0",
        1 => "1",
        2 => "2",
        3 => "3",
        4 => "4",
        5 => "5",
        6 => "6",
        7 => "7",
        8 => "8",
        _ => "9",
    };
    text
}

/// Writes `n` in decimal behind `text`.
fn push_decimal(text: &mut String, n: u64)
    ensures
        final(text)@ == old(text)@ + decimal_text(n as nat),
    decreases n,
{
    if n >= 10 {
        push_decimal(text, n / 10);
    }
    text.append(digit_str(n % 10));
}

/// Writes `n` in two decimal digits, and then `unit`, behind `text`.
fn push_two_digits(text: &mut String, n: u64, unit: &str)
    requires
        n < 100,
        unit@.len() == 1,
    ensures
        final(text)@ == old(text)@ + two_digits(n as nat).push(unit@[0]),
{
    text.append(digit_str(n / 10));
    text.append(digit_str(n % 10));
    text.append(unit);
}

/// Writes a time of `sec` seconds in hours, minutes and seconds, each unit
/// only if it is not zero or a larger unit is written: 3723 seconds give
/// `1h02m03s`, 75 give `01m15s`, and 9 give `09s`.
pub fn pr_time_str(sec: u64) -> (text: String)
    ensures
        text@ == duration_text(sec as nat),
{
    proof {
        reveal_strlit("h");
        reveal_strlit("m");
        reveal_strlit("s");
    }
    let hours: u64 = sec / 3600;
    let minutes: u64 = sec % 3600 / 60;
    let seconds: u64 = sec % 60;
    let mut text = String::new();
    if hours > 0 {
        push_decimal(&mut text, hours);
        text.append("h");
    }
    if minutes > 0 || hours > 0 {
        push_two_digits(&mut text, minutes, "m");
    }
    if seconds > 0 || minutes > 0 || hours > 0 {
        push_two_digits(&mut text, seconds, "s");
    }
    text
}

/// Absolute offset of the first sector of the test file `number`: files
/// follow each other at one GiB each.
pub fn file_offset(number: i64) -> (offset: u64)
    requires
        0 <= number,
        number * GIB <= u64::MAX,
    ensures
        offset == number * GIB,
{
    number as u64 * GIB
}

/// Whether `c` is one of the ten decimal digits.
fn is_digit_char(c: char) -> (digit: bool)
    ensures
        digit == is_digit(c),
{
    '0' <= c && c <= '9'
}

/// Further digits never make the number smaller.
proof fn lemma_decimal_value_grows(digits: Seq<char>, upto: int)
    requires
        0 <= upto <= digits.len(),
        all_digits(digits),
    ensures
        decimal_value(digits.subrange(0, upto)) <= decimal_value(digits),
    decreases digits.len() - upto,
{
    if upto < digits.len() {
        let longer = digits.subrange(0, upto + 1);
        assert(longer.drop_last() =~= digits.subrange(0, upto));
        lemma_decimal_value_grows(digits, upto + 1);
    } else {
        assert(digits.subrange(0, upto) =~= digits);
    }
}

} // verus!
