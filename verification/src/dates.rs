use crate::error::{invalid_input, Error};
use crate::text::{append_str, chars_of, is_digit, string_of};
use vstd::prelude::*;

verus! {

/// The value of the digit at `i`.
pub open spec fn digit_at(s: Seq<char>, i: int) -> int {
    (s[i] as u32) - ('0' as u32)
}

/// The value of the two digits at `i`.
pub open spec fn two_digits(s: Seq<char>, i: int) -> int {
    digit_at(s, i) * 10 + digit_at(s, i + 1)
}

/// The `n` characters from `start` are ASCII digits.
pub open spec fn digits_at(s: Seq<char>, start: int, n: int) -> bool {
    forall|i: int| start <= i < start + n ==> is_digit(#[trigger] s[i])
}

/// `YYYY-MM-DD` at the start of `s`, with a month from 1 to 12 and a day
/// from 1 to 31.
pub open spec fn date_prefix_ok(s: Seq<char>) -> bool {
    &&& s.len() >= 10
    &&& digits_at(s, 0, 4)
    &&& s[4] == '-'
    &&& digits_at(s, 5, 2)
    &&& s[7] == '-'
    &&& digits_at(s, 8, 2)
    &&& 1 <= two_digits(s, 5) <= 12
    &&& 1 <= two_digits(s, 8) <= 31
}

/// ` HH:MM:SS` after the date, with an hour below 24 and minutes and
/// seconds below 60.
pub open spec fn time_ok(s: Seq<char>) -> bool {
    &&& s.len() >= 19
    &&& s[10] == ' '
    &&& digits_at(s, 11, 2)
    &&& s[13] == ':'
    &&& digits_at(s, 14, 2)
    &&& s[16] == ':'
    &&& digits_at(s, 17, 2)
    &&& two_digits(s, 11) <= 23
    &&& two_digits(s, 14) <= 59
    &&& two_digits(s, 17) <= 59
}

/// An optional fraction of a second: nothing, or `.` and one or more digits.
pub open spec fn fraction_ok(f: Seq<char>) -> bool {
    f.len() == 0 || (f.len() >= 2 && f[0] == '.' && digits_at(f, 1, f.len() - 1))
}

/// A date alone: `YYYY-MM-DD`.
pub open spec fn is_date_only(s: Seq<char>) -> bool {
    s.len() == 10 && date_prefix_ok(s)
}

/// A Calibre UTC timestamp: `YYYY-MM-DD HH:MM:SS[.fraction]+00:00`.
pub open spec fn is_utc_timestamp(s: Seq<char>) -> bool {
    &&& s.len() >= 25
    &&& date_prefix_ok(s)
    &&& time_ok(s)
    &&& s.subrange(s.len() - 6, s.len() as int) == "+00:00"@
    &&& fraction_ok(s.subrange(19, s.len() - 6))
}

/// The value a publication date is stored as: a date alone at midnight
/// UTC, a UTC timestamp as given, anything else refused.
pub open spec fn stored_publication_date(s: Seq<char>) -> Option<Seq<char>> {
    if is_date_only(s) {
        Some(s + " 00:00:00+00:00"@)
    } else if is_utc_timestamp(s) {
        Some(s)
    } else {
        None
    }
}

/// Every stored publication date is a UTC timestamp on the date given,
/// and storing it again keeps it as it is.
pub proof fn lemma_stored_date_is_stable_timestamp(s: Seq<char>)
    ensures
        stored_publication_date(s) matches Some(t) ==> {
            &&& is_utc_timestamp(t)
            &&& t.take(10) == s.take(10)
            &&& stored_publication_date(t) == Some(t)
        },
{
    if is_date_only(s) {
        reveal_strlit(" 00:00:00+00:00");
        reveal_strlit("+00:00");
        let t = s + " 00:00:00+00:00"@;
        assert(t.len() == 25);
        assert(t.take(10) =~= s.take(10));
        assert forall|i: int| 0 <= i < 10 implies t[i] == s[i] by {}
        assert(digits_at(t, 0, 4));
        assert(digits_at(t, 5, 2));
        assert(digits_at(t, 8, 2));
        assert(two_digits(t, 5) == two_digits(s, 5));
        assert(two_digits(t, 8) == two_digits(s, 8));
        assert(date_prefix_ok(t));
        assert(digits_at(t, 11, 2));
        assert(digits_at(t, 14, 2));
        assert(digits_at(t, 17, 2));
        assert(time_ok(t));
        assert(t.subrange(19, 25) =~= "+00:00"@);
        assert(t.subrange(19, 19) =~= Seq::<char>::empty());
        assert(is_utc_timestamp(t));
        assert(!is_date_only(t));
    }
}

fn digits_in(s: &Vec<char>, start: usize, n: usize) -> (r: bool)
    requires
        start + n <= s.len(),
    ensures
        r == digits_at(s@, start as int, n as int),
{
    let end = start + n;
    let mut i: usize = start;
    while i < end
        invariant
            start <= i <= end,
            end == start + n,
            end <= s@.len(),
            digits_at(s@, start as int, i - start),
        decreases end - i,
    {
        if !('0' <= s[i] && s[i] <= '9') {
            return false;
        }
        i = i + 1;
    }
    true
}

fn two_at(s: &Vec<char>, i: usize) -> (r: u32)
    requires
        i + 2 <= s.len(),
        digits_at(s@, i as int, 2),
    ensures
        r == two_digits(s@, i as int),
{
    let a = s[i] as u32;
    let b = s[i + 1] as u32;
    assert(is_digit(s@[i as int]) && is_digit(s@[i + 1]));
    assert(48 <= a <= 57 && 48 <= b <= 57);
    (a - 48) * 10 + (b - 48)
}

fn date_prefix(s: &Vec<char>) -> (r: bool)
    ensures
        r == date_prefix_ok(s@),
{
    if s.len() < 10 || !digits_in(s, 0, 4) || s[4] != '-' || !digits_in(s, 5, 2) || s[7] != '-'
        || !digits_in(s, 8, 2) {
        return false;
    }
    let month = two_at(s, 5);
    let day = two_at(s, 8);
    1 <= month && month <= 12 && 1 <= day && day <= 31
}

fn time_part(s: &Vec<char>) -> (r: bool)
    ensures
        r == time_ok(s@),
{
    if s.len() < 19 || s[10] != ' ' || !digits_in(s, 11, 2) || s[13] != ':' || !digits_in(s, 14, 2)
        || s[16] != ':' || !digits_in(s, 17, 2) {
        return false;
    }
    two_at(s, 11) <= 23 && two_at(s, 14) <= 59 && two_at(s, 17) <= 59
}

/// Checks a publication date and gives the value stored for it:
/// `YYYY-MM-DD` becomes midnight UTC (`YYYY-MM-DD 00:00:00+00:00`), and a
/// Calibre UTC timestamp `YYYY-MM-DD HH:MM:SS[.fraction]+00:00` is kept.
/// Months run from 1 to 12, days from 1 to 31, hours below 24 and minutes
/// and seconds below 60.
///
/// Returns [`Error::InvalidInput`] for any other text.
pub fn publication_date_value(value: &str) -> (r: Result<String, Error>)
    ensures
        r is Ok <==> stored_publication_date(value@) is Some,
        r matches Ok(v) ==> stored_publication_date(value@) == Some(v@),
        r matches Err(e) ==> e is InvalidInput,
{
    let s = chars_of(value);
    proof {
        reveal_strlit("+00:00");
        reveal_strlit(" 00:00:00+00:00");
    }
    if s.len() == 10 && date_prefix(&s) {
        let mut out = s;
        append_str(&mut out, " 00:00:00+00:00");
        return Ok(string_of(&out));
    }
    if s.len() < 25 || !date_prefix(&s) || !time_part(&s) {
        return Err(invalid_input("publication date", "expected YYYY-MM-DD or YYYY-MM-DD HH:MM:SS[.fraction]+00:00"));
    }
    let n = s.len();
    let zone_ok = s[n - 6] == '+' && s[n - 5] == '0' && s[n - 4] == '0' && s[n - 3] == ':' && s[n
        - 2] == '0' && s[n - 1] == '0';
    proof {
        let z = s@.subrange(n - 6, n as int);
        if zone_ok {
            assert(z =~= "+00:00"@);
        }
        if z == "+00:00"@ {
            assert(z[0] == s@[n - 6] && z[1] == s@[n - 5] && z[2] == s@[n - 4]);
            assert(z[3] == s@[n - 3] && z[4] == s@[n - 2] && z[5] == s@[n - 1]);
        }
    }
    if !zone_ok {
        return Err(invalid_input("publication date", "a timestamp must be in UTC (+00:00)"));
    }
    let fraction_len = n - 6 - 19;
    let ghost f = s@.subrange(19, n - 6);
    let fraction = fraction_len == 0 || (fraction_len >= 2 && s[19] == '.' && digits_in(
        &s,
        20,
        fraction_len - 1,
    ));
    proof {
        if fraction_len >= 2 && s@[19] == '.' {
            assert(digits_at(s@, 20, fraction_len - 1) <==> digits_at(f, 1, f.len() - 1)) by {
                if digits_at(s@, 20, fraction_len - 1) {
                    assert forall|i: int| 1 <= i < 1 + f.len() - 1 implies is_digit(#[trigger] f[i]) by {
                        assert(f[i] == s@[19 + i]);
                    }
                }
                if digits_at(f, 1, f.len() - 1) {
                    assert forall|i: int| 20 <= i < 20 + fraction_len - 1 implies is_digit(#[trigger] s@[i]) by {
                        assert(f[i - 19] == s@[i]);
                    }
                }
            }
        }
    }
    if !fraction {
        return Err(invalid_input("publication date", "invalid fraction of a second"));
    }
    Ok(string_of(&s))
}

} // verus!
