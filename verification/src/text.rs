use vstd::prelude::*;

verus! {

/// `String::push` appends one character (std documents it as such).
pub assume_specification[ String::push ](s: &mut String, ch: char)
    ensures
        final(s)@ == old(s)@.push(ch),
;

/// The characters of a string slice, in order.
pub fn chars_of(s: &str) -> (res: Vec<char>)
    ensures
        res@ == s@,
{
    let mut res: Vec<char> = Vec::new();
    for c in it: s.chars()
        invariant
            it.seq() == s@,
            res@ == it.seq().take(it.index() as int),
    {
        res.push(c);
    }
    res
}

/// A string holding the given characters, in order.
pub fn string_of(chars: &Vec<char>) -> (res: String)
    ensures
        res@ == chars@,
{
    let mut res = String::new();
    let mut i: usize = 0;
    while i < chars.len()
        invariant
            i <= chars.len(),
            res@ == chars@.take(i as int),
        decreases chars.len() - i,
    {
        res.push(chars[i]);
        i = i + 1;
        assert(chars@.take(i as int) =~= chars@.take(i - 1).push(chars@[i - 1]));
    }
    assert(chars@.take(chars.len() as int) =~= chars@);
    res
}


/// Rust's `char::is_whitespace`: the Unicode `White_Space` property.
pub open spec fn is_ws(c: char) -> bool {
    let u = c as u32;
    ||| 0x09 <= u <= 0x0d
    ||| u == 0x20
    ||| u == 0x85
    ||| u == 0xa0
    ||| u == 0x1680
    ||| 0x2000 <= u <= 0x200a
    ||| u == 0x2028
    ||| u == 0x2029
    ||| u == 0x202f
    ||| u == 0x205f
    ||| u == 0x3000
}

/// Decides [`is_ws`].
pub fn is_whitespace(c: char) -> (r: bool)
    ensures
        r == is_ws(c),
{
    let u = c as u32;
    (0x09 <= u && u <= 0x0d) || u == 0x20 || u == 0x85 || u == 0xa0 || u == 0x1680 || (0x2000 <= u
        && u <= 0x200a) || u == 0x2028 || u == 0x2029 || u == 0x202f || u == 0x205f || u == 0x3000
}

/// `s` without its trailing whitespace.
pub open spec fn trim_end_ws(s: Seq<char>) -> Seq<char>
    decreases s.len(),
{
    if s.len() > 0 && is_ws(s.last()) {
        trim_end_ws(s.drop_last())
    } else {
        s
    }
}

/// `s` without its leading whitespace.
pub open spec fn trim_start_ws(s: Seq<char>) -> Seq<char>
    decreases s.len(),
{
    if s.len() > 0 && is_ws(s[0]) {
        trim_start_ws(s.drop_first())
    } else {
        s
    }
}

/// `s` without leading and trailing whitespace (`str::trim`).
pub open spec fn trim_ws(s: Seq<char>) -> Seq<char> {
    trim_start_ws(trim_end_ws(s))
}

/// What trimming keeps: a contiguous piece of the input.
pub proof fn lemma_trim_end_is_prefix(s: Seq<char>)
    ensures
        trim_end_ws(s).len() <= s.len(),
        trim_end_ws(s) == s.take(trim_end_ws(s).len() as int),
        trim_end_ws(s).len() > 0 ==> !is_ws(trim_end_ws(s).last()),
    decreases s.len(),
{
    if s.len() > 0 && is_ws(s.last()) {
        lemma_trim_end_is_prefix(s.drop_last());
        assert(s.drop_last().take(trim_end_ws(s).len() as int) =~= s.take(
            trim_end_ws(s).len() as int,
        ));
    } else {
        assert(s.take(s.len() as int) =~= s);
    }
}

/// What trimming keeps: a contiguous piece of the input.
pub proof fn lemma_trim_start_is_suffix(s: Seq<char>)
    ensures
        trim_start_ws(s).len() <= s.len(),
        trim_start_ws(s) == s.skip(s.len() - trim_start_ws(s).len()),
        trim_start_ws(s).len() > 0 ==> !is_ws(trim_start_ws(s)[0]),
    decreases s.len(),
{
    if s.len() > 0 && is_ws(s[0]) {
        lemma_trim_start_is_suffix(s.drop_first());
        assert(s.drop_first().skip(s.drop_first().len() - trim_start_ws(s).len()) =~= s.skip(
            s.len() - trim_start_ws(s).len(),
        ));
    } else {
        assert(s.skip(0) =~= s);
    }
}

/// Trimming trimmed text changes nothing.
pub proof fn lemma_trim_twice(s: Seq<char>)
    ensures
        trim_ws(trim_ws(s)) == trim_ws(s),
{
    let e = trim_end_ws(s);
    let t = trim_start_ws(e);
    lemma_trim_end_is_prefix(s);
    lemma_trim_start_is_suffix(e);
    if t.len() > 0 {
        assert(t.last() == e.last());
    }
    assert(trim_end_ws(t) == t);
    assert(trim_start_ws(t) == t);
}

/// Removes trailing whitespace.
pub fn trim_end(s: &Vec<char>) -> (res: Vec<char>)
    ensures
        res@ == trim_end_ws(s@),
{
    let mut k: usize = s.len();
    assert(s@.take(s.len() as int) =~= s@);
    while k > 0 && is_whitespace(s[k - 1])
        invariant
            k <= s.len(),
            trim_end_ws(s@) == trim_end_ws(s@.take(k as int)),
        decreases k,
    {
        assert(s@.take(k as int).drop_last() =~= s@.take(k - 1));
        k = k - 1;
    }
    assert(s@.take(s.len() as int) =~= s@);
    take(s, k)
}

/// Removes leading and trailing whitespace (`str::trim`).
pub fn trim(s: &Vec<char>) -> (res: Vec<char>)
    ensures
        res@ == trim_ws(s@),
{
    let e = trim_end(s);
    let mut k: usize = 0;
    assert(e@.skip(0) =~= e@);
    while k < e.len() && is_whitespace(e[k])
        invariant
            k <= e.len(),
            trim_start_ws(e@) == trim_start_ws(e@.skip(k as int)),
        decreases e.len() - k,
    {
        assert(e@.skip(k as int).drop_first() =~= e@.skip(k + 1));
        k = k + 1;
    }
    assert(e@.skip(0) =~= e@);
    skip(&e, k)
}

/// The first `n` characters.
pub fn take(s: &Vec<char>, n: usize) -> (res: Vec<char>)
    requires
        n <= s.len(),
    ensures
        res@ == s@.take(n as int),
{
    let mut res: Vec<char> = Vec::new();
    let mut i: usize = 0;
    while i < n
        invariant
            i <= n <= s.len(),
            res@ == s@.take(i as int),
        decreases n - i,
    {
        res.push(s[i]);
        i = i + 1;
        assert(s@.take(i as int) =~= s@.take(i - 1).push(s@[i - 1]));
    }
    res
}

/// All characters from position `n` on.
pub fn skip(s: &Vec<char>, n: usize) -> (res: Vec<char>)
    requires
        n <= s.len(),
    ensures
        res@ == s@.skip(n as int),
{
    let mut res: Vec<char> = Vec::new();
    let mut i: usize = n;
    while i < s.len()
        invariant
            n <= i <= s.len(),
            res@ == s@.subrange(n as int, i as int),
        decreases s.len() - i,
    {
        res.push(s[i]);
        i = i + 1;
        assert(s@.subrange(n as int, i as int) =~= s@.subrange(n as int, i - 1).push(s@[i - 1]));
    }
    assert(s@.subrange(n as int, s.len() as int) =~= s@.skip(n as int));
    res
}

/// Appends all of `other` to `out`.
pub fn append_chars(out: &mut Vec<char>, other: &Vec<char>)
    ensures
        final(out)@ == old(out)@ + other@,
{
    let mut i: usize = 0;
    while i < other.len()
        invariant
            i <= other.len(),
            out@ == old(out)@ + other@.take(i as int),
        decreases other.len() - i,
    {
        out.push(other[i]);
        i = i + 1;
        assert(other@.take(i as int) =~= other@.take(i - 1).push(other@[i - 1]));
    }
    assert(other@.take(other.len() as int) =~= other@);
}

/// Appends the characters of a string slice to `out`.
pub fn append_str(out: &mut Vec<char>, other: &str)
    ensures
        final(out)@ == old(out)@ + other@,
{
    let chars = chars_of(other);
    append_chars(out, &chars);
}

/// Whether two character sequences are equal.
pub fn chars_eq(a: &Vec<char>, b: &Vec<char>) -> (r: bool)
    ensures
        r == (a@ == b@),
{
    if a.len() != b.len() {
        return false;
    }
    let mut i: usize = 0;
    while i < a.len()
        invariant
            a.len() == b.len(),
            i <= a.len(),
            forall|j: int| 0 <= j < i ==> a@[j] == b@[j],
        decreases a.len() - i,
    {
        if a[i] != b[i] {
            return false;
        }
        i = i + 1;
    }
    assert(a@ =~= b@);
    true
}

/// The ASCII decimal digit for `d`.
pub open spec fn digit_char(d: nat) -> char {
    if d == 0 {
        '0'
    } else if d == 1 {
        '1'
    } else if d == 2 {
        '2'
    } else if d == 3 {
        '3'
    } else if d == 4 {
        '4'
    } else if d == 5 {
        '5'
    } else if d == 6 {
        '6'
    } else if d == 7 {
        '7'
    } else if d == 8 {
        '8'
    } else {
        '9'
    }
}

/// The decimal digits of `n`, most significant first, without leading zeros.
pub open spec fn dec_digits(n: nat) -> Seq<char>
    decreases n,
{
    if n < 10 {
        seq![digit_char(n)]
    } else {
        dec_digits(n / 10).push(digit_char(n % 10))
    }
}

/// The decimal text of an integer, as `i64`'s `Display` writes it.
pub open spec fn decimal(i: int) -> Seq<char> {
    if i < 0 {
        seq!['-'] + dec_digits((-i) as nat)
    } else {
        dec_digits(i as nat)
    }
}

/// The ASCII digit for a value below ten.
pub fn digit_of(d: u8) -> (c: char)
    requires
        d < 10,
    ensures
        c == digit_char(d as nat),
{
    match d {
        0 => '0',
        1 => '1',
        2 => '2',
        3 => '3',
        4 => '4',
        5 => '5',
        6 => '6',
        7 => '7',
        8 => '8',
        _ => '9',
    }
}

/// The decimal text of `value` (the text `i64::to_string` gives).
pub fn decimal_chars(value: i64) -> (res: Vec<char>)
    ensures
        res@ == decimal(value as int),
{
    let negative = value < 0;
    let magnitude: u64 = if value == i64::MIN {
        9223372036854775808u64
    } else if negative {
        (-value) as u64
    } else {
        value as u64
    };
    assert(negative ==> magnitude as int == -(value as int));
    let mut m: u64 = magnitude;
    let mut acc: Vec<char> = Vec::new();
    while m >= 10
        invariant
            dec_digits(magnitude as nat) == dec_digits(m as nat) + acc@,
        decreases m,
    {
        let c = digit_of((m % 10) as u8);
        proof {
            assert(dec_digits(m as nat) == dec_digits((m / 10) as nat).push(
                digit_char((m % 10) as nat),
            ));
        }
        acc.insert(0, c);
        assert(dec_digits(magnitude as nat) =~= dec_digits((m / 10) as nat) + acc@);
        m = m / 10;
    }
    let last = digit_of(m as u8);
    acc.insert(0, last);
    assert(dec_digits(magnitude as nat) =~= acc@);
    if negative {
        let mut res: Vec<char> = Vec::new();
        res.push('-');
        append_chars(&mut res, &acc);
        assert(res@ =~= seq!['-'] + dec_digits(magnitude as nat));
        res
    } else {
        acc
    }
}

/// The decimal text of `value` (the text `i64::to_string` gives).
pub fn decimal_string(value: i64) -> (res: String)
    ensures
        res@ == decimal(value as int),
{
    string_of(&decimal_chars(value))
}


/// An ASCII decimal digit.
pub open spec fn is_digit(c: char) -> bool {
    '0' <= c && c <= '9'
}

/// Every character is an ASCII decimal digit.
pub open spec fn all_digits(s: Seq<char>) -> bool {
    forall|i: int| 0 <= i < s.len() ==> is_digit(#[trigger] s[i])
}

/// The value of a run of decimal digits.
pub open spec fn digits_value(s: Seq<char>) -> nat
    decreases s.len(),
{
    if s.len() == 0 {
        0
    } else {
        digits_value(s.drop_last()) * 10 + ((s.last() as u32) - ('0' as u32)) as nat
    }
}

/// What `str::parse::<i64>` accepts and gives: an optional `+` or `-`
/// followed by one or more ASCII digits whose value fits in `i64`.
pub open spec fn parse_int(s: Seq<char>) -> Option<int> {
    let negative = s.len() > 0 && s[0] == '-';
    let body = if s.len() > 0 && (s[0] == '-' || s[0] == '+') {
        s.drop_first()
    } else {
        s
    };
    if body.len() == 0 || !all_digits(body) {
        None
    } else {
        let value = if negative {
            -(digits_value(body) as int)
        } else {
            digits_value(body) as int
        };
        if i64::MIN <= value <= i64::MAX {
            Some(value)
        } else {
            None
        }
    }
}

proof fn lemma_digits_value_prefix(s: Seq<char>, k: int)
    requires
        0 <= k <= s.len(),
        all_digits(s),
    ensures
        digits_value(s.take(k)) <= digits_value(s),
    decreases s.len(),
{
    if k < s.len() {
        assert(s.drop_last().take(k) =~= s.take(k));
        lemma_digits_value_prefix(s.drop_last(), k);
    } else {
        assert(s.take(k) =~= s);
    }
}

/// Parses a decimal `i64` as `str::parse::<i64>` does.
pub fn parse_i64(text: &str) -> (res: Option<i64>)
    ensures
        res matches Some(v) ==> parse_int(text@) == Some(v as int),
        res is None ==> parse_int(text@) is None,
{
    let s = chars_of(text);
    let negative = s.len() > 0 && s[0] == '-';
    let start: usize = if s.len() > 0 && (s[0] == '-' || s[0] == '+') {
        1
    } else {
        0
    };
    let ghost body = if s@.len() > 0 && (s@[0] == '-' || s@[0] == '+') {
        s@.drop_first()
    } else {
        s@
    };
    assert(body =~= s@.skip(start as int));
    if start >= s.len() {
        return None;
    }
    let bound: u128 = 9223372036854775808;
    let mut magnitude: u128 = 0;
    let mut i: usize = start;
    while i < s.len()
        invariant
            s@ == text@,
            negative == (s@.len() > 0 && s@[0] == '-'),
            body == (if s@.len() > 0 && (s@[0] == '-' || s@[0] == '+') {
                s@.drop_first()
            } else {
                s@
            }),
            start <= i <= s.len(),
            body == s@.skip(start as int),
            magnitude <= bound,
            bound == 9223372036854775808,
            all_digits(body.take(i - start)),
            magnitude == digits_value(body.take(i - start)),
        decreases s.len() - i,
    {
        let c = s[i];
        if !('0' <= c && c <= '9') {
            assert(body[i - start] == c);
            return None;
        }
        let d = (c as u32 - '0' as u32) as u128;
        assert(body.take(i + 1 - start).drop_last() =~= body.take(i - start));
        assert(body.take(i + 1 - start).last() == c);
        assert(all_digits(body.take(i + 1 - start)));
        let next = magnitude * 10 + d;
        i = i + 1;
        if next > bound {
            proof {
                assert(all_digits(body.take(i - start)));
                if all_digits(body) {
                    lemma_digits_value_prefix(body, i - start);
                }
            }
            return None;
        }
        magnitude = next;
    }
    assert(body.take(s.len() - start) =~= body);
    if negative {
        if magnitude == bound {
            Some(i64::MIN)
        } else {
            Some(-(magnitude as i64))
        }
    } else if magnitude == bound {
        None
    } else {
        Some(magnitude as i64)
    }
}

proof fn lemma_digit_char(k: nat)
    requires
        k < 10,
    ensures
        is_digit(digit_char(k)),
        (digit_char(k) as u32) - ('0' as u32) == k,
{
}

pub(crate) proof fn lemma_dec_digits(n: nat)
    ensures
        dec_digits(n).len() > 0,
        all_digits(dec_digits(n)),
        digits_value(dec_digits(n)) == n,
    decreases n,
{
    let d = dec_digits(n);
    if n >= 10 {
        lemma_dec_digits(n / 10);
        lemma_digit_char(n % 10);
        assert(d.drop_last() =~= dec_digits(n / 10));
        assert(d.last() == digit_char(n % 10));
        assert(digits_value(d) == digits_value(d.drop_last()) * 10 + ((d.last() as u32) - ('0'
            as u32)) as nat);
        assert(n == (n / 10) * 10 + n % 10) by (nonlinear_arith);
    } else {
        lemma_digit_char(n);
        assert(d.drop_last() =~= Seq::<char>::empty());
        assert(digits_value(d) == digits_value(d.drop_last()) * 10 + ((d.last() as u32) - ('0'
            as u32)) as nat);
    }
}

/// Reading back the decimal text of any `i64` gives the same number.
pub proof fn lemma_parse_decimal_round_trip(value: i64)
    ensures
        parse_int(decimal(value as int)) == Some(value as int),
{
    if value < 0 {
        let m = (-(value as int)) as nat;
        lemma_dec_digits(m);
        assert(decimal(value as int).drop_first() =~= dec_digits(m));
    } else {
        lemma_dec_digits(value as nat);
    }
}

// ---------------------------------------------------------------------------
// Lines
// ---------------------------------------------------------------------------
/// The position of the first `\n` of `s`, or its length when it has none.
pub open spec fn first_newline(s: Seq<char>) -> nat
    decreases s.len(),
{
    if s.len() == 0 {
        0
    } else if s[0] == '\n' {
        0
    } else {
        1 + first_newline(s.drop_first())
    }
}

/// A line without the `\r` that ends it before its `\n`.
pub open spec fn strip_cr(line: Seq<char>) -> Seq<char> {
    if line.len() > 0 && line.last() == '\r' {
        line.drop_last()
    } else {
        line
    }
}

/// The lines of `s`, as `str::lines` yields them: split at each `\n`, a
/// `\r` before it dropped, with no empty line after a final `\n`.
pub open spec fn lines_of(s: Seq<char>) -> Seq<Seq<char>>
    decreases s.len(),
{
    if s.len() == 0 {
        Seq::empty()
    } else {
        let k = first_newline(s);
        if k >= s.len() {
            seq![s]
        } else {
            seq![strip_cr(s.take(k as int))] + lines_of(s.skip(k + 1 as int))
        }
    }
}

/// `first_newline` finds the first `\n` after a run without one.
pub proof fn lemma_first_newline(s: Seq<char>, k: int)
    requires
        0 <= k <= s.len(),
        forall|j: int| 0 <= j < k ==> s[j] != '\n',
        k < s.len() ==> s[k] == '\n',
    ensures
        first_newline(s) == k,
    decreases k,
{
    if k > 0 {
        lemma_first_newline(s.drop_first(), k - 1);
    }
}

/// The lines of a line without `\n` followed by a `\n` and more text.
pub proof fn lemma_lines_cons(line: Seq<char>, rest: Seq<char>)
    requires
        forall|j: int| 0 <= j < line.len() ==> line[j] != '\n',
    ensures
        lines_of(line + seq!['\n'] + rest) == seq![strip_cr(line)] + lines_of(rest),
{
    let s = line + seq!['\n'] + rest;
    lemma_first_newline(s, line.len() as int);
    assert(s.take(line.len() as int) =~= line);
    assert(s.skip(line.len() + 1 as int) =~= rest);
}

/// Splits text into lines as `str::lines` does.
pub fn split_lines(text: &str) -> (r: Vec<Vec<char>>)
    ensures
        r@.map_values(|l: Vec<char>| l@) == lines_of(text@),
{
    let s = chars_of(text);
    let mut out: Vec<Vec<char>> = Vec::new();
    let mut start: usize = 0;
    let mut i: usize = 0;
    assert(s@.skip(0) =~= s@);
    assert(out@.map_values(|l: Vec<char>| l@) =~= Seq::<Seq<char>>::empty());
    while i < s.len()
        invariant
            s@ == text@,
            start <= i <= s.len(),
            forall|j: int| start <= j < i ==> s@[j] != '\n',
            out@.map_values(|l: Vec<char>| l@) + lines_of(s@.skip(start as int)) == lines_of(s@),
        decreases s.len() - i,
    {
        if s[i] == '\n' {
            let line = skip(&take(&s, i), start);
            let ghost u = s@.skip(start as int);
            proof {
                lemma_first_newline(u, i - start);
                assert(u.take(i - start) =~= line@);
                assert(u.skip(i - start + 1) =~= s@.skip(i + 1));
            }
            let stripped = if line.len() > 0 && line[line.len() - 1] == '\r' {
                take(&line, line.len() - 1)
            } else {
                line
            };
            let ghost before = out@.map_values(|l: Vec<char>| l@);
            out.push(stripped);
            assert(out@.map_values(|l: Vec<char>| l@) =~= before.push(stripped@));
            assert(before + lines_of(u) =~= out@.map_values(|l: Vec<char>| l@) + lines_of(
                s@.skip(i + 1),
            ));
            start = i + 1;
        }
        i = i + 1;
    }
    let ghost u = s@.skip(start as int);
    if start < s.len() {
        proof {
            lemma_first_newline(u, u.len() as int);
        }
        let rest = skip(&s, start);
        let ghost before = out@.map_values(|l: Vec<char>| l@);
        out.push(rest);
        assert(out@.map_values(|l: Vec<char>| l@) =~= before + lines_of(u));
    } else {
        assert(u.len() == 0);
        assert(out@.map_values(|l: Vec<char>| l@) + lines_of(u) =~= out@.map_values(
            |l: Vec<char>| l@,
        ));
    }
    out
}

/// Whether a string slice starts with the characters of `prefix`.
pub fn starts_with_chars(s: &[u8], prefix: &[u8]) -> (r: bool)
    ensures
        r == prefix@.is_prefix_of(s@),
{
    if s.len() < prefix.len() {
        return false;
    }
    let mut i: usize = 0;
    while i < prefix.len()
        invariant
            prefix.len() <= s.len(),
            i <= prefix.len(),
            forall|j: int| 0 <= j < i ==> s@[j] == prefix@[j],
        decreases prefix.len() - i,
    {
        if s[i] != prefix[i] {
            assert(s@.subrange(0, prefix@.len() as int)[i as int] != prefix@[i as int]);
            return false;
        }
        i = i + 1;
    }
    assert(prefix@ =~= s@.subrange(0, prefix@.len() as int));
    true
}

} // verus!
