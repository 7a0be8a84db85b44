//! Character-level text handling used by the settings formats: trimming, case folding,
//! searching and decimal numbers, each stated over the string's characters.
use vstd::prelude::*;

verus! {

/// `String::push` appends one character.
pub assume_specification[ String::push ](s: &mut String, ch: char)
    ensures
        final(s)@ == old(s)@.push(ch),
;

/// Unicode `White_Space`, the set that `char::is_whitespace` and `str::trim` use.
pub open spec fn is_whitespace(c: char) -> bool {
    ||| ('\u{9}' <= c && c <= '\u{d}')
    ||| c == ' '
    ||| c == '\u{85}'
    ||| c == '\u{a0}'
    ||| c == '\u{1680}'
    ||| ('\u{2000}' <= c && c <= '\u{200a}')
    ||| c == '\u{2028}'
    ||| c == '\u{2029}'
    ||| c == '\u{202f}'
    ||| c == '\u{205f}'
    ||| c == '\u{3000}'
}

pub open spec fn trim_start(s: Seq<char>) -> Seq<char>
    decreases s.len(),
{
    if s.len() > 0 && is_whitespace(s[0]) {
        trim_start(s.drop_first())
    } else {
        s
    }
}

pub open spec fn trim_end(s: Seq<char>) -> Seq<char>
    decreases s.len(),
{
    if s.len() > 0 && is_whitespace(s.last()) {
        trim_end(s.drop_last())
    } else {
        s
    }
}

/// `s` without leading and trailing whitespace, as `str::trim` gives it.
pub open spec fn trim(s: Seq<char>) -> Seq<char> {
    trim_end(trim_start(s))
}

pub open spec fn ascii_upper(c: char) -> char {
    if 'a' <= c && c <= 'z' {
        ((c as u32) - 32) as char
    } else {
        c
    }
}

pub open spec fn ascii_lower(c: char) -> char {
    if 'A' <= c && c <= 'Z' {
        ((c as u32) + 32) as char
    } else {
        c
    }
}

/// `s` with ASCII letters in upper case, as `str::to_ascii_uppercase` gives it.
pub open spec fn to_ascii_upper(s: Seq<char>) -> Seq<char> {
    s.map_values(|c: char| ascii_upper(c))
}

/// Equality of two strings up to the case of ASCII letters.
pub open spec fn eq_ignore_ascii_case(a: Seq<char>, b: Seq<char>) -> bool {
    a.len() == b.len() && forall|i: int| 0 <= i < a.len() ==> ascii_lower(#[trigger] a[i]) == ascii_lower(b[i])
}

pub open spec fn is_ascii_digit(c: char) -> bool {
    '0' <= c && c <= '9'
}

pub open spec fn is_ascii_hexdigit(c: char) -> bool {
    ||| is_ascii_digit(c)
    ||| ('a' <= c && c <= 'f')
    ||| ('A' <= c && c <= 'F')
}

/// `needle` occurs in `s` at index `i`.
pub open spec fn occurs_at(s: Seq<char>, needle: Seq<char>, i: int) -> bool {
    0 <= i && i + needle.len() <= s.len() && s.subrange(i, i + needle.len()) == needle
}

/// The first index at or after `from` where `needle` occurs, as `str::find` reports it.
pub open spec fn find_from(s: Seq<char>, needle: Seq<char>, from: int) -> Option<int>
    decreases s.len() + 1 - from,
{
    if from < 0 || from + needle.len() > s.len() {
        None
    } else if occurs_at(s, needle, from) {
        Some(from)
    } else {
        find_from(s, needle, from + 1)
    }
}

pub open spec fn find(s: Seq<char>, needle: Seq<char>) -> Option<int> {
    find_from(s, needle, 0)
}

pub open spec fn starts_with(s: Seq<char>, prefix: Seq<char>) -> bool {
    prefix.len() <= s.len() && s.subrange(0, prefix.len() as int) == prefix
}

pub open spec fn digit_char(d: int) -> char {
    (d + '0' as int) as char
}

/// Decimal digits of `n`, most significant first, with no leading zeros.
pub open spec fn decimal(n: nat) -> Seq<char>
    decreases n,
{
    if n < 10 {
        seq![digit_char(n as int)]
    } else {
        decimal(n / 10).push(digit_char((n % 10) as int))
    }
}

/// The number that a sequence of decimal digits spells.
pub open spec fn digits_value(s: Seq<char>) -> nat
    decreases s.len(),
{
    if s.len() == 0 {
        0
    } else {
        digits_value(s.drop_last()) * 10 + ((s.last() as int) - ('0' as int)) as nat
    }
}

pub open spec fn all_digits(s: Seq<char>) -> bool {
    forall|i: int| 0 <= i < s.len() ==> is_ascii_digit(#[trigger] s[i])
}

/// What `str::parse::<u16>` gives: digits with an optional leading `+`, and a value that fits.
pub open spec fn parse_u16(s: Seq<char>) -> Option<u16> {
    let digits = if s.len() > 0 && s[0] == '+' {
        s.drop_first()
    } else {
        s
    };
    if digits.len() > 0 && all_digits(digits) && digits_value(digits) <= u16::MAX {
        Some(digits_value(digits) as u16)
    } else {
        None
    }
}

/// The characters of a string, in order.
pub fn chars_of(s: &str) -> (v: Vec<char>)
    ensures
        v@ == s@,
{
    let mut v: Vec<char> = Vec::new();
    proof {
        broadcast use vstd::string::group_string_axioms;
    }
    for c in it: s.chars()
        invariant
            v@ == it.seq().take(it.index() as int),
    {
        v.push(c);
    }
    v
}

/// A string holding the given characters.
pub fn string_of(cs: &[char]) -> (s: String)
    ensures
        s@ == cs@,
{
    let mut s = String::new();
    let mut i: usize = 0;
    while i < cs.len()
        invariant
            i <= cs.len(),
            s@ == cs@.take(i as int),
        decreases cs.len() - i,
    {
        s.push(cs[i]);
        i += 1;
        proof {
            assert(cs@.take(i as int) == cs@.take(i - 1).push(cs@[i - 1]));
        }
    }
    proof {
        assert(cs@.take(cs.len() as int) == cs@);
    }
    s
}

/// Appends characters to a string.
pub fn push_chars(s: &mut String, cs: &[char])
    ensures
        final(s)@ == old(s)@ + cs@,
{
    let mut i: usize = 0;
    while i < cs.len()
        invariant
            i <= cs.len(),
            s@ == old(s)@ + cs@.take(i as int),
        decreases cs.len() - i,
    {
        s.push(cs[i]);
        i += 1;
        proof {
            assert(cs@.take(i as int) == cs@.take(i - 1).push(cs@[i - 1]));
        }
    }
    proof {
        assert(cs@.take(cs.len() as int) == cs@);
    }
}

pub fn char_is_whitespace(c: char) -> (b: bool)
    ensures
        b == is_whitespace(c),
{
    ('\u{9}' <= c && c <= '\u{d}') || c == ' ' || c == '\u{85}' || c == '\u{a0}' || c
        == '\u{1680}' || ('\u{2000}' <= c && c <= '\u{200a}') || c == '\u{2028}' || c
        == '\u{2029}' || c == '\u{202f}' || c == '\u{205f}' || c == '\u{3000}'
}

/// The index of the first non-whitespace character.
pub fn trim_start_index(s: &[char]) -> (i: usize)
    ensures
        i <= s.len(),
        trim_start(s@) == s@.skip(i as int),
{
    let mut i: usize = 0;
    proof {
        assert(s@.skip(0) == s@);
    }
    while i < s.len() && char_is_whitespace(s[i])
        invariant
            i <= s.len(),
            trim_start(s@) == trim_start(s@.skip(i as int)),
        decreases s.len() - i,
    {
        proof {
            assert(s@.skip(i as int).drop_first() == s@.skip(i + 1));
        }
        i += 1;
    }
    i
}

/// The index just past the last non-whitespace character.
pub fn trim_end_index(s: &[char]) -> (j: usize)
    ensures
        j <= s.len(),
        trim_end(s@) == s@.take(j as int),
{
    let mut j: usize = s.len();
    proof {
        assert(s@.take(s.len() as int) == s@);
    }
    while j > 0 && char_is_whitespace(s[j - 1])
        invariant
            j <= s.len(),
            trim_end(s@) == trim_end(s@.take(j as int)),
        decreases j,
    {
        proof {
            assert(s@.take(j as int).drop_last() == s@.take(j - 1));
        }
        j -= 1;
    }
    j
}

/// `s` without leading and trailing whitespace.
pub fn trimmed(s: &[char]) -> (r: Vec<char>)
    ensures
        r@ == trim(s@),
{
    let start = trim_start_index(s);
    let rest = copy_range(s, start, s.len());
    proof {
        assert(rest@ == s@.skip(start as int));
    }
    let end = trim_end_index(rest.as_slice());
    copy_range(rest.as_slice(), 0, end)
}

/// The characters of `s` from `from` up to (not including) `to`.
pub fn copy_range(s: &[char], from: usize, to: usize) -> (r: Vec<char>)
    requires
        from <= to <= s.len(),
    ensures
        r@ == s@.subrange(from as int, to as int),
{
    let mut r: Vec<char> = Vec::new();
    let mut i = from;
    while i < to
        invariant
            from <= i <= to <= s.len(),
            r@ == s@.subrange(from as int, i as int),
        decreases to - i,
    {
        r.push(s[i]);
        i += 1;
        proof {
            assert(s@.subrange(from as int, i as int) == s@.subrange(from as int, i - 1).push(
                s@[i - 1],
            ));
        }
    }
    r
}

/// `s` with ASCII letters in upper case.
pub fn uppercased(s: &[char]) -> (r: Vec<char>)
    ensures
        r@ == to_ascii_upper(s@),
{
    let mut r: Vec<char> = Vec::new();
    let mut i: usize = 0;
    while i < s.len()
        invariant
            i <= s.len(),
            r@ == to_ascii_upper(s@.take(i as int)),
        decreases s.len() - i,
    {
        let c = s[i];
        let u = if 'a' <= c && c <= 'z' {
            ((c as u32) - 32) as u8 as char
        } else {
            c
        };
        proof {
            if 'a' <= c && c <= 'z' {
                assert(((c as u32) - 32) as u8 as char == ((c as u32) - 32) as char);
            }
            assert(s@.take(i + 1) == s@.take(i as int).push(c));
        }
        r.push(u);
        i += 1;
        proof {
            assert(r@ == to_ascii_upper(s@.take(i as int)));
        }
    }
    proof {
        assert(s@.take(s.len() as int) == s@);
    }
    r
}

pub fn char_is_hexdigit(c: char) -> (b: bool)
    ensures
        b == is_ascii_hexdigit(c),
{
    ('0' <= c && c <= '9') || ('a' <= c && c <= 'f') || ('A' <= c && c <= 'F')
}

/// Whether `needle` occurs in `s` at index `i`.
pub fn occurs_at_index(s: &[char], needle: &[char], i: usize) -> (b: bool)
    ensures
        b == occurs_at(s@, needle@, i as int),
{
    if i > s.len() || needle.len() > s.len() - i {
        return false;
    }
    let mut k: usize = 0;
    while k < needle.len()
        invariant
            i + needle.len() <= s.len(),
            k <= needle.len(),
            forall|m: int| 0 <= m < k ==> s@[i + m] == needle@[m],
        decreases needle.len() - k,
    {
        if s[i + k] != needle[k] {
            proof {
                assert(s@.subrange(i as int, i + needle.len())[k as int] != needle@[k as int]);
            }
            return false;
        }
        k += 1;
    }
    proof {
        assert(s@.subrange(i as int, i + needle.len()) == needle@);
    }
    true
}

/// The first index at or after `from` where `needle` occurs in `s`.
pub fn find_in(s: &[char], needle: &[char], from: usize) -> (r: Option<usize>)
    ensures
        r matches Some(i) ==> find_from(s@, needle@, from as int) == Some(i as int),
        r is None ==> find_from(s@, needle@, from as int) is None,
{
    let mut i = from;
    while i <= s.len() && needle.len() <= s.len() - i
        invariant
            from <= i,
            find_from(s@, needle@, from as int) == find_from(s@, needle@, i as int),
        decreases s.len() + 1 - i,
    {
        if occurs_at_index(s, needle, i) {
            return Some(i);
        }
        proof {
            if i == s.len() {
                assert(s@.subrange(i as int, i as int) == needle@);
            }
        }
        i += 1;
    }
    None
}

/// Whether `s` starts with `prefix`.
pub fn has_prefix(s: &[char], prefix: &[char]) -> (b: bool)
    ensures
        b == starts_with(s@, prefix@),
{
    let b = occurs_at_index(s, prefix, 0);
    proof {
        if b {
            assert(s@.subrange(0, prefix@.len() as int) == prefix@);
        }
    }
    b
}

/// Whether two character sequences are equal up to the case of ASCII letters.
pub fn equal_ignoring_ascii_case(a: &[char], b: &[char]) -> (r: bool)
    ensures
        r == eq_ignore_ascii_case(a@, b@),
{
    if a.len() != b.len() {
        return false;
    }
    let mut i: usize = 0;
    while i < a.len()
        invariant
            a.len() == b.len(),
            i <= a.len(),
            forall|k: int| 0 <= k < i ==> ascii_lower(#[trigger] a@[k]) == ascii_lower(b@[k]),
        decreases a.len() - i,
    {
        let x = a[i];
        let y = b[i];
        let lx = if 'A' <= x && x <= 'Z' {
            (x as u32) + 32
        } else {
            x as u32
        };
        let ly = if 'A' <= y && y <= 'Z' {
            (y as u32) + 32
        } else {
            y as u32
        };
        if lx != ly {
            proof {
                assert(ascii_lower(a@[i as int]) as u32 == lx);
                assert(ascii_lower(b@[i as int]) as u32 == ly);
            }
            return false;
        }
        proof {
            assert(ascii_lower(a@[i as int]) as u32 == lx);
            assert(ascii_lower(b@[i as int]) as u32 == ly);
        }
        i += 1;
    }
    true
}

/// Appends the decimal digits of `n`.
pub fn push_decimal(s: &mut String, n: u64)
    ensures
        final(s)@ == old(s)@ + decimal(n as nat),
    decreases n,
{
    if n >= 10 {
        push_decimal(s, n / 10);
    }
    let d = (n % 10) as u8;
    let c = (48u8 + d) as char;
    proof {
        assert(c == digit_char((n % 10) as int));
    }
    s.push(c);
    proof {
        if n >= 10 {
            assert(decimal(n as nat) == decimal((n / 10) as nat).push(c));
        } else {
            assert(decimal(n as nat) == seq![c]);
        }
    }
}

/// The decimal spelling of `n` as a string.
pub fn decimal_string(n: u64) -> (s: String)
    ensures
        s@ == decimal(n as nat),
{
    let mut s = String::new();
    push_decimal(&mut s, n);
    proof {
        assert(Seq::<char>::empty() + decimal(n as nat) == decimal(n as nat));
    }
    s
}

/// Parses an unsigned 16-bit decimal number as `str::parse::<u16>` does.
pub fn parse_u16_chars(s: &[char]) -> (r: Option<u16>)
    ensures
        r == parse_u16(s@),
{
    let start: usize = if s.len() > 0 && s[0] == '+' {
        1
    } else {
        0
    };
    let ghost digits = if s@.len() > 0 && s@[0] == '+' {
        s@.drop_first()
    } else {
        s@
    };
    proof {
        assert(digits == s@.skip(start as int));
    }
    if start == s.len() {
        return None;
    }
    let mut value: u32 = 0;
    let mut overflow = false;
    let mut k = start;
    while k < s.len()
        invariant
            start <= k <= s.len(),
            digits == s@.skip(start as int),
            digits == (if s@.len() > 0 && s@[0] == '+' {
                s@.drop_first()
            } else {
                s@
            }),
            all_digits(s@.subrange(start as int, k as int)),
            overflow ==> digits_value(s@.subrange(start as int, k as int)) > u16::MAX,
            !overflow ==> value == digits_value(s@.subrange(start as int, k as int)),
            !overflow ==> value <= u16::MAX,
        decreases s.len() - k,
    {
        let c = s[k];
        if !('0' <= c && c <= '9') {
            proof {
                assert(digits[k - start] == c);
                assert(!is_ascii_digit(digits[k - start]));
            }
            return None;
        }
        let ghost prev = s@.subrange(start as int, k as int);
        let ghost next = s@.subrange(start as int, k + 1);
        proof {
            assert(next.drop_last() == prev);
            assert(next.last() == c);
            assert(all_digits(next));
        }
        if !overflow {
            let d = (c as u32) - ('0' as u32);
            value = value * 10 + d;
            if value > 65535 {
                overflow = true;
            }
        }
        k += 1;
    }
    proof {
        assert(s@.subrange(start as int, s.len() as int) == digits);
    }
    if overflow {
        None
    } else {
        Some(value as u16)
    }
}

/// Decimal spellings are non-empty digit strings whose value is the number spelled.
pub proof fn lemma_decimal_digits(n: nat)
    ensures
        decimal(n).len() > 0,
        all_digits(decimal(n)),
        digits_value(decimal(n)) == n,
    decreases n,
{
    if n >= 10 {
        lemma_decimal_digits(n / 10);
        let d = decimal(n);
        assert(d.drop_last() == decimal(n / 10));
        assert(d.last() == digit_char((n % 10) as int));
        lemma_digit_char((n % 10) as int);
        vstd::arithmetic::div_mod::lemma_fundamental_div_mod(n as int, 10);
        assert('0' as int == 48);
        assert(digits_value(d) == digits_value(d.drop_last()) * 10 + ((d.last() as int) - ('0' as int)) as nat);
        assert forall|i: int| 0 <= i < d.len() implies is_ascii_digit(#[trigger] d[i]) by {
            if i < d.len() - 1 {
                assert(d[i] == decimal(n / 10)[i]);
            }
        }
    } else {
        lemma_digit_char(n as int);
        assert(decimal(n).drop_last() == Seq::<char>::empty());
        assert(digits_value(Seq::<char>::empty()) == 0);
        assert(decimal(n).last() == digit_char(n as int));
    }
}

proof fn lemma_digit_char(d: int)
    requires
        0 <= d <= 9,
    ensures
        digit_char(d) as int == d + 48,
        is_ascii_digit(digit_char(d)),
{
}

/// Reading back the decimal spelling of a 16-bit number gives the number.
pub proof fn lemma_parse_decimal(n: u16)
    ensures
        parse_u16(decimal(n as nat)) == Some(n),
{
    lemma_decimal_digits(n as nat);
    assert(decimal(n as nat)[0] != '+');
}

/// Neither end of `s` is whitespace.
pub open spec fn is_trimmed(s: Seq<char>) -> bool {
    s.len() > 0 ==> !is_whitespace(s[0]) && !is_whitespace(s.last())
}

proof fn lemma_trim_start_result(s: Seq<char>)
    ensures
        trim_start(s).len() > 0 ==> !is_whitespace(trim_start(s)[0]),
        trim_start(s).len() <= s.len(),
    decreases s.len(),
{
    if s.len() > 0 && is_whitespace(s[0]) {
        lemma_trim_start_result(s.drop_first());
    }
}

proof fn lemma_trim_end_result(s: Seq<char>)
    ensures
        trim_end(s).len() > 0 ==> !is_whitespace(trim_end(s).last()),
        trim_end(s).len() <= s.len(),
        trim_end(s) == s.take(trim_end(s).len() as int),
    decreases s.len(),
{
    if s.len() > 0 && is_whitespace(s.last()) {
        lemma_trim_end_result(s.drop_last());
        assert(s.drop_last().take(trim_end(s).len() as int) == s.take(trim_end(s).len() as int));
    } else {
        assert(s.take(s.len() as int) == s);
    }
}

/// Trimming leaves no whitespace at either end.
pub proof fn lemma_trim_is_trimmed(s: Seq<char>)
    ensures
        is_trimmed(trim(s)),
{
    lemma_trim_start_result(s);
    lemma_trim_end_result(trim_start(s));
}

/// A string with no whitespace at either end is its own trim.
pub proof fn lemma_trimmed_fixed(s: Seq<char>)
    requires
        is_trimmed(s),
    ensures
        trim(s) == s,
{
    if s.len() > 0 {
        assert(trim_start(s) == s);
        assert(trim_end(s) == s);
    } else {
        assert(trim_start(s) == s);
        assert(trim_end(s) == s);
    }
}

/// Upper-casing ASCII letters keeps a trimmed string trimmed.
pub proof fn lemma_upper_keeps_trimmed(s: Seq<char>)
    requires
        is_trimmed(s),
    ensures
        is_trimmed(to_ascii_upper(s)),
        to_ascii_upper(s).len() == s.len(),
{
    let u = to_ascii_upper(s);
    if s.len() > 0 {
        assert(u[0] == ascii_upper(s[0]));
        assert(u.last() == ascii_upper(s.last()));
    }
}

/// The trimmed, upper-cased form of a string is its own trim.
pub proof fn lemma_upper_trim_fixed(v: Seq<char>)
    ensures
        trim(to_ascii_upper(trim(v))) == to_ascii_upper(trim(v)),
{
    lemma_trim_is_trimmed(v);
    lemma_upper_keeps_trimmed(trim(v));
    lemma_trimmed_fixed(to_ascii_upper(trim(v)));
}

/// The first index at or after `from` holding `c`.
pub open spec fn char_index_from(s: Seq<char>, c: char, from: int) -> Option<int>
    decreases s.len() - from,
{
    if from < 0 || from >= s.len() {
        None
    } else if s[from] == c {
        Some(from)
    } else {
        char_index_from(s, c, from + 1)
    }
}

pub open spec fn char_index(s: Seq<char>, c: char) -> Option<int> {
    char_index_from(s, c, 0)
}

/// `s` with one trailing carriage return removed.
pub open spec fn strip_cr(s: Seq<char>) -> Seq<char> {
    if s.len() > 0 && s.last() == '\r' {
        s.drop_last()
    } else {
        s
    }
}

/// The lines of a text as `str::lines` gives them: split at each newline, a carriage
/// return just before a newline dropped, and no empty line after a final newline.
pub open spec fn lines(s: Seq<char>) -> Seq<Seq<char>>
    decreases s.len(),
{
    if s.len() == 0 {
        Seq::empty()
    } else {
        match char_index(s, '\n') {
            None => seq![s],
            Some(i) => {
                if 0 <= i < s.len() {
                    seq![strip_cr(s.take(i))] + lines(s.skip(i + 1))
                } else {
                    Seq::empty()
                }
            },
        }
    }
}

/// The pieces of `s` between occurrences of `c`, as `str::split` gives them.
pub open spec fn split_on(s: Seq<char>, c: char) -> Seq<Seq<char>>
    decreases s.len(),
{
    match char_index(s, c) {
        None => seq![s],
        Some(i) => {
            if 0 <= i < s.len() {
                seq![s.take(i)] + split_on(s.skip(i + 1), c)
            } else {
                Seq::empty()
            }
        },
    }
}

/// A found index holds the character, and nothing before it (from `from`) does.
pub proof fn lemma_char_index_from(s: Seq<char>, c: char, from: int)
    requires
        0 <= from,
    ensures
        char_index_from(s, c, from) matches Some(i) ==> from <= i < s.len() && s[i] == c && forall|
            k: int,
        |
            from <= k < i ==> s[k] != c,
        char_index_from(s, c, from) is None ==> forall|k: int| from <= k < s.len() ==> s[k] != c,
    decreases s.len() - from,
{
    if 0 <= from < s.len() && s[from] != c {
        lemma_char_index_from(s, c, from + 1);
    }
}

/// When `c` first occurs at `i`, that is where the search finds it.
pub proof fn lemma_char_index_at(s: Seq<char>, c: char, i: int, from: int)
    requires
        0 <= from <= i < s.len(),
        s[i] == c,
        forall|k: int| from <= k < i ==> s[k] != c,
    ensures
        char_index_from(s, c, from) == Some(i),
    decreases i - from,
{
    if from < i {
        lemma_char_index_at(s, c, i, from + 1);
    }
}

/// A sequence without `c` has no index of it.
pub proof fn lemma_char_index_absent(s: Seq<char>, c: char, from: int)
    requires
        0 <= from,
        forall|k: int| from <= k < s.len() ==> s[k] != c,
    ensures
        char_index_from(s, c, from) is None,
    decreases s.len() - from,
{
    if from < s.len() {
        lemma_char_index_absent(s, c, from + 1);
    }
}

/// The first index at or after `from` holding `c`.
pub fn find_char(s: &[char], c: char, from: usize) -> (r: Option<usize>)
    ensures
        r matches Some(i) ==> char_index_from(s@, c, from as int) == Some(i as int) && i < s.len(),
        r is None ==> char_index_from(s@, c, from as int) is None,
{
    let mut i = from;
    while i < s.len()
        invariant
            from <= i,
            char_index_from(s@, c, from as int) == char_index_from(s@, c, i as int),
        decreases s.len() - i,
    {
        if s[i] == c {
            return Some(i);
        }
        i += 1;
    }
    None
}

/// The pieces of `s` between occurrences of `c`.
pub fn split_chars(s: &[char], c: char) -> (parts: Vec<Vec<char>>)
    ensures
        parts@.map_values(|p: Vec<char>| p@) == split_on(s@, c),
{
    let mut parts: Vec<Vec<char>> = Vec::new();
    let mut pos: usize = 0;
    proof {
        assert(s@.skip(0) =~= s@);
        assert(parts@.map_values(|p: Vec<char>| p@) + split_on(s@, c) =~= split_on(s@, c));
    }
    loop
        invariant
            pos <= s.len(),
            split_on(s@, c) == parts@.map_values(|p: Vec<char>| p@) + split_on(
                s@.skip(pos as int),
                c,
            ),
        decreases s.len() - pos,
    {
        let ghost rest = s@.skip(pos as int);
        match find_char(s, c, pos) {
            None => {
                proof {
                    lemma_char_index_from(s@, c, pos as int);
                    lemma_char_index_absent(rest, c, 0);
                }
                let last = copy_range(s, pos, s.len());
                let ghost before = parts@.map_values(|p: Vec<char>| p@);
                parts.push(last);
                proof {
                    assert(split_on(rest, c) == seq![rest]);
                    assert(parts@.map_values(|p: Vec<char>| p@) =~= before.push(rest));
                    assert(before + seq![rest] =~= before.push(rest));
                }
                return parts;
            },
            Some(i) => {
                proof {
                    lemma_char_index_from(s@, c, pos as int);
                    lemma_char_index_at(rest, c, i - pos, 0);
                    assert(rest.take(i - pos) =~= s@.subrange(pos as int, i as int));
                    assert(rest.skip(i - pos + 1) =~= s@.skip(i + 1));
                }
                let piece = copy_range(s, pos, i);
                let ghost before = parts@.map_values(|p: Vec<char>| p@);
                parts.push(piece);
                proof {
                    assert(parts@.map_values(|p: Vec<char>| p@) =~= before.push(piece@));
                    assert(before + split_on(rest, c) =~= before.push(piece@) + split_on(
                        s@.skip(i + 1),
                        c,
                    ));
                }
                pos = i + 1;
            },
        }
    }
}

/// Whether two character sequences are equal.
pub fn chars_equal(a: &[char], b: &[char]) -> (r: bool)
    ensures
        r == (a@ == b@),
{
    if a.len() != b.len() {
        return false;
    }
    let mut i: usize = 0;
    while i < a.len()
        invariant
            a.len() == b.len(),
            i <= a.len(),
            forall|k: int| 0 <= k < i ==> a@[k] == b@[k],
        decreases a.len() - i,
    {
        if a[i] != b[i] {
            return false;
        }
        i += 1;
    }
    proof {
        assert(a@ =~= b@);
    }
    true
}

/// A found occurrence is in range and really occurs there.
pub proof fn lemma_find_from(s: Seq<char>, needle: Seq<char>, from: int)
    ensures
        find_from(s, needle, from) matches Some(i) ==> from <= i && occurs_at(s, needle, i),
    decreases s.len() + 1 - from,
{
    if 0 <= from && from + needle.len() <= s.len() && !occurs_at(s, needle, from) {
        lemma_find_from(s, needle, from + 1);
    }
}

} // verus!
