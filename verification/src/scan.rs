//! Reading and writing text a character at a time: trimming, splitting, decimal numbers.
use vstd::prelude::*;

verus! {

/// Appends a character to a string, as `String::push` does.
pub assume_specification[ String::push ](s: &mut String, c: char)
    ensures
        final(s)@ == old(s)@.push(c),
;

/// Whether two texts hold the same characters.
pub(crate) fn same_text(a: &str, b: &str) -> (same: bool)
    ensures
        same == (a@ == b@),
{
    let first = chars_of(a);
    let second = chars_of(b);
    if first.len() != second.len() {
        return false;
    }
    let mut i: usize = 0;
    while i < first.len()
        invariant
            i <= first@.len(),
            first@ == a@,
            second@ == b@,
            first@.len() == second@.len(),
            forall|j: int| 0 <= j < i ==> first@[j] == second@[j],
        decreases first.len() - i,
    {
        if first[i] != second[i] {
            return false;
        }
        i += 1;
    }
    assert(a@ =~= b@);
    true
}

/// What `{:?}` prints for a text: the text in double quotes, with the characters that need it
/// escaped.
pub uninterp spec fn quoted(text: Seq<char>) -> Seq<char>;

/// Formats a text with `{:?}`. The result depends on the text alone.
#[verifier::external_body]
pub(crate) fn quote(text: &str) -> (out: String)
    ensures
        out@ == quoted(text@),
{
    format!("{text:?}")
}

/// The texts that a list of strings holds.
pub open spec fn texts(list: Seq<String>) -> Seq<Seq<char>> {
    list.map_values(|s: String| s@)
}

/// Unicode's `White_Space` characters.
pub open spec fn is_space(c: char) -> bool {
    let n = c as u32;
    ||| 0x9 <= n <= 0xd
    ||| n == 0x20
    ||| n == 0x85
    ||| n == 0xa0
    ||| n == 0x1680
    ||| 0x2000 <= n <= 0x200a
    ||| n == 0x2028
    ||| n == 0x2029
    ||| n == 0x202f
    ||| n == 0x205f
    ||| n == 0x3000
}

/// Whether a character is white space.
pub fn is_whitespace(c: char) -> (r: bool)
    ensures
        r == is_space(c),
{
    let n: u32 = c as u32;
    (0x9 <= n && n <= 0xd) || n == 0x20 || n == 0x85 || n == 0xa0 || n == 0x1680 || (0x2000 <= n
        && n <= 0x200a) || n == 0x2028 || n == 0x2029 || n == 0x202f || n == 0x205f || n == 0x3000
}

/// `s` without the white space it starts with.
pub open spec fn trim_front(s: Seq<char>) -> Seq<char>
    decreases s.len(),
{
    if s.len() > 0 && is_space(s[0]) {
        trim_front(s.subrange(1, s.len() as int))
    } else {
        s
    }
}

/// `s` without the white space it ends with.
pub open spec fn trim_back(s: Seq<char>) -> Seq<char>
    decreases s.len(),
{
    if s.len() > 0 && is_space(s.last()) {
        trim_back(s.drop_last())
    } else {
        s
    }
}

/// `s` without white space at either end.
pub open spec fn trimmed(s: Seq<char>) -> Seq<char> {
    trim_back(trim_front(s))
}

/// An upper-case ASCII letter's lower case; any other character itself.
pub open spec fn lower(c: char) -> char {
    if 65 <= c as u32 <= 90 {
        ((c as u32 + 32) as u32) as char
    } else {
        c
    }
}

/// `s` with its ASCII letters in lower case.
pub open spec fn lowered(s: Seq<char>) -> Seq<char> {
    s.map_values(|c: char| lower(c))
}

/// The parts of `s` between the separators, empty ones among them.
pub open spec fn split_at_each(s: Seq<char>, sep: char) -> Seq<Seq<char>>
    decreases s.len(),
{
    if s.len() == 0 {
        seq![Seq::<char>::empty()]
    } else {
        let before = split_at_each(s.drop_last(), sep);
        if s.last() == sep {
            before.push(Seq::empty())
        } else {
            before.drop_last().push(before.last().push(s.last()))
        }
    }
}

/// The words of `s`: its longest runs of characters that are not white space.
pub open spec fn words_of(s: Seq<char>) -> Seq<Seq<char>>
    decreases s.len(),
{
    if s.len() == 0 {
        Seq::empty()
    } else {
        let before = words_of(s.drop_last());
        if is_space(s.last()) {
            before
        } else if s.len() == 1 || is_space(s[s.len() - 2]) {
            before.push(seq![s.last()])
        } else {
            before.drop_last().push(before.last().push(s.last()))
        }
    }
}

pub open spec fn is_digit(c: char) -> bool {
    48 <= c as u32 <= 57
}

/// Whether `s` is one or more decimal digits.
pub open spec fn is_decimal(s: Seq<char>) -> bool {
    &&& s.len() > 0
    &&& forall|i: int| 0 <= i < s.len() ==> is_digit(#[trigger] s[i])
}

/// The number that the decimal digits of `s` write.
pub open spec fn decimal_value(s: Seq<char>) -> nat
    decreases s.len(),
{
    if s.len() == 0 {
        0
    } else {
        decimal_value(s.drop_last()) * 10 + (s.last() as u32 - 48) as nat
    }
}

/// The decimal digits of `n`, without leading zeros.
pub open spec fn decimal_text(n: nat) -> Seq<char>
    decreases n,
{
    if n < 10 {
        seq![((48 + n) as u32) as char]
    } else {
        decimal_text(n / 10).push(((48 + n % 10) as u32) as char)
    }
}

/// The decimal text of an integer: a minus sign first where it is negative.
pub open spec fn integer_text(n: int) -> Seq<char> {
    if n < 0 {
        seq!['-'] + decimal_text((-n) as nat)
    } else {
        decimal_text(n as nat)
    }
}

/// Whether `s` is a natural number as Rust's unsigned integers parse one: digits, with a plus
/// sign before them or not.
pub open spec fn natural(s: Seq<char>) -> Option<nat> {
    let digits = if s.len() > 0 && s[0] == '+' {
        s.subrange(1, s.len() as int)
    } else {
        s
    };
    if is_decimal(digits) {
        Some(decimal_value(digits))
    } else {
        None
    }
}

/// Whether `s` is an integer as Rust's signed integers parse one: digits, with a sign before
/// them or not.
pub open spec fn integer(s: Seq<char>) -> Option<int> {
    if s.len() > 0 && s[0] == '-' {
        let digits = s.subrange(1, s.len() as int);
        if is_decimal(digits) {
            Some(-(decimal_value(digits) as int))
        } else {
            None
        }
    } else {
        match natural(s) {
            Some(n) => Some(n as int),
            None => None,
        }
    }
}

/// The number behind `natural(s)`, where it is at most `limit`.
pub open spec fn natural_up_to(s: Seq<char>, limit: nat) -> Option<nat> {
    match natural(s) {
        Some(n) => if n <= limit { Some(n) } else { None },
        None => None,
    }
}

/// The number behind `integer(s)`, where an `i32` holds it.
pub open spec fn integer_i32(s: Seq<char>) -> Option<int> {
    match integer(s) {
        Some(n) => if i32::MIN <= n <= i32::MAX { Some(n) } else { None },
        None => None,
    }
}

/// The characters of a text.
pub fn chars_of(text: &str) -> (out: Vec<char>)
    ensures
        out@ == text@,
{
    let mut out: Vec<char> = Vec::new();
    for c in iter: text.chars()
        invariant
            out@ == iter.seq().take(iter.index() as int),
    {
        out.push(c);
    }
    out
}

/// The text that characters `from..to` of a list make.
pub fn text_between(chars: &[char], from: usize, to: usize) -> (out: String)
    requires
        from <= to <= chars@.len(),
    ensures
        out@ == chars@.subrange(from as int, to as int),
{
    let mut out = String::new();
    let mut i: usize = from;
    while i < to
        invariant
            from <= i <= to <= chars@.len(),
            out@ == chars@.subrange(from as int, i as int),
        decreases to - i,
    {
        out.push(chars[i]);
        i += 1;
    }
    out
}

/// The text without white space at either end.
pub fn trim(text: &str) -> (out: String)
    ensures
        out@ == trimmed(text@),
{
    let chars = chars_of(text);
    let mut from: usize = 0;
    assert(chars@.subrange(0, chars@.len() as int) =~= chars@);
    while from < chars.len() && is_whitespace(chars[from])
        invariant
            from <= chars@.len(),
            trim_front(chars@) == trim_front(chars@.subrange(from as int, chars@.len() as int)),
        decreases chars.len() - from,
    {
        let ghost rest = chars@.subrange(from as int, chars@.len() as int);
        assert(rest.subrange(1, rest.len() as int) =~= chars@.subrange(
            from + 1,
            chars@.len() as int,
        ));
        from += 1;
    }
    let ghost front = chars@.subrange(from as int, chars@.len() as int);
    assert(trim_front(chars@) == front);
    let mut to: usize = chars.len();
    while from < to && is_whitespace(chars[to - 1])
        invariant
            from <= to <= chars@.len(),
            trim_back(front) == trim_back(chars@.subrange(from as int, to as int)),
        decreases to,
    {
        assert(chars@.subrange(from as int, to as int).drop_last() =~= chars@.subrange(
            from as int,
            to - 1,
        ));
        to -= 1;
    }
    text_between(chars.as_slice(), from, to)
}

/// The text with its ASCII letters in lower case.
pub fn to_ascii_lowercase(text: &str) -> (out: String)
    ensures
        out@ == lowered(text@),
{
    let chars = chars_of(text);
    let mut out = String::new();
    let mut i: usize = 0;
    while i < chars.len()
        invariant
            i <= chars@.len(),
            out@ == lowered(chars@.take(i as int)),
        decreases chars.len() - i,
    {
        out.push(lower_char(chars[i]));
        i += 1;
        assert(chars@.take(i as int).drop_last() =~= chars@.take(i - 1));
        assert(lowered(chars@.take(i as int)) =~= lowered(chars@.take(i - 1)).push(
            lower(chars@[i - 1]),
        ));
    }
    assert(chars@.take(chars@.len() as int) =~= chars@);
    out
}

/// An upper-case ASCII letter's lower case; any other character itself.
pub fn lower_char(c: char) -> (out: char)
    ensures
        out == lower(c),
{
    let n: u32 = c as u32;
    if 65 <= n && n <= 90 {
        (n as u8 + 32) as char
    } else {
        c
    }
}

/// The parts of a text between the separators.
pub fn split(text: &str, sep: char) -> (parts: Vec<String>)
    ensures
        texts(parts@) == split_at_each(text@, sep),
        parts@.len() > 0,
{
    let chars = chars_of(text);
    let mut parts: Vec<String> = Vec::new();
    let mut part = String::new();
    let mut i: usize = 0;
    assert(split_at_each(chars@.take(0), sep) =~= texts(parts@).push(part@));
    while i < chars.len()
        invariant
            i <= chars@.len(),
            split_at_each(chars@.take(i as int), sep) == texts(parts@).push(part@),
        decreases chars.len() - i,
    {
        let c = chars[i];
        i += 1;
        let ghost upto = chars@.take(i as int);
        assert(upto.drop_last() =~= chars@.take(i - 1));
        let ghost before = split_at_each(upto.drop_last(), sep);
        assert(before.drop_last() =~= texts(parts@));
        if c == sep {
            let ghost held = parts@;
            parts.push(part);
            assert(texts(parts@) =~= texts(held).push(part@));
            part = String::new();
        } else {
            part.push(c);
        }
    }
    assert(chars@.take(chars@.len() as int) =~= chars@);
    let ghost held = parts@;
    parts.push(part);
    assert(texts(parts@) =~= texts(held).push(part@));
    parts
}

/// The words of a text.
pub fn split_whitespace(text: &str) -> (words: Vec<String>)
    ensures
        texts(words@) == words_of(text@),
{
    let chars = chars_of(text);
    let mut words: Vec<String> = Vec::new();
    let mut word = String::new();
    let mut within: bool = false;
    let mut i: usize = 0;
    assert(words_of(chars@.take(0)) =~= texts(words@));
    while i < chars.len()
        invariant
            i <= chars@.len(),
            within == (i > 0 && !is_space(chars@[i - 1])),
            words_of(chars@.take(i as int)) == if within {
                texts(words@).push(word@)
            } else {
                texts(words@)
            },
        decreases chars.len() - i,
    {
        let c = chars[i];
        i += 1;
        let ghost upto = chars@.take(i as int);
        assert(upto.drop_last() =~= chars@.take(i - 1));
        let ghost before = words_of(upto.drop_last());
        if is_whitespace(c) {
            if within {
                let ghost held = words@;
                words.push(word);
                assert(texts(words@) =~= texts(held).push(word@));
            }
            word = String::new();
            within = false;
        } else if within {
            assert(before.drop_last() =~= texts(words@));
            word.push(c);
        } else {
            word = String::new();
            word.push(c);
            assert(word@ =~= seq![c]);
            within = true;
        }
    }
    assert(chars@.take(chars@.len() as int) =~= chars@);
    if within {
        let ghost held = words@;
        words.push(word);
        assert(texts(words@) =~= texts(held).push(word@));
    }
    words
}

/// More digits write no smaller a number.
pub proof fn decimal_value_grows(s: Seq<char>, upto: int)
    requires
        0 <= upto <= s.len(),
    ensures
        decimal_value(s.take(upto)) <= decimal_value(s),
    decreases s.len() - upto,
{
    if upto < s.len() {
        decimal_value_grows(s, upto + 1);
        assert(s.take(upto + 1).drop_last() =~= s.take(upto));
    } else {
        assert(s.take(upto) =~= s);
    }
}

/// The number that digits `from..` of a list write, where they are decimal digits, at least
/// one of them, and the number is at most `limit`.
fn parse_digits(chars: &[char], from: usize, limit: u64) -> (number: Option<u64>)
    requires
        from <= chars@.len(),
    ensures
        ({
            let digits = chars@.subrange(from as int, chars@.len() as int);
            match number {
                Some(n) => is_decimal(digits) && n == decimal_value(digits) && n <= limit,
                None => !is_decimal(digits) || decimal_value(digits) > limit,
            }
        }),
{
    let ghost digits = chars@.subrange(from as int, chars@.len() as int);
    if from == chars.len() {
        return None;
    }
    let mut number: u64 = 0;
    let mut i: usize = from;
    assert(digits.take(0) =~= Seq::empty());
    while i < chars.len()
        invariant
            from <= i <= chars@.len(),
            digits == chars@.subrange(from as int, chars@.len() as int),
            forall|j: int| 0 <= j < i - from ==> is_digit(#[trigger] digits[j]),
            number == decimal_value(digits.take(i - from)),
            number <= limit,
        decreases chars.len() - i,
    {
        let n: u32 = chars[i] as u32;
        assert(digits[i - from] == chars@[i as int]);
        if n < 48 || n > 57 {
            assert(!is_digit(digits[i - from]));
            return None;
        }
        let more: u128 = number as u128 * 10 + (n - 48) as u128;
        i += 1;
        assert(digits.take(i - from).drop_last() =~= digits.take(i - from - 1));
        assert(more == decimal_value(digits.take(i - from)));
        if more > limit as u128 {
            proof {
                decimal_value_grows(digits, i - from);
            }
            return None;
        }
        number = more as u64;
    }
    assert(digits.take(digits.len() as int) =~= digits);
    Some(number)
}

/// The number a text writes, where it is at most `limit`.
pub fn parse_natural(text: &str, limit: u64) -> (number: Option<u64>)
    ensures
        match number {
            Some(n) => natural_up_to(text@, limit as nat) == Some(n as nat),
            None => natural_up_to(text@, limit as nat) is None,
        },
{
    let chars = chars_of(text);
    let from: usize = if chars.len() > 0 && chars[0] == '+' {
        1
    } else {
        0
    };
    assert(chars@.subrange(0, chars@.len() as int) =~= chars@);
    parse_digits(chars.as_slice(), from, limit)
}

/// The number a text writes, where an `i32` holds it.
pub fn parse_i32(text: &str) -> (number: Option<i32>)
    ensures
        match number {
            Some(n) => integer_i32(text@) == Some(n as int),
            None => integer_i32(text@) is None,
        },
{
    let chars = chars_of(text);
    assert(chars@.subrange(0, chars@.len() as int) =~= chars@);
    if chars.len() > 0 && chars[0] == '-' {
        match parse_digits(chars.as_slice(), 1, 0x8000_0000) {
            Some(n) => Some((-(n as i64)) as i32),
            None => None,
        }
    } else {
        let from: usize = if chars.len() > 0 && chars[0] == '+' {
            1
        } else {
            0
        };
        match parse_digits(chars.as_slice(), from, 0x7fff_ffff) {
            Some(n) => Some(n as i32),
            None => None,
        }
    }
}

/// Writes a number in decimal behind a text.
pub fn push_decimal(out: &mut String, n: u64)
    ensures
        final(out)@ == old(out)@ + decimal_text(n as nat),
    decreases n,
{
    if n >= 10 {
        push_decimal(out, n / 10);
    }
    let digit: u8 = 48 + (n % 10) as u8;
    out.push(digit as char);
    assert(out@ =~= old(out)@ + decimal_text(n as nat));
}

/// Writes an integer in decimal behind a text.
pub fn push_integer(out: &mut String, n: i64)
    ensures
        final(out)@ == old(out)@ + integer_text(n as int),
{
    if n < 0 {
        out.push('-');
        let magnitude: u64 = (-(n as i128)) as u64;
        push_decimal(out, magnitude);
    } else {
        push_decimal(out, n as u64);
    }
    assert(out@ =~= old(out)@ + integer_text(n as int));
}

/// The digits of a number are decimal digits, and write that number.
pub proof fn decimal_text_reads_back(n: nat)
    ensures
        is_decimal(decimal_text(n)),
        decimal_value(decimal_text(n)) == n,
    decreases n,
{
    if n < 10 {
        let s = decimal_text(n);
        assert(s.drop_last() =~= Seq::empty());
        assert(decimal_value(s.drop_last()) == 0);
    } else {
        decimal_text_reads_back(n / 10);
        let s = decimal_text(n);
        assert(s.drop_last() =~= decimal_text(n / 10));
    }
}

/// The text of an integer reads back as that integer.
pub proof fn integer_text_reads_back(n: int)
    ensures
        integer(integer_text(n)) == Some(n),
{
    let s = integer_text(n);
    if n < 0 {
        decimal_text_reads_back((-n) as nat);
        assert(s.subrange(1, s.len() as int) =~= decimal_text((-n) as nat));
    } else {
        decimal_text_reads_back(n as nat);
        assert(is_digit(s[0]));
    }
}

} // verus!
