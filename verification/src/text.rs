//! Facts and small functions on text that the other modules share.

use vstd::prelude::*;
use vstd::utf8::encode_utf8;

verus! {

/// The number of bytes that `s` takes in UTF-8.
pub open spec fn byte_len(s: Seq<char>) -> nat {
    encode_utf8(s).len()
}

/// The character contents of a list of strings.
pub open spec fn texts(list: Seq<String>) -> Seq<Seq<char>> {
    Seq::new(list.len(), |i: int| list[i]@)
}

/// The character contents of a list of pairs of strings.
pub open spec fn text_pairs(list: Seq<(String, String)>) -> Seq<(Seq<char>, Seq<char>)> {
    Seq::new(list.len(), |i: int| (list[i].0@, list[i].1@))
}

/// The character contents of an optional string.
pub open spec fn opt_text(s: Option<String>) -> Option<Seq<char>> {
    match s {
        Some(t) => Some(t@),
        None => None,
    }
}

/// The characters of a borrowed text that may be missing.
pub open spec fn opt_str(text: Option<&str>) -> Option<Seq<char>> {
    match text {
        Some(t) => Some(t@),
        None => None,
    }
}

/// The number of bytes that `s` takes in UTF-8.
pub fn utf8_len(s: &str) -> (r: usize)
    ensures
        r == byte_len(s@),
{
    s.as_bytes().len()
}

/// Whether two strings hold the same characters.
pub fn same_text(a: &str, b: &str) -> (r: bool)
    ensures
        r == (a@ == b@),
{
    let x = a.as_bytes();
    let y = b.as_bytes();
    if x.len() != y.len() {
        return false;
    }
    let mut i: usize = 0;
    while i < x.len()
        invariant
            x@ == encode_utf8(a@),
            y@ == encode_utf8(b@),
            x@.len() == y@.len(),
            i <= x@.len(),
            forall|j: int| 0 <= j < i ==> x@[j] == y@[j],
        decreases x@.len() - i,
    {
        if x[i] != y[i] {
            return false;
        }
        i += 1;
    }
    proof {
        assert(x@ =~= y@);
        vstd::utf8::encode_utf8_decode_utf8(a@);
        vstd::utf8::encode_utf8_decode_utf8(b@);
    }
    true
}

/// The decimal digit `d`.
pub open spec fn digit(d: nat) -> char {
    if d == 0 {
        '0'
    } else if d == 1 {
        '1'
    } else if d == 2 {
        '2'
    } else if d == 3 {
        '3'
    } else if d == 4 {
        '4'
    } else if d == 5 {
        '5'
    } else if d == 6 {
        '6'
    } else if d == 7 {
        '7'
    } else if d == 8 {
        '8'
    } else {
        '9'
    }
}

/// A number in decimal digits, without leading zeros.
pub open spec fn decimal_text(n: nat) -> Seq<char>
    decreases n,
{
    if n < 10 {
        seq![digit(n)]
    } else {
        decimal_text(n / 10).push(digit(n % 10))
    }
}

fn digit_text(d: u64) -> (r: &'static str)
    requires
        d < 10,
    ensures
        r@ == seq![digit(d as nat)],
{
    proof {
        reveal_strlit("0");
        reveal_strlit("1");
        reveal_strlit("2");
        reveal_strlit("3");
        reveal_strlit("4");
        reveal_strlit("5");
        reveal_strlit("6");
        reveal_strlit("7");
        reveal_strlit("8");
        reveal_strlit("9");
    }
    let r = match d {
        0 => "0",
        1 => "1",
        2 => "2",
        3 => "3",
        4 => "4",
        5 => "5",
        6 => "6",
        7 => "7",
        8 => "8",
        _ => "9",
    };
    proof {
        assert(r@ =~= seq![digit(d as nat)]);
    }
    r
}

/// Appends a number in decimal digits.
pub fn append_decimal(out: &mut String, n: u64)
    ensures
        final(out)@ == old(out)@ + decimal_text(n as nat),
    decreases n,
{
    let ghost before = out@;
    if n >= 10 {
        append_decimal(out, n / 10);
    }
    out.append(digit_text(n % 10));
    proof {
        if n >= 10 {
            assert(out@ =~= before + decimal_text(n as nat));
        }
    }
}

/// A number in decimal digits.
pub fn decimal(n: u64) -> (r: String)
    ensures
        r@ == decimal_text(n as nat),
{
    let mut out = String::new();
    append_decimal(&mut out, n);
    proof {
        assert(out@ =~= decimal_text(n as nat));
    }
    out
}

/// `String::push` appends one character.
pub assume_specification[ String::push ](s: &mut String, c: char)
    ensures
        final(s)@ == old(s)@.push(c),
;

/// The place of the first `c` in a text, from `from` on.
pub open spec fn first_at(s: Seq<char>, c: char, from: int) -> Option<int>
    decreases s.len() - from,
{
    if from < 0 || from >= s.len() {
        None
    } else if s[from] == c {
        Some(from)
    } else {
        first_at(s, c, from + 1)
    }
}

/// The first place is one where the character stands, and it stands nowhere before it.
pub proof fn lemma_first_at(s: Seq<char>, c: char, from: int)
    requires
        0 <= from,
    ensures
        first_at(s, c, from) matches Some(i) ==> from <= i < s.len() && s[i] == c && forall|j: int|
            from <= j < i ==> s[j] != c,
        first_at(s, c, from) is None ==> forall|j: int| from <= j < s.len() ==> s[j] != c,
    decreases s.len() - from,
{
    if from < s.len() && s[from] != c {
        lemma_first_at(s, c, from + 1);
    }
}

/// The place of the last `c` before `end`.
pub open spec fn last_before(s: Seq<char>, c: char, end: int) -> Option<int>
    decreases end,
{
    if end <= 0 || end > s.len() {
        None
    } else if s[end - 1] == c {
        Some(end - 1)
    } else {
        last_before(s, c, end - 1)
    }
}

/// The last place is one where the character stands, and it stands nowhere behind it.
pub proof fn lemma_last_before(s: Seq<char>, c: char, end: int)
    requires
        end <= s.len(),
    ensures
        last_before(s, c, end) matches Some(i) ==> 0 <= i < end && s[i] == c && forall|j: int|
            i < j < end ==> s[j] != c,
        last_before(s, c, end) is None ==> forall|j: int| 0 <= j < end ==> s[j] != c,
    decreases end,
{
    if end > 0 && s[end - 1] != c {
        lemma_last_before(s, c, end - 1);
    }
}

/// Finds the first `c` from the character `from` on.
pub fn find_char(s: &str, c: char, from: usize) -> (r: Option<usize>)
    ensures
        match r {
            Some(i) => first_at(s@, c, from as int) == Some(i as int) && from <= i < s@.len(),
            None => first_at(s@, c, from as int) is None,
        },
{
    let n: usize = s.unicode_len();
    let mut i: usize = from;
    while i < n
        invariant
            n == s@.len(),
            from <= i,
            from <= n ==> i <= n,
            first_at(s@, c, from as int) == first_at(s@, c, i as int),
        decreases n - i,
    {
        if s.get_char(i) == c {
            return Some(i);
        }
        i += 1;
    }
    None
}

/// Finds the last `c`.
pub fn rfind_char(s: &str, c: char) -> (r: Option<usize>)
    ensures
        match r {
            Some(i) => last_before(s@, c, s@.len() as int) == Some(i as int) && i < s@.len(),
            None => last_before(s@, c, s@.len() as int) is None,
        },
{
    let n: usize = s.unicode_len();
    let mut end: usize = n;
    while end > 0
        invariant
            n == s@.len(),
            end <= n,
            last_before(s@, c, n as int) == last_before(s@, c, end as int),
        decreases end,
    {
        if s.get_char(end - 1) == c {
            return Some(end - 1);
        }
        end -= 1;
    }
    None
}

/// A text in two around its first `c`.
pub open spec fn split_first(s: Seq<char>, c: char) -> Option<(Seq<char>, Seq<char>)> {
    match first_at(s, c, 0) {
        Some(i) => Some((s.take(i), s.skip(i + 1))),
        None => None,
    }
}

/// A text in two around its last `c`.
pub open spec fn split_last(s: Seq<char>, c: char) -> Option<(Seq<char>, Seq<char>)> {
    match last_before(s, c, s.len() as int) {
        Some(i) => Some((s.take(i), s.skip(i + 1))),
        None => None,
    }
}

fn around<'a>(s: &'a str, i: usize) -> (r: (&'a str, &'a str))
    requires
        i < s@.len(),
    ensures
        r.0@ == s@.take(i as int),
        r.1@ == s@.skip(i + 1),
{
    let n: usize = s.unicode_len();
    let a = s.substring_char(0, i);
    let b = s.substring_char(i + 1, n);
    proof {
        assert(a@ =~= s@.take(i as int));
        assert(b@ =~= s@.skip(i + 1));
    }
    (a, b)
}

/// Splits a text around its first `c`.
pub fn split_once<'a>(s: &'a str, c: char) -> (r: Option<(&'a str, &'a str)>)
    ensures
        match r {
            Some((a, b)) => split_first(s@, c) == Some((a@, b@)),
            None => split_first(s@, c) is None,
        },
{
    match find_char(s, c, 0) {
        Some(i) => Some(around(s, i)),
        None => None,
    }
}

/// Splits a text around its last `c`.
pub fn rsplit_once<'a>(s: &'a str, c: char) -> (r: Option<(&'a str, &'a str)>)
    ensures
        match r {
            Some((a, b)) => split_last(s@, c) == Some((a@, b@)),
            None => split_last(s@, c) is None,
        },
{
    match rfind_char(s, c) {
        Some(i) => Some(around(s, i)),
        None => None,
    }
}

/// The value of a decimal digit, where the character is one.
pub open spec fn digit_value(c: char) -> Option<nat> {
    if '0' <= c <= '9' {
        Some((c as int - '0' as int) as nat)
    } else {
        None
    }
}

/// The number that decimal digits form, where the text holds nothing else.
pub open spec fn digits_value(s: Seq<char>) -> Option<nat>
    decreases s.len(),
{
    if s.len() == 0 {
        Some(0)
    } else {
        match (digits_value(s.drop_last()), digit_value(s.last())) {
            (Some(n), Some(d)) => Some(10 * n + d),
            _ => None,
        }
    }
}

/// A text without the plus sign that it may start with.
pub open spec fn without_plus(s: Seq<char>) -> Seq<char> {
    if s.len() > 0 && s[0] == '+' {
        s.skip(1)
    } else {
        s
    }
}

/// The number that a text stands for: at least one decimal digit, behind an optional plus
/// sign, and no more than `max`.
pub open spec fn number_value(s: Seq<char>, max: nat) -> Option<nat> {
    let digits = without_plus(s);
    if digits.len() == 0 {
        None
    } else {
        match digits_value(digits) {
            Some(n) => if n <= max {
                Some(n)
            } else {
                None
            },
            None => None,
        }
    }
}

proof fn lemma_digits_prefix(s: Seq<char>, n: int)
    requires
        0 <= n <= s.len(),
    ensures
        digits_value(s) matches Some(v) ==> (digits_value(s.take(n)) matches Some(w) && w <= v),
    decreases s.len(),
{
    if n < s.len() {
        lemma_digits_prefix(s.drop_last(), n);
        assert(s.drop_last().take(n) =~= s.take(n));
    } else {
        assert(s.take(n) =~= s);
    }
}

/// Reads a decimal number of at most `max`.
pub fn parse_number(s: &str, max: u64) -> (r: Option<u64>)
    ensures
        match r {
            Some(n) => number_value(s@, max as nat) == Some(n as nat),
            None => number_value(s@, max as nat) is None,
        },
{
    let len: usize = s.unicode_len();
    let start: usize = if len > 0 && s.get_char(0) == '+' {
        1
    } else {
        0
    };
    let ghost digits = without_plus(s@);
    proof {
        assert(digits =~= s@.skip(start as int));
    }
    if start >= len {
        return None;
    }
    let mut value: u128 = 0;
    let mut i: usize = start;
    while i < len
        invariant
            start <= i <= len,
            len == s@.len(),
            digits == s@.skip(start as int),
            digits == without_plus(s@),
            digits.len() > 0,
            value <= max,
            digits_value(digits.take(i - start)) == Some(value as nat),
        decreases len - i,
    {
        let c = s.get_char(i);
        proof {
            let k = i - start;
            assert(digits.take(k + 1).drop_last() =~= digits.take(k));
            assert(digits.take(k + 1).last() == c);
            lemma_digits_prefix(digits, k + 1);
        }
        if c < '0' || c > '9' {
            return None;
        }
        let d: u128 = (c as u128) - ('0' as u128);
        value = 10 * value + d;
        if value > max as u128 {
            return None;
        }
        i += 1;
    }
    proof {
        assert(digits.take(i - start) =~= digits);
    }
    Some(value as u64)
}

/// Whether the first `k` characters are digits of a number larger than `max`.
pub open spec fn large_prefix(digits: Seq<char>, k: int, max: nat) -> bool {
    0 <= k <= digits.len() && match digits_value(digits.take(k)) {
        Some(n) => n > max,
        None => false,
    }
}

/// Whether the digits at the start of a text, behind an optional plus sign, form a number
/// larger than `max`.
pub open spec fn outgrows(s: Seq<char>, max: nat) -> bool {
    exists|k: int| #[trigger] large_prefix(without_plus(s), k, max)
}

/// Whether the digits at the start of a text, behind an optional plus sign, form a number
/// larger than `max`.
pub fn number_outgrows(s: &str, max: u64) -> (r: bool)
    ensures
        r == outgrows(s@, max as nat),
{
    let len: usize = s.unicode_len();
    let start: usize = if len > 0 && s.get_char(0) == '+' {
        1
    } else {
        0
    };
    let ghost digits = without_plus(s@);
    proof {
        assert(digits =~= s@.skip(start as int));
    }
    let mut value: u128 = 0;
    let mut i: usize = start;
    while i < len
        invariant
            start <= i <= len,
            len == s@.len(),
            digits == s@.skip(start as int),
            digits == without_plus(s@),
            value <= max,
            digits_value(digits.take(i - start)) == Some(value as nat),
        decreases len - i,
    {
        let c = s.get_char(i);
        let ghost k = i - start;
        proof {
            assert(digits.take(k + 1).drop_last() =~= digits.take(k));
            assert(digits.take(k + 1).last() == c);
        }
        if c < '0' || c > '9' {
            proof {
                assert forall|j: int| #[trigger] large_prefix(digits, j, max as nat) implies false by {
                    if j <= k {
                        lemma_digits_prefix(digits.take(k), j);
                        assert(digits.take(k).take(j) =~= digits.take(j));
                    } else {
                        lemma_digits_prefix(digits.take(j), k + 1);
                        assert(digits.take(j).take(k + 1) =~= digits.take(k + 1));
                    }
                }
            }
            return false;
        }
        let d: u128 = (c as u128) - ('0' as u128);
        value = 10 * value + d;
        if value > max as u128 {
            proof {
                assert(large_prefix(digits, k + 1, max as nat));
            }
            return true;
        }
        i += 1;
    }
    proof {
        assert forall|j: int| #[trigger] large_prefix(digits, j, max as nat) implies false by {
            assert(digits.take(i - start) =~= digits);
            lemma_digits_prefix(digits, j);
        }
    }
    false
}

/// An ASCII letter in lower case, any other character as it is.
pub open spec fn lower(c: char) -> char {
    if 'A' <= c <= 'Z' {
        ((c as u8 + 32) as u8) as char
    } else {
        c
    }
}

/// A text with its ASCII letters in lower case.
pub open spec fn lower_text(s: Seq<char>) -> Seq<char> {
    Seq::new(s.len(), |i: int| lower(s[i]))
}

/// An ASCII letter in lower case, any other character as it is.
pub fn lower_char(c: char) -> (r: char)
    ensures
        r == lower(c),
{
    if c >= 'A' && c <= 'Z' {
        ((c as u8) + 32) as char
    } else {
        c
    }
}

/// Copies a text with its ASCII letters in lower case.
pub fn to_lower(s: &str) -> (r: String)
    ensures
        r@ == lower_text(s@),
{
    let n: usize = s.unicode_len();
    let mut out = String::new();
    let mut i: usize = 0;
    proof {
        assert(out@ =~= lower_text(s@).take(0));
    }
    while i < n
        invariant
            n == s@.len(),
            i <= n,
            out@ == lower_text(s@).take(i as int),
        decreases n - i,
    {
        out.push(lower_char(s.get_char(i)));
        proof {
            assert(out@ =~= lower_text(s@).take(i + 1));
        }
        i += 1;
    }
    proof {
        assert(lower_text(s@).take(n as int) =~= lower_text(s@));
    }
    out
}

/// Whether two texts are equal but for the case of ASCII letters.
pub fn same_ignoring_case(a: &str, b: &str) -> (r: bool)
    ensures
        r == (lower_text(a@) == lower_text(b@)),
{
    let n: usize = a.unicode_len();
    if n != b.unicode_len() {
        proof {
            assert(lower_text(a@).len() != lower_text(b@).len());
        }
        return false;
    }
    let mut i: usize = 0;
    while i < n
        invariant
            n == a@.len(),
            n == b@.len(),
            i <= n,
            forall|j: int| 0 <= j < i ==> lower(#[trigger] a@[j]) == lower(b@[j]),
        decreases n - i,
    {
        if lower_char(a.get_char(i)) != lower_char(b.get_char(i)) {
            proof {
                assert(lower_text(a@)[i as int] != lower_text(b@)[i as int]);
            }
            return false;
        }
        i += 1;
    }
    proof {
        assert(lower_text(a@) =~= lower_text(b@));
    }
    true
}

/// Lowering twice is lowering once.
pub proof fn lemma_lower_twice(s: Seq<char>)
    ensures
        lower_text(lower_text(s)) == lower_text(s),
{
    assert forall|i: int| 0 <= i < s.len() implies lower(lower(s[i])) == lower(s[i]) by {}
    assert(lower_text(lower_text(s)) =~= lower_text(s));
}

/// A hexadecimal digit.
pub open spec fn hex_digit(n: u128) -> char {
    if n < 10 {
        ((48 + n) as u8) as char
    } else {
        ((87 + n) as u8) as char
    }
}

/// Two texts are the same exactly where they have the same characters in the same places.
pub proof fn law_same_text_compares_characters(a: &str, b: &str, r: bool)
    requires
        call_ensures(same_text, (a, b), r),
    ensures
        r <==> a@.len() == b@.len() && forall|i: int|
            0 <= i < a@.len() ==> #[trigger] a@[i] == b@[i],
{
    if a@.len() == b@.len() && forall|i: int| 0 <= i < a@.len() ==> #[trigger] a@[i] == b@[i] {
        assert(a@ =~= b@);
    }
}

/// The length of a text of ASCII characters is their number.
pub proof fn law_ascii_takes_a_byte_each(s: &str, r: usize)
    requires
        call_ensures(utf8_len, (s,), r),
        forall|i: int| 0 <= i < s@.len() ==> 0 <= (#[trigger] s@[i]) as int <= 127,
    ensures
        r == s@.len(),
{
    assert(vstd::utf8::is_ascii_chars(s@));
    vstd::utf8::is_ascii_chars_encode_utf8(s@);
}

/// A number below ten is written as its one digit, and a larger one as a tenth of it followed by
/// its last digit.
pub proof fn law_decimal_writes_digits(n: u64, r: String, tenth: String)
    requires
        call_ensures(decimal, (n,), r),
        call_ensures(decimal, ((n / 10) as u64,), tenth),
    ensures
        n < 10 ==> r@.len() == 1 && r@[0] as int == 48 + n,
        n >= 10 ==> r@.len() == tenth@.len() + 1 && r@.drop_last() == tenth@ && r@.last() as int
            == 48 + n % 10,
{
    if n >= 10 {
        assert(r@.drop_last() =~= tenth@);
    }
}

/// A number that was appended stands behind what was there, as it is written alone.
pub proof fn law_appended_number_stands_behind(out: &mut String, n: u64, alone: String)
    requires
        call_ensures(append_decimal, (out, n), ()),
        call_ensures(decimal, (n,), alone),
    ensures
        final(out)@ == old(out)@ + alone@,
{
}

proof fn lemma_decimal_value(n: nat)
    ensures
        decimal_text(n).len() > 0,
        decimal_text(n)[0] != '+',
        digits_value(decimal_text(n)) == Some(n),
    decreases n,
{
    if n >= 10 {
        lemma_decimal_value(n / 10);
        assert(decimal_text(n).drop_last() =~= decimal_text(n / 10));
    } else {
        assert(decimal_text(n).drop_last() =~= Seq::empty());
        assert(digits_value(Seq::<char>::empty()) == Some(0nat));
    }
}

/// A number that was written is read as that number, within the bound, and not at all beyond it.
pub proof fn law_written_number_reads_back(n: u64, text: String, s: &str, max: u64, r: Option<u64>)
    requires
        call_ensures(decimal, (n,), text),
        s@ == text@,
        call_ensures(parse_number, (s, max), r),
    ensures
        n <= max ==> r == Some(n),
        n > max ==> r is None,
{
    lemma_decimal_value(n as nat);
}

/// One more digit behind a number makes it ten times as large and adds the digit.
pub proof fn law_digits_count_by_tens(
    front: &str,
    n: u64,
    d: u64,
    whole: &str,
    max: u64,
    r: Option<u64>,
)
    requires
        call_ensures(parse_number, (front, u64::MAX), Some(n)),
        d < 10,
        whole@.len() == front@.len() + 1,
        whole@.drop_last() == front@,
        whole@.last() as int == 48 + d,
        call_ensures(parse_number, (whole, max), r),
    ensures
        10 * n + d <= max ==> r == Some((10 * n + d) as u64),
        10 * n + d > max ==> r is None,
{
    let digits = without_plus(whole@);
    assert(digits.drop_last() =~= without_plus(front@));
    assert(digits.last() == whole@.last());
    assert(digits_value(without_plus(front@)) == Some(n as nat));
}

/// A single digit is the number it shows, with or without a plus sign before it.
pub proof fn law_digit_is_its_number(s: &str, d: u64, r: Option<u64>)
    requires
        d < 10,
        s@.len() == 1 || (s@.len() == 2 && s@[0] == '+'),
        s@.last() as int == 48 + d,
        call_ensures(parse_number, (s, u64::MAX), r),
    ensures
        r == Some(d),
{
    let digits = without_plus(s@);
    assert(digits.len() == 1 && digits.last() == s@.last());
    assert(digits.drop_last() =~= Seq::empty());
    assert(digits_value(Seq::<char>::empty()) == Some(0nat));
}

proof fn lemma_only_digits(s: Seq<char>, i: int)
    requires
        0 <= i < s.len(),
        !('0' <= s[i] <= '9'),
    ensures
        digits_value(s) is None,
    decreases s.len(),
{
    if i < s.len() - 1 {
        lemma_only_digits(s.drop_last(), i);
    }
}

/// A text that is empty, or holds anything but digits behind its first character, is no number;
/// nor is one whose first character is neither a digit nor a plus sign.
pub proof fn law_other_text_is_no_number(s: &str, i: int, max: u64, r: Option<u64>)
    requires
        s@.len() == 0 || (0 <= i < s@.len() && !(48 <= s@[i] as int <= 57) && (i > 0 || s@[0]
            != '+')),
        call_ensures(parse_number, (s, max), r),
    ensures
        r is None,
{
    if s@.len() > 0 {
        if s@[0] == '+' {
            assert(without_plus(s@)[i - 1] == s@[i]);
            lemma_only_digits(without_plus(s@), i - 1);
        } else {
            lemma_only_digits(s@, i);
        }
    }
}

/// A character is found at the first place, from `from` on, where it stands, and only where it
/// stands at one.
pub proof fn law_first_place_is_found(s: &str, c: char, from: usize, r: Option<usize>)
    requires
        call_ensures(find_char, (s, c, from), r),
    ensures
        r matches Some(i) ==> from <= i < s@.len() && s@[i as int] == c && forall|j: int|
            from <= j < i ==> s@[j] != c,
        r is None ==> forall|j: int| from <= j < s@.len() ==> s@[j] != c,
{
    lemma_first_at(s@, c, from as int);
}

/// Of a text split around its first `c`, the parts with `c` between them are the text, and the
/// first part holds no `c`; a text that is not split holds none.
pub proof fn law_split_parts_make_the_text(
    s: &str,
    c: char,
    r: Option<(&str, &str)>,
)
    requires
        call_ensures(split_once, (s, c), r),
    ensures
        r matches Some((a, b)) ==> s@ == a@.push(c) + b@ && !a@.contains(c),
        r is None ==> !s@.contains(c),
{
    lemma_first_at(s@, c, 0);
    if let Some((a, b)) = r {
        assert(s@ =~= a@.push(c) + b@);
    }
}

/// Of a text split around its last `c`, the parts with `c` between them are the text, and the
/// last part holds no `c`; a text that is not split holds none.
pub proof fn law_last_split_parts_make_the_text(
    s: &str,
    c: char,
    r: Option<(&str, &str)>,
)
    requires
        call_ensures(rsplit_once, (s, c), r),
    ensures
        r matches Some((a, b)) ==> s@ == a@.push(c) + b@ && !b@.contains(c),
        r is None ==> !s@.contains(c),
{
    lemma_last_before(s@, c, s@.len() as int);
    if let Some((a, b)) = r {
        assert(s@ =~= a@.push(c) + b@);
    }
}

/// Lowering a text moves each of the letters from `A` to `Z` up by 32 code points and leaves every
/// other character where it is.
pub proof fn law_lowering_moves_capitals(s: &str, r: String)
    requires
        call_ensures(to_lower, (s,), r),
    ensures
        r@.len() == s@.len(),
        forall|i: int|
            #![trigger r@[i]]
            0 <= i < s@.len() ==> r@[i] as int == s@[i] as int + (if 65 <= s@[i] as int <= 90 {
                32int
            } else {
                0
            }),
{
}

/// Two texts are the same but for case exactly where they are the same in lower case.
pub proof fn law_case_is_ignored(a: &str, b: &str, r: bool, low_a: String, low_b: String)
    requires
        call_ensures(same_ignoring_case, (a, b), r),
        call_ensures(to_lower, (a,), low_a),
        call_ensures(to_lower, (b,), low_b),
    ensures
        r <==> low_a@ == low_b@,
        a@ == b@ ==> r,
{
}

} // verus!
