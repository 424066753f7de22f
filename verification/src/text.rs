//! Text: characters, decimal numbers, and what is trimmed from input.

use vstd::prelude::*;
use vstd::string::*;

verus! {

/// `String::push` appends one character.
pub assume_specification[ String::push ](s: &mut String, c: char)
    ensures
        final(s)@ == old(s)@.push(c),
;

/// Whether two texts are the same.
pub fn same_text(a: &str, b: &str) -> (r: bool)
    ensures
        r == (a@ == b@),
{
    let n: usize = a.unicode_len();
    if n != b.unicode_len() {
        return false;
    }
    let mut i: usize = 0;
    while i < n
        invariant
            0 <= i <= n,
            n == a@.len(),
            n == b@.len(),
            forall|j: int| 0 <= j < i ==> a@[j] == b@[j],
        decreases n - i,
    {
        if a.get_char(i) != b.get_char(i) {
            return false;
        }
        i = i + 1;
    }
    assert(a@ =~= b@);
    true
}

/// The characters of a text.
pub fn chars_of(s: &str) -> (v: Vec<char>)
    ensures
        v@ == s@,
{
    let n: usize = s.unicode_len();
    let mut v: Vec<char> = Vec::new();
    let mut i: usize = 0;
    while i < n
        invariant
            0 <= i <= n,
            n == s@.len(),
            v@ == s@.take(i as int),
        decreases n - i,
    {
        v.push(s.get_char(i));
        i = i + 1;
        assert(s@.take(i as int) =~= s@.take(i - 1).push(s@[i - 1]));
    }
    assert(s@.take(n as int) =~= s@);
    v
}

/// The text with the given characters.
pub fn text_of(chars: &[char]) -> (s: String)
    ensures
        s@ == chars@,
{
    let mut s: String = String::new();
    let mut i: usize = 0;
    while i < chars.len()
        invariant
            0 <= i <= chars@.len(),
            s@ == chars@.take(i as int),
        decreases chars@.len() - i,
    {
        s.push(chars[i]);
        i = i + 1;
        assert(chars@.take(i as int) =~= chars@.take(i - 1).push(chars@[i - 1]));
    }
    assert(chars@.take(i as int) =~= chars@);
    s
}

/// The part of a text from one position to another.
pub fn part_of(chars: &[char], from: usize, to: usize) -> (v: Vec<char>)
    requires
        from <= to <= chars@.len(),
    ensures
        v@ == chars@.subrange(from as int, to as int),
{
    let mut v: Vec<char> = Vec::new();
    let mut i: usize = from;
    while i < to
        invariant
            from <= i <= to <= chars@.len(),
            v@ == chars@.subrange(from as int, i as int),
        decreases to - i,
    {
        v.push(chars[i]);
        i = i + 1;
        assert(chars@.subrange(from as int, i as int) =~= chars@.subrange(
            from as int,
            i - 1,
        ).push(chars@[i - 1]));
    }
    v
}

/// The first position of a character.
pub open spec fn first_of(s: Seq<char>, c: char) -> Option<int>
    decreases s.len(),
{
    if s.len() == 0 {
        None
    } else {
        match first_of(s.drop_last(), c) {
            Some(i) => Some(i),
            None => if s.last() == c {
                Some(s.len() - 1)
            } else {
                None
            },
        }
    }
}

/// Where a character first stands, or nowhere.
pub proof fn lemma_first_of(s: Seq<char>, c: char)
    ensures
        match first_of(s, c) {
            Some(i) => 0 <= i < s.len() && s[i] == c && (forall|j: int|
                0 <= j < i ==> s[j] != c),
            None => !s.contains(c),
        },
    decreases s.len(),
{
    if s.len() > 0 {
        lemma_first_of(s.drop_last(), c);
        assert forall|j: int| 0 <= j < s.len() - 1 implies s[j] == s.drop_last()[j] by {}
        if first_of(s, c) is None && s.contains(c) {
            let j = choose|j: int| 0 <= j < s.len() && s[j] == c;
            assert(s.drop_last()[j] == c);
        }
    }
}

/// The first position of a character.
pub fn find_char(chars: &[char], c: char) -> (r: Option<usize>)
    ensures
        r is Some == first_of(chars@, c) is Some,
        r matches Some(i) ==> first_of(chars@, c) == Some(i as int) && i < chars@.len(),
{
    let mut i: usize = 0;
    while i < chars.len()
        invariant
            0 <= i <= chars@.len(),
            first_of(chars@.take(i as int), c) is None,
        decreases chars@.len() - i,
    {
        assert(chars@.take(i + 1).drop_last() =~= chars@.take(i as int));
        if chars[i] == c {
            proof {
                lemma_first_stays(chars@, c, i + 1);
            }
            return Some(i);
        }
        i = i + 1;
    }
    assert(chars@.take(i as int) =~= chars@);
    None
}

proof fn lemma_first_stays(s: Seq<char>, c: char, k: int)
    requires
        0 <= k <= s.len(),
        first_of(s.take(k), c) is Some,
    ensures
        first_of(s, c) == first_of(s.take(k), c),
    decreases s.len(),
{
    if k == s.len() {
        assert(s.take(k) =~= s);
    } else {
        assert(s.drop_last().take(k) =~= s.take(k));
        lemma_first_stays(s.drop_last(), c, k);
    }
}

/// The last position of a character.
pub open spec fn last_of(s: Seq<char>, c: char) -> Option<int>
    decreases s.len(),
{
    if s.len() == 0 {
        None
    } else if s.last() == c {
        Some(s.len() - 1)
    } else {
        last_of(s.drop_last(), c)
    }
}

/// The last position of a character.
pub fn rfind_char(chars: &[char], c: char) -> (r: Option<usize>)
    ensures
        r is Some == last_of(chars@, c) is Some,
        r matches Some(i) ==> last_of(chars@, c) == Some(i as int) && i < chars@.len()
            && chars@[i as int] == c,
{
    let mut left: usize = chars.len();
    assert(chars@.take(left as int) =~= chars@);
    while left > 0
        invariant
            0 <= left <= chars@.len(),
            last_of(chars@, c) == last_of(chars@.take(left as int), c),
        decreases left,
    {
        assert(chars@.take(left as int).drop_last() =~= chars@.take(left - 1));
        if chars[left - 1] == c {
            return Some(left - 1);
        }
        left = left - 1;
    }
    None
}

/// Whether a text begins with another.
pub open spec fn starts_with(s: Seq<char>, prefix: Seq<char>) -> bool {
    prefix.len() <= s.len() && s.take(prefix.len() as int) == prefix
}

/// Whether a text begins with another.
pub fn has_prefix(chars: &[char], prefix: &str) -> (r: bool)
    ensures
        r == starts_with(chars@, prefix@),
{
    let n: usize = prefix.unicode_len();
    if chars.len() < n {
        return false;
    }
    let mut i: usize = 0;
    while i < n
        invariant
            0 <= i <= n,
            n == prefix@.len(),
            n <= chars@.len(),
            forall|j: int| 0 <= j < i ==> chars@[j] == prefix@[j],
        decreases n - i,
    {
        if chars[i] != prefix.get_char(i) {
            assert(chars@.take(n as int)[i as int] != prefix@[i as int]);
            return false;
        }
        i = i + 1;
    }
    assert(chars@.take(n as int) =~= prefix@);
    true
}

/// Whether a character counts as white space.
pub open spec fn is_white(c: char) -> bool {
    ||| 9 <= c as u32 <= 13
    ||| c as u32 == 0x20
    ||| c as u32 == 0x85
    ||| c as u32 == 0xa0
    ||| c as u32 == 0x1680
    ||| 0x2000 <= c as u32 <= 0x200a
    ||| c as u32 == 0x2028
    ||| c as u32 == 0x2029
    ||| c as u32 == 0x202f
    ||| c as u32 == 0x205f
    ||| c as u32 == 0x3000
}

/// Whether a character counts as white space.
pub fn white(c: char) -> (b: bool)
    ensures
        b == is_white(c),
{
    let n: u32 = c as u32;
    (9 <= n && n <= 13) || n == 0x20 || n == 0x85 || n == 0xa0 || n == 0x1680 || (0x2000 <= n && n
        <= 0x200a) || n == 0x2028 || n == 0x2029 || n == 0x202f || n == 0x205f || n == 0x3000
}

/// A text without the white space at its end.
pub open spec fn end_trimmed(s: Seq<char>) -> Seq<char>
    decreases s.len(),
{
    if s.len() > 0 && is_white(s.last()) {
        end_trimmed(s.drop_last())
    } else {
        s
    }
}

/// A text without the white space at its start.
pub open spec fn start_trimmed(s: Seq<char>) -> Seq<char>
    decreases s.len(),
{
    if s.len() > 0 && is_white(s[0]) {
        start_trimmed(s.skip(1))
    } else {
        s
    }
}

/// A text without the white space at both ends.
pub open spec fn trimmed(s: Seq<char>) -> Seq<char> {
    start_trimmed(end_trimmed(s))
}

/// Removes the white space at the end.
pub fn trim_end(chars: &[char]) -> (v: Vec<char>)
    ensures
        v@ == end_trimmed(chars@),
{
    let mut to: usize = chars.len();
    assert(chars@.take(to as int) =~= chars@);
    while to > 0 && white(chars[to - 1])
        invariant
            0 <= to <= chars@.len(),
            end_trimmed(chars@) == end_trimmed(chars@.take(to as int)),
        decreases to,
    {
        assert(chars@.take(to as int).drop_last() =~= chars@.take(to - 1));
        to = to - 1;
    }
    assert(chars@.subrange(0, to as int) =~= chars@.take(to as int));
    part_of(chars, 0, to)
}

/// Removes the white space at both ends.
pub fn trim(chars: &[char]) -> (v: Vec<char>)
    ensures
        v@ == trimmed(chars@),
{
    let w: Vec<char> = trim_end(chars);
    let mut from: usize = 0;
    assert(w@.skip(0) =~= w@);
    while from < w.len() && white(w[from])
        invariant
            0 <= from <= w@.len(),
            start_trimmed(w@) == start_trimmed(w@.skip(from as int)),
        decreases w@.len() - from,
    {
        assert(w@.skip(from as int).skip(1) =~= w@.skip(from + 1));
        from = from + 1;
    }
    assert(w@.subrange(from as int, w@.len() as int) =~= w@.skip(from as int));
    part_of(w.as_slice(), from, w.len())
}

/// A letter from A to Z in its small form, any other character as it is.
pub open spec fn lower(c: char) -> char {
    if 'A' <= c <= 'Z' {
        ((c as u32 + 32) as u32) as char
    } else {
        c
    }
}

/// A text with the letters from A to Z in their small form.
pub open spec fn lowered(s: Seq<char>) -> Seq<char> {
    Seq::new(s.len(), |i: int| lower(s[i]))
}

/// A letter from A to Z in its small form, any other character as it is.
pub fn to_lower(c: char) -> (r: char)
    ensures
        r == lower(c),
{
    let n: u32 = c as u32;
    if 65 <= n && n <= 90 {
        ((n + 32) as u8) as char
    } else {
        c
    }
}

/// The letters from A to Z in their small form.
pub fn lower_all(chars: &[char]) -> (v: Vec<char>)
    ensures
        v@ == lowered(chars@),
{
    let mut v: Vec<char> = Vec::new();
    let mut i: usize = 0;
    while i < chars.len()
        invariant
            0 <= i <= chars@.len(),
            v@.len() == i,
            forall|j: int| 0 <= j < i ==> v@[j] == lower(chars@[j]),
        decreases chars@.len() - i,
    {
        v.push(to_lower(chars[i]));
        i = i + 1;
    }
    assert(v@ =~= lowered(chars@));
    v
}

/// Whether a character is a decimal digit.
pub open spec fn is_digit(c: char) -> bool {
    48 <= c as u32 <= 57
}

/// The number that a decimal digit stands for.
pub open spec fn digit_value(c: char) -> int {
    c as u32 - 48
}

/// The digit of a number below ten.
pub open spec fn digit_of(d: nat) -> char {
    (48 + d) as char
}

/// A number in decimal.
pub open spec fn decimal_of(n: nat) -> Seq<char>
    decreases n,
{
    if n < 10 {
        seq![digit_of(n)]
    } else {
        decimal_of(n / 10).push(digit_of(n % 10))
    }
}

/// Writes a number in decimal.
pub fn decimal(n: u128) -> (s: String)
    ensures
        s@ == decimal_of(n as nat),
    decreases n,
{
    let mut s: String = if n < 10 {
        String::new()
    } else {
        decimal(n / 10)
    };
    let ghost head = s@;
    let d: u8 = (n % 10) as u8;
    let c: char = (48 + d) as char;
    s.push(c);
    proof {
        assert(c == digit_of(d as nat));
        if n < 10 {
            assert(s@ =~= decimal_of(n as nat));
        } else {
            assert(n as nat / 10 == (n / 10) as nat);
            assert(s@ =~= decimal_of(n as nat));
        }
    }
    s
}

/// Why text is no number.
#[derive(Clone, Copy, Debug, PartialEq, Eq, Structural)]
pub enum NumberError {
    Empty,
    InvalidDigit,
    TooLarge,
}

impl NumberError {
    /// The reason in words.
    pub open spec fn words(self) -> Seq<char> {
        match self {
            NumberError::Empty => "cannot parse integer from empty string"@,
            NumberError::InvalidDigit => "invalid digit found in string"@,
            NumberError::TooLarge => "number too large to fit in target type"@,
        }
    }

    /// The reason in words.
    pub fn message(self) -> (s: &'static str)
        ensures
            s@ == self.words(),
    {
        match self {
            NumberError::Empty => "cannot parse integer from empty string",
            NumberError::InvalidDigit => "invalid digit found in string",
            NumberError::TooLarge => "number too large to fit in target type",
        }
    }
}

/// What digits stand for, read from the front, when no prefix is over `max`.
pub open spec fn digits_read(s: Seq<char>, max: nat) -> Result<nat, NumberError>
    decreases s.len(),
{
    if s.len() == 0 {
        Ok(0)
    } else {
        match digits_read(s.drop_last(), max) {
            Err(e) => Err(e),
            Ok(v) => if !is_digit(s.last()) {
                Err(NumberError::InvalidDigit)
            } else if v * 10 + digit_value(s.last()) > max {
                Err(NumberError::TooLarge)
            } else {
                Ok((v * 10 + digit_value(s.last())) as nat)
            },
        }
    }
}

/// The unsigned number that a text stands for: digits, behind a plus sign or not.
pub open spec fn number_in(s: Seq<char>, max: nat) -> Result<nat, NumberError> {
    if s.len() == 0 {
        Err(NumberError::Empty)
    } else if s.len() == 1 && (s[0] == '+' || s[0] == '-') {
        Err(NumberError::InvalidDigit)
    } else if s[0] == '+' {
        digits_read(s.skip(1), max)
    } else {
        digits_read(s, max)
    }
}

/// Reads an unsigned number of at most `max`.
pub fn parse_number(chars: &[char], max: u64) -> (r: Result<u64, NumberError>)
    ensures
        match number_in(chars@, max as nat) {
            Ok(v) => r matches Ok(n) && n == v,
            Err(e) => r == Err::<u64, NumberError>(e),
        },
{
    if chars.len() == 0 {
        return Err(NumberError::Empty);
    }
    if chars.len() == 1 && (chars[0] == '+' || chars[0] == '-') {
        return Err(NumberError::InvalidDigit);
    }
    let start: usize = if chars[0] == '+' {
        1
    } else {
        0
    };
    let ghost digits = chars@.skip(start as int);
    let mut value: u64 = 0;
    let mut i: usize = start;
    proof {
        assert(digits.take(0) =~= Seq::<char>::empty());
        assert(chars@.skip(0) =~= chars@);
    }
    while i < chars.len()
        invariant
            start <= i <= chars@.len(),
            digits == chars@.skip(start as int),
            digits_read(digits.take(i - start), max as nat) == Ok::<nat, NumberError>(value as nat),
            value <= max,
            number_in(chars@, max as nat) == digits_read(digits, max as nat),
        decreases chars@.len() - i,
    {
        let ghost k = i - start;
        proof {
            assert(digits.take(k + 1).drop_last() =~= digits.take(k));
            assert(digits.take(k + 1).last() == chars@[i as int]);
        }
        let c: char = chars[i];
        let n: u32 = c as u32;
        assert(digit_value(c) == n - 48);
        if n < 48 || n > 57 {
            proof {
                lemma_digits_fail(digits, max as nat, k + 1);
            }
            return Err(NumberError::InvalidDigit);
        }
        let d: u128 = (n - 48) as u128;
        let next: u128 = value as u128 * 10 + d;
        if next > max as u128 {
            proof {
                lemma_digits_fail(digits, max as nat, k + 1);
            }
            return Err(NumberError::TooLarge);
        }
        value = next as u64;
        i = i + 1;
    }
    assert(digits.take(digits.len() as int) =~= digits);
    Ok(value)
}

proof fn lemma_digits_fail(s: Seq<char>, max: nat, k: int)
    requires
        0 <= k <= s.len(),
        digits_read(s.take(k), max) is Err,
    ensures
        digits_read(s, max) == digits_read(s.take(k), max),
    decreases s.len(),
{
    if k == s.len() {
        assert(s.take(k) =~= s);
    } else {
        assert(s.drop_last().take(k) =~= s.take(k));
        lemma_digits_fail(s.drop_last(), max, k);
    }
}

/// Whether a text comes before another, by the first character that differs.
pub open spec fn text_before(a: Seq<char>, b: Seq<char>) -> bool
    decreases a.len(),
{
    if b.len() == 0 {
        false
    } else if a.len() == 0 {
        true
    } else if a[0] != b[0] {
        a[0] < b[0]
    } else {
        text_before(a.skip(1), b.skip(1))
    }
}

/// Of two different texts exactly one comes before the other.
pub proof fn lemma_text_order(a: Seq<char>, b: Seq<char>)
    ensures
        !(text_before(a, b) && text_before(b, a)),
        a != b ==> text_before(a, b) || text_before(b, a),
        a == b ==> !text_before(a, b),
    decreases a.len(),
{
    if a.len() > 0 && b.len() > 0 {
        if a[0] == b[0] {
            lemma_text_order(a.skip(1), b.skip(1));
            if a.skip(1) == b.skip(1) {
                assert(a =~= seq![a[0]] + a.skip(1));
                assert(b =~= seq![b[0]] + b.skip(1));
            }
        }
    } else if a.len() == 0 && b.len() == 0 {
        assert(a =~= b);
    }
}

/// What comes before a text that comes before a third comes before the third.
pub proof fn lemma_text_transitive(a: Seq<char>, b: Seq<char>, c: Seq<char>)
    requires
        text_before(a, b),
        text_before(b, c),
    ensures
        text_before(a, c),
    decreases a.len(),
{
    if a.len() > 0 && a[0] == b[0] && b[0] == c[0] {
        lemma_text_transitive(a.skip(1), b.skip(1), c.skip(1));
    }
}

/// Whether a text comes before another.
pub fn comes_before(a: &str, b: &str) -> (r: bool)
    ensures
        r == text_before(a@, b@),
{
    let n: usize = a.unicode_len();
    let m: usize = b.unicode_len();
    let mut i: usize = 0;
    assert(a@.skip(0) =~= a@);
    assert(b@.skip(0) =~= b@);
    while i < n && i < m
        invariant
            0 <= i <= n,
            i <= m,
            n == a@.len(),
            m == b@.len(),
            text_before(a@, b@) == text_before(a@.skip(i as int), b@.skip(i as int)),
        decreases n - i,
    {
        let c: char = a.get_char(i);
        let d: char = b.get_char(i);
        assert(a@.skip(i as int).skip(1) =~= a@.skip(i + 1));
        assert(b@.skip(i as int).skip(1) =~= b@.skip(i + 1));
        if c != d {
            return c < d;
        }
        i = i + 1;
    }
    i < m
}

/// Whether a text holds another.
pub open spec fn holds_text(s: Seq<char>, part: Seq<char>) -> bool {
    exists|i: int| 0 <= i <= s.len() && #[trigger] starts_with(s.skip(i), part)
}

/// Whether a text holds another.
pub fn has_part(s: &str, part: &str) -> (r: bool)
    ensures
        r == holds_text(s@, part@),
{
    let chars: Vec<char> = chars_of(s);
    let n: usize = chars.len();
    let mut i: usize = 0;
    loop
        invariant
            chars@ == s@,
            n == s@.len(),
            i <= n,
            forall|k: int| 0 <= k < i ==> !#[trigger] starts_with(s@.skip(k), part@),
        decreases n - i,
    {
        let rest: Vec<char> = part_of(chars.as_slice(), i, n);
        assert(rest@ =~= s@.skip(i as int));
        if has_prefix(rest.as_slice(), part) {
            return true;
        }
        if i == n {
            return false;
        }
        i = i + 1;
    }
}

/// A number written in decimal is read back, and its text holds only digits.
pub proof fn lemma_decimal_is_read(n: nat, max: nat)
    requires
        n <= max,
    ensures
        decimal_of(n).len() > 0,
        forall|i: int| 0 <= i < decimal_of(n).len() ==> is_digit(#[trigger] decimal_of(n)[i]),
        digits_read(decimal_of(n), max) == Ok::<nat, NumberError>(n),
        number_in(decimal_of(n), max) == Ok::<nat, NumberError>(n),
    decreases n,
{
    let s = decimal_of(n);
    if n < 10 {
        assert(s.drop_last() =~= Seq::<char>::empty());
        assert(digits_read(s.drop_last(), max) == Ok::<nat, NumberError>(0));
    } else {
        lemma_decimal_is_read(n / 10, max);
        assert(s.drop_last() =~= decimal_of(n / 10));
        assert(s.last() == digit_of(n % 10));
        assert forall|i: int| 0 <= i < s.len() implies is_digit(#[trigger] s[i]) by {
            if i < s.len() - 1 {
                assert(s[i] == decimal_of(n / 10)[i]);
            }
        }
    }
    assert(is_digit(s[0]));
}

/// Every number that is written is read back as itself, where it is not over the bound;
/// whatever is read is within the bound, and what holds another character than digits
/// behind a sign is refused.
pub proof fn written_numbers_are_read_back(
    n: u128,
    s: String,
    chars: &[char],
    max: u64,
    r: Result<u64, NumberError>,
)
    requires
        call_ensures(decimal, (n,), s),
        chars@ == s@,
        call_ensures(parse_number, (chars, max), r),
    ensures
        n <= max ==> r == Ok::<u64, NumberError>(n as u64),
{
    if n <= max {
        lemma_decimal_is_read(n as nat, max as nat);
    }
}

proof fn lemma_digits_bounded(s: Seq<char>, max: nat)
    ensures
        digits_read(s, max) is Ok ==> digits_read(s, max)->Ok_0 <= max && forall|i: int|
            0 <= i < s.len() ==> is_digit(#[trigger] s[i]),
    decreases s.len(),
{
    if s.len() > 0 {
        lemma_digits_bounded(s.drop_last(), max);
        assert forall|i: int| 0 <= i < s.len() && digits_read(s, max) is Ok implies is_digit(
            #[trigger] s[i],
        ) by {
            if i < s.len() - 1 {
                assert(s.drop_last()[i] == s[i]);
            }
        }
    }
}

/// Whatever is read as a number is within the bound and is written in digits, behind a
/// plus sign or not; an empty text is told apart.
pub proof fn only_digits_are_numbers(
    chars: &[char],
    max: u64,
    r: Result<u64, NumberError>,
    i: int,
)
    requires
        call_ensures(parse_number, (chars, max), r),
    ensures
        r is Ok ==> r->Ok_0 <= max,
        r is Ok && 1 <= i < chars@.len() ==> 48 <= chars@[i] as u32 <= 57,
        r is Ok ==> chars@.len() > 0 && (chars@[0] == '+' || 48 <= chars@[0] as u32 <= 57),
        r == Err::<u64, NumberError>(NumberError::Empty) <==> chars@.len() == 0,
{
    let s = chars@;
    lemma_digits_bounded(s, max as nat);
    lemma_not_empty_error(s, max as nat);
    if s.len() > 0 {
        lemma_digits_bounded(s.skip(1), max as nat);
        lemma_not_empty_error(s.skip(1), max as nat);
        if 1 <= i < s.len() {
            assert(s.skip(1)[i - 1] == s[i]);
        }
    }
}

proof fn lemma_not_empty_error(s: Seq<char>, max: nat)
    ensures
        digits_read(s, max) != Err::<nat, NumberError>(NumberError::Empty),
    decreases s.len(),
{
    if s.len() > 0 {
        lemma_not_empty_error(s.drop_last(), max);
    }
}

/// One more digit is ten times the number and the digit.
pub proof fn a_further_digit_counts_ten_times(
    a: &[char],
    b: &[char],
    digit: char,
    max: u64,
    x: Result<u64, NumberError>,
    y: Result<u64, NumberError>,
)
    requires
        48 <= digit as u32 <= 57,
        b@ == a@.push(digit),
        call_ensures(parse_number, (a, max), x),
        call_ensures(parse_number, (b, max), y),
        x is Ok,
    ensures
        10 * x->Ok_0 + (digit as u32 - 48) <= max ==> y is Ok && y->Ok_0 == 10 * x->Ok_0 + (
        digit as u32 - 48),
        10 * x->Ok_0 + (digit as u32 - 48) > max ==> y == Err::<u64, NumberError>(
            NumberError::TooLarge,
        ),
{
    assert(b@.drop_last() =~= a@);
    assert(b@[0] == a@[0]);
    if a@[0] == '+' {
        assert(b@.skip(1).drop_last() =~= a@.skip(1));
        assert(b@.skip(1).last() == digit);
    } else {
        assert(b@.last() == digit);
    }
}

proof fn lemma_end_trimmed(s: Seq<char>)
    ensures
        end_trimmed(s).len() <= s.len(),
        end_trimmed(s) == s.take(end_trimmed(s).len() as int),
        end_trimmed(s).len() > 0 ==> !is_white(end_trimmed(s).last()),
        forall|i: int| end_trimmed(s).len() <= i < s.len() ==> is_white(#[trigger] s[i]),
    decreases s.len(),
{
    if s.len() > 0 && is_white(s.last()) {
        let rest = s.drop_last();
        lemma_end_trimmed(rest);
        assert(s.take(end_trimmed(rest).len() as int) =~= rest.take(
            end_trimmed(rest).len() as int,
        ));
        assert forall|i: int| end_trimmed(s).len() <= i < s.len() implies is_white(
            #[trigger] s[i],
        ) by {
            if i < rest.len() {
                assert(rest[i] == s[i]);
            }
        }
    } else {
        assert(s.take(s.len() as int) =~= s);
    }
}

proof fn lemma_start_trimmed(s: Seq<char>)
    ensures
        start_trimmed(s).len() <= s.len(),
        start_trimmed(s) == s.skip(s.len() - start_trimmed(s).len()),
        start_trimmed(s).len() > 0 ==> !is_white(start_trimmed(s)[0]),
        forall|i: int| 0 <= i < s.len() - start_trimmed(s).len() ==> is_white(#[trigger] s[i]),
    decreases s.len(),
{
    if s.len() > 0 && is_white(s[0]) {
        let rest = s.skip(1);
        lemma_start_trimmed(rest);
        let k = rest.len() - start_trimmed(rest).len();
        assert(s.skip(k + 1) =~= rest.skip(k));
        assert forall|i: int| 0 <= i < s.len() - start_trimmed(s).len() implies is_white(
            #[trigger] s[i],
        ) by {
            if i > 0 {
                assert(rest[i - 1] == s[i]);
            }
        }
    } else {
        assert(s.skip(0) =~= s);
    }
}

/// Trimming takes white space off the ends and nothing else: what is left begins and ends
/// with other characters and stands in the text between white space alone. The white space
/// of the tab family, the blank and the no-break space is among it.
pub proof fn only_white_space_is_trimmed(
    chars: &[char],
    v: Vec<char>,
    e: Vec<char>,
) -> (from: int)
    requires
        call_ensures(trim, (chars,), v),
        call_ensures(trim_end, (chars,), e),
    ensures
        0 <= from <= from + v@.len() <= chars@.len(),
        v@ == chars@.subrange(from, from + v@.len()),
        v@.len() > 0 ==> !is_white(v@[0]) && !is_white(v@.last()),
        forall|i: int| 0 <= i < from ==> is_white(#[trigger] chars@[i]),
        v@.len() > 0 ==> forall|i: int|
            from + v@.len() <= i < chars@.len() ==> is_white(#[trigger] chars@[i]),
        e@.len() <= chars@.len(),
        e@ == chars@.take(e@.len() as int),
        e@.len() > 0 ==> !is_white(e@.last()),
        forall|i: int| e@.len() <= i < chars@.len() ==> is_white(#[trigger] chars@[i]),
{
    let s = chars@;
    let t = end_trimmed(s);
    lemma_end_trimmed(s);
    lemma_start_trimmed(t);
    let from = t.len() - start_trimmed(t).len();
    assert(v@ =~= s.subrange(from, from + v@.len()));
    assert forall|i: int| 0 <= i < from implies is_white(#[trigger] s[i]) by {
        assert(t[i] == s[i]);
    }
    if v@.len() > 0 {
        assert(v@.last() == t.last());
    }
    from
}

/// What counts as white space, and what does not: letters, digits and marks.
pub proof fn what_is_white(c: char, b: bool)
    requires
        call_ensures(white, (c,), b),
    ensures
        c == ' ' || c == '\t' || c == '\n' || c == '\r' ==> b,
        33 <= c as u32 <= 126 ==> !b,
        b ==> c as u32 <= 0x3000,
{
}

/// The first place of a character has none of it before, the last one none behind, and
/// where there is no place there is no such character.
pub proof fn characters_are_found(
    chars: &[char],
    c: char,
    first: Option<usize>,
    last: Option<usize>,
)
    requires
        call_ensures(find_char, (chars, c), first),
        call_ensures(rfind_char, (chars, c), last),
    ensures
        first is Some ==> first->0 < chars@.len() && chars@[first->0 as int] == c,
        first is Some ==> forall|i: int| 0 <= i < first->0 ==> #[trigger] chars@[i] != c,
        first is None ==> forall|i: int| 0 <= i < chars@.len() ==> #[trigger] chars@[i] != c,
        last is Some ==> last->0 < chars@.len() && chars@[last->0 as int] == c,
        last is Some ==> forall|i: int| last->0 < i < chars@.len() ==> #[trigger] chars@[i] != c,
        first is Some <==> last is Some,
{
    lemma_first_of(chars@, c);
    lemma_last_place(chars@, c);
    if first is None {
        assert forall|i: int| 0 <= i < chars@.len() implies #[trigger] chars@[i] != c by {
            assert(chars@.contains(chars@[i]));
        }
    }
}

proof fn lemma_last_place(s: Seq<char>, c: char)
    ensures
        last_of(s, c) is Some ==> 0 <= last_of(s, c)->0 < s.len() && s[last_of(s, c)->0] == c,
        last_of(s, c) is Some ==> forall|i: int|
            last_of(s, c)->0 < i < s.len() ==> #[trigger] s[i] != c,
        last_of(s, c) is None ==> forall|i: int| 0 <= i < s.len() ==> #[trigger] s[i] != c,
    decreases s.len(),
{
    if s.len() > 0 && s.last() != c {
        let rest = s.drop_last();
        lemma_last_place(rest, c);
        assert forall|i: int| 0 <= i < s.len() && i < rest.len() implies rest[i] == #[trigger] s[i] by {}
    }
}

/// A text begins with another when it has its characters at the same places.
pub proof fn beginnings_are_compared(chars: &[char], prefix: &str, r: bool, i: int)
    requires
        call_ensures(has_prefix, (chars, prefix), r),
    ensures
        r && 0 <= i < prefix@.len() ==> prefix@.len() <= chars@.len() && chars@[i] == prefix@[i],
        prefix@.len() <= chars@.len() && (forall|j: int|
            0 <= j < prefix@.len() ==> #[trigger] chars@[j] == prefix@[j]) ==> r,
{
    let head = chars@.take(prefix@.len() as int);
    if r && 0 <= i < prefix@.len() {
        assert(head[i] == chars@[i]);
    }
    if prefix@.len() <= chars@.len() && (forall|j: int|
        0 <= j < prefix@.len() ==> #[trigger] chars@[j] == prefix@[j]) {
        assert(head =~= prefix@);
    }
}

/// Capital letters become small ones and everything else stays; what is small already is
/// left alone.
pub proof fn letters_are_made_small(c: char, r: char, again: char)
    requires
        call_ensures(to_lower, (c,), r),
        call_ensures(to_lower, (r,), again),
    ensures
        65 <= c as u32 <= 90 ==> r as u32 == c as u32 + 32,
        !(65 <= c as u32 <= 90) ==> r == c,
        again == r,
{
}

proof fn lemma_differing_character(a: Seq<char>, b: Seq<char>, k: int)
    requires
        0 <= k <= a.len(),
        k < b.len(),
        forall|i: int| 0 <= i < k ==> #[trigger] a[i] == b[i],
        k == a.len() || a[k] < b[k],
    ensures
        text_before(a, b),
    decreases a.len(),
{
    if k > 0 {
        let x = a.skip(1);
        let y = b.skip(1);
        assert forall|i: int| 0 <= i < k - 1 implies #[trigger] x[i] == y[i] by {
            assert(a[i + 1] == b[i + 1]);
        }
        assert(a[0] == b[0]);
        lemma_differing_character(x, y, k - 1);
    }
}

/// Texts are ordered by the first character that differs, a text before its continuations;
/// of two different ones exactly one comes first.
pub proof fn texts_have_an_order(a: &str, b: &str, ab: bool, ba: bool, k: int)
    requires
        call_ensures(comes_before, (a, b), ab),
        call_ensures(comes_before, (b, a), ba),
        0 <= k <= a@.len(),
        k < b@.len(),
        forall|i: int| 0 <= i < k ==> #[trigger] a@[i] == b@[i],
        k == a@.len() || a@[k] < b@[k],
    ensures
        ab,
        !ba,
{
    lemma_differing_character(a@, b@, k);
    lemma_text_order(a@, b@);
}

} // verus!
