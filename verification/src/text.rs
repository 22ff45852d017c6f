//! Text as sequences of characters: decimal numbers, searching, splitting and joining.
use vstd::prelude::*;

verus! {

/// `String::push` of the standard library: appends one character to the end of the text.
pub assume_specification[ String::push ](s: &mut String, c: char)
    ensures
        final(s)@ == old(s)@.push(c),
;

/// The characters of a text, in order.
pub fn to_chars(s: &str) -> (r: Vec<char>)
    ensures
        r@ == s@,
{
    let mut r: Vec<char> = Vec::new();
    for c in it: s.chars()
        invariant
            it.seq() == s@,
            r@ == s@.take(it.index()),
    {
        r.push(c);
    }
    proof {
        assert(s@.take(s@.len() as int) =~= s@);
    }
    r
}

/// The text made of a run of characters.
pub fn from_chars(chars: &[char], from: usize, to: usize) -> (r: String)
    requires
        from <= to <= chars@.len(),
    ensures
        r@ == chars@.subrange(from as int, to as int),
{
    let mut r = String::new();
    let mut i: usize = from;
    while i < to
        invariant
            from <= i <= to <= chars@.len(),
            r@ == chars@.subrange(from as int, i as int),
        decreases to - i,
    {
        r.push(chars[i]);
        i += 1;
        proof {
            assert(chars@.subrange(from as int, i as int) =~= chars@.subrange(
                from as int,
                i - 1,
            ).push(chars@[i - 1]));
        }
    }
    r
}

/// The character of a decimal digit.
pub open spec fn digit_char(d: int) -> char {
    (48 + d) as char
}

/// Whether a character is a decimal digit.
pub open spec fn is_digit(c: char) -> bool {
    '0' <= c <= '9'
}

/// The decimal digits of a number, without leading zeros.
pub open spec fn dec(n: nat) -> Seq<char>
    decreases n,
{
    if n < 10 {
        seq![digit_char(n as int)]
    } else {
        dec(n / 10).push(digit_char((n % 10) as int))
    }
}

/// Whether every character is a decimal digit.
pub open spec fn all_digits(s: Seq<char>) -> bool {
    forall|i: int| 0 <= i < s.len() ==> is_digit(#[trigger] s[i])
}

/// The number that a run of decimal digits denotes.
pub open spec fn dec_value(s: Seq<char>) -> nat
    decreases s.len(),
{
    if s.len() == 0 {
        0
    } else {
        dec_value(s.drop_last()) * 10 + (s.last() as nat - 48) as nat
    }
}

/// The unsigned number that a text denotes: digits after at most one plus sign, within `limit`.
pub open spec fn unsigned_text(s: Seq<char>, limit: nat) -> Option<nat> {
    let body = if s.len() > 0 && s[0] == '+' {
        s.skip(1)
    } else {
        s
    };
    if body.len() > 0 && all_digits(body) && dec_value(body) <= limit {
        Some(dec_value(body))
    } else {
        None
    }
}

/// The digits of a number are digits, there is at least one, and they denote the number.
pub proof fn law_decimal_round_trip(n: nat)
    ensures
        all_digits(dec(n)),
        dec(n).len() > 0,
        dec_value(dec(n)) == n,
    decreases n,
{
    if n >= 10 {
        law_decimal_round_trip(n / 10);
        assert(dec(n).drop_last() =~= dec(n / 10));
    } else {
        assert(dec(n).drop_last() =~= Seq::<char>::empty());
        assert(dec_value(Seq::<char>::empty()) == 0);
    }
}

/// The value of a run of digits grows with each digit that is appended.
proof fn lemma_dec_value_prefix(s: Seq<char>, n: int)
    requires
        0 <= n <= s.len(),
        all_digits(s),
    ensures
        dec_value(s.take(n)) <= dec_value(s),
    decreases s.len() - n,
{
    if n == s.len() {
        assert(s.take(n) =~= s);
    } else {
        lemma_dec_value_prefix(s, n + 1);
        assert(s.take(n + 1).drop_last() =~= s.take(n));
    }
}

/// The digit of a number below ten.
pub fn digit_of(d: u64) -> (c: char)
    requires
        d < 10,
    ensures
        c == digit_char(d as int),
{
    (48u8 + d as u8) as char
}

/// Writes a number in decimal.
pub fn dec_string(n: u64) -> (r: String)
    ensures
        r@ == dec(n as nat),
    decreases n,
{
    if n < 10 {
        let mut r = String::new();
        r.push(digit_of(n));
        proof {
            assert(r@ =~= dec(n as nat));
        }
        r
    } else {
        let mut r = dec_string(n / 10);
        r.push(digit_of(n % 10));
        r
    }
}

/// Reads an unsigned 64-bit number: decimal digits, after at most one plus sign.
pub fn parse_u64_text(s: &str) -> (r: Option<u64>)
    ensures
        match r {
            Some(v) => unsigned_text(s@, u64::MAX as nat) == Some(v as nat),
            None => unsigned_text(s@, u64::MAX as nat) is None,
        },
{
    let chars = to_chars(s);
    let start: usize = if chars.len() > 0 && chars[0] == '+' { 1 } else { 0 };
    let ghost body = if s@.len() > 0 && s@[0] == '+' {
        s@.skip(1)
    } else {
        s@
    };
    if chars.len() == start {
        return None;
    }
    let mut v: u64 = 0;
    let mut i: usize = start;
    while i < chars.len()
        invariant
            chars@ == s@,
            start <= i <= chars.len(),
            body.len() == chars.len() - start,
            forall|k: int| 0 <= k < body.len() ==> body[k] == chars@[k + start],
            forall|k: int| 0 <= k < i - start ==> is_digit(#[trigger] body[k]),
            v == dec_value(body.take(i - start)),
            body == (if s@.len() > 0 && s@[0] == '+' {
                s@.skip(1)
            } else {
                s@
            }),
        decreases chars.len() - i,
    {
        let c = chars[i];
        proof {
            assert(body[i - start] == c);
            assert(body.take(i - start + 1).drop_last() =~= body.take(i - start));
        }
        if c < '0' || c > '9' {
            assert(!is_digit(body[i - start]));
            return None;
        }
        let d: u64 = (c as u32 - 48) as u64;
        if v > (u64::MAX - d) / 10 {
            proof {
                if all_digits(body) {
                    lemma_dec_value_prefix(body, i - start + 1);
                }
            }
            return None;
        }
        v = v * 10 + d;
        i += 1;
    }
    proof {
        assert(body.take(body.len() as int) =~= body);
    }
    Some(v)
}

/// Whether two texts are the same.
pub fn text_eq(a: &str, b: &str) -> (r: bool)
    ensures
        r == (a@ == b@),
{
    let x = to_chars(a);
    let y = to_chars(b);
    if x.len() != y.len() {
        return false;
    }
    let mut i: usize = 0;
    while i < x.len()
        invariant
            x@ == a@,
            y@ == b@,
            x.len() == y.len(),
            i <= x.len(),
            forall|k: int| 0 <= k < i ==> x@[k] == y@[k],
        decreases x.len() - i,
    {
        if x[i] != y[i] {
            return false;
        }
        i += 1;
    }
    proof {
        assert(x@ =~= y@);
    }
    true
}

/// The texts of a list of strings.
pub open spec fn texts(v: Seq<String>) -> Seq<Seq<char>> {
    Seq::new(v.len(), |i: int| v[i]@)
}

/// The decimal texts of a list of numbers.
pub open spec fn dec_texts(v: Seq<u64>) -> Seq<Seq<char>> {
    Seq::new(v.len(), |i: int| dec(v[i] as nat))
}

/// The parts one after the other, with a separator between neighbours.
pub open spec fn join(parts: Seq<Seq<char>>, sep: Seq<char>) -> Seq<char>
    decreases parts.len(),
{
    if parts.len() == 0 {
        Seq::empty()
    } else if parts.len() == 1 {
        parts[0]
    } else {
        join(parts.drop_last(), sep) + sep + parts.last()
    }
}

/// Joins texts with a separator between neighbours.
pub fn join_texts(parts: &Vec<String>, sep: &str) -> (r: String)
    ensures
        r@ == join(texts(parts@), sep@),
{
    let mut r = String::new();
    let mut i: usize = 0;
    while i < parts.len()
        invariant
            i <= parts.len(),
            r@ == join(texts(parts@).take(i as int), sep@),
        decreases parts.len() - i,
    {
        if i > 0 {
            r.append(sep);
        }
        r.append(parts[i].as_str());
        proof {
            let all = texts(parts@);
            assert(all.take(i + 1).drop_last() =~= all.take(i as int));
            if i == 0 {
                assert(r@ =~= all.take(1)[0]);
            }
        }
        i += 1;
    }
    proof {
        assert(texts(parts@).take(parts.len() as int) =~= texts(parts@));
    }
    r
}

/// Writes numbers in decimal with a separator between neighbours.
pub fn join_numbers(numbers: &[u64], sep: &str) -> (r: String)
    ensures
        r@ == join(dec_texts(numbers@), sep@),
{
    let mut parts: Vec<String> = Vec::new();
    let mut i: usize = 0;
    while i < numbers.len()
        invariant
            i <= numbers@.len(),
            texts(parts@) == dec_texts(numbers@).take(i as int),
        decreases numbers@.len() - i,
    {
        let ghost before = parts@;
        parts.push(dec_string(numbers[i]));
        proof {
            assert(texts(parts@) =~= texts(before).push(dec(numbers@[i as int] as nat)));
            assert(dec_texts(numbers@).take(i + 1) =~= dec_texts(numbers@).take(i as int).push(
                dec(numbers@[i as int] as nat),
            ));
        }
        i += 1;
    }
    proof {
        assert(dec_texts(numbers@).take(numbers@.len() as int) =~= dec_texts(numbers@));
    }
    join_texts(&parts, sep)
}

/// The upper-case hexadecimal digit of a half byte.
pub open spec fn hex_digit(d: int) -> char {
    if d < 10 {
        (48 + d) as char
    } else {
        (55 + d) as char
    }
}

/// The upper-case hexadecimal text of some bytes, two digits for each.
pub open spec fn hex_upper(bytes: Seq<u8>) -> Seq<char> {
    Seq::new(
        2 * bytes.len(),
        |i: int|
            if i % 2 == 0 {
                hex_digit(bytes[i / 2] as int / 16)
            } else {
                hex_digit(bytes[i / 2] as int % 16)
            },
    )
}

fn hex_digit_of(d: u8) -> (c: char)
    requires
        d < 16,
    ensures
        c == hex_digit(d as int),
{
    if d < 10 {
        (48u8 + d) as char
    } else {
        (55u8 + d) as char
    }
}

/// Writes bytes as upper-case hexadecimal text.
pub fn hex_upper_string(bytes: &[u8]) -> (r: String)
    ensures
        r@ == hex_upper(bytes@),
{
    let mut r = String::new();
    let mut i: usize = 0;
    while i < bytes.len()
        invariant
            i <= bytes@.len(),
            r@ == hex_upper(bytes@.take(i as int)),
        decreases bytes@.len() - i,
    {
        let ghost before = r@;
        let b: u8 = bytes[i];
        r.push(hex_digit_of(b / 16));
        r.push(hex_digit_of(b % 16));
        i += 1;
        proof {
            assert(r@ =~= hex_upper(bytes@.take(i as int)));
        }
    }
    proof {
        assert(bytes@.take(bytes@.len() as int) =~= bytes@);
    }
    r
}

/// Whether every character of a text is a decimal digit.
pub fn is_all_digits(s: &str) -> (r: bool)
    ensures
        r == all_digits(s@),
{
    let chars = to_chars(s);
    let mut i: usize = 0;
    while i < chars.len()
        invariant
            i <= chars.len(),
            chars@ == s@,
            forall|k: int| 0 <= k < i ==> is_digit(#[trigger] chars@[k]),
        decreases chars.len() - i,
    {
        let c = chars[i];
        if c < '0' || c > '9' {
            assert(!is_digit(s@[i as int]));
            return false;
        }
        i += 1;
    }
    true
}

/// Appends a text to a list.
pub fn push_text(v: &mut Vec<String>, s: String)
    ensures
        texts(final(v)@) == texts(old(v)@).push(s@),
{
    let ghost before = v@;
    v.push(s);
    proof {
        assert(texts(v@) =~= texts(before).push(s@));
    }
}

/// Appends a list of texts to another.
pub fn append_texts(v: &mut Vec<String>, more: Vec<String>)
    ensures
        texts(final(v)@) == texts(old(v)@) + texts(more@),
{
    let ghost before = v@;
    let mut rest = more;
    v.append(&mut rest);
    proof {
        assert(texts(v@) =~= texts(before) + texts(more@));
    }
}

/// The decimal text of a signed number.
pub open spec fn dec_signed(n: int) -> Seq<char> {
    if n < 0 {
        seq!['-'] + dec((-n) as nat)
    } else {
        dec(n as nat)
    }
}

/// Writes a signed number in decimal.
pub fn dec_signed_string(n: i64) -> (r: String)
    ensures
        r@ == dec_signed(n as int),
{
    if n < 0 {
        let mut r = String::new();
        r.push('-');
        let magnitude: u64 = (-(n as i128)) as u64;
        r.append(dec_string(magnitude).as_str());
        proof {
            assert(r@ =~= dec_signed(n as int));
        }
        r
    } else {
        dec_string(n as u64)
    }
}

/// Numbers that can be written in decimal.
pub trait Decimal: Sized {
    /// The decimal text of a number.
    spec fn decimal(self) -> Seq<char>;

    /// Writes a number in decimal.
    fn to_decimal(&self) -> (r: String)
        ensures
            r@ == self.decimal(),
    ;
}

impl Decimal for u64 {
    open spec fn decimal(self) -> Seq<char> {
        dec(self as nat)
    }

    fn to_decimal(&self) -> (r: String) {
        dec_string(*self)
    }
}

impl Decimal for i64 {
    open spec fn decimal(self) -> Seq<char> {
        dec_signed(self as int)
    }

    fn to_decimal(&self) -> (r: String) {
        dec_signed_string(*self)
    }
}

/// Whether a list holds a text.
pub fn holds_text(list: &Vec<String>, name: &str) -> (r: bool)
    ensures
        r == texts(list@).contains(name@),
{
    let mut i: usize = 0;
    while i < list.len()
        invariant
            i <= list.len(),
            forall|k: int| 0 <= k < i ==> (#[trigger] list@[k])@ != name@,
        decreases list.len() - i,
    {
        if text_eq(list[i].as_str(), name) {
            assert(texts(list@)[i as int] == name@);
            return true;
        }
        i += 1;
    }
    proof {
        if texts(list@).contains(name@) {
            let k = choose|k: int|
                0 <= k < texts(list@).len() && texts(list@)[k] == name@;
            assert(list@[k]@ == name@);
        }
    }
    false
}

/// Each byte is written as two hexadecimal digits, the higher half first.
pub proof fn law_bytes_are_two_digits_each(bytes: Seq<u8>, i: int)
    requires
        0 <= i < bytes.len(),
    ensures
        hex_upper(bytes).len() == 2 * bytes.len(),
        hex_upper(bytes)[2 * i] == "0123456789ABCDEF"@[bytes[i] as int / 16],
        hex_upper(bytes)[2 * i + 1] == "0123456789ABCDEF"@[bytes[i] as int % 16],
{
    reveal_strlit("0123456789ABCDEF");
    lemma_hex_digit(bytes[i] as int / 16);
    lemma_hex_digit(bytes[i] as int % 16);
}

proof fn lemma_hex_digit(d: int)
    requires
        0 <= d < 16,
    ensures
        hex_digit(d) == "0123456789ABCDEF"@[d],
{
    reveal_strlit("0123456789ABCDEF");
    assert("0123456789ABCDEF"@ =~= seq![
        '0', '1', '2', '3', '4', '5', '6', '7', '8', '9', 'A', 'B', 'C', 'D', 'E', 'F',
    ]);
    if d == 0 || d == 1 || d == 2 || d == 3 || d == 4 || d == 5 || d == 6 || d == 7 {
    } else if d == 8 || d == 9 || d == 10 || d == 11 || d == 12 || d == 13 || d == 14 || d == 15 {
    }
}

/// A negative number is a minus sign and the digits of its opposite, and another one its digits alone.
pub proof fn law_sign_stands_before_the_digits(n: int)
    ensures
        n >= 0 ==> dec_signed(n) == dec(n as nat),
        n < 0 ==> dec_signed(n)[0] == '-' && dec_signed(n).skip(1) == dec((-n) as nat),
        n < 0 ==> dec_value(dec_signed(n).skip(1)) == -n,
        n >= 0 ==> dec_value(dec_signed(n)) == n,
{
    if n < 0 {
        assert(dec_signed(n).skip(1) =~= dec((-n) as nat));
        law_decimal_round_trip((-n) as nat);
    } else {
        law_decimal_round_trip(n as nat);
    }
}

/// A number that is within the limit is read from its digits, with or without a plus sign. A larger one,
/// a text without digits and one with anything else in it are not read.
pub proof fn law_numbers_are_read_from_their_digits(n: nat, limit: nat, s: Seq<char>)
    ensures
        n <= limit ==> unsigned_text(dec(n), limit) == Some(n) && unsigned_text(seq!['+'] + dec(n), limit)
            == Some(n),
        n > limit ==> unsigned_text(dec(n), limit) is None,
        unsigned_text(Seq::empty(), limit) is None,
        unsigned_text(seq!['+'], limit) is None,
        unsigned_text(s, limit) is Some ==> forall|i: int|
            0 <= i < s.len() ==> is_digit(#[trigger] s[i]) || (i == 0 && s[i] == '+'),
        unsigned_text(s, limit) matches Some(v) ==> v <= limit,
{
    law_decimal_round_trip(n);
    assert(is_digit(dec(n)[0]));
    assert((seq!['+'] + dec(n)).skip(1) =~= dec(n));
    if unsigned_text(s, limit) is Some {
        assert forall|i: int| 0 <= i < s.len() implies is_digit(#[trigger] s[i]) || (i == 0 && s[i]
            == '+') by {
            if s[0] == '+' && i > 0 {
                assert(is_digit(s.skip(1)[i - 1]));
            }
        }
    }
}

/// One text stays as it is, and each further one follows behind the separator.
pub proof fn law_texts_are_joined_one_by_one(parts: Seq<Seq<char>>, part: Seq<char>, sep: Seq<char>)
    ensures
        join(Seq::empty(), sep) == Seq::<char>::empty(),
        join(seq![part], sep) == part,
        parts.len() > 0 ==> join(parts.push(part), sep) == join(parts, sep) + sep + part,
{
    assert(parts.push(part).drop_last() =~= parts);
}

/// A number is written without leading zeros.
pub proof fn law_decimals_have_no_leading_zero(n: nat)
    ensures
        dec(0) == seq!['0'],
        n > 0 ==> dec(n)[0] != '0',
        n < 10 ==> dec(n).len() == 1,
        n >= 10 ==> dec(n).len() == dec(n / 10).len() + 1,
    decreases n,
{
    if n >= 10 {
        law_decimals_have_no_leading_zero(n / 10);
        law_decimal_round_trip(n / 10);
    }
}

/// The texts of numbers are theirs, one for one.
pub proof fn law_numbers_are_written_one_for_one(v: Seq<u64>, i: int)
    requires
        0 <= i < v.len(),
    ensures
        dec_texts(v).len() == v.len(),
        dec_value(dec_texts(v)[i]) == v[i],
{
    law_decimal_round_trip(v[i] as nat);
}

} // verus!
