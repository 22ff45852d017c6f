//! Searching, trimming and rewriting texts.
use vstd::prelude::*;

use crate::text;

verus! {

/// Whether a character has the Unicode property `White_Space`.
pub open spec fn is_white(c: char) -> bool {
    ||| 0x9 <= c as u32 <= 0xd
    ||| c as u32 == 0x20
    ||| c as u32 == 0x85
    ||| c as u32 == 0xa0
    ||| c as u32 == 0x1680
    ||| 0x2000 <= c as u32 <= 0x200a
    ||| c as u32 == 0x2028
    ||| c as u32 == 0x2029
    ||| c as u32 == 0x202f
    ||| c as u32 == 0x205f
    ||| c as u32 == 0x3000
}

/// Whether a character is white space in ASCII: space, tab, line feed, form feed or return.
pub open spec fn is_ascii_white(c: char) -> bool {
    c as u32 == 0x20 || c as u32 == 0x9 || c as u32 == 0xa || c as u32 == 0xc || c as u32 == 0xd
}

/// A text without the leading characters that satisfy `p`.
pub open spec fn trim_start(s: Seq<char>, p: spec_fn(char) -> bool) -> Seq<char>
    decreases s.len(),
{
    if s.len() > 0 && p(s[0]) {
        trim_start(s.skip(1), p)
    } else {
        s
    }
}

/// A text without the trailing characters that satisfy `p`.
pub open spec fn trim_end(s: Seq<char>, p: spec_fn(char) -> bool) -> Seq<char>
    decreases s.len(),
{
    if s.len() > 0 && p(s.last()) {
        trim_end(s.drop_last(), p)
    } else {
        s
    }
}

/// A text without the white space around it.
pub open spec fn trim(s: Seq<char>) -> Seq<char> {
    trim_end(trim_start(s, |c: char| is_white(c)), |c: char| is_white(c))
}

/// The property of being the character `c`.
pub open spec fn is_char(c: char) -> spec_fn(char) -> bool {
    |x: char| x == c
}

/// A text without the occurrences of `c` around it.
pub open spec fn trim_char(s: Seq<char>, c: char) -> Seq<char> {
    trim_end(trim_start(s, is_char(c)), is_char(c))
}

proof fn lemma_trim_start(s: Seq<char>, p: spec_fn(char) -> bool, i: int)
    requires
        0 <= i <= s.len(),
        forall|k: int| 0 <= k < i ==> p(#[trigger] s[k]),
        i < s.len() ==> !p(s[i]),
    ensures
        trim_start(s, p) == s.skip(i),
    decreases i,
{
    if i > 0 {
        assert(p(s[0]));
        let t = s.skip(1);
        assert forall|k: int| 0 <= k < i - 1 implies p(#[trigger] t[k]) by {
            assert(p(s[k + 1]));
        }
        lemma_trim_start(t, p, i - 1);
        assert(t.skip(i - 1) =~= s.skip(i));
    } else {
        assert(s.skip(0) =~= s);
    }
}

proof fn lemma_trim_end(s: Seq<char>, p: spec_fn(char) -> bool, j: int)
    requires
        0 <= j <= s.len(),
        forall|k: int| j <= k < s.len() ==> p(#[trigger] s[k]),
        j > 0 ==> !p(s[j - 1]),
    ensures
        trim_end(s, p) == s.take(j),
    decreases s.len() - j,
{
    if j < s.len() {
        assert(p(s[s.len() - 1]));
        let t = s.drop_last();
        lemma_trim_end(t, p, j);
        assert(t.take(j) =~= s.take(j));
    } else {
        assert(s.take(j) =~= s);
    }
}

/// Whether a character has the Unicode property `White_Space`.
pub fn char_is_white(c: char) -> (r: bool)
    ensures
        r == is_white(c),
{
    let u: u32 = c as u32;
    (0x9 <= u && u <= 0xd) || u == 0x20 || u == 0x85 || u == 0xa0 || u == 0x1680 || (0x2000 <= u
        && u <= 0x200a) || u == 0x2028 || u == 0x2029 || u == 0x202f || u == 0x205f || u == 0x3000
}

/// Whether a character is white space in ASCII.
pub fn char_is_ascii_white(c: char) -> (r: bool)
    ensures
        r == is_ascii_white(c),
{
    let u: u32 = c as u32;
    u == 0x20 || u == 0x9 || u == 0xa || u == 0xc || u == 0xd
}

/// Drops the white space around a text.
pub fn trim_text(s: &str) -> (r: String)
    ensures
        r@ == trim(s@),
{
    let chars = text::to_chars(s);
    let mut i: usize = 0;
    while i < chars.len() && char_is_white(chars[i])
        invariant
            i <= chars.len(),
            forall|k: int| 0 <= k < i ==> is_white(#[trigger] chars@[k]),
        decreases chars.len() - i,
    {
        i += 1;
    }
    let mut j: usize = chars.len();
    while j > i && char_is_white(chars[j - 1])
        invariant
            i <= j <= chars.len(),
            forall|k: int| j <= k < chars.len() ==> is_white(#[trigger] chars@[k]),
        decreases j - i,
    {
        j -= 1;
    }
    proof {
        let p = |c: char| is_white(c);
        lemma_trim_start(s@, p, i as int);
        let t = s@.skip(i as int);
        assert forall|k: int| j - i <= k < t.len() implies p(#[trigger] t[k]) by {
            assert(t[k] == chars@[k + i]);
        }
        lemma_trim_end(t, p, j - i);
        assert(t.take(j - i) =~= chars@.subrange(i as int, j as int));
    }
    text::from_chars(&chars, i, j)
}

/// Drops the occurrences of a character around a text.
pub fn trim_char_text(s: &str, c: char) -> (r: String)
    ensures
        r@ == trim_char(s@, c),
{
    let chars = text::to_chars(s);
    let mut i: usize = 0;
    while i < chars.len() && chars[i] == c
        invariant
            i <= chars.len(),
            forall|k: int| 0 <= k < i ==> #[trigger] chars@[k] == c,
        decreases chars.len() - i,
    {
        i += 1;
    }
    let mut j: usize = chars.len();
    while j > i && chars[j - 1] == c
        invariant
            i <= j <= chars.len(),
            forall|k: int| j <= k < chars.len() ==> #[trigger] chars@[k] == c,
        decreases j - i,
    {
        j -= 1;
    }
    proof {
        let p = is_char(c);
        lemma_trim_start(s@, p, i as int);
        let t = s@.skip(i as int);
        assert forall|k: int| j - i <= k < t.len() implies p(#[trigger] t[k]) by {
            assert(t[k] == chars@[k + i]);
        }
        lemma_trim_end(t, p, j - i);
        assert(t.take(j - i) =~= chars@.subrange(i as int, j as int));
    }
    text::from_chars(&chars, i, j)
}

/// The lower-case form of an ASCII capital; other characters stay.
pub open spec fn ascii_lower(c: char) -> char {
    if 'A' <= c <= 'Z' {
        (c as u32 + 32) as char
    } else {
        c
    }
}

/// A text with its ASCII capitals in lower case.
pub open spec fn lower(s: Seq<char>) -> Seq<char> {
    Seq::new(s.len(), |i: int| ascii_lower(s[i]))
}

/// The lower-case form of an ASCII capital; other characters stay.
pub fn char_lower(c: char) -> (r: char)
    ensures
        r == ascii_lower(c),
{
    if 'A' <= c && c <= 'Z' {
        (c as u8 + 32u8) as char
    } else {
        c
    }
}

/// Writes the ASCII capitals of a text in lower case.
pub fn lower_text(s: &str) -> (r: String)
    ensures
        r@ == lower(s@),
{
    let chars = text::to_chars(s);
    let mut r = String::new();
    let mut i: usize = 0;
    while i < chars.len()
        invariant
            i <= chars.len(),
            chars@ == s@,
            r@ == lower(s@).take(i as int),
        decreases chars.len() - i,
    {
        r.push(char_lower(chars[i]));
        i += 1;
        proof {
            assert(lower(s@).take(i as int) =~= lower(s@).take(i - 1).push(lower(s@)[i - 1]));
        }
    }
    proof {
        assert(lower(s@).take(s@.len() as int) =~= lower(s@));
    }
    r
}

/// Whether `part` stands in `s` at position `i`.
pub open spec fn occurs_at(s: Seq<char>, part: Seq<char>, i: int) -> bool {
    0 <= i && i + part.len() <= s.len() && s.subrange(i, i + part.len()) == part
}

/// Whether `part` stands somewhere in `s`.
pub open spec fn contains(s: Seq<char>, part: Seq<char>) -> bool {
    exists|i: int| #[trigger] occurs_at(s, part, i)
}

/// Whether `s` begins with `part`.
pub open spec fn starts_with(s: Seq<char>, part: Seq<char>) -> bool {
    occurs_at(s, part, 0)
}

/// Whether `s` ends with `part`.
pub open spec fn ends_with(s: Seq<char>, part: Seq<char>) -> bool {
    occurs_at(s, part, s.len() - part.len())
}

/// Whether `part` stands in `s` at position `i`.
pub fn occurs_in_at(s: &Vec<char>, part: &Vec<char>, i: usize) -> (r: bool)
    ensures
        r == occurs_at(s@, part@, i as int),
{
    if part.len() > s.len() || i > s.len() - part.len() {
        return false;
    }
    let mut k: usize = 0;
    while k < part.len()
        invariant
            i + part.len() <= s.len(),
            k <= part.len(),
            forall|m: int| 0 <= m < k ==> s@[i + m] == part@[m],
        decreases part.len() - k,
    {
        if s[i + k] != part[k] {
            assert(s@.subrange(i as int, i + part.len())[k as int] != part@[k as int]);
            return false;
        }
        k += 1;
    }
    proof {
        assert(s@.subrange(i as int, i + part.len()) =~= part@);
    }
    true
}

/// Whether a text contains another.
pub fn contains_text(s: &str, part: &str) -> (r: bool)
    ensures
        r == contains(s@, part@),
{
    let a = text::to_chars(s);
    let b = text::to_chars(part);
    if b.len() > a.len() {
        return false;
    }
    if b.len() == 0 {
        assert(a@.subrange(0, 0) =~= b@);
        assert(occurs_at(s@, part@, 0));
        return true;
    }
    let last: usize = a.len() - b.len();
    let mut i: usize = 0;
    while i <= last
        invariant
            a@ == s@,
            b@ == part@,
            last == a.len() - b.len(),
            i <= last + 1,
            b.len() > 0,
            forall|k: int| 0 <= k < i ==> !occurs_at(s@, part@, k),
        decreases last + 1 - i,
    {
        if occurs_in_at(&a, &b, i) {
            assert(occurs_at(s@, part@, i as int));
            return true;
        }
        i += 1;
    }
    false
}

/// Whether a text begins with another.
pub fn starts_with_text(s: &str, part: &str) -> (r: bool)
    ensures
        r == starts_with(s@, part@),
{
    occurs_in_at(&text::to_chars(s), &text::to_chars(part), 0)
}

/// Whether a text ends with another.
pub fn ends_with_text(s: &str, part: &str) -> (r: bool)
    ensures
        r == ends_with(s@, part@),
{
    let a = text::to_chars(s);
    let b = text::to_chars(part);
    if b.len() > a.len() {
        return false;
    }
    occurs_in_at(&a, &b, a.len() - b.len())
}

/// The last position of a character in a text, or -1.
pub open spec fn last_position(s: Seq<char>, c: char) -> int
    decreases s.len(),
{
    if s.len() == 0 {
        -1
    } else if s.last() == c {
        s.len() - 1
    } else {
        last_position(s.drop_last(), c)
    }
}

/// The first position of a character in a text, or the length of the text.
pub open spec fn first_position(s: Seq<char>, c: char) -> int
    decreases s.len(),
{
    if s.len() == 0 || s[0] == c {
        0
    } else {
        1 + first_position(s.skip(1), c)
    }
}

/// The last position is that of an occurrence with none after it.
pub proof fn lemma_last_position(s: Seq<char>, c: char)
    ensures
        -1 <= last_position(s, c) < s.len(),
        last_position(s, c) >= 0 ==> s[last_position(s, c)] == c,
        forall|k: int| last_position(s, c) < k < s.len() ==> #[trigger] s[k] != c,
    decreases s.len(),
{
    if s.len() > 0 && s.last() != c {
        lemma_last_position(s.drop_last(), c);
        assert forall|k: int| last_position(s, c) < k < s.len() implies #[trigger] s[k] != c by {
            if k < s.len() - 1 {
                assert(s.drop_last()[k] != c);
            }
        }
    }
}

/// The first position is that of an occurrence with none before it.
pub proof fn lemma_first_position(s: Seq<char>, c: char)
    ensures
        0 <= first_position(s, c) <= s.len(),
        first_position(s, c) < s.len() ==> s[first_position(s, c)] == c,
        forall|k: int| 0 <= k < first_position(s, c) ==> #[trigger] s[k] != c,
    decreases s.len(),
{
    if s.len() > 0 && s[0] != c {
        let t = s.skip(1);
        lemma_first_position(t, c);
        assert forall|k: int| 0 <= k < first_position(s, c) implies #[trigger] s[k] != c by {
            if k > 0 {
                assert(t[k - 1] != c);
            }
        }
        if first_position(s, c) < s.len() {
            assert(t[first_position(t, c)] == c);
        }
    }
}

/// Cuts a text at the last occurrence of a character.
pub fn rsplit_once_text(s: &str, c: char) -> (r: Option<(String, String)>)
    ensures
        match r {
            Some((a, b)) => {
                let p = last_position(s@, c);
                &&& p >= 0
                &&& a@ == s@.take(p)
                &&& b@ == s@.skip(p + 1)
            },
            None => last_position(s@, c) == -1,
        },
{
    let chars = text::to_chars(s);
    proof {
        lemma_last_position(s@, c);
    }
    let mut i: usize = chars.len();
    while i > 0
        invariant
            i <= chars.len(),
            chars@ == s@,
            forall|k: int| i <= k < chars.len() ==> #[trigger] chars@[k] != c,
            -1 <= last_position(s@, c) < s@.len(),
            last_position(s@, c) >= 0 ==> s@[last_position(s@, c)] == c,
            forall|k: int| last_position(s@, c) < k < s@.len() ==> #[trigger] s@[k] != c,
        decreases i,
    {
        i -= 1;
        if chars[i] == c {
            assert(i == last_position(s@, c));
            let a = text::from_chars(&chars, 0, i);
            let b = text::from_chars(&chars, i + 1, chars.len());
            return Some((a, b));
        }
    }
    None
}

/// Cuts a text at the first occurrence of a character.
pub fn split_once_text(s: &str, c: char) -> (r: Option<(String, String)>)
    ensures
        match r {
            Some((a, b)) => {
                let p = first_position(s@, c);
                &&& p < s@.len()
                &&& a@ == s@.take(p)
                &&& b@ == s@.skip(p + 1)
            },
            None => first_position(s@, c) == s@.len(),
        },
{
    let chars = text::to_chars(s);
    proof {
        lemma_first_position(s@, c);
    }
    let mut i: usize = 0;
    while i < chars.len()
        invariant
            i <= chars.len(),
            chars@ == s@,
            forall|k: int| 0 <= k < i ==> #[trigger] chars@[k] != c,
            0 <= first_position(s@, c) <= s@.len(),
            first_position(s@, c) < s@.len() ==> s@[first_position(s@, c)] == c,
            forall|k: int| 0 <= k < first_position(s@, c) ==> #[trigger] s@[k] != c,
        decreases chars.len() - i,
    {
        if chars[i] == c {
            assert(i == first_position(s@, c));
            let a = text::from_chars(&chars, 0, i);
            let b = text::from_chars(&chars, i + 1, chars.len());
            return Some((a, b));
        }
        i += 1;
    }
    None
}

/// A text with each occurrence of `c` replaced by `with`.
pub open spec fn replace_char(s: Seq<char>, c: char, with: Seq<char>) -> Seq<char>
    decreases s.len(),
{
    if s.len() == 0 {
        s
    } else if s.last() == c {
        replace_char(s.drop_last(), c, with) + with
    } else {
        replace_char(s.drop_last(), c, with).push(s.last())
    }
}

/// Replaces each occurrence of a character by a text.
pub fn replace_char_text(s: &str, c: char, with: &str) -> (r: String)
    ensures
        r@ == replace_char(s@, c, with@),
{
    let chars = text::to_chars(s);
    let mut r = String::new();
    let mut i: usize = 0;
    proof {
        assert(s@.take(0) =~= Seq::<char>::empty());
    }
    while i < chars.len()
        invariant
            i <= chars.len(),
            chars@ == s@,
            r@ == replace_char(s@.take(i as int), c, with@),
        decreases chars.len() - i,
    {
        proof {
            assert(s@.take(i + 1).drop_last() =~= s@.take(i as int));
        }
        if chars[i] == c {
            r.append(with);
        } else {
            r.push(chars[i]);
        }
        i += 1;
    }
    proof {
        assert(s@.take(s@.len() as int) =~= s@);
    }
    r
}

/// Whether a text is the same as another but for the case of ASCII letters.
pub fn eq_ignore_case(a: &str, b: &str) -> (r: bool)
    ensures
        r == (lower(a@) == lower(b@)),
{
    text::text_eq(lower_text(a).as_str(), lower_text(b).as_str())
}

/// A text without its ASCII white space.
pub open spec fn without_ascii_white(s: Seq<char>) -> Seq<char> {
    s.filter(|c: char| !is_ascii_white(c))
}

/// Drops the ASCII white space of a text.
pub fn drop_ascii_white(s: &str) -> (r: String)
    ensures
        r@ == without_ascii_white(s@),
{
    let chars = text::to_chars(s);
    let mut r = String::new();
    let ghost p = |c: char| !is_ascii_white(c);
    let mut i: usize = 0;
    proof {
        reveal(Seq::filter);
        assert(r@ =~= s@.take(0).filter(p));
    }
    while i < chars.len()
        invariant
            i <= chars.len(),
            chars@ == s@,
            p == (|c: char| !is_ascii_white(c)),
            r@ == s@.take(i as int).filter(p),
        decreases chars.len() - i,
    {
        proof {
            reveal(Seq::filter);
            assert(s@.take(i + 1).drop_last() =~= s@.take(i as int));
        }
        if !char_is_ascii_white(chars[i]) {
            r.push(chars[i]);
        }
        i += 1;
    }
    proof {
        assert(s@.take(s@.len() as int) =~= s@);
    }
    r
}

/// What follows a prefix in a text that begins with it.
pub fn strip_prefix_text(s: &str, prefix: &str) -> (r: Option<String>)
    ensures
        match r {
            Some(rest) => starts_with(s@, prefix@) && rest@ == s@.skip(prefix@.len() as int),
            None => !starts_with(s@, prefix@),
        },
{
    let a = text::to_chars(s);
    let b = text::to_chars(prefix);
    if occurs_in_at(&a, &b, 0) {
        Some(text::from_chars(&a, b.len(), a.len()))
    } else {
        None
    }
}

/// Whether a text holds a character.
pub fn contains_char(s: &str, c: char) -> (r: bool)
    ensures
        r == s@.contains(c),
{
    let chars = text::to_chars(s);
    let mut i: usize = 0;
    while i < chars.len()
        invariant
            i <= chars.len(),
            chars@ == s@,
            forall|k: int| 0 <= k < i ==> chars@[k] != c,
        decreases chars.len() - i,
    {
        if chars[i] == c {
            assert(s@[i as int] == c);
            return true;
        }
        i += 1;
    }
    false
}

/// What stands before a suffix in a text that ends with it.
pub fn strip_suffix_text(s: &str, suffix: &str) -> (r: Option<String>)
    ensures
        match r {
            Some(rest) => ends_with(s@, suffix@) && rest@ == s@.take(s@.len() - suffix@.len()),
            None => !ends_with(s@, suffix@),
        },
{
    let a = text::to_chars(s);
    let b = text::to_chars(suffix);
    if b.len() > a.len() {
        return None;
    }
    if occurs_in_at(&a, &b, a.len() - b.len()) {
        Some(text::from_chars(&a, 0, a.len() - b.len()))
    } else {
        None
    }
}

/// The first position of a character after a text that does not hold it.
pub proof fn lemma_first_position_of_join(a: Seq<char>, c: char, b: Seq<char>)
    requires
        forall|i: int| 0 <= i < a.len() ==> #[trigger] a[i] != c,
    ensures
        first_position(a + seq![c] + b, c) == a.len(),
    decreases a.len(),
{
    let s = a + seq![c] + b;
    if a.len() == 0 {
        assert(s[0] == c);
    } else {
        assert(s[0] == a[0]);
        let t = a.skip(1);
        assert(s.skip(1) =~= t + seq![c] + b);
        assert forall|i: int| 0 <= i < t.len() implies #[trigger] t[i] != c by {
            assert(a[i + 1] != c);
        }
        lemma_first_position_of_join(t, c, b);
    }
}

/// Whether a text comes before another one in the order of characters.
pub open spec fn text_before(a: Seq<char>, b: Seq<char>) -> bool
    decreases a.len(),
{
    if b.len() == 0 {
        false
    } else if a.len() == 0 {
        true
    } else if a[0] == b[0] {
        text_before(a.drop_first(), b.drop_first())
    } else {
        (a[0] as int) < (b[0] as int)
    }
}

/// Of two texts one at most comes before the other.
pub proof fn lemma_text_before_asymmetric(a: Seq<char>, b: Seq<char>)
    requires
        text_before(a, b),
    ensures
        !text_before(b, a),
    decreases a.len(),
{
    if a.len() > 0 && b.len() > 0 && a[0] == b[0] {
        lemma_text_before_asymmetric(a.drop_first(), b.drop_first());
    }
}

/// A text that is not before another one, which is not before a third, is not before the third.
pub proof fn lemma_text_before_transitive(a: Seq<char>, b: Seq<char>, c: Seq<char>)
    requires
        !text_before(a, b),
        !text_before(b, c),
    ensures
        !text_before(a, c),
    decreases a.len(),
{
    if a.len() > 0 && b.len() > 0 && c.len() > 0 && a[0] == b[0] && b[0] == c[0] {
        lemma_text_before_transitive(a.drop_first(), b.drop_first(), c.drop_first());
    }
}

/// Texts that neither comes before the other are equal.
pub proof fn lemma_text_before_total(a: Seq<char>, b: Seq<char>)
    requires
        !text_before(a, b),
        !text_before(b, a),
    ensures
        a == b,
    decreases a.len(),
{
    if a.len() > 0 && b.len() > 0 {
        lemma_text_before_total(a.drop_first(), b.drop_first());
        assert(a =~= seq![a[0]] + a.drop_first());
        assert(b =~= seq![b[0]] + b.drop_first());
    } else {
        assert(a =~= b);
    }
}

proof fn lemma_text_before_after_prefix(a: Seq<char>, b: Seq<char>, i: int)
    requires
        0 <= i <= a.len(),
        i <= b.len(),
        a.take(i) == b.take(i),
    ensures
        text_before(a, b) == text_before(a.skip(i), b.skip(i)),
    decreases i,
{
    if i == 0 {
        assert(a.skip(0) =~= a);
        assert(b.skip(0) =~= b);
    } else {
        assert(a[0] == a.take(i)[0]);
        assert(b[0] == b.take(i)[0]);
        let x = a.drop_first();
        let y = b.drop_first();
        assert(x.take(i - 1) =~= a.take(i).drop_first());
        assert(y.take(i - 1) =~= b.take(i).drop_first());
        lemma_text_before_after_prefix(x, y, i - 1);
        assert(x.skip(i - 1) =~= a.skip(i));
        assert(y.skip(i - 1) =~= b.skip(i));
    }
}

/// Whether a text comes before another one in the order of characters.
pub fn is_text_before(a: &str, b: &str) -> (r: bool)
    ensures
        r == text_before(a@, b@),
{
    let x = text::to_chars(a);
    let y = text::to_chars(b);
    let mut i: usize = 0;
    while i < x.len() && i < y.len() && x[i] == y[i]
        invariant
            i <= x@.len(),
            i <= y@.len(),
            x@.take(i as int) == y@.take(i as int),
        decreases x@.len() - i,
    {
        i += 1;
        assert(x@.take(i as int) =~= x@.take(i - 1).push(x@[i - 1]));
        assert(y@.take(i as int) =~= y@.take(i - 1).push(y@[i - 1]));
    }
    proof {
        lemma_text_before_after_prefix(x@, y@, i as int);
    }
    if i == y.len() {
        false
    } else if i == x.len() {
        true
    } else {
        x[i] < y[i]
    }
}

/// Of two different texts exactly one comes before the other, and a text comes before every longer one
/// that begins with it.
pub proof fn law_texts_are_ordered(a: Seq<char>, b: Seq<char>)
    ensures
        !(text_before(a, b) && text_before(b, a)),
        a == b <==> !text_before(a, b) && !text_before(b, a),
        b.len() > 0 ==> text_before(a, a + b),
        text_before(b, a) ==> b.len() == 0 || a.len() > 0 && b[0] <= a[0],
    decreases a.len(),
{
    if text_before(a, b) {
        lemma_text_before_asymmetric(a, b);
    } else if !text_before(b, a) {
        lemma_text_before_total(a, b);
    }
    if text_before(b, a) {
        lemma_text_before_asymmetric(b, a);
    }
    if a.len() > 0 {
        assert((a + b).drop_first() =~= a.drop_first() + b);
        law_texts_are_ordered(a.drop_first(), b);
    } else {
        assert(a + b =~= b);
    }
}

/// Space, tab, line feed and return are white space; letters, digits and signs of ASCII are not.
pub proof fn law_printable_characters_are_not_white(c: char)
    ensures
        is_white(' ') && is_white('\t') && is_white('\n') && is_white('\r'),
        is_ascii_white(' ') && is_ascii_white('\t') && is_ascii_white('\n') && is_ascii_white('\r'),
        '!' <= c <= '~' ==> !is_white(c) && !is_ascii_white(c),
        is_ascii_white(c) ==> is_white(c),
{
}

/// Trimming takes away the white space around a text and nothing else: what is left is the part between,
/// and it neither begins nor ends with white space.
pub proof fn law_trim_takes_the_space_around(before: Seq<char>, s: Seq<char>, after: Seq<char>)
    requires
        forall|i: int| 0 <= i < before.len() ==> is_white(#[trigger] before[i]),
        forall|i: int| 0 <= i < after.len() ==> is_white(#[trigger] after[i]),
        s.len() > 0 ==> !is_white(s[0]) && !is_white(s.last()),
    ensures
        trim(before + s + after) == s,
{
    let p = |c: char| is_white(c);
    let all = before + s + after;
    if s.len() > 0 {
        let i = before.len() as int;
        assert forall|k: int| 0 <= k < i implies p(#[trigger] all[k]) by {
            assert(is_white(before[k]));
        }
        assert(all[i] == s[0]);
        lemma_trim_start(all, p, i);
        let rest = all.skip(i);
        let j = s.len() as int;
        assert forall|k: int| j <= k < rest.len() implies p(#[trigger] rest[k]) by {
            assert(is_white(after[k - j]));
        }
        assert(rest[j - 1] == s.last());
        lemma_trim_end(rest, p, j);
        assert(rest.take(j) =~= s);
    } else {
        assert forall|k: int| 0 <= k < all.len() implies p(#[trigger] all[k]) by {
            assert(if k < before.len() {
                is_white(before[k])
            } else {
                is_white(after[k - before.len()])
            });
        }
        lemma_trim_start(all, p, all.len() as int);
        assert(all.skip(all.len() as int) =~= s);
        assert(trim_end(s, p) =~= s);
    }
}

/// The same holds of a character that is taken away around a text.
pub proof fn law_trim_takes_the_character_around(c: char, before: nat, s: Seq<char>, after: nat)
    requires
        s.len() > 0,
        s[0] != c,
        s.last() != c,
    ensures
        trim_char(Seq::new(before, |i: int| c) + s + Seq::new(after, |i: int| c), c) == s,
{
    let p = is_char(c);
    let front = Seq::new(before, |i: int| c);
    let back = Seq::new(after, |i: int| c);
    let all = front + s + back;
    assert forall|k: int| 0 <= k < before implies p(#[trigger] all[k]) by {
        assert(all[k] == front[k]);
    }
    assert(all[before as int] == s[0]);
    lemma_trim_start(all, p, before as int);
    let rest = all.skip(before as int);
    let j = s.len() as int;
    assert forall|k: int| j <= k < rest.len() implies p(#[trigger] rest[k]) by {
        assert(rest[k] == back[k - j]);
    }
    assert(rest[j - 1] == s.last());
    lemma_trim_end(rest, p, j);
    assert(rest.take(j) =~= s);
}

/// Lower case leaves no ASCII capital, changes no other character, and does nothing the second time.
pub proof fn law_lower_leaves_no_capital(s: Seq<char>, i: int)
    requires
        0 <= i < s.len(),
    ensures
        lower(s).len() == s.len(),
        !('A' <= lower(s)[i] <= 'Z'),
        !('A' <= s[i] <= 'Z') ==> lower(s)[i] == s[i],
        'A' <= s[i] <= 'Z' ==> lower(s)[i] as int - 'a' as int == s[i] as int - 'A' as int,
        lower(lower(s)) == lower(s),
{
    assert forall|k: int| 0 <= k < s.len() implies lower(lower(s))[k] == #[trigger] lower(s)[k] by {}
    assert(lower(lower(s)) =~= lower(s));
}

/// A text begins with what was put in front of it, ends with what was put behind it, and holds what was
/// put in between; and no other text does.
pub proof fn law_parts_of_a_text_are_found(a: Seq<char>, b: Seq<char>, c: Seq<char>)
    ensures
        starts_with(a + b, a),
        ends_with(a + b, b),
        contains(a + b + c, b),
        starts_with(c, a) ==> c == a + c.skip(a.len() as int),
        ends_with(c, b) ==> c == c.take(c.len() - b.len()) + b,
{
    assert((a + b).subrange(0, a.len() as int) =~= a);
    assert((a + b).subrange(a.len() as int, (a.len() + b.len()) as int) =~= b);
    assert((a + b + c).subrange(a.len() as int, (a.len() + b.len()) as int) =~= b);
    assert(occurs_at(a + b + c, b, a.len() as int));
    if starts_with(c, a) {
        assert(c =~= c.subrange(0, a.len() as int) + c.skip(a.len() as int));
    }
    if ends_with(c, b) {
        let n = c.len() - b.len();
        assert(c =~= c.take(n) + c.subrange(n, n + b.len()));
    }
}

/// A character is replaced wherever it stands, and no other character is touched.
pub proof fn law_replacing_goes_character_by_character(a: Seq<char>, b: Seq<char>, c: char, d: char, with: Seq<char>)
    ensures
        replace_char(a + b, c, with) == replace_char(a, c, with) + replace_char(b, c, with),
        replace_char(seq![c], c, with) == with,
        d != c ==> replace_char(seq![d], c, with) == seq![d],
        !a.contains(c) ==> replace_char(a, c, with) == a,
    decreases a.len() + b.len(),
{
    reveal_with_fuel(replace_char, 2);
    assert(seq![c].drop_last() =~= Seq::empty());
    assert(seq![d].drop_last() =~= Seq::empty());
    assert(replace_char(seq![c], c, with) =~= with);
    if d != c {
        assert(replace_char(seq![d], c, with) =~= seq![d]);
    }
    if b.len() == 0 {
        assert(a + b =~= a);
        assert(replace_char(a, c, with) + replace_char(b, c, with) =~= replace_char(a, c, with));
    } else {
        assert((a + b).drop_last() =~= a + b.drop_last());
        law_replacing_goes_character_by_character(a, b.drop_last(), c, d, with);
        assert(replace_char(a + b, c, with) =~= replace_char(a, c, with) + replace_char(b, c, with));
    }
    if !a.contains(c) && a.len() > 0 {
        let front = a.drop_last();
        assert(a[a.len() - 1] == a.last());
        if front.contains(c) {
            assert(a[front.index_of(c)] == c);
        }
        law_replacing_goes_character_by_character(front, Seq::empty(), c, d, with);
        assert(front.push(a.last()) =~= a);
    }
}

} // verus!
