//! Text helpers over the character view of strings.

use vstd::prelude::*;
use vstd::string::StringSliceAdditionalSpecFns;
use vstd::utf8::*;

verus! {

/// `String::push` appends one character to the end of the string.
pub assume_specification[ String::push ](s: &mut String, c: char)
    ensures
        final(s)@ == old(s)@.push(c),
;

/// `String::push_str` appends the whole of `t` to the end of the string.
pub assume_specification[ String::push_str ](s: &mut String, t: &str)
    ensures
        final(s)@ == old(s)@ + t@,
;

/// Whether `s` begins with `t`.
pub open spec fn has_prefix(s: Seq<char>, t: Seq<char>) -> bool {
    s.len() >= t.len() && s.subrange(0, t.len() as int) == t
}

/// Whether `s` ends with `t`.
pub open spec fn has_suffix(s: Seq<char>, t: Seq<char>) -> bool {
    s.len() >= t.len() && s.subrange(s.len() - t.len(), s.len() as int) == t
}

/// The index of the first `c` in `s`, or the length of `s` if there is none.
pub open spec fn first_index(s: Seq<char>, c: char) -> int
    decreases s.len(),
{
    if s.len() == 0 {
        0
    } else if s[0] == c {
        0
    } else {
        1 + first_index(s.drop_first(), c)
    }
}

/// The parts of `s` between occurrences of `c`; there is always at least one.
pub open spec fn split_parts(s: Seq<char>, c: char) -> Seq<Seq<char>>
    decreases s.len(),
{
    let at = first_index(s, c);
    if at < 0 || at >= s.len() {
        seq![s]
    } else {
        seq![s.subrange(0, at)] + split_parts(s.subrange(at + 1, s.len() as int), c)
    }
}

/// The first place of a character has it, and no place before does.
pub proof fn lemma_first_index(s: Seq<char>, c: char)
    ensures
        0 <= first_index(s, c) <= s.len(),
        forall|k: int| 0 <= k < first_index(s, c) ==> s[k] != c,
        first_index(s, c) < s.len() ==> s[first_index(s, c)] == c,
    decreases s.len(),
{
    if s.len() > 0 && s[0] != c {
        lemma_first_index(s.drop_first(), c);
        assert forall|k: int| 0 <= k < first_index(s, c) implies s[k] != c by {
            if k > 0 {
                assert(s.drop_first()[k - 1] == s[k]);
            }
        }
    }
}

proof fn lemma_first_index_unique(s: Seq<char>, c: char, at: int)
    requires
        0 <= at <= s.len(),
        forall|k: int| 0 <= k < at ==> s[k] != c,
        at < s.len() ==> s[at] == c,
    ensures
        first_index(s, c) == at,
{
    lemma_first_index(s, c);
    let other = first_index(s, c);
    if other < at {
        assert(s[other] != c);
    }
    if at < other {
        assert(s[at] != c);
    }
}

/// Whether two strings hold the same characters.
pub fn same_text(a: &str, b: &str) -> (same: bool)
    ensures
        same == (a@ == b@),
{
    let x: &[u8] = a.as_bytes();
    let y: &[u8] = b.as_bytes();
    proof {
        encode_utf8_decode_utf8(a@);
        encode_utf8_decode_utf8(b@);
    }
    if x.len() != y.len() {
        return false;
    }
    let mut i: usize = 0;
    while i < x.len()
        invariant
            i <= x@.len(),
            x@.len() == y@.len(),
            x@ == a.spec_bytes(),
            y@ == b.spec_bytes(),
            forall|k: int| 0 <= k < i ==> x@[k] == y@[k],
        decreases x@.len() - i,
    {
        if x[i] != y[i] {
            assert(a.spec_bytes()[i as int] != b.spec_bytes()[i as int]);
            return false;
        }
        i += 1;
    }
    assert(x@ =~= y@);
    true
}

/// The characters of a string.
pub fn chars_of(s: &str) -> (chars: Vec<char>)
    ensures
        chars@ == s@,
{
    let mut out: Vec<char> = Vec::new();
    for c in iter: s.chars()
        invariant
            iter.seq() == s@,
            out@ == s@.take(iter.index() as int),
    {
        proof {
            assert(s@.take(iter.index() as int + 1) =~= s@.take(iter.index() as int).push(
                s@[iter.index() as int],
            ));
        }
        out.push(c);
    }
    assert(s@.take(s@.len() as int) =~= s@);
    out
}

/// The string made of the characters `from..to`.
pub fn text_of(chars: &Vec<char>, from: usize, to: usize) -> (s: String)
    requires
        from <= to <= chars@.len(),
    ensures
        s@ == chars@.subrange(from as int, to as int),
{
    let mut out: String = String::new();
    let mut i: usize = from;
    while i < to
        invariant
            from <= i <= to <= chars@.len(),
            out@ == chars@.subrange(from as int, i as int),
        decreases to - i,
    {
        out.push(chars[i]);
        proof {
            assert(chars@.subrange(from as int, i as int + 1) =~= chars@.subrange(
                from as int,
                i as int,
            ).push(chars@[i as int]));
        }
        i += 1;
    }
    out
}

/// Whether `s` begins with `t`.
pub fn starts_with(s: &str, t: &str) -> (yes: bool)
    ensures
        yes == has_prefix(s@, t@),
{
    let x: Vec<char> = chars_of(s);
    let y: Vec<char> = chars_of(t);
    if x.len() < y.len() {
        return false;
    }
    let mut i: usize = 0;
    while i < y.len()
        invariant
            i <= y@.len() <= x@.len(),
            x@ == s@,
            y@ == t@,
            forall|k: int| 0 <= k < i ==> x@[k] == y@[k],
        decreases y@.len() - i,
    {
        if x[i] != y[i] {
            assert(s@.subrange(0, t@.len() as int)[i as int] == s@[i as int]);
            return false;
        }
        i += 1;
    }
    assert(s@.subrange(0, t@.len() as int) =~= t@);
    true
}

/// Whether `s` ends with `t`.
pub fn ends_with(s: &str, t: &str) -> (yes: bool)
    ensures
        yes == has_suffix(s@, t@),
{
    let x: Vec<char> = chars_of(s);
    let y: Vec<char> = chars_of(t);
    if x.len() < y.len() {
        return false;
    }
    let base: usize = x.len() - y.len();
    let length: usize = x.len();
    let mut i: usize = 0;
    while i < y.len()
        invariant
            i <= y@.len() <= x@.len(),
            base + y@.len() == x@.len(),
            x@.len() == length,
            x@ == s@,
            y@ == t@,
            forall|k: int| 0 <= k < i ==> x@[base + k] == y@[k],
        decreases y@.len() - i,
    {
        assert(base + i < x@.len());
        if x[base + i] != y[i] {
            assert(s@.subrange(base as int, s@.len() as int)[i as int] == s@[base + i]);
            return false;
        }
        i += 1;
    }
    assert(s@.subrange(base as int, s@.len() as int) =~= t@);
    true
}

/// The index of the first `c`, or the length if there is none.
pub fn find_char(chars: &Vec<char>, from: usize, c: char) -> (at: usize)
    requires
        from <= chars@.len(),
    ensures
        from <= at <= chars@.len(),
        at - from == first_index(chars@.subrange(from as int, chars@.len() as int), c),
{
    let mut i: usize = from;
    while i < chars.len() && chars[i] != c
        invariant
            from <= i <= chars@.len(),
            forall|k: int| from <= k < i ==> chars@[k] != c,
        decreases chars@.len() - i,
    {
        i += 1;
    }
    proof {
        let tail = chars@.subrange(from as int, chars@.len() as int);
        assert forall|k: int| 0 <= k < i - from implies tail[k] != c by {
            assert(tail[k] == chars@[from + k]);
        }
        lemma_first_index_unique(tail, c, i - from);
    }
    i
}

/// The parts of a string between occurrences of a character.
pub fn split_text(s: &str, c: char) -> (parts: Vec<String>)
    ensures
        parts@.len() == split_parts(s@, c).len(),
        forall|i: int| 0 <= i < parts@.len() ==> #[trigger] parts@[i]@ == split_parts(s@, c)[i],
{
    let chars: Vec<char> = chars_of(s);
    let mut out: Vec<String> = Vec::new();
    let mut from: usize = 0;
    let ghost all = split_parts(s@, c);
    assert(s@.subrange(0, s@.len() as int) =~= s@);
    loop
        invariant
            chars@ == s@,
            from <= chars@.len(),
            all == split_parts(s@, c),
            all.len() == out@.len() + split_parts(
                s@.subrange(from as int, s@.len() as int),
                c,
            ).len(),
            all.subrange(out@.len() as int, all.len() as int) == split_parts(
                s@.subrange(from as int, s@.len() as int),
                c,
            ),
            forall|i: int| 0 <= i < out@.len() ==> #[trigger] out@[i]@ == all[i],
        decreases chars@.len() - from,
    {
        let at: usize = find_char(&chars, from, c);
        let ghost tail = s@.subrange(from as int, s@.len() as int);
        let ghost before = out@;
        proof {
            lemma_first_index(tail, c);
        }
        let part: String = text_of(&chars, from, at);
        if at >= chars.len() {
            assert(part@ =~= tail);
            out.push(part);
            assert(split_parts(tail, c) =~= seq![tail]);
            assert(all.subrange(before.len() as int, all.len() as int)[0] == tail);
            return out;
        }
        assert(part@ =~= tail.subrange(0, at - from));
        out.push(part);
        proof {
            let rest = tail.subrange(at - from + 1, tail.len() as int);
            assert(rest =~= s@.subrange(at + 1, s@.len() as int));
            assert(split_parts(tail, c) == seq![tail.subrange(0, at - from)] + split_parts(
                rest,
                c,
            ));
            assert(all.subrange(before.len() as int, all.len() as int)[0] == tail.subrange(
                0,
                at - from,
            ));
            assert(all.subrange(out@.len() as int, all.len() as int) =~= split_parts(
                tail,
                c,
            ).subrange(1, split_parts(tail, c).len() as int));
            assert(split_parts(tail, c).subrange(1, split_parts(tail, c).len() as int)
                =~= split_parts(rest, c));
        }
        from = at + 1;
    }
}

pub open spec fn is_digit(c: char) -> bool {
    '0' <= c && c <= '9'
}

pub open spec fn all_digits(s: Seq<char>) -> bool {
    forall|i: int| 0 <= i < s.len() ==> is_digit(#[trigger] s[i])
}

/// The value of a sequence of decimal digits.
pub open spec fn digits_value(s: Seq<char>) -> int
    decreases s.len(),
{
    if s.len() == 0 {
        0
    } else {
        digits_value(s.drop_last()) * 10 + (s.last() as int - '0' as int)
    }
}

/// The digits of a number, without the plus sign that may stand before them.
pub open spec fn without_plus(s: Seq<char>) -> Seq<char> {
    if s.len() > 0 && s[0] == '+' {
        s.drop_first()
    } else {
        s
    }
}

/// The number that a text stands for: one or more decimal digits, which a plus
/// sign may precede, with a value of at most `limit`.
pub open spec fn decimal(s: Seq<char>, limit: int) -> Option<int> {
    let digits = without_plus(s);
    if digits.len() > 0 && all_digits(digits) && digits_value(digits) <= limit {
        Some(digits_value(digits))
    } else {
        None
    }
}

proof fn lemma_digits_grow(s: Seq<char>, n: int)
    requires
        all_digits(s),
        0 <= n <= s.len(),
    ensures
        0 <= digits_value(s.take(n)) <= digits_value(s),
    decreases s.len(),
{
    if n < s.len() {
        assert(all_digits(s.drop_last()));
        lemma_digits_grow(s.drop_last(), n);
        assert(s.drop_last().take(n) =~= s.take(n));
    } else {
        assert(s.take(n) =~= s);
        if s.len() > 0 {
            assert(all_digits(s.drop_last()));
            lemma_digits_grow(s.drop_last(), s.len() - 1);
            assert(s.drop_last().take(s.len() - 1) =~= s.drop_last());
        }
    }
}

/// A number that was read is not negative and within its limit.
pub proof fn lemma_decimal_bounds(s: Seq<char>, limit: int)
    ensures
        decimal(s, limit) matches Some(value) ==> 0 <= value <= limit,
{
    let digits = without_plus(s);
    if all_digits(digits) {
        lemma_digits_grow(digits, digits.len() as int);
        assert(digits.take(digits.len() as int) =~= digits);
    }
}

/// Reads a decimal number of at most `limit`.
pub fn parse_number(s: &str, limit: u64) -> (number: Option<u64>)
    ensures
        match number {
            Some(value) => decimal(s@, limit as int) == Some(value as int),
            None => decimal(s@, limit as int) is None,
        },
{
    let chars: Vec<char> = chars_of(s);
    let mut start: usize = 0;
    if chars.len() > 0 && chars[0] == '+' {
        start = 1;
    }
    let ghost digits = without_plus(s@);
    assert(digits =~= chars@.subrange(start as int, chars@.len() as int));
    if start >= chars.len() {
        return None;
    }
    let mut value: u128 = 0;
    let mut i: usize = start;
    while i < chars.len()
        invariant
            start <= i <= chars@.len(),
            start < chars@.len(),
            chars@ == s@,
            digits == without_plus(s@),
            digits == chars@.subrange(start as int, chars@.len() as int),
            all_digits(digits.take(i - start)),
            value == digits_value(digits.take(i - start)),
            value <= limit,
        decreases chars@.len() - i,
    {
        let c: char = chars[i];
        assert(digits[i - start] == c);
        if !('0' <= c && c <= '9') {
            return None;
        }
        let ghost longer = digits.take(i - start + 1);
        proof {
            assert(longer.drop_last() =~= digits.take(i - start));
            assert(longer.last() == c);
            assert forall|k: int| 0 <= k < longer.len() implies is_digit(#[trigger] longer[k]) by {
                if k < i - start {
                    assert(longer[k] == digits.take(i - start)[k]);
                }
            }
        }
        value = value * 10 + (c as u32 - '0' as u32) as u128;
        if value > limit as u128 {
            proof {
                if all_digits(digits) {
                    lemma_digits_grow(digits, i - start + 1);
                }
            }
            return None;
        }
        i += 1;
    }
    assert(digits.take(digits.len() as int) =~= digits);
    Some(value as u64)
}

/// Reads a decimal number of at most `limit`.
pub fn parse_decimal(s: &str, limit: u32) -> (number: Option<u32>)
    ensures
        match number {
            Some(value) => decimal(s@, limit as int) == Some(value as int),
            None => decimal(s@, limit as int) is None,
        },
{
    proof {
        lemma_decimal_bounds(s@, limit as int);
    }
    match parse_number(s, limit as u64) {
        Some(value) => Some(value as u32),
        None => None,
    }
}

pub const DIGITS: [char; 10] = ['0', '1', '2', '3', '4', '5', '6', '7', '8', '9'];

/// A number in decimal digits.
pub open spec fn number_text(n: nat) -> Seq<char>
    decreases n,
{
    if n < 10 {
        seq![DIGITS@[n as int]]
    } else {
        number_text(n / 10).push(DIGITS@[n as int % 10])
    }
}

/// Writes a number in decimal digits.
pub fn write_number(n: u64) -> (text: String)
    ensures
        text@ == number_text(n as nat),
    decreases n,
{
    if n < 10 {
        let mut text: String = String::new();
        text.push(DIGITS[n as usize]);
        assert(text@ =~= number_text(n as nat));
        text
    } else {
        let mut text: String = write_number(n / 10);
        text.push(DIGITS[(n % 10) as usize]);
        text
    }
}

/// Whether `part` stands somewhere in `s`.
pub open spec fn contains_text(s: Seq<char>, part: Seq<char>) -> bool {
    exists|i: int| stands_at(s, part, i)
}

pub open spec fn stands_at(s: Seq<char>, part: Seq<char>, i: int) -> bool {
    0 <= i && i + part.len() <= s.len() && s.subrange(i, i + part.len()) == part
}

pub fn mentions(s: &str, part: &str) -> (yes: bool)
    ensures
        yes == contains_text(s@, part@),
{
    let chars: Vec<char> = chars_of(s);
    let wanted: Vec<char> = chars_of(part);
    let length: usize = chars.len();
    let mut i: usize = 0;
    while i < chars.len() && wanted.len() <= chars.len() - i
        invariant
            length == chars@.len(),
            chars@ == s@,
            wanted@ == part@,
            i <= chars@.len(),
            forall|k: int| 0 <= k < i ==> !#[trigger] stands_at(s@, part@, k),
        decreases chars@.len() - i,
    {
        let mut j: usize = 0;
        while j < wanted.len() && chars[i + j] == wanted[j]
            invariant
                length == chars@.len(),
                chars@ == s@,
                wanted@ == part@,
                i < chars@.len(),
                wanted@.len() <= chars@.len() - i,
                j <= wanted@.len(),
                forall|k: int| 0 <= k < j ==> #[trigger] wanted@[k] == chars@[i + k],
            decreases wanted@.len() - j,
        {
            j += 1;
        }
        if j == wanted.len() {
            assert(s@.subrange(i as int, i + part@.len()) =~= part@);
            assert(stands_at(s@, part@, i as int));
            return true;
        }
        proof {
            if stands_at(s@, part@, i as int) {
                assert(s@.subrange(i as int, i + part@.len())[j as int] == part@[j as int]);
            }
        }
        i += 1;
    }
    if wanted.len() == 0 {
        assert(s@.subrange(0, 0) =~= part@);
        assert(stands_at(s@, part@, 0));
        return true;
    }
    false
}

/// A number that was written in digits is read back, with a plus sign or without.
pub proof fn lemma_written_numbers_are_read_back(n: nat, limit: int)
    requires
        n <= limit,
    ensures
        decimal(number_text(n), limit) == Some(n as int),
        decimal(seq!['+'] + number_text(n), limit) == Some(n as int),
        decimal(number_text(n), n - 1) is None,
{
    lemma_digits_of(n);
    let text = number_text(n);
    assert(is_digit(text[0]));
    assert(without_plus(text) == text);
    let signed = seq!['+'] + text;
    assert(signed.drop_first() =~= text);
}

proof fn lemma_digits_of(n: nat)
    ensures
        all_digits(number_text(n)),
        number_text(n).len() > 0,
        digits_value(number_text(n)) == n,
    decreases n,
{
    lemma_digit(n % 10);
    if n < 10 {
        let text = number_text(n);
        assert(text.drop_last() =~= Seq::<char>::empty());
        assert(digits_value(text.drop_last()) == 0);
    } else {
        lemma_digits_of(n / 10);
        let text = number_text(n);
        assert(text.drop_last() =~= number_text(n / 10));
    }
}

proof fn lemma_digit(d: nat)
    requires
        d < 10,
    ensures
        DIGITS@[d as int] as int == '0' as int + d,
        is_digit(DIGITS@[d as int]),
{
}

/// The parts of a text between the places of a character hold none of it, and with it
/// between them they make up the text.
pub proof fn lemma_parts_make_up_the_text(s: Seq<char>, c: char)
    ensures
        split_parts(s, c).len() > 0,
        forall|i: int|
            0 <= i < split_parts(s, c).len() ==> !(#[trigger] split_parts(s, c)[i]).contains(c),
        joined(split_parts(s, c), c) == s,
    decreases s.len(),
{
    let at = first_index(s, c);
    lemma_first_index(s, c);
    if at >= s.len() {
        assert(joined(seq![s], c) =~= s);
    } else {
        let rest = s.subrange(at + 1, s.len() as int);
        lemma_parts_make_up_the_text(rest, c);
        let parts = split_parts(s, c);
        let tail = split_parts(rest, c);
        assert(parts.drop_first() =~= tail);
        assert(parts[0] == s.subrange(0, at));
        assert forall|i: int| 0 <= i < parts.len() implies !(#[trigger] parts[i]).contains(c) by {
            if i > 0 {
                assert(parts[i] == tail[i - 1]);
            }
        }
        assert(s =~= s.subrange(0, at) + seq![c] + rest);
    }
}

/// Texts with a character between them.
pub open spec fn joined(parts: Seq<Seq<char>>, c: char) -> Seq<char>
    decreases parts.len(),
{
    if parts.len() == 0 {
        Seq::empty()
    } else if parts.len() == 1 {
        parts[0]
    } else {
        parts[0] + seq![c] + joined(parts.drop_first(), c)
    }
}

/// A text begins and ends with another exactly where that one is what it is made of
/// there.
pub proof fn lemma_texts_begin_and_end(s: Seq<char>, t: Seq<char>)
    ensures
        has_prefix(t + s, t),
        has_suffix(s + t, t),
        has_prefix(s, t) ==> s == t + s.skip(t.len() as int),
        has_suffix(s, t) ==> s == s.take(s.len() - t.len()) + t,
        contains_text(s + t, t) && contains_text(s + t, s),
{
    assert((t + s).subrange(0, t.len() as int) =~= t);
    assert((s + t).subrange((s + t).len() - t.len(), (s + t).len() as int) =~= t);
    if has_prefix(s, t) {
        assert(s =~= t + s.skip(t.len() as int));
    }
    if has_suffix(s, t) {
        assert(s =~= s.take(s.len() - t.len()) + t);
    }
    assert((s + t).subrange(0, s.len() as int) =~= s);
    assert((s + t).subrange(s.len() as int, (s.len() + t.len()) as int) =~= t);
    assert(stands_at(s + t, s, 0));
    assert(stands_at(s + t, t, s.len() as int));
}

/// The parts of two texts with a character between them are those of the first and
/// those of the second.
pub proof fn lemma_parts_of_joined_texts(s: Seq<char>, t: Seq<char>, c: char)
    ensures
        split_parts(s + seq![c] + t, c) == split_parts(s, c) + split_parts(t, c),
    decreases s.len(),
{
    let all = s + seq![c] + t;
    let at = first_index(s, c);
    lemma_first_index(s, c);
    if at >= s.len() {
        lemma_first_index_unique(all, c, s.len() as int);
        assert(all.subrange(0, s.len() as int) =~= s);
        assert(all.subrange(s.len() as int + 1, all.len() as int) =~= t);
        assert(split_parts(all, c) =~= seq![s] + split_parts(t, c));
    } else {
        lemma_first_index_unique(all, c, at);
        let rest = s.subrange(at + 1, s.len() as int);
        lemma_parts_of_joined_texts(rest, t, c);
        assert(all.subrange(0, at) =~= s.subrange(0, at));
        assert(all.subrange(at + 1, all.len() as int) =~= rest + seq![c] + t);
        assert(split_parts(all, c) =~= split_parts(s, c) + split_parts(t, c));
    }
}

/// A text without a character is its only part.
pub proof fn lemma_text_without_it_is_one_part(s: Seq<char>, c: char)
    requires
        !s.contains(c),
    ensures
        split_parts(s, c) == seq![s],
        first_index(s, c) == s.len(),
{
    lemma_first_index(s, c);
    if first_index(s, c) < s.len() {
        assert(s[first_index(s, c)] == c);
    }
}

/// A character that a text lacks is first found where it is put behind the text.
pub proof fn lemma_first_place_is_where_it_was_put(s: Seq<char>, t: Seq<char>, c: char)
    requires
        !s.contains(c),
    ensures
        first_index(s + seq![c] + t, c) == s.len(),
{
    let all = s + seq![c] + t;
    assert forall|k: int| 0 <= k < s.len() implies all[k] != c by {
        assert(s.contains(s[k]));
    }
    lemma_first_index_unique(all, c, s.len() as int);
}

/// A number that is read is not negative and within its limit.
pub proof fn lemma_numbers_are_within_their_limit(s: Seq<char>, limit: int)
    ensures
        decimal(s, limit) matches Some(value) ==> 0 <= value <= limit,
{
    let digits = without_plus(s);
    if all_digits(digits) {
        lemma_digits_grow(digits, digits.len() as int);
        assert(digits.take(digits.len() as int) =~= digits);
    }
}

} // verus!
