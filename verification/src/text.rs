//! Character-level building blocks: splitting at a separator, ASCII case
//! folding, and decimal numbers.
//!
//! Every function here is stated over `Seq<char>`, the view of `str` and
//! `String`.

use vstd::prelude::*;

verus! {

// ---------------------------------------------------------------------------
// Splitting
// ---------------------------------------------------------------------------

/// `sep` does not occur in `s`.
pub open spec fn free_of(s: Seq<char>, sep: char) -> bool {
    forall|i: int| 0 <= i < s.len() ==> s[i] != sep
}

/// Index of the first `sep` in `s`, or `s.len()` where there is none.
pub open spec fn first_index_of(s: Seq<char>, sep: char) -> int
    decreases s.len(),
{
    if s.len() == 0 || s[0] == sep {
        0
    } else {
        1 + first_index_of(s.drop_first(), sep)
    }
}

/// The pieces of `s` that lie between the occurrences of `sep`, in order.
///
/// There is always one piece more than there are separators: a string
/// without a separator is its own single piece, and a separator at either
/// end borders an empty piece.
pub open spec fn split_on(s: Seq<char>, sep: char) -> Seq<Seq<char>>
    decreases s.len(),
{
    let i = first_index_of(s, sep);
    if 0 <= i < s.len() {
        seq![s.subrange(0, i)] + split_on(s.subrange(i + 1, s.len() as int), sep)
    } else {
        seq![s]
    }
}

/// The pieces of `s` joined again, with one `sep` between neighbours.
pub open spec fn join_with(pieces: Seq<Seq<char>>, sep: char) -> Seq<char>
    decreases pieces.len(),
{
    if pieces.len() == 0 {
        Seq::empty()
    } else if pieces.len() == 1 {
        pieces[0]
    } else {
        pieces[0] + seq![sep] + join_with(pieces.drop_first(), sep)
    }
}

/// The substrings of `s` that a list of index pairs cuts out.
pub open spec fn cut(s: Seq<char>, bounds: Seq<(usize, usize)>) -> Seq<Seq<char>> {
    Seq::new(bounds.len(), |k: int| s.subrange(bounds[k].0 as int, bounds[k].1 as int))
}

/// `first_index_of` finds position `k` when `k` is the first separator, or
/// the end of a string that has none.
pub proof fn lemma_first_index_of(s: Seq<char>, sep: char, k: int)
    requires
        0 <= k <= s.len(),
        forall|j: int| 0 <= j < k ==> s[j] != sep,
        k == s.len() || s[k] == sep,
    ensures
        first_index_of(s, sep) == k,
    decreases k,
{
    if k > 0 {
        lemma_first_index_of(s.drop_first(), sep, k - 1);
    }
}

/// A string without separator is its own single piece.
pub proof fn lemma_split_free(s: Seq<char>, sep: char)
    requires
        free_of(s, sep),
    ensures
        split_on(s, sep) == seq![s],
{
    lemma_first_index_of(s, sep, s.len() as int);
}

/// Splitting `head + sep + tail`, where `head` has no separator, gives
/// `head` followed by the pieces of `tail`.
pub proof fn lemma_split_cons(head: Seq<char>, tail: Seq<char>, sep: char)
    requires
        free_of(head, sep),
    ensures
        split_on(head + seq![sep] + tail, sep) == seq![head] + split_on(tail, sep),
{
    let s = head + seq![sep] + tail;
    let k = head.len() as int;
    lemma_first_index_of(s, sep, k);
    assert(s.subrange(0, k) =~= head);
    assert(s.subrange(k + 1, s.len() as int) =~= tail);
}

/// Splitting is the inverse of joining pieces that hold no separator.
pub proof fn lemma_split_join(pieces: Seq<Seq<char>>, sep: char)
    requires
        pieces.len() > 0,
        forall|k: int| 0 <= k < pieces.len() ==> free_of(#[trigger] pieces[k], sep),
    ensures
        split_on(join_with(pieces, sep), sep) == pieces,
    decreases pieces.len(),
{
    if pieces.len() == 1 {
        lemma_split_free(pieces[0], sep);
        assert(seq![pieces[0]] =~= pieces);
    } else {
        let rest = pieces.drop_first();
        assert forall|k: int| 0 <= k < rest.len() implies free_of(#[trigger] rest[k], sep) by {
            assert(rest[k] == pieces[k + 1]);
        }
        lemma_split_join(rest, sep);
        lemma_split_cons(pieces[0], join_with(rest, sep), sep);
        assert(seq![pieces[0]] + rest =~= pieces);
    }
}

/// Joining the pieces of a string gives the string back.
pub proof fn lemma_join_split(s: Seq<char>, sep: char)
    ensures
        join_with(split_on(s, sep), sep) == s,
        split_on(s, sep).len() >= 1,
        forall|k: int| 0 <= k < split_on(s, sep).len() ==> free_of(#[trigger] split_on(s, sep)[k], sep),
    decreases s.len(),
{
    let i = first_index_of(s, sep);
    lemma_first_index_bounds(s, sep);
    if 0 <= i < s.len() {
        let head = s.subrange(0, i);
        let tail = s.subrange(i + 1, s.len() as int);
        lemma_join_split(tail, sep);
        let pieces = seq![head] + split_on(tail, sep);
        assert(pieces.drop_first() =~= split_on(tail, sep));
        assert(head + seq![sep] + tail =~= s);
        assert forall|k: int| 0 <= k < pieces.len() implies free_of(#[trigger] pieces[k], sep) by {
            if k > 0 {
                assert(pieces[k] == split_on(tail, sep)[k - 1]);
            }
        }
    } else {
        assert(free_of(s, sep));
    }
}

/// What `first_index_of` returns: no separator lies before it, and one lies
/// at it unless it is the end.
pub proof fn lemma_first_index_bounds(s: Seq<char>, sep: char)
    ensures
        0 <= first_index_of(s, sep) <= s.len(),
        forall|j: int| 0 <= j < first_index_of(s, sep) ==> s[j] != sep,
        first_index_of(s, sep) < s.len() ==> s[first_index_of(s, sep)] == sep,
    decreases s.len(),
{
    if !(s.len() == 0 || s[0] == sep) {
        let t = s.drop_first();
        lemma_first_index_bounds(t, sep);
        assert forall|j: int| 0 <= j < first_index_of(s, sep) implies s[j] != sep by {
            if j > 0 {
                assert(s[j] == t[j - 1]);
            }
        }
        assert(first_index_of(s, sep) < s.len() ==> s[first_index_of(s, sep)] == t[first_index_of(
            t,
            sep,
        )]);
    }
}

/// The characters of a string, one by one.
pub fn chars_of(s: &str) -> (v: Vec<char>)
    ensures
        v@ == s@,
{
    let mut v: Vec<char> = Vec::new();
    for c in it: s.chars()
        invariant
            v@ == it.seq().take(it.index() as int),
    {
        v.push(c);
    }
    v
}

/// Where the pieces of `chars` between the separators begin and end.
pub fn split_bounds(chars: &[char], sep: char) -> (bounds: Vec<(usize, usize)>)
    ensures
        cut(chars@, bounds@) == split_on(chars@, sep),
        forall|k: int|
            0 <= k < bounds.len() ==> (#[trigger] bounds[k]).0 <= bounds[k].1 <= chars.len(),
{
    let n: usize = chars.len();
    let mut bounds: Vec<(usize, usize)> = Vec::new();
    let mut start: usize = 0;
    let mut i: usize = 0;
    proof {
        assert(chars@.subrange(0, n as int) =~= chars@);
        assert(cut(chars@, bounds@) + split_on(chars@, sep) =~= split_on(chars@, sep));
    }
    while i < n
        invariant
            n == chars.len(),
            start <= i <= n,
            forall|j: int| start <= j < i ==> chars[j] != sep,
            forall|k: int|
                0 <= k < bounds.len() ==> (#[trigger] bounds[k]).0 <= bounds[k].1 <= n,
            split_on(chars@, sep) == cut(chars@, bounds@) + split_on(
                chars@.subrange(start as int, n as int),
                sep,
            ),
        decreases n - i,
    {
        if chars[i] == sep {
            proof {
                let rest = chars@.subrange(start as int, n as int);
                lemma_first_index_of(rest, sep, i - start);
                assert(rest.subrange(0, i - start) =~= chars@.subrange(start as int, i as int));
                assert(rest.subrange(i - start + 1, rest.len() as int) =~= chars@.subrange(
                    i + 1,
                    n as int,
                ));
                assert(cut(chars@, bounds@.push((start, i))) =~= cut(chars@, bounds@) + seq![
                    chars@.subrange(start as int, i as int),
                ]);
            }
            bounds.push((start, i));
            start = i + 1;
        }
        i += 1;
    }
    proof {
        let rest = chars@.subrange(start as int, n as int);
        lemma_first_index_of(rest, sep, n - start);
        assert(cut(chars@, bounds@.push((start, n))) =~= cut(chars@, bounds@) + seq![rest]);
    }
    bounds.push((start, n));
    bounds
}

/// The piece of `s` from character `from` up to, not including, `to`.
pub fn piece(s: &str, from: usize, to: usize) -> (r: String)
    requires
        from <= to <= s@.len(),
    ensures
        r@ == s@.subrange(from as int, to as int),
{
    s.substring_char(from, to).to_owned()
}

// ---------------------------------------------------------------------------
// ASCII case
// ---------------------------------------------------------------------------

/// The ASCII lower-case form of a character: `A` to `Z` become `a` to `z`,
/// every other character stays.
pub open spec fn to_lower(c: char) -> char {
    if 'A' <= c && c <= 'Z' {
        ((c as u8) + 32) as char
    } else {
        c
    }
}

/// A string with every character in its ASCII lower-case form.
pub open spec fn lowercase(s: Seq<char>) -> Seq<char> {
    Seq::new(s.len(), |i: int| to_lower(s[i]))
}

/// The ASCII lower-case form of `c`.
pub fn lower(c: char) -> (r: char)
    ensures
        r == to_lower(c),
{
    if c >= 'A' && c <= 'Z' {
        ((c as u8) + 32) as char
    } else {
        c
    }
}

/// Whether `chars` reads `word` once its ASCII letters are lowered.
pub fn lowered_equals(chars: &[char], word: &str) -> (r: bool)
    ensures
        r == (lowercase(chars@) == word@),
{
    let expected = chars_of(word);
    let n: usize = chars.len();
    if expected.len() != n {
        return false;
    }
    let mut i: usize = 0;
    while i < n
        invariant
            n == chars.len(),
            n == expected.len(),
            expected@ == word@,
            i <= n,
            forall|j: int| 0 <= j < i ==> to_lower(chars[j]) == expected[j],
        decreases n - i,
    {
        if lower(chars[i]) != expected[i] {
            assert(lowercase(chars@)[i as int] != word@[i as int]);
            return false;
        }
        i += 1;
    }
    assert(lowercase(chars@) =~= word@);
    true
}

// ---------------------------------------------------------------------------
// Decimal numbers
// ---------------------------------------------------------------------------

/// `c` is one of `0` to `9`.
pub open spec fn is_digit(c: char) -> bool {
    '0' <= c && c <= '9'
}

/// Every character of `s` is a decimal digit.
pub open spec fn all_digits(s: Seq<char>) -> bool {
    forall|i: int| 0 <= i < s.len() ==> is_digit(#[trigger] s[i])
}

/// The number a decimal digit stands for.
pub open spec fn digit_value(c: char) -> nat {
    (c as u32 - '0' as u32) as nat
}

/// The digit that stands for a number below ten.
pub open spec fn digit_char(d: nat) -> char {
    (d + '0' as u32) as char
}

/// The number that a string of decimal digits denotes; leading zeros count
/// for nothing, and the empty string denotes zero.
pub open spec fn decimal_value(s: Seq<char>) -> nat
    decreases s.len(),
{
    if s.len() == 0 {
        0
    } else {
        10 * decimal_value(s.drop_last()) + digit_value(s.last())
    }
}

/// The decimal digits of a number, without leading zeros; zero is `0`.
pub open spec fn decimal_digits(n: nat) -> Seq<char>
    decreases n,
{
    if n < 10 {
        seq![digit_char(n)]
    } else {
        decimal_digits(n / 10).push(digit_char(n % 10))
    }
}

/// What a string means as an unsigned 16-bit number: an optional `+`, then
/// one or more decimal digits whose value is at most 65535. Anything else,
/// the empty string and a lone sign included, means nothing.
pub open spec fn parse_u16(s: Seq<char>) -> Option<u16> {
    let digits = if s.len() > 0 && s[0] == '+' {
        s.drop_first()
    } else {
        s
    };
    if digits.len() > 0 && all_digits(digits) && decimal_value(digits) <= u16::MAX {
        Some(decimal_value(digits) as u16)
    } else {
        None
    }
}

/// A string of digits denotes at least what any of its prefixes denotes.
pub proof fn lemma_decimal_value_prefix(s: Seq<char>, i: int)
    requires
        0 <= i <= s.len(),
    ensures
        decimal_value(s.take(i)) <= decimal_value(s),
    decreases s.len() - i,
{
    if i < s.len() {
        assert(s.drop_last().take(i) =~= s.take(i));
        lemma_decimal_value_prefix(s.drop_last(), i);
    } else {
        assert(s.take(i) =~= s);
    }
}

/// What does not read as a 16-bit number: the empty text, a lone sign, a
/// text with anything but digits after an optional `+`, and digits that
/// denote more than 65535.
pub proof fn lemma_parse_u16_rejects(s: Seq<char>)
    ensures
        s.len() == 0 ==> parse_u16(s) is None,
        s == seq!['+'] ==> parse_u16(s) is None,
        (exists|i: int| 1 <= i < s.len() && !is_digit(s[i])) ==> parse_u16(s) is None,
        s.len() > 0 && s[0] != '+' && !is_digit(s[0]) ==> parse_u16(s) is None,
        all_digits(s) && decimal_value(s) > u16::MAX ==> parse_u16(s) is None,
{
    if exists|i: int| 1 <= i < s.len() && !is_digit(s[i]) {
        let i = choose|i: int| 1 <= i < s.len() && !is_digit(s[i]);
        if s[0] == '+' {
            assert(s.drop_first()[i - 1] == s[i]);
        }
    }
    if s.len() > 0 && s[0] != '+' && !is_digit(s[0]) {
        assert(!all_digits(s));
    }
    if all_digits(s) && s.len() > 0 {
        assert(is_digit(s[0]));
    }
    if s == seq!['+'] {
        assert(s.drop_first().len() == 0);
    }
}

/// The digits of a number are digits, hold no sign, and denote the number.
pub proof fn lemma_decimal_digits(n: nat)
    ensures
        decimal_digits(n).len() > 0,
        all_digits(decimal_digits(n)),
        decimal_value(decimal_digits(n)) == n,
    decreases n,
{
    if n < 10 {
        let s = seq![digit_char(n)];
        assert(s.drop_last() =~= Seq::<char>::empty());
        assert(decimal_value(s.drop_last()) == 0);
    } else {
        lemma_decimal_digits(n / 10);
        let s = decimal_digits(n);
        assert(s.drop_last() =~= decimal_digits(n / 10));
        assert(s.last() == digit_char(n % 10));
    }
}

/// Reading back the digits of a 16-bit number gives the number.
pub proof fn lemma_parse_u16_of_digits(n: u16)
    ensures
        parse_u16(decimal_digits(n as nat)) == Some(n),
{
    lemma_decimal_digits(n as nat);
    let s = decimal_digits(n as nat);
    assert(is_digit(s[0]));
}

/// The number that a decimal digit stands for, if `c` is one.
pub fn digit_of(c: char) -> (r: Option<u32>)
    ensures
        r is Some <==> is_digit(c),
        r matches Some(d) ==> d == digit_value(c) && d < 10,
{
    if c >= '0' && c <= '9' {
        Some((c as u32) - ('0' as u32))
    } else {
        None
    }
}

/// Reads an unsigned 16-bit number from its decimal form.
pub fn read_u16(chars: &[char]) -> (r: Option<u16>)
    ensures
        r == parse_u16(chars@),
{
    let n: usize = chars.len();
    let first: usize = if n > 0 && chars[0] == '+' {
        1
    } else {
        0
    };
    if first == n {
        return None;
    }
    let ghost digits = chars@.subrange(first as int, n as int);
    assert(digits =~= if first == 1 {
        chars@.drop_first()
    } else {
        chars@
    });
    let mut value: u32 = 0;
    let mut i: usize = first;
    while i < n
        invariant
            n == chars.len(),
            first <= i <= n,
            digits == chars@.subrange(first as int, n as int),
            parse_u16(chars@) == if all_digits(digits) && decimal_value(digits) <= u16::MAX {
                Some(decimal_value(digits) as u16)
            } else {
                None
            },
            all_digits(digits.take(i - first)),
            value == decimal_value(digits.take(i - first)),
            value <= u16::MAX,
        decreases n - i,
    {
        let ghost before = digits.take(i - first);
        let ghost after = digits.take(i - first + 1);
        proof {
            assert(after.drop_last() =~= before);
            assert(after.last() == chars[i as int]);
        }
        match digit_of(chars[i]) {
            None => {
                assert(!is_digit(digits[i - first]));
                return None;
            },
            Some(d) => {
                value = value * 10 + d;
                if value > 65535 {
                    proof {
                        lemma_decimal_value_prefix(digits, i - first + 1);
                    }
                    return None;
                }
                assert forall|j: int| 0 <= j < after.len() implies is_digit(#[trigger] after[j]) by {
                    if j < before.len() {
                        assert(after[j] == before[j]);
                    }
                }
            },
        }
        i += 1;
    }
    assert(digits.take(n - first) =~= digits);
    Some(value as u16)
}

/// The one-character string for a digit.
pub fn digit_str(d: u16) -> (s: &'static str)
    requires
        d < 10,
    ensures
        s@ == seq![digit_char(d as nat)],
{
    proof {
        reveal_strlit("0");
        reveal_strlit("1");
        reveal_strlit("2");
        reveal_strlit("3");
        reveal_strlit("4");
        reveal_strlit("5");
        reveal_strlit("6");
        reveal_strlit("7");
        reveal_strlit("8");
        reveal_strlit("9");
    }
    let s = match d {
        0 => "0",
        1 => "1",
        2 => "2",
        3 => "3",
        4 => "4",
        5 => "5",
        6 => "6",
        7 => "7",
        8 => "8",
        _ => "9",
    };
    assert(s@ =~= seq![digit_char(d as nat)]);
    s
}

/// Appends the decimal form of `n` to `out`.
pub fn push_decimal(out: &mut String, n: u16)
    ensures
        final(out)@ == old(out)@ + decimal_digits(n as nat),
    decreases n,
{
    if n >= 10 {
        push_decimal(out, n / 10);
    }
    out.append(digit_str(n % 10));
    proof {
        if n >= 10 {
            assert(old(out)@ + decimal_digits((n / 10) as nat) + seq![digit_char((n % 10) as nat)]
                =~= old(out)@ + decimal_digits(n as nat));
        }
    }
}

} // verus!
