use vstd::prelude::*;
use vstd::string::StrSliceExecFns;

verus! {

/// `s` begins with `prefix`.
pub open spec fn starts_with(s: Seq<char>, prefix: Seq<char>) -> bool {
    prefix.len() <= s.len() && s.subrange(0, prefix.len() as int) == prefix
}

/// The fields of `s` from position `i` on, where the field being read began
/// at `start`: `sep` ends one field and begins the next.
pub open spec fn split_from(s: Seq<char>, sep: char, start: int, i: int) -> Seq<Seq<char>>
    decreases s.len() - i,
{
    if i < 0 || i >= s.len() {
        seq![s.subrange(start, s.len() as int)]
    } else if s[i] == sep {
        seq![s.subrange(start, i)] + split_from(s, sep, i + 1, i + 1)
    } else {
        split_from(s, sep, start, i + 1)
    }
}

/// The fields of `s` between occurrences of `sep`: one more field than there
/// are separators, some of them possibly empty.
pub open spec fn split(s: Seq<char>, sep: char) -> Seq<Seq<char>> {
    split_from(s, sep, 0, 0)
}

/// The views of a list of texts.
pub open spec fn texts(fields: Seq<&str>) -> Seq<Seq<char>> {
    Seq::new(fields.len(), |i: int| fields[i]@)
}

/// The value of the decimal digit `c`, if it is one.
pub open spec fn digit_of(c: char) -> Option<u8> {
    if '0' <= c <= '9' {
        Some((c as u8 - 48) as u8)
    } else {
        None
    }
}

/// Every character of `s` is a decimal digit.
pub open spec fn all_digits(s: Seq<char>) -> bool {
    forall|i: int| 0 <= i < s.len() ==> digit_of(#[trigger] s[i]) is Some
}

/// The number that the decimal digits `s` write.
pub open spec fn value_of(s: Seq<char>) -> nat
    decreases s.len(),
{
    if s.len() == 0 {
        0
    } else {
        value_of(s.drop_last()) * 10 + digit_of(s.last()).unwrap() as nat
    }
}

/// The 32-bit number that `s` writes, if it writes one: an optional plus sign
/// and then one or more decimal digits, of a value that fits.
pub open spec fn number_of(s: Seq<char>) -> Option<u32> {
    let digits = if s.len() > 0 && s[0] == '+' {
        s.subrange(1, s.len() as int)
    } else {
        s
    };
    if digits.len() > 0 && all_digits(digits) && value_of(digits) <= u32::MAX {
        Some(value_of(digits) as u32)
    } else {
        None
    }
}

/// The value of a digit string is at least the value of each of its prefixes.
pub proof fn lemma_value_grows(s: Seq<char>, n: int)
    requires
        0 <= n <= s.len(),
    ensures
        value_of(s.subrange(0, n)) <= value_of(s),
    decreases s.len() - n,
{
    if n < s.len() {
        lemma_value_grows(s, n + 1);
        assert(s.subrange(0, n + 1).drop_last() =~= s.subrange(0, n));
    } else {
        assert(s.subrange(0, n) =~= s);
    }
}

/// Whether `a` and `b` are the same text.
pub fn text_eq(a: &str, b: &str) -> (r: bool)
    ensures
        r == (a@ == b@),
{
    let n = a.unicode_len();
    if n != b.unicode_len() {
        return false;
    }
    let mut i: usize = 0;
    while i < n
        invariant
            i <= n,
            n == a@.len(),
            n == b@.len(),
            forall|j: int| 0 <= j < i ==> a@[j] == b@[j],
        decreases n - i,
    {
        if a.get_char(i) != b.get_char(i) {
            return false;
        }
        i += 1;
    }
    assert(a@ =~= b@);
    true
}

/// Whether `s` begins with `prefix`.
pub fn has_prefix(s: &str, prefix: &str) -> (r: bool)
    ensures
        r == starts_with(s@, prefix@),
{
    let n = prefix.unicode_len();
    if n > s.unicode_len() {
        return false;
    }
    let mut i: usize = 0;
    while i < n
        invariant
            i <= n,
            n == prefix@.len(),
            n <= s@.len(),
            forall|j: int| 0 <= j < i ==> s@[j] == prefix@[j],
        decreases n - i,
    {
        if s.get_char(i) != prefix.get_char(i) {
            assert(s@.subrange(0, n as int)[i as int] != prefix@[i as int]);
            return false;
        }
        i += 1;
    }
    assert(s@.subrange(0, n as int) =~= prefix@);
    true
}

/// The fields of `s` between occurrences of `sep`.
pub fn split_text<'a>(s: &'a str, sep: char) -> (fields: Vec<&'a str>)
    ensures
        texts(fields@) == split(s@, sep),
        fields@.len() >= 1,
{
    let n = s.unicode_len();
    let mut fields: Vec<&'a str> = Vec::new();
    let mut start: usize = 0;
    let mut i: usize = 0;
    for c in it: s.chars()
        invariant
            n == s@.len(),
            i == it.index(),
            it.seq() == s@,
            start <= i,
            split(s@, sep) == texts(fields@) + split_from(s@, sep, start as int, i as int),
    {
        if c == sep {
            let ghost before = texts(fields@);
            let field = s.substring_char(start, i);
            fields.push(field);
            assert(texts(fields@) =~= before + seq![s@.subrange(start as int, i as int)]);
            assert(texts(fields@) + split_from(s@, sep, i + 1, i + 1) =~= before + (
            seq![s@.subrange(start as int, i as int)] + split_from(s@, sep, i + 1, i + 1)));
            start = i + 1;
        }
        i += 1;
    }
    let ghost before = texts(fields@);
    let field = s.substring_char(start, n);
    fields.push(field);
    assert(texts(fields@) =~= before + seq![s@.subrange(start as int, n as int)]);
    fields
}

/// The value of the decimal digit `c`, if it is one.
pub fn digit(c: char) -> (d: Option<u8>)
    ensures
        d == digit_of(c),
{
    if c >= '0' && c <= '9' {
        Some(c as u8 - 48)
    } else {
        None
    }
}

/// The 32-bit number that `s` writes, if it writes one.
pub fn parse_u32(s: &str) -> (number: Option<u32>)
    ensures
        number == number_of(s@),
{
    let n = s.unicode_len();
    let first: usize = if n > 0 && s.get_char(0) == '+' {
        1
    } else {
        0
    };
    if first == n {
        return None;
    }
    let ghost digits = if s@.len() > 0 && s@[0] == '+' {
        s@.subrange(1, s@.len() as int)
    } else {
        s@
    };
    assert(digits =~= s@.subrange(first as int, n as int));
    let mut value: u32 = 0;
    let mut i: usize = first;
    while i < n
        invariant
            first <= i <= n,
            n == s@.len(),
            digits == s@.subrange(first as int, n as int),
            digits == (if s@.len() > 0 && s@[0] == '+' {
                s@.subrange(1, s@.len() as int)
            } else {
                s@
            }),
            all_digits(digits.subrange(0, i - first)),
            value == value_of(digits.subrange(0, i - first)),
        decreases n - i,
    {
        let ghost done = digits.subrange(0, i - first);
        let ghost next = digits.subrange(0, i + 1 - first);
        proof {
            assert(next.drop_last() =~= done);
            assert(next.last() == s@[i as int]);
        }
        match digit(s.get_char(i)) {
            None => {
                assert(digit_of(digits[i - first]) is None);
                return None;
            },
            Some(d) => {
                let wide: u64 = value as u64 * 10 + d as u64;
                if wide > 0xffff_ffff {
                    proof {
                        assert(value_of(next) == wide);
                        lemma_value_grows(digits, i + 1 - first);
                    }
                    return None;
                }
                value = wide as u32;
                assert forall|j: int| 0 <= j < next.len() implies digit_of(#[trigger] next[j])
                    is Some by {
                    if j < done.len() {
                        assert(done[j] == next[j]);
                    }
                }
            },
        }
        i += 1;
    }
    assert(digits.subrange(0, n - first) =~= digits);
    Some(value)
}

} // verus!
