//! The `versionCode` property of an APK's archive comment: one `key=value`
//! property per line.
use vstd::prelude::*;

verus! {

/// The ASCII bytes of the key `versionCode`.
pub open spec fn version_code_key() -> Seq<u8> {
    seq![0x76u8, 0x65u8, 0x72u8, 0x73u8, 0x69u8, 0x6fu8, 0x6eu8, 0x43u8, 0x6fu8, 0x64u8, 0x65u8]
}

pub open spec fn is_digit(c: u8) -> bool {
    0x30u8 <= c <= 0x39u8
}

/// The decimal value of the digits `d`.
pub open spec fn digits_value(d: Seq<u8>) -> int
    decreases d.len(),
{
    if d.len() == 0 {
        0
    } else {
        digits_value(d.drop_last()) * 10 + (d.last() - 0x30u8)
    }
}

pub open spec fn all_digits(d: Seq<u8>) -> bool {
    forall|i: int| 0 <= i < d.len() ==> is_digit(#[trigger] d[i])
}

/// `s` without its leading sign, if it has one.
pub open spec fn unsigned_part(s: Seq<u8>) -> Seq<u8> {
    if s.len() > 0 && (s[0] == 0x2du8 || s[0] == 0x2bu8) {
        s.drop_first()
    } else {
        s
    }
}

/// A 32-bit signed decimal: an optional sign, then at least one digit,
/// with the value in range.
pub open spec fn parse_i32(s: Seq<u8>) -> Option<i32> {
    let neg = s.len() > 0 && s[0] == 0x2du8;
    let d = unsigned_part(s);
    if d.len() == 0 || !all_digits(d) {
        None
    } else {
        let v = if neg { -digits_value(d) } else { digits_value(d) };
        if i32::MIN <= v <= i32::MAX {
            Some(v as i32)
        } else {
            None
        }
    }
}

/// The index of the first byte `c` in `s` at or after `from`, or its length.
pub open spec fn find_byte(s: Seq<u8>, c: u8, from: int) -> int
    decreases s.len() - from,
{
    if from >= s.len() {
        s.len() as int
    } else if s[from] == c {
        from
    } else {
        find_byte(s, c, from + 1)
    }
}

/// The value of the first line from `from` on whose key, the bytes before
/// its first `=`, is `versionCode`.
pub open spec fn version_value(c: Seq<u8>, from: int) -> Option<Seq<u8>>
    decreases c.len() - from,
{
    if from > c.len() || from < 0 {
        None
    } else {
        let end = find_byte(c, 0x0au8, from);
        let line = c.subrange(from, end);
        let eq = find_byte(line, 0x3du8, 0);
        if eq < line.len() && line.subrange(0, eq) == version_code_key() {
            Some(line.subrange(eq + 1, line.len() as int))
        } else if end >= c.len() || end < from {
            None
        } else {
            version_value(c, end + 1)
        }
    }
}

/// The version code an archive comment carries: the value of its first
/// `versionCode` property as a decimal, 0 when it is no decimal, and none
/// when there is no such property.
pub open spec fn version_code_of(comment: Seq<u8>) -> Option<i32> {
    match version_value(comment, 0) {
        Some(v) => Some(
            match parse_i32(v) {
                Some(n) => n,
                None => 0,
            },
        ),
        None => None,
    }
}

fn find_byte_from(s: &Vec<u8>, c: u8, from: usize) -> (r: usize)
    requires
        from <= s.len(),
    ensures
        r == find_byte(s@, c, from as int),
        from <= r <= s.len(),
{
    let mut k: usize = from;
    while k < s.len()
        invariant
            from <= k <= s.len(),
            find_byte(s@, c, from as int) == find_byte(s@, c, k as int),
        decreases s.len() - k,
    {
        if s[k] == c {
            return k;
        }
        k = k + 1;
    }
    k
}

fn copy_range(s: &Vec<u8>, from: usize, to: usize) -> (r: Vec<u8>)
    requires
        from <= to <= s.len(),
    ensures
        r@ == s@.subrange(from as int, to as int),
{
    let mut out: Vec<u8> = Vec::new();
    let mut k: usize = from;
    while k < to
        invariant
            from <= k <= to <= s.len(),
            out@ == s@.subrange(from as int, k as int),
        decreases to - k,
    {
        out.push(s[k]);
        k = k + 1;
    }
    out
}

fn is_version_code_key(line: &Vec<u8>, eq: usize) -> (r: bool)
    requires
        eq <= line.len(),
    ensures
        r == (line@.subrange(0, eq as int) == version_code_key()),
{
    let key: Vec<u8> = vec![0x76u8, 0x65u8, 0x72u8, 0x73u8, 0x69u8, 0x6fu8, 0x6eu8, 0x43u8, 0x6fu8, 0x64u8, 0x65u8];
    assert(key@ =~= version_code_key());
    if eq != key.len() {
        assert(line@.subrange(0, eq as int).len() != version_code_key().len());
        return false;
    }
    let mut k: usize = 0;
    while k < eq
        invariant
            k <= eq == key@.len() <= line@.len(),
            key@ == version_code_key(),
            forall|j: int| 0 <= j < k ==> line@[j] == key@[j],
        decreases eq - k,
    {
        if line[k] != key[k] {
            assert(line@.subrange(0, eq as int)[k as int] != version_code_key()[k as int]);
            return false;
        }
        k = k + 1;
    }
    assert(line@.subrange(0, eq as int) =~= version_code_key());
    true
}

proof fn lemma_digits_value_grows(d: Seq<u8>, k: int)
    requires
        0 <= k <= d.len(),
        forall|i: int| 0 <= i < d.len() ==> is_digit(#[trigger] d[i]),
    ensures
        digits_value(d.subrange(0, k)) <= digits_value(d),
        0 <= digits_value(d.subrange(0, k)),
    decreases d.len(),
{
    if d.len() > 0 {
        if k == d.len() {
            assert(d.subrange(0, k) =~= d);
            lemma_digits_value_grows(d.drop_last(), k - 1);
            assert(d.drop_last().subrange(0, k - 1) =~= d.drop_last());
        } else {
            lemma_digits_value_grows(d.drop_last(), k);
            assert(d.drop_last().subrange(0, k) =~= d.subrange(0, k));
            lemma_digits_value_grows(d.drop_last(), d.len() - 1);
            assert(d.drop_last().subrange(0, d.len() - 1) =~= d.drop_last());
        }
    }
}

/// The value of `s` as a 32-bit signed decimal.
pub fn parse_decimal_i32(s: &Vec<u8>) -> (r: Option<i32>)
    ensures
        r == parse_i32(s@),
{
    let neg = s.len() > 0 && s[0] == 0x2du8;
    let signed = s.len() > 0 && (s[0] == 0x2du8 || s[0] == 0x2bu8);
    let start: usize = if signed { 1 } else { 0 };
    let ghost d = unsigned_part(s@);
    assert(neg == (s@.len() > 0 && s@[0] == 0x2du8));
    assert(signed == (s@.len() > 0 && (s@[0] == 0x2du8 || s@[0] == 0x2bu8)));
    assert(d =~= s@.subrange(start as int, s@.len() as int));
    if start >= s.len() {
        return None;
    }
    let mut acc: i64 = 0;
    let mut k: usize = start;
    while k < s.len()
        invariant
            start <= k <= s.len(),
            d == unsigned_part(s@),
            neg == (s@.len() > 0 && s@[0] == 0x2du8),
            d == s@.subrange(start as int, s@.len() as int),
            forall|i: int| 0 <= i < k - start ==> is_digit(#[trigger] d[i]),
            acc == digits_value(d.subrange(0, k - start)),
            0 <= acc <= 0x8000_0000,
        decreases s.len() - k,
    {
        let c = s[k];
        if c < 0x30u8 || c > 0x39u8 {
            assert(!is_digit(d[k - start]));
            assert(!all_digits(d));
            return None;
        }
        let ghost prefix = d.subrange(0, k + 1 - start);
        assert(prefix.drop_last() =~= d.subrange(0, k - start));
        acc = acc * 10 + (c - 0x30u8) as i64;
        k = k + 1;
        if acc > 0x8000_0000 {
            proof {
                if all_digits(d) {
                    lemma_digits_value_grows(d, k - start);
                    assert(digits_value(d) > 0x8000_0000);
                }
            }
            return None;
        }
    }
    assert(d.subrange(0, d.len() as int) =~= d);
    if neg {
        Some((-acc) as i32)
    } else if acc > 0x7fff_ffff {
        None
    } else {
        Some(acc as i32)
    }
}

/// The version code the archive comment `comment` carries.
pub fn comment_version_code(comment: &Vec<u8>) -> (r: Option<i32>)
    ensures
        r == version_code_of(comment@),
{
    let mut from: usize = 0;
    while from <= comment.len()
        invariant
            from <= comment.len() + 1,
            version_value(comment@, 0) == version_value(comment@, from as int),
        decreases comment.len() + 1 - from,
    {
        let end = find_byte_from(comment, 0x0au8, from);
        let line = copy_range(comment, from, end);
        let eq = find_byte_from(&line, 0x3du8, 0);
        if eq < line.len() && is_version_code_key(&line, eq) {
            let value = copy_range(&line, eq + 1, line.len());
            return match parse_decimal_i32(&value) {
                Some(n) => Some(n),
                None => Some(0),
            };
        }
        if end >= comment.len() {
            return None;
        }
        from = end + 1;
    }
    None
}

} // verus!
