//! HLS attribute lists, initialization vectors and byte ranges (RFC 8216, section 4.2).
use super::HlsError;
use crate::num::{parse_uint, parse_uint_slice, NumError};
use crate::text::{
    chars_of, find_char, find_char_slice, lemma_split_once_len, lemma_trim_len, slice_eq,
    split_once, split_once_slice, starts_with, string_of, strip_prefix, strip_prefix_slice, trim,
    trim_slice, utf8_len, utf8_len_capped,
};
use vstd::prelude::*;

verus! {

/// The (name, value) pairs of an attribute list, in order.
pub type Attrs = Seq<(Seq<char>, Seq<char>)>;

/// The characters of each name and value.
pub open spec fn attrs_view(v: Seq<(String, String)>) -> Attrs {
    v.map_values(|p: (String, String)| (p.0@, p.1@))
}

/// The value of the first attribute named `name`.
pub open spec fn attr_get(a: Attrs, name: Seq<char>) -> Option<Seq<char>>
    decreases a.len(),
{
    if a.len() == 0 {
        None
    } else if a[0].0 == name {
        Some(a[0].1)
    } else {
        attr_get(a.drop_first(), name)
    }
}

/// The split of an attribute's value text into the value and what follows it: a quoted
/// value ends at the closing quote, an unquoted one at the first comma.
pub open spec fn value_split(value: Seq<char>) -> Result<(Seq<char>, Seq<char>), HlsError> {
    if starts_with(value, seq!['"']) {
        match split_once(value.drop_first(), seq!['"']) {
            Some((v, tail)) => Ok((v, tail)),
            None => Err(HlsError::AttrUnterminated),
        }
    } else {
        match find_char(value, ',') {
            Some(i) => Ok((value.take(i), value.skip(i))),
            None => Ok((value, seq![])),
        }
    }
}

/// The attributes of `rest` (already trimmed), after those in `acc`.
pub open spec fn attr_from(rest: Seq<char>, acc: Attrs) -> Result<Attrs, HlsError>
    decreases rest.len(),
{
    if rest.len() == 0 {
        Ok(acc)
    } else {
        match split_once(rest, seq!['=']) {
            None => Err(HlsError::AttrInvalid),
            Some((name, value)) => match value_split(value) {
                Err(e) => Err(e),
                Ok((v, tail)) => if attr_get(acc, trim(name)) is Some {
                    Err(HlsError::AttrDuplicate)
                } else {
                    let acc2 = acc.push((trim(name), trim(v)));
                    if tail.len() == 0 {
                        Ok(acc2)
                    } else {
                        match strip_prefix(tail, seq![',']) {
                            None => Err(HlsError::AttrSeparator),
                            Some(t) => {
                                proof {
                                    lemma_value_split_len(value);
                                    lemma_split_once_len(rest, seq!['=']);
                                    lemma_trim_len(t);
                                }
                                attr_from(trim(t), acc2)
                            },
                        }
                    }
                },
            },
        }
    }
}

/// What follows a value is no longer than the value text.
pub proof fn lemma_value_split_len(value: Seq<char>)
    ensures
        value_split(value) matches Ok((v, tail)) ==> tail.len() <= value.len(),
{
    if starts_with(value, seq!['"']) {
        lemma_split_once_len(value.drop_first(), seq!['"']);
    } else {
        crate::text::lemma_find_from(value, seq![','], 0);
    }
}

/// The attribute list in `text`: comma-separated `NAME=value` pairs, values optionally
/// quoted, names and values trimmed; a repeated name is an error.
pub open spec fn attr_spec(text: Seq<char>) -> Result<Attrs, HlsError> {
    attr_from(trim(text), seq![])
}

/// The first pair named `name` in `v`.
pub fn attr_lookup<'a>(v: &'a Vec<(String, String)>, name: &str) -> (r: Option<&'a String>)
    ensures
        r matches Some(s) ==> attr_get(attrs_view(v@), name@) == Some(s@),
        r is None ==> attr_get(attrs_view(v@), name@) is None,
{
    let key = chars_of(name);
    let mut i: usize = 0;
    assert(attrs_view(v@).skip(0) =~= attrs_view(v@));
    while i < v.len()
        invariant
            i <= v@.len(),
            key@ == name@,
            attr_get(attrs_view(v@), name@) == attr_get(attrs_view(v@).skip(i as int), name@),
        decreases v@.len() - i,
    {
        let k = chars_of(v[i].0.as_str());
        assert(attrs_view(v@).skip(i as int)[0] == (v@[i as int].0@, v@[i as int].1@));
        if slice_eq(k.as_slice(), key.as_slice()) {
            return Some(&v[i].1);
        }
        assert(attrs_view(v@).skip(i as int).drop_first() =~= attrs_view(v@).skip(i + 1));
        i = i + 1;
    }
    None
}

/// Parses an HLS attribute list.
pub fn attr(text: &str) -> (r: Result<Vec<(String, String)>, HlsError>)
    ensures
        r matches Ok(v) ==> attr_spec(text@) == Ok::<Attrs, HlsError>(attrs_view(v@)),
        r matches Err(e) ==> attr_spec(text@) == Err::<Attrs, HlsError>(e),
{
    let chars = chars_of(text);
    attr_chars(chars.as_slice())
}

/// Parses an HLS attribute list held as characters.
pub fn attr_chars(chars: &[char]) -> (r: Result<Vec<(String, String)>, HlsError>)
    ensures
        r matches Ok(v) ==> attr_spec(chars@) == Ok::<Attrs, HlsError>(attrs_view(v@)),
        r matches Err(e) ==> attr_spec(chars@) == Err::<Attrs, HlsError>(e),
{
    let eq = ['='];
    let quote = ['"'];
    let comma = [','];
    assert(eq@ =~= seq!['=']);
    assert(quote@ =~= seq!['"']);
    assert(comma@ =~= seq![',']);
    let mut rest: &[char] = trim_slice(chars);
    let mut out: Vec<(String, String)> = Vec::new();
    assert(attrs_view(out@) =~= Seq::<(Seq<char>, Seq<char>)>::empty());
    loop
        invariant
            attr_spec(chars@) == attr_from(rest@, attrs_view(out@)),
            eq@ == seq!['='],
            quote@ == seq!['"'],
            comma@ == seq![','],
        decreases rest@.len(),
    {
        if rest.len() == 0 {
            return Ok(out);
        }
        let (name, value) = match split_once_slice(rest, eq.as_slice()) {
            Some(p) => p,
            None => return Err(HlsError::AttrInvalid),
        };
        let (v, tail) = if value.len() > 0 && value[0] == '"' {
            assert(value@.take(1) =~= seq!['"']);
            assert(starts_with(value@, seq!['"']));
            let inner = &value[1..value.len()];
            assert(inner@ =~= value@.drop_first());
            match split_once_slice(inner, quote.as_slice()) {
                Some(p) => p,
                None => return Err(HlsError::AttrUnterminated),
            }
        } else {
            assert(value@.len() > 0 ==> value@.take(1)[0] == value@[0]);
            assert(!starts_with(value@, seq!['"']));
            match find_char_slice(value, ',') {
                Some(i) => {
                    proof {
                        crate::text::lemma_find_from(value@, seq![','], 0);
                    }
                    (&value[0..i], &value[i..value.len()])
                },
                None => {
                    let empty = &value[value.len()..value.len()];
                    assert(empty@ =~= Seq::<char>::empty());
                    (value, empty)
                },
            }
        };
        let key = string_of(trim_slice(name));
        if attr_lookup(&out, key.as_str()).is_some() {
            return Err(HlsError::AttrDuplicate);
        }
        let val = string_of(trim_slice(v));
        let ghost before = attrs_view(out@);
        out.push((key, val));
        assert(attrs_view(out@) =~= before.push((trim(name@), trim(v@))));
        if tail.len() == 0 {
            return Ok(out);
        }
        match strip_prefix_slice(tail, comma.as_slice()) {
            None => return Err(HlsError::AttrSeparator),
            Some(t) => {
                proof {
                    lemma_value_split_len(value@);
                    lemma_split_once_len(rest@, seq!['=']);
                    lemma_trim_len(t@);
                }
                rest = trim_slice(t);
            },
        }
    }
}

/// The IV that `text` denotes: `0x` or `0X` and 1 to 32 bytes of hexadecimal digits,
/// read as a 128-bit big-endian number.
pub open spec fn iv_spec(text: Seq<char>) -> Result<u128, HlsError> {
    let hex = match strip_prefix(text, seq!['0', 'x']) {
        Some(h) => Some(h),
        None => strip_prefix(text, seq!['0', 'X']),
    };
    match hex {
        None => Err(HlsError::IvNotHex),
        Some(h) => if h.len() == 0 || utf8_len(h) > 32 {
            Err(HlsError::IvLength)
        } else {
            match parse_uint(h, 16, u128::MAX as nat) {
                Err(e) => Err(HlsError::IvNumber(e)),
                Ok(v) => Ok(v as u128),
            }
        },
    }
}

/// The 16 bytes of `v`, most significant first.
pub open spec fn be_bytes(v: u128) -> Seq<u8> {
    Seq::new(16, |i: int| (v >> ((8 * (15 - i)) as u128)) as u8)
}

/// Parses an HLS initialization vector.
pub fn iv(text: &str) -> (r: Result<[u8; 16], HlsError>)
    ensures
        r matches Ok(b) ==> iv_spec(text@) matches Ok(v) && b@ == be_bytes(v),
        r matches Err(e) ==> iv_spec(text@) == Err::<u128, HlsError>(e),
{
    let chars = chars_of(text);
    iv_chars(chars.as_slice())
}

/// Parses an HLS initialization vector held as characters.
pub fn iv_chars(text: &[char]) -> (r: Result<[u8; 16], HlsError>)
    ensures
        r matches Ok(b) ==> iv_spec(text@) matches Ok(v) && b@ == be_bytes(v),
        r matches Err(e) ==> iv_spec(text@) == Err::<u128, HlsError>(e),
{
    let lower = ['0', 'x'];
    let upper = ['0', 'X'];
    assert(lower@ =~= seq!['0', 'x']);
    assert(upper@ =~= seq!['0', 'X']);
    let hex = match strip_prefix_slice(text, lower.as_slice()) {
        Some(h) => h,
        None => match strip_prefix_slice(text, upper.as_slice()) {
            Some(h) => h,
            None => return Err(HlsError::IvNotHex),
        },
    };
    if hex.len() == 0 || utf8_len_capped(hex, 32) > 32 {
        return Err(HlsError::IvLength);
    }
    let v = match parse_uint_slice(hex, 16, u128::MAX) {
        Ok(v) => v,
        Err(e) => return Err(HlsError::IvNumber(e)),
    };
    Ok(u128_be_bytes(v))
}

/// The 16 bytes of `v`, most significant first, as `u128::to_be_bytes` gives them.
pub fn u128_be_bytes(v: u128) -> (r: [u8; 16])
    ensures
        r@ == be_bytes(v),
{
    let out: [u8; 16] = [
        (v >> 120u32) as u8,
        (v >> 112u32) as u8,
        (v >> 104u32) as u8,
        (v >> 96u32) as u8,
        (v >> 88u32) as u8,
        (v >> 80u32) as u8,
        (v >> 72u32) as u8,
        (v >> 64u32) as u8,
        (v >> 56u32) as u8,
        (v >> 48u32) as u8,
        (v >> 40u32) as u8,
        (v >> 32u32) as u8,
        (v >> 24u32) as u8,
        (v >> 16u32) as u8,
        (v >> 8u32) as u8,
        (v >> 0u32) as u8,
    ];
    assert(out@ =~= be_bytes(v));
    out
}

/// The largest segment the library downloads, in bytes.
pub const MAX_SEGMENT: u64 = 16777216;

/// A previous resource that an implicit byte range continues: its URL and its range.
pub type PreviousRange = Option<(Seq<char>, Option<(u64, u64)>)>;

/// The (offset, length) that `text` (`length[@offset]`) denotes for a resource at `url`;
/// without an offset, the range starts where the previous resource's range on the same
/// URL ends.
pub open spec fn range_spec(text: Seq<char>, previous: PreviousRange, url: Seq<char>) -> Result<
    (u64, u64),
    HlsError,
> {
    let (len_text, off_text) = match split_once(text, seq!['@']) {
        Some((n, o)) => (n, Some(o)),
        None => (text, None),
    };
    match parse_uint(len_text, 10, u64::MAX as nat) {
        Err(e) => Err(HlsError::Number(e)),
        Ok(length) => if length == 0 || length > MAX_SEGMENT {
            Err(HlsError::RangeLength)
        } else {
            let offset: Result<nat, HlsError> = match off_text {
                Some(o) => match parse_uint(o, 10, u64::MAX as nat) {
                    Err(e) => Err(HlsError::Number(e)),
                    Ok(v) => Ok(v),
                },
                None => match previous {
                    Some((purl, Some((po, pn)))) => if purl == url && po + pn <= u64::MAX {
                        Ok((po + pn) as nat)
                    } else {
                        Err(HlsError::RangeImplicit)
                    },
                    _ => Err(HlsError::RangeImplicit),
                },
            };
            match offset {
                Err(e) => Err(e),
                Ok(o) => if o + length > u64::MAX {
                    Err(HlsError::RangeOverflow)
                } else {
                    Ok((o as u64, length as u64))
                },
            }
        },
    }
}

/// Parses an HLS byte range for a resource at `url`, after `previous`.
pub fn range(text: &[char], previous: Option<(&[char], Option<(u64, u64)>)>, url: &[char]) -> (r:
    Result<(u64, u64), HlsError>)
    ensures
        r == range_spec(
            text@,
            match previous {
                Some((u, g)) => Some((u@, g)),
                None => None,
            },
            url@,
        ),
{
    let at = ['@'];
    assert(at@ =~= seq!['@']);
    let (len_text, off_text) = match split_once_slice(text, at.as_slice()) {
        Some((n, o)) => (n, Some(o)),
        None => (text, None),
    };
    let length = match parse_uint_slice(len_text, 10, u64::MAX as u128) {
        Ok(v) => v as u64,
        Err(e) => return Err(HlsError::Number(e)),
    };
    if length == 0 || length > MAX_SEGMENT {
        return Err(HlsError::RangeLength);
    }
    let offset: u64 = match off_text {
        Some(o) => match parse_uint_slice(o, 10, u64::MAX as u128) {
            Ok(v) => v as u64,
            Err(e) => return Err(HlsError::Number(e)),
        },
        None => match previous {
            Some((purl, Some((po, pn)))) => {
                if slice_eq(purl, url) && pn <= u64::MAX - po {
                    po + pn
                } else {
                    return Err(HlsError::RangeImplicit);
                }
            },
            _ => return Err(HlsError::RangeImplicit),
        },
    };
    if length > u64::MAX - offset {
        return Err(HlsError::RangeOverflow);
    }
    Ok((offset, length))
}

} // verus!
