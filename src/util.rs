use vstd::prelude::*;
use vstd::string::StringSliceAdditionalSpecFns;

verus! {

/// A ratio of two integers, such as the time base of a video stream.
#[derive(Debug, Clone, Copy, PartialEq, Eq, Structural)]
pub struct Rational {
    pub numerator: i32,
    pub denominator: i32,
}

/// Why a text is not a time base.
#[derive(Debug, Clone, Copy, PartialEq, Eq, Structural)]
pub enum ParseRationalError {
    /// The text is not two runs of decimal digits around a `/`.
    NotARational,
    /// One of the two numbers does not fit in an `i32`.
    InvalidRationalComponent,
}

pub open spec fn is_ascii_digit(b: u8) -> bool {
    0x30 <= b <= 0x39
}

/// A non-empty run of decimal digits.
pub open spec fn is_numeral(text: Seq<u8>) -> bool {
    text.len() > 0 && forall|i: int| 0 <= i < text.len() ==> is_ascii_digit(#[trigger] text[i])
}

/// The number that a run of decimal digits writes.
pub open spec fn numeral_value(text: Seq<u8>) -> nat
    decreases text.len(),
{
    if text.len() == 0 {
        0
    } else {
        numeral_value(text.drop_last()) * 10 + (text.last() - 0x30) as nat
    }
}

/// `text` is a numeral, the byte `/` at position `slash`, and a numeral.
pub open spec fn is_rational_at(text: Seq<u8>, slash: int) -> bool {
    &&& 0 <= slash < text.len()
    &&& text[slash] == 0x2F
    &&& is_numeral(text.subrange(0, slash))
    &&& is_numeral(text.subrange(slash + 1, text.len() as int))
}

proof fn lemma_numeral_prefix_bound(text: Seq<u8>, end: int)
    requires
        0 <= end <= text.len(),
        forall|i: int| 0 <= i < text.len() ==> is_ascii_digit(#[trigger] text[i]),
    ensures
        numeral_value(text.subrange(0, end)) <= numeral_value(text),
    decreases text.len() - end,
{
    if end < text.len() {
        let longer = text.subrange(0, end + 1);
        assert(longer.drop_last() =~= text.subrange(0, end));
        lemma_numeral_prefix_bound(text, end + 1);
    } else {
        assert(text.subrange(0, end) =~= text);
    }
}

/// The value of the numeral `bytes[start..end]`, if it fits in an `i32`.
fn numeral_to_i32(bytes: &[u8], start: usize, end: usize) -> (r: Option<i32>)
    requires
        start <= end <= bytes@.len(),
        forall|i: int| start <= i < end ==> is_ascii_digit(#[trigger] bytes@[i]),
    ensures
        r is Some <==> numeral_value(bytes@.subrange(start as int, end as int)) <= i32::MAX,
        r matches Some(v) ==> v == numeral_value(bytes@.subrange(start as int, end as int)),
{
    let ghost text = bytes@.subrange(start as int, end as int);
    let mut value: u64 = 0;
    let mut i: usize = start;
    assert(bytes@.subrange(start as int, start as int) =~= Seq::<u8>::empty());
    while i < end
        invariant
            start <= i <= end <= bytes@.len(),
            text == bytes@.subrange(start as int, end as int),
            forall|j: int| start <= j < end ==> is_ascii_digit(#[trigger] bytes@[j]),
            value == numeral_value(bytes@.subrange(start as int, i as int)),
            value <= i32::MAX,
        decreases end - i,
    {
        let digit = (bytes[i] - 0x30u8) as u64;
        let ghost prefix = bytes@.subrange(start as int, i as int + 1);
        assert(prefix.drop_last() =~= bytes@.subrange(start as int, i as int));
        value = value * 10 + digit;
        i += 1;
        if value > 0x7FFF_FFFF {
            proof {
                assert forall|j: int| 0 <= j < text.len() implies is_ascii_digit(#[trigger] text[j]) by {
                    assert(text[j] == bytes@[start + j]);
                }
                assert(text.subrange(0, i - start) =~= bytes@.subrange(start as int, i as int));
                lemma_numeral_prefix_bound(text, i - start);
            }
            return None;
        }
    }
    Some(value as i32)
}

/// Parses a time base written as `numerator/denominator`, two runs of
/// decimal digits around a `/`.
pub fn parse_rational(string: &str) -> (r: Result<Rational, ParseRationalError>)
    ensures
        r == Err::<Rational, ParseRationalError>(ParseRationalError::NotARational) <==> !exists|
            slash: int,
        | is_rational_at(string.spec_bytes(), slash),
        forall|slash: int|
            #[trigger] is_rational_at(string.spec_bytes(), slash) ==> {
                let numerator = numeral_value(string.spec_bytes().subrange(0, slash));
                let denominator = numeral_value(
                    string.spec_bytes().subrange(slash + 1, string.spec_bytes().len() as int),
                );
                &&& r is Ok <==> numerator <= i32::MAX && denominator <= i32::MAX
                &&& r matches Ok(q) ==> q.numerator == numerator && q.denominator == denominator
                &&& r is Err ==> r == Err::<Rational, ParseRationalError>(
                    ParseRationalError::InvalidRationalComponent,
                )
            },
{
    let bytes = string.as_bytes();
    let ghost text = string.spec_bytes();
    let len = bytes.len();
    let mut slash: usize = 0;
    while slash < len && 0x30 <= bytes[slash] && bytes[slash] <= 0x39
        invariant
            bytes@ == text,
            len == text.len(),
            slash <= len,
            forall|i: int| 0 <= i < slash ==> is_ascii_digit(#[trigger] text[i]),
        decreases len - slash,
    {
        slash += 1;
    }
    // `slash` is the first byte that is not a digit: the only place a `/`
    // between two numerals can stand.
    assert forall|k: int| #[trigger] is_rational_at(text, k) implies k == slash by {
        if k < slash {
            assert(is_ascii_digit(text[k]));
        } else if k > slash {
            assert(text.subrange(0, k)[slash as int] == text[slash as int]);
        }
    }
    if slash == 0 || slash == len || bytes[slash] != 0x2Fu8 {
        proof {
            if slash == 0 {
                assert forall|k: int| !#[trigger] is_rational_at(text, k) by {
                    if is_rational_at(text, k) {
                        assert(k == 0);
                        assert(text.subrange(0, k).len() == 0);
                    }
                }
            }
        }
        return Err(ParseRationalError::NotARational);
    }
    let mut end: usize = slash + 1;
    while end < len && 0x30 <= bytes[end] && bytes[end] <= 0x39
        invariant
            bytes@ == text,
            len == text.len(),
            slash < end <= len,
            forall|i: int| slash < i < end ==> is_ascii_digit(#[trigger] text[i]),
        decreases len - end,
    {
        end += 1;
    }
    if end != len || end == slash + 1 {
        proof {
            assert forall|k: int| !#[trigger] is_rational_at(text, k) by {
                if is_rational_at(text, k) {
                    assert(k == slash);
                    let tail = text.subrange(slash + 1, len as int);
                    if end < len {
                        assert(tail[end - slash - 1] == text[end as int]);
                    } else {
                        assert(tail.len() == 0);
                    }
                }
            }
        }
        return Err(ParseRationalError::NotARational);
    }
    assert(is_rational_at(text, slash as int)) by {
        assert forall|i: int| 0 <= i < slash implies is_ascii_digit(
            #[trigger] text.subrange(0, slash as int)[i],
        ) by {
            assert(text.subrange(0, slash as int)[i] == text[i]);
        }
        assert forall|i: int| 0 <= i < len - slash - 1 implies is_ascii_digit(
            #[trigger] text.subrange(slash + 1, len as int)[i],
        ) by {
            assert(text.subrange(slash + 1, len as int)[i] == text[slash + 1 + i]);
        }
    }
    let numerator = numeral_to_i32(bytes, 0, slash);
    let denominator = numeral_to_i32(bytes, slash + 1, len);
    match (numerator, denominator) {
        (Some(numerator), Some(denominator)) => Ok(Rational { numerator, denominator }),
        _ => Err(ParseRationalError::InvalidRationalComponent),
    }
}

} // verus!
