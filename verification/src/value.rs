use vstd::prelude::*;

verus! {

/// The kind of a dynamic value, without its payload.
#[derive(Clone, Copy, Debug, PartialEq, Eq, Structural)]
pub enum ValueKind {
    Nil,
    Boolean,
    Integer,
    Number,
    Text,
    Other,
}

/// A value of the dynamically typed host, as far as conversion reads it.
#[derive(Clone, Debug, PartialEq, Eq)]
pub enum DynamicValue {
    Nil,
    Boolean(bool),
    /// An integer.
    Integer(i64),
    /// A number with a fraction, carried as the integer that it casts to:
    /// the fraction dropped, a value beyond the 64-bit range clamped to the
    /// nearest end of it, not-a-number as zero. The host makes that cast.
    Number(i64),
    /// A string of the host, by its bytes.
    Text(Vec<u8>),
    /// Any other kind: tables, functions, handles.
    Other,
}

impl DynamicValue {
    pub open spec fn spec_kind(&self) -> ValueKind {
        match self {
            DynamicValue::Nil => ValueKind::Nil,
            DynamicValue::Boolean(_) => ValueKind::Boolean,
            DynamicValue::Integer(_) => ValueKind::Integer,
            DynamicValue::Number(_) => ValueKind::Number,
            DynamicValue::Text(_) => ValueKind::Text,
            DynamicValue::Other => ValueKind::Other,
        }
    }

    #[verifier::when_used_as_spec(spec_kind)]
    pub fn kind(&self) -> (kind: ValueKind)
        ensures
            kind == self.spec_kind(),
    {
        match self {
            DynamicValue::Nil => ValueKind::Nil,
            DynamicValue::Boolean(_) => ValueKind::Boolean,
            DynamicValue::Integer(_) => ValueKind::Integer,
            DynamicValue::Number(_) => ValueKind::Number,
            DynamicValue::Text(_) => ValueKind::Text,
            DynamicValue::Other => ValueKind::Other,
        }
    }
}

/// An ASCII decimal digit.
pub open spec fn is_digit(byte: u8) -> bool {
    48 <= byte && byte <= 57
}

pub open spec fn all_digits(text: Seq<u8>) -> bool {
    forall|i: int| 0 <= i < text.len() ==> is_digit(#[trigger] text[i])
}

/// The number that a run of decimal digits writes.
pub open spec fn digits_value(digits: Seq<u8>) -> nat
    decreases digits.len(),
{
    if digits.len() == 0 {
        0
    } else {
        10 * digits_value(digits.drop_last()) + (digits.last() - 48) as nat
    }
}

/// Whether the text opens with `+` or `-`.
pub open spec fn has_sign(text: Seq<u8>) -> bool {
    text.len() > 0 && (text[0] == 43 || text[0] == 45)
}

/// The text behind its sign, if it has one.
pub open spec fn digits_of(text: Seq<u8>) -> Seq<u8> {
    if has_sign(text) {
        text.subrange(1, text.len() as int)
    } else {
        text
    }
}

/// The integer that a decimal text writes: an optional sign, then one digit
/// or more, and nothing else.
pub open spec fn parse_decimal(text: Seq<u8>) -> Option<int> {
    let digits = digits_of(text);
    if digits.len() == 0 || !all_digits(digits) {
        None
    } else if text[0] == 45 {
        Some(-(digits_value(digits) as int))
    } else {
        Some(digits_value(digits) as int)
    }
}

/// `parse_decimal`, where the integer fits 64 bits with a sign.
pub open spec fn spec_parse_i64(text: Seq<u8>) -> Option<i64> {
    match parse_decimal(text) {
        Some(v) => if i64::MIN <= v <= i64::MAX {
            Some(v as i64)
        } else {
            None
        },
        None => None,
    }
}

/// A run of digits writes at least what any of its prefixes writes.
pub proof fn lemma_digits_value_prefix(digits: Seq<u8>, k: int)
    requires
        all_digits(digits),
        0 <= k <= digits.len(),
    ensures
        digits_value(digits.subrange(0, k)) <= digits_value(digits),
    decreases digits.len() - k,
{
    if k == digits.len() {
        assert(digits.subrange(0, k) =~= digits);
    } else {
        lemma_digits_value_prefix(digits, k + 1);
        let longer = digits.subrange(0, k + 1);
        assert(longer.drop_last() =~= digits.subrange(0, k));
        assert(is_digit(longer.last()));
    }
}

pub fn parse_i64(text: &Vec<u8>) -> (parsed: Option<i64>)
    ensures
        parsed == spec_parse_i64(text@),
{
    let n = text.len();
    if n == 0 {
        return None;
    }
    let negative = text[0] == 45;
    let start: usize = if text[0] == 43 || text[0] == 45 {
        1
    } else {
        0
    };
    let limit: u64 = if negative {
        0x8000_0000_0000_0000
    } else {
        0x7fff_ffff_ffff_ffff
    };
    let ghost digits = digits_of(text@);
    assert(digits =~= text@.subrange(start as int, n as int));
    let mut magnitude: u64 = 0;
    let mut i: usize = start;
    assert(text@.subrange(start as int, i as int) =~= Seq::<u8>::empty());
    while i < n
        invariant
            start <= i <= n,
            n == text@.len(),
            digits == text@.subrange(start as int, n as int),
            digits == digits_of(text@),
            all_digits(text@.subrange(start as int, i as int)),
            magnitude == digits_value(text@.subrange(start as int, i as int)),
            magnitude <= limit,
            negative == (text@[0] == 45),
            limit == if negative {
                0x8000_0000_0000_0000u64
            } else {
                0x7fff_ffff_ffff_ffffu64
            },
        decreases n - i,
    {
        let c = text[i];
        if c < 48 || c > 57 {
            assert(digits[i - start] == c);
            assert(!all_digits(digits));
            return None;
        }
        let d: u64 = (c - 48) as u64;
        let ghost seen = text@.subrange(start as int, i as int + 1);
        assert(seen.drop_last() =~= text@.subrange(start as int, i as int));
        assert(seen.last() == c);
        assert(all_digits(seen)) by {
            assert forall|j: int| 0 <= j < seen.len() implies is_digit(#[trigger] seen[j]) by {
                if j < seen.len() - 1 {
                    assert(seen[j] == text@.subrange(start as int, i as int)[j]);
                }
            }
        }
        if magnitude > (limit - d) / 10 {
            proof {
                assert(digits_value(seen) > limit);
                if all_digits(digits) {
                    assert(seen =~= digits.subrange(0, i as int + 1 - start as int));
                    lemma_digits_value_prefix(digits, i as int + 1 - start as int);
                }
            }
            return None;
        }
        magnitude = magnitude * 10 + d;
        i = i + 1;
    }
    if start == n {
        None
    } else if !negative {
        Some(magnitude as i64)
    } else if magnitude == 0x8000_0000_0000_0000 {
        Some(i64::MIN)
    } else {
        Some(-(magnitude as i64))
    }
}

} // verus!
