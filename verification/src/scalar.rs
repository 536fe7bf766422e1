//! Scalar kinds and the conversion of text into scalar values.

use vstd::prelude::*;
use vstd::std_specs::iter::IteratorSpec;
use vstd::string::StrSliceExecFns;
use vstd::string::StringExecFns;
use crate::error::Error;
use crate::error::ErrorView;
use crate::value::Value;
use crate::value::ValueView;

verus! {

/// The kinds of scalar that a destination can ask for.
#[derive(Clone, Copy, Debug, PartialEq, Eq, Structural)]
pub enum ScalarKind {
    Str,
    Bool,
    Char,
    I8,
    I16,
    I32,
    I64,
    U8,
    U16,
    U32,
    U64,
}

impl ScalarKind {
    /// Whether the kind is one of the signed integers.
    pub open spec fn is_signed(self) -> bool {
        self is I8 || self is I16 || self is I32 || self is I64
    }

    /// Whether the kind is one of the unsigned integers.
    pub open spec fn is_unsigned(self) -> bool {
        self is U8 || self is U16 || self is U32 || self is U64
    }

    /// The least integer of an integer kind.
    pub open spec fn least(self) -> int {
        match self {
            ScalarKind::I8 => i8::MIN as int,
            ScalarKind::I16 => i16::MIN as int,
            ScalarKind::I32 => i32::MIN as int,
            ScalarKind::I64 => i64::MIN as int,
            _ => 0,
        }
    }

    /// The greatest integer of an integer kind.
    pub open spec fn greatest(self) -> int {
        match self {
            ScalarKind::I8 => i8::MAX as int,
            ScalarKind::I16 => i16::MAX as int,
            ScalarKind::I32 => i32::MAX as int,
            ScalarKind::I64 => i64::MAX as int,
            ScalarKind::U8 => u8::MAX as int,
            ScalarKind::U16 => u16::MAX as int,
            ScalarKind::U32 => u32::MAX as int,
            ScalarKind::U64 => u64::MAX as int,
            _ => 0,
        }
    }
}

/// Whether `c` is one of the ten decimal digits.
pub open spec fn is_digit(c: char) -> bool {
    48 <= c as u32 <= 57
}

/// The number a decimal digit stands for.
pub open spec fn digit(c: char) -> nat {
    (c as u32 - 48) as nat
}

/// Whether `s` holds decimal digits only.
pub open spec fn all_digits(s: Seq<char>) -> bool {
    forall|i: int| 0 <= i < s.len() ==> is_digit(#[trigger] s[i])
}

/// The number that a run of decimal digits writes.
pub open spec fn digits_value(s: Seq<char>) -> nat
    decreases s.len(),
{
    if s.len() == 0 {
        0
    } else {
        digits_value(s.drop_last()) * 10 + digit(s.last())
    }
}

/// Whether `text` opens with a minus sign.
pub open spec fn is_negative(text: Seq<char>) -> bool {
    text.len() > 0 && text[0] == '-'
}

/// `text` without its sign, where it opens with `+` or `-`.
pub open spec fn unsigned_part(text: Seq<char>) -> Seq<char> {
    if text.len() > 0 && (text[0] == '-' || text[0] == '+') {
        text.skip(1)
    } else {
        text
    }
}

/// The integer that `text` writes: an optional sign and then one decimal
/// digit or more, with nothing else around them.
pub open spec fn integer(text: Seq<char>) -> Option<int> {
    let body = unsigned_part(text);
    if body.len() > 0 && all_digits(body) {
        if is_negative(text) {
            Some(-(digits_value(body) as int))
        } else {
            Some(digits_value(body) as int)
        }
    } else {
        None
    }
}

/// The value of kind `kind` that `text` writes, or the failure of the
/// conversion. A string is its text. A boolean is `true` or `false`. A
/// character is a text of one character. An integer is written in decimal,
/// lies in the range of its kind and, for an unsigned kind, has no minus
/// sign.
pub open spec fn convert(kind: ScalarKind, text: Seq<char>) -> Result<ValueView, ErrorView> {
    let failure = Err::<ValueView, ErrorView>(ErrorView::Conversion { kind, text });
    match kind {
        ScalarKind::Str => Ok(ValueView::Str(text)),
        ScalarKind::Bool => if text == "true"@ {
            Ok(ValueView::Bool(true))
        } else if text == "false"@ {
            Ok(ValueView::Bool(false))
        } else {
            failure
        },
        ScalarKind::Char => if text.len() == 1 {
            Ok(ValueView::Char(text[0]))
        } else {
            failure
        },
        _ => match integer(text) {
            Some(v) if kind.least() <= v <= kind.greatest() && !(kind.is_unsigned()
                && is_negative(text)) => if kind.is_signed() {
                Ok(ValueView::Int(v))
            } else {
                Ok(ValueView::UInt(v as nat))
            },
            _ => failure,
        },
    }
}

/// The sign of the integer that `text` writes and its magnitude, which is
/// capped at one more than `u64::MAX`; `None` where `text` writes no integer.
pub fn parse_integer(text: &str) -> (result: Option<(bool, u128)>)
    ensures
        match result {
            None => integer(text@) is None,
            Some((negative, magnitude)) => {
                &&& negative == is_negative(text@)
                &&& integer(text@) is Some
                &&& magnitude <= u64::MAX + 1
                &&& if digits_value(unsigned_part(text@)) <= u64::MAX {
                    magnitude == digits_value(unsigned_part(text@))
                } else {
                    magnitude == u64::MAX + 1
                }
            },
        },
{
    broadcast use vstd::string::group_string_axioms;

    let mut chars = text.chars();
    let mut negative = false;
    let mut magnitude: u128 = 0;
    let mut first = true;
    let mut any = false;
    let ghost mut at: int = 0;
    let ghost body = unsigned_part(text@);
    let ghost start: int = text@.len() - body.len();
    loop
        invariant
            chars.obeys_prophetic_iter_laws(),
            chars.decrease() is Some,
            0 <= at <= text@.len(),
            chars.remaining() == text@.skip(at),
            first <==> at == 0,
            body == unsigned_part(text@),
            start == text@.len() - body.len(),
            at > 0 ==> at >= start,
            at > 0 ==> negative == is_negative(text@),
            at == 0 ==> !negative && magnitude == 0 && !any,
            any <==> at > start,
            at > 0 ==> all_digits(body.take(at - start)),
            magnitude <= u64::MAX + 1,
            at > 0 ==> if digits_value(body.take(at - start)) <= u64::MAX {
                magnitude == digits_value(body.take(at - start))
            } else {
                magnitude == u64::MAX + 1
            },
        ensures
            at == text@.len(),
        decreases chars.decrease()->0,
    {
        match chars.next() {
            None => {
                break ;
            },
            Some(c) => {
                assert(c == text@[at]);
                assert(chars.remaining() =~= text@.skip(at + 1));
                if first && (c == '-' || c == '+') {
                    negative = c == '-';
                    proof {
                        assert(body.take(0) =~= Seq::<char>::empty());
                    }
                } else if c as u32 >= 48 && c as u32 <= 57 {
                    let d: u128 = (c as u32 - 48) as u128;
                    proof {
                        let upto = body.take(at + 1 - start);
                        assert(upto.drop_last() =~= body.take(at - start));
                        assert(upto.last() == c);
                        if at == 0 {
                            assert(body.take(0) =~= Seq::<char>::empty());
                        }
                        assert(digits_value(upto) == digits_value(body.take(at - start)) * 10
                            + digit(c));
                    }
                    if magnitude > 0xFFFF_FFFF_FFFF_FFFF {
                        magnitude = 0x1_0000_0000_0000_0000;
                    } else {
                        magnitude = magnitude * 10 + d;
                        if magnitude > 0xFFFF_FFFF_FFFF_FFFF {
                            magnitude = 0x1_0000_0000_0000_0000;
                        }
                    }
                    any = true;
                } else {
                    proof {
                        assert(at >= start);
                        assert(body[at - start] == c);
                        assert(!is_digit(body[at - start]));
                    }
                    return None;
                }
                first = false;
                proof {
                    at = at + 1;
                }
            },
        }
    }
    proof {
        assert(body.take(at - start) =~= body);
    }
    if any {
        Some((negative, magnitude))
    } else {
        None
    }
}

impl ScalarKind {
    /// The least and the greatest integer of the kind.
    pub fn bounds(self) -> (range: (i128, i128))
        ensures
            range.0 == self.least(),
            range.1 == self.greatest(),
    {
        match self {
            ScalarKind::I8 => (-0x80, 0x7F),
            ScalarKind::I16 => (-0x8000, 0x7FFF),
            ScalarKind::I32 => (-0x8000_0000, 0x7FFF_FFFF),
            ScalarKind::I64 => (-0x8000_0000_0000_0000, 0x7FFF_FFFF_FFFF_FFFF),
            ScalarKind::U8 => (0, 0xFF),
            ScalarKind::U16 => (0, 0xFFFF),
            ScalarKind::U32 => (0, 0xFFFF_FFFF),
            ScalarKind::U64 => (0, 0xFFFF_FFFF_FFFF_FFFF),
            _ => (0, 0),
        }
    }

    /// Whether the kind is one of the unsigned integers.
    pub fn unsigned(self) -> (unsigned: bool)
        ensures
            unsigned == self.is_unsigned(),
    {
        match self {
            ScalarKind::U8 | ScalarKind::U16 | ScalarKind::U32 | ScalarKind::U64 => true,
            _ => false,
        }
    }
}

/// Whether `text` holds exactly one character.
pub fn is_single_char(text: &str) -> (single: bool)
    ensures
        single == (text@.len() == 1),
{
    broadcast use vstd::string::group_string_axioms;

    let mut chars = text.chars();
    if chars.next().is_none() {
        return false;
    }
    assert(chars.remaining() =~= text@.skip(1));
    chars.next().is_none()
}

/// Converts `text` into the scalar of kind `kind` that it writes.
pub fn convert_text(kind: ScalarKind, text: String) -> (result: Result<Value, Error>)
    ensures
        match result {
            Ok(value) => convert(kind, text@) == Ok::<ValueView, ErrorView>(value@),
            Err(error) => convert(kind, text@) == Err::<ValueView, ErrorView>(error@),
        },
{
    match kind {
        ScalarKind::Str => Ok(Value::Str(text)),
        ScalarKind::Bool => {
            if text == String::from_str("true") {
                Ok(Value::Bool(true))
            } else if text == String::from_str("false") {
                Ok(Value::Bool(false))
            } else {
                Err(Error::Conversion { kind, text })
            }
        },
        ScalarKind::Char => {
            if is_single_char(text.as_str()) {
                Ok(Value::Char(text.as_str().get_char(0)))
            } else {
                Err(Error::Conversion { kind, text })
            }
        },
        _ => match parse_integer(text.as_str()) {
            None => Err(Error::Conversion { kind, text }),
            Some((negative, magnitude)) => {
                let (least, greatest) = kind.bounds();
                let unsigned = kind.unsigned();
                let v: i128 = if negative {
                    0 - (magnitude as i128)
                } else {
                    magnitude as i128
                };
                if least <= v && v <= greatest && !(unsigned && negative) {
                    if unsigned {
                        Ok(Value::UInt(v as u64))
                    } else {
                        Ok(Value::Int(v as i64))
                    }
                } else {
                    Err(Error::Conversion { kind, text })
                }
            },
        },
    }
}

} // verus!
