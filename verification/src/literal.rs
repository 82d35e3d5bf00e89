//! Number literals: what a literal's text denotes, and the runtime parser.
//!
//! Decimal text may carry one leading `-`; hexadecimal, octal and binary text
//! carries its two-byte radix prefix (`0x`, `0o`, `0b`) followed by digits
//! read as an unsigned magnitude. A literal denotes a value only when every
//! digit belongs to the declared radix and the value fits a signed 64-bit
//! integer; otherwise parsing it fails and the compile is aborted.

use vstd::prelude::*;

use crate::ast::Radix;

verus! {

/// The base a radix tag declares.
pub open spec fn radix_base(r: Radix) -> nat {
    match r {
        Radix::Base10 => 10,
        Radix::Base16 => 16,
        Radix::Base8 => 8,
        Radix::Base2 => 2,
    }
}

/// The byte that follows the leading `0` in a non-decimal prefix.
pub open spec fn radix_tag_byte(r: Radix) -> u8 {
    match r {
        Radix::Base10 => 0,
        Radix::Base16 => 120, // 'x'
        Radix::Base8 => 111,  // 'o'
        Radix::Base2 => 98,   // 'b'
    }
}

/// The value of one ASCII digit byte under `base`, if it is a digit of that
/// base. Hexadecimal letters are read in either case.
pub open spec fn digit_val(b: u8, base: nat) -> Option<nat> {
    if 48 <= b && b <= 57 && (b - 48) < base {
        Some((b - 48) as nat)
    } else if 97 <= b && b <= 102 && (b - 87) < base {
        Some((b - 87) as nat)
    } else if 65 <= b && b <= 70 && (b - 55) < base {
        Some((b - 55) as nat)
    } else {
        None
    }
}

/// Whether every byte of `s` is a digit of `base`.
pub open spec fn all_digits(s: Seq<u8>, base: nat) -> bool {
    forall|i: int| 0 <= i < s.len() ==> digit_val(#[trigger] s[i], base) is Some
}

/// Whether `s` is a non-empty run of digits of `base`.
pub open spec fn digits_ok(s: Seq<u8>, base: nat) -> bool {
    s.len() > 0 && all_digits(s, base)
}

/// The magnitude a run of digits denotes, most significant first.
pub open spec fn digits_val(s: Seq<u8>, base: nat) -> nat
    decreases s.len(),
{
    if s.len() == 0 {
        0
    } else {
        digits_val(s.drop_last(), base) * base + digit_val(s.last(), base)->Some_0
    }
}

/// The value a literal's whole text denotes under its declared radix, or
/// `None` when the text is malformed for that radix or the value does not
/// fit a signed 64-bit integer.
pub open spec fn lit_value(r: Radix, s: Seq<u8>) -> Option<int> {
    match r {
        Radix::Base10 => {
            if s.len() > 0 && s[0] == 45 {
                let ds = s.drop_first();
                if digits_ok(ds, 10) && digits_val(ds, 10) <= 0x8000_0000_0000_0000 {
                    Some(-(digits_val(ds, 10) as int))
                } else {
                    None
                }
            } else {
                if digits_ok(s, 10) && digits_val(s, 10) <= 0x7fff_ffff_ffff_ffff {
                    Some(digits_val(s, 10) as int)
                } else {
                    None
                }
            }
        },
        _ => {
            let ds = s.skip(2);
            if s.len() >= 3 && s[0] == 48 && s[1] == radix_tag_byte(r) && digits_ok(
                ds,
                radix_base(r),
            ) && digits_val(ds, radix_base(r)) <= 0x7fff_ffff_ffff_ffff {
                Some(digits_val(ds, radix_base(r)) as int)
            } else {
                None
            }
        },
    }
}

/// A parsed literal: its value and the narrowest width that holds it.
pub struct ParsedLiteral {
    pub value: i64,
    pub bits: u8,
}

/// Runtime digit lookup, mirroring [`digit_val`].
fn digit_of(b: u8, base: u64) -> (r: Option<u8>)
    ensures
        (match r {
            Some(d) => digit_val(b, base as nat) == Some(d as nat),
            None => digit_val(b, base as nat) is None,
        }),
{
    if 48 <= b && b <= 57 && ((b - 48) as u64) < base {
        Some(b - 48)
    } else if 97 <= b && b <= 102 && ((b - 87) as u64) < base {
        Some(b - 87)
    } else if 65 <= b && b <= 70 && ((b - 55) as u64) < base {
        Some(b - 55)
    } else {
        None
    }
}

/// The narrowest supported width whose signed range holds `x`.
pub fn width_of_value(x: i64) -> (b: u8)
    ensures
        b as nat == crate::semantics::width_for(x as int),
{
    if -128 <= x && x < 128 {
        8
    } else if -32768 <= x && x < 32768 {
        16
    } else if -0x8000_0000 <= x && x < 0x8000_0000 {
        32
    } else {
        64
    }
}

/// A digit run's value never shrinks as the run grows to the right.
proof fn lemma_digits_prefix_le(s: Seq<u8>, base: nat, i: int)
    requires
        1 <= base,
        0 <= i <= s.len(),
    ensures
        digits_val(s.subrange(0, i), base) <= digits_val(s, base),
    decreases s.len() - i,
{
    if i == s.len() {
        assert(s.subrange(0, i) =~= s);
    } else {
        let a = s.subrange(0, i);
        let b = s.subrange(0, i + 1);
        assert(b.drop_last() =~= a);
        let d = digit_val(b.last(), base)->Some_0;
        assert(digits_val(b, base) == digits_val(a, base) * base + d);
        assert(digits_val(a, base) * 1 <= digits_val(a, base) * base) by (nonlinear_arith)
            requires 1 <= base, 0 <= digits_val(a, base);
        lemma_digits_prefix_le(s, base, i + 1);
    }
}

/// Parse a literal's whole text under its declared radix. Returns the value
/// the text denotes and the narrowest width that holds it, or `None`
/// exactly when the text denotes nothing.
pub fn parse_literal(r: Radix, text: &Vec<u8>) -> (res: Option<ParsedLiteral>)
    ensures
        (match res {
            Some(p) => lit_value(r, text@) == Some(p.value as int) && p.bits as nat
                == crate::semantics::width_for(p.value as int),
            None => lit_value(r, text@) is None,
        }),
{
    let (neg, start, base): (bool, usize, u64) = match r {
        Radix::Base10 => {
            if text.len() > 0 && text[0] == 45 {
                (true, 1, 10)
            } else {
                (false, 0, 10)
            }
        },
        Radix::Base16 => {
            if !(text.len() >= 3 && text[0] == 48 && text[1] == 120) {
                return None;
            }
            (false, 2, 16)
        },
        Radix::Base8 => {
            if !(text.len() >= 3 && text[0] == 48 && text[1] == 111) {
                return None;
            }
            (false, 2, 8)
        },
        Radix::Base2 => {
            if !(text.len() >= 3 && text[0] == 48 && text[1] == 98) {
                return None;
            }
            (false, 2, 2)
        },
    };
    let bound: u64 = if neg {
        0x8000_0000_0000_0000
    } else {
        0x7fff_ffff_ffff_ffff
    };
    if text.len() == start {
        return None;
    }
    let ghost digits = text@.subrange(start as int, text@.len() as int);
    proof {
        if neg {
            assert(text@.drop_first() =~= digits);
        } else if matches!(r, Radix::Base10) {
            assert(text@ =~= digits);
        } else {
            assert(text@.skip(2) =~= digits);
        }
    }
    let mut mag: u64 = 0;
    let mut i: usize = start;
    while i < text.len()
        invariant
            start <= i <= text@.len(),
            start < text@.len(),
            2 <= base <= 16,
            bound == if neg { 0x8000_0000_0000_0000u64 } else { 0x7fff_ffff_ffff_ffffu64 },
            digits == text@.subrange(start as int, text@.len() as int),
            all_digits(text@.subrange(start as int, i as int), base as nat),
            mag == digits_val(text@.subrange(start as int, i as int), base as nat),
            mag <= bound,
            (lit_value(r, text@) == (if digits_ok(digits, base as nat) && digits_val(
                digits,
                base as nat,
            ) <= bound {
                Some(
                    if neg {
                        -(digits_val(digits, base as nat) as int)
                    } else {
                        digits_val(digits, base as nat) as int
                    },
                )
            } else {
                None::<int>
            })),
        decreases text@.len() - i,
    {
        let d = match digit_of(text[i], base) {
            Some(d) => d,
            None => {
                // A byte that is no digit of the radix: the text denotes
                // nothing, whatever came before it.
                assert(digit_val(digits[i - start], base as nat) is None);
                assert(!all_digits(digits, base as nat));
                return None;
            },
        };
        let ghost pre = text@.subrange(start as int, i as int);
        let ghost ext = text@.subrange(start as int, i + 1 as int);
        proof {
            assert(ext.drop_last() =~= pre);
            assert(ext.last() == text@[i as int]);
        }
        let next = match mag.checked_mul(base) {
            Some(m) => match m.checked_add(d as u64) {
                Some(n) => Some(n),
                None => None,
            },
            None => None,
        };
        let next = match next {
            Some(n) => if n <= bound {
                n
            } else {
                proof {
                    lemma_overflowed(text@, start as int, i as int, base as nat, bound as nat);
                }
                return None;
            },
            None => {
                proof {
                    assert(digits_val(ext, base as nat) == mag * base + d as nat);
                    assert(digits_val(ext, base as nat) > bound);
                    lemma_overflowed(text@, start as int, i as int, base as nat, bound as nat);
                }
                return None;
            },
        };
        mag = next;
        i = i + 1;
    }
    proof {
        assert(text@.subrange(start as int, i as int) =~= digits);
    }
    let value: i64 = if neg {
        if mag == 0x8000_0000_0000_0000 {
            i64::MIN
        } else {
            -(mag as i64)
        }
    } else {
        mag as i64
    };
    let bits = width_of_value(value);
    Some(ParsedLiteral { value, bits })
}

/// Once the magnitude read so far exceeds the admissible bound, the whole
/// digit run does too; the text denotes nothing.
proof fn lemma_overflowed(s: Seq<u8>, start: int, i: int, base: nat, bound: nat)
    requires
        2 <= base,
        0 <= start <= i < s.len(),
        digits_val(s.subrange(start, i), base) * base + digit_val(
            s[i],
            base,
        )->Some_0 > bound,
    ensures
        digits_val(s.subrange(start, s.len() as int), base) > bound,
{
    let digits = s.subrange(start, s.len() as int);
    let ext = s.subrange(start, i + 1);
    assert(ext.drop_last() =~= s.subrange(start, i));
    assert(ext.last() == s[i]);
    assert(digits_val(ext, base) > bound);
    lemma_digits_prefix_le(digits, base, i + 1 - start);
    assert(digits.subrange(0, i + 1 - start) =~= ext);
}

} // verus!
