//! Human-readable rendering of byte counts, durations and temperatures.
//!
//! The counts are rendered with two decimals, rounding to the nearest
//! hundredth with ties to even, over exact integer arithmetic.

use vstd::prelude::*;

use crate::text::{
    ascii_chars, ascii_to_string, byte_hex, dec_digits, fixed2, hex_of, hex_bytes, push_dec,
    push_fixed2, round_half_even, round_half_even_u128,
};

verus! {

/// A byte count rendered for people: plain below 1024 ("512 B"),
/// otherwise hundredths of the next binary unit ("1.00 KB", "1.00 GB").
pub open spec fn readable_bytes(b: nat) -> Seq<u8> {
    if b < 1024 {
        dec_digits(b) + seq![32u8, 66u8]
    } else if b < 1048576 {
        fixed2(round_half_even(b * 100, 1024)) + seq![32u8, 75u8, 66u8]
    } else if b < 1073741824 {
        fixed2(round_half_even(b * 100, 1048576)) + seq![32u8, 77u8, 66u8]
    } else {
        fixed2(round_half_even(b * 100, 1073741824)) + seq![32u8, 71u8, 66u8]
    }
}

/// A duration in milliseconds: plain below one second ("120 ms"), else
/// hundredths of seconds, minutes or hours ("2.50 s", "1.50 m", "2.00 h").
pub open spec fn readable_ms(ms: nat) -> Seq<u8> {
    if ms < 1000 {
        dec_digits(ms) + seq![32u8, 109u8, 115u8]
    } else if ms < 60000 {
        fixed2(round_half_even(ms * 100, 1000)) + seq![32u8, 115u8]
    } else if ms < 3600000 {
        fixed2(round_half_even(ms * 100, 60000)) + seq![32u8, 109u8]
    } else {
        fixed2(round_half_even(ms * 100, 3600000)) + seq![32u8, 104u8]
    }
}

/// A temperature in millikelvin, in whole hundredths of degrees Celsius:
/// `celsius = mk/1000 - 273.15`. A raw reading of 0 means the sensor is
/// unsupported and renders as "unknown", never as -273.15.
pub open spec fn readable_temperature(mk: nat) -> Seq<u8> {
    if mk == 0 {
        seq![117u8, 110u8, 107u8, 110u8, 111u8, 119u8, 110u8]
    } else if mk / 10 >= 27315 {
        fixed2((mk / 10 - 27315) as nat)
    } else {
        seq![45u8] + fixed2((27315 - mk / 10) as nat)
    }
}

proof fn lemma_dec_digits_ascii(n: nat)
    ensures
        forall|i: int| 0 <= i < dec_digits(n).len() ==> 48 <= #[trigger] dec_digits(n)[i] <= 57,
    decreases n,
{
    if n >= 10 {
        lemma_dec_digits_ascii(n / 10);
        let d = dec_digits(n / 10);
        assert forall|i: int| 0 <= i < dec_digits(n).len() implies 48 <= #[trigger] dec_digits(
            n,
        )[i] <= 57 by {
            if i < d.len() {
                assert(dec_digits(n)[i] == d[i]);
            } else {
                assert(dec_digits(n)[i] == (48 + n % 10) as u8);
            }
        }
    }
}

proof fn lemma_fixed2_ascii(h: nat)
    ensures
        forall|i: int| 0 <= i < fixed2(h).len() ==> 46 <= #[trigger] fixed2(h)[i] <= 57,
{
    lemma_dec_digits_ascii(h / 100);
    assert(forall|i: int|
        0 <= i < fixed2(h).len() ==> 46 <= #[trigger] fixed2(h)[i] <= 57) by {
        assert(fixed2(h)[dec_digits(h / 100).len() as int] == 46);
        assert(forall|i: int|
            0 <= i < dec_digits(h / 100).len() ==> fixed2(h)[i] == #[trigger] dec_digits(
                h / 100,
            )[i]);
    }
}

/// The rounded hundredths of `bytes / den`, for a denominator that keeps
/// the result within `u64`.
fn unit_hundredths(bytes: u64, den: u64) -> (h: u64)
    requires
        1024 <= den,
    ensures
        h == round_half_even(bytes as nat * 100, den as nat),
{
    let h128 = round_half_even_u128(bytes as u128 * 100, den as u128);
    proof {
        assert(h128 <= (bytes as int * 100) / (den as int) + 1);
        assert((bytes as int * 100) / (den as int) <= (bytes as int * 100) / 1024) by {
            vstd::arithmetic::div_mod::lemma_div_is_ordered_by_denominator(
                bytes as int * 100,
                1024,
                den as int,
            );
        }
        assert((bytes as int * 100) / 1024 <= (u64::MAX as int * 100) / 1024) by {
            vstd::arithmetic::div_mod::lemma_div_is_ordered(
                bytes as int * 100,
                u64::MAX as int * 100,
                1024,
            );
        }
        assert(h128 <= u64::MAX);
    }
    h128 as u64
}

/// A byte count rendered for display.
pub fn bytes_to_readable(bytes: u64) -> (r: String)
    ensures
        r@ == ascii_chars(readable_bytes(bytes as nat)),
{
    let mut out: Vec<u8> = Vec::new();
    if bytes < 1024 {
        push_dec(&mut out, bytes);
        out.push(32);
        out.push(66);
        proof {
            lemma_dec_digits_ascii(bytes as nat);
            assert(out@ =~= readable_bytes(bytes as nat));
        }
    } else if bytes < 1048576 {
        let h = unit_hundredths(bytes, 1024);
        push_fixed2(&mut out, h);
        out.push(32);
        out.push(75);
        out.push(66);
        proof {
            lemma_fixed2_ascii(h as nat);
            assert(out@ =~= readable_bytes(bytes as nat));
        }
    } else if bytes < 1073741824 {
        let h = unit_hundredths(bytes, 1048576);
        push_fixed2(&mut out, h);
        out.push(32);
        out.push(77);
        out.push(66);
        proof {
            lemma_fixed2_ascii(h as nat);
            assert(out@ =~= readable_bytes(bytes as nat));
        }
    } else {
        let h = unit_hundredths(bytes, 1073741824);
        push_fixed2(&mut out, h);
        out.push(32);
        out.push(71);
        out.push(66);
        proof {
            lemma_fixed2_ascii(h as nat);
            assert(out@ =~= readable_bytes(bytes as nat));
        }
    }
    ascii_to_string(out)
}

/// A duration in milliseconds rendered for display.
pub fn ms_to_readable(ms: u64) -> (r: String)
    ensures
        r@ == ascii_chars(readable_ms(ms as nat)),
{
    let mut out: Vec<u8> = Vec::new();
    if ms < 1000 {
        push_dec(&mut out, ms);
        out.push(32);
        out.push(109);
        out.push(115);
    } else {
        let den: u64 = if ms < 60000 {
            1000
        } else if ms < 3600000 {
            60000
        } else {
            3600000
        };
        let h128 = round_half_even_u128(ms as u128 * 100, den as u128);
        proof {
            assert(h128 <= (ms as int * 100) / (den as int) + 1);
            assert((ms as int * 100) / (den as int) <= (ms as int * 100) / 1000) by {
                vstd::arithmetic::div_mod::lemma_div_is_ordered_by_denominator(
                    ms as int * 100,
                    1000,
                    den as int,
                );
            }
            assert((ms as int * 100) / 1000 <= (u64::MAX as int * 100) / 1000) by {
                vstd::arithmetic::div_mod::lemma_div_is_ordered(
                    ms as int * 100,
                    u64::MAX as int * 100,
                    1000,
                );
            }
            assert(h128 <= u64::MAX);
        }
        let h = h128 as u64;
        push_fixed2(&mut out, h);
        out.push(32);
        if ms < 60000 {
            out.push(115);
        } else if ms < 3600000 {
            out.push(109);
        } else {
            out.push(104);
        }
        proof {
            lemma_fixed2_ascii(h as nat);
        }
    }
    proof {
        lemma_dec_digits_ascii(ms as nat);
        assert(out@ =~= readable_ms(ms as nat));
    }
    ascii_to_string(out)
}

/// The raw six bytes of an attribute in lower-case hex.
pub fn raw_to_string(raw: [u8; 6]) -> (r: String)
    ensures
        r@ == ascii_chars(hex_of(raw@)),
{
    let v = hex_bytes(raw.as_slice());
    proof {
        lemma_hex_of_ascii(raw@);
    }
    ascii_to_string(v)
}

proof fn lemma_hex_of_ascii(s: Seq<u8>)
    ensures
        forall|i: int| 0 <= i < hex_of(s).len() ==> 48 <= #[trigger] hex_of(s)[i] <= 102,
    decreases s.len(),
{
    if s.len() > 0 {
        lemma_hex_of_ascii(s.drop_last());
        let h = hex_of(s.drop_last());
        assert forall|i: int| 0 <= i < hex_of(s).len() implies 48 <= #[trigger] hex_of(s)[i]
            <= 102 by {
            if i < h.len() {
                assert(hex_of(s)[i] == h[i]);
            } else {
                assert(hex_of(s)[i] == byte_hex(s.last())[i - h.len()]);
            }
        }
    }
}

/// A temperature in millikelvin rendered for display: "unknown" when the
/// sensor reports 0, else degrees Celsius with two decimals.
pub fn temperature_to_readable(mk: u64) -> (r: String)
    ensures
        r@ == ascii_chars(readable_temperature(mk as nat)),
{
    let mut out: Vec<u8> = Vec::new();
    if mk == 0 {
        out.push(117);
        out.push(110);
        out.push(107);
        out.push(110);
        out.push(111);
        out.push(119);
        out.push(110);
    } else if mk / 10 >= 27315 {
        let c = mk / 10 - 27315;
        push_fixed2(&mut out, c);
        proof {
            lemma_fixed2_ascii(c as nat);
        }
    } else {
        out.push(45);
        let c = 27315 - mk / 10;
        push_fixed2(&mut out, c);
        proof {
            lemma_fixed2_ascii(c as nat);
        }
    }
    proof {
        assert(out@ =~= readable_temperature(mk as nat));
    }
    ascii_to_string(out)
}

} // verus!
