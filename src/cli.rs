//! The decisions behind the command line: which width and radix the flags
//! ask for, and the integer that an input and its flags describe.

use crate::integer::{construct_bits, top_bit, Integer, IntegerError, IntegerOptions, STORAGE_BITS};
use crate::parse::{
    chars_of, identify_radix, numeral_bits, numeral_text, parse, parse_signed, signed_numeral,
    starts_with2, unsigned_numeral,
};
use std::num::ParseIntError;
use vstd::prelude::*;
use vstd::std_specs::bits::{
    axiom_u64_leading_ones, axiom_u64_leading_zeros, u64_leading_ones, u64_leading_zeros,
};

verus! {

/// The command-line request: the input text and the flags given with it.
#[derive(Clone, Debug, Default)]
pub struct App {
    /// The integer to inspect.
    pub input: String,
    /// Treat the input as a signed integer.
    pub signed: bool,
    /// Treat the input as an 8-bit integer.
    pub byte: bool,
    /// Treat the input as a 16-bit integer.
    pub short: bool,
    /// Treat the input as a 32-bit integer.
    pub integer: bool,
    /// Treat the input as a 64-bit integer.
    pub long: bool,
    /// Treat the input as an integer of this many bytes.
    pub bytes: Option<usize>,
    /// Treat the input as an integer of this many bits.
    pub bits: Option<usize>,
    /// Fill the widened bits with ones.
    pub sign_extend: bool,
    /// Fill the widened bits with zeros.
    pub zero_extend: bool,
    /// Read the input in base 2.
    pub binary: bool,
    /// Read the input in base 8.
    pub octal: bool,
    /// Read the input in base 10.
    pub decimal: bool,
    /// Read the input in base 16.
    pub hexadecimal: bool,
    /// Read the input in this base.
    pub radix: Option<u32>,
    /// Show the two's complement as well.
    pub twos_complement: bool,
}

/// Why the command line could not be turned into an integer.
#[derive(Debug)]
pub enum RunError {
    /// More than 64 bits were asked for.
    TooManyBits,
    /// The input is no numeral of the radix.
    Parse(ParseIntError),
    /// The width is more than 64 bits.
    Width(IntegerError),
}

/// The width the flags ask for, the first that is given of: bits, bytes,
/// byte, short, int, long.
pub open spec fn spec_total_bits(app: App) -> Option<usize> {
    if app.bits is Some {
        app.bits
    } else if app.bytes is Some {
        Some((app.bytes->0 * 8) as usize)
    } else if app.byte {
        Some(8)
    } else if app.short {
        Some(16)
    } else if app.integer {
        Some(32)
    } else if app.long {
        Some(64)
    } else {
        None
    }
}

/// The radix the flags ask for, the first that is given of: radix, binary,
/// octal, decimal, hexadecimal.
pub open spec fn spec_radix(app: App) -> Option<u32> {
    if app.radix is Some {
        app.radix
    } else if app.binary {
        Some(2)
    } else if app.octal {
        Some(8)
    } else if app.decimal {
        Some(10)
    } else if app.hexadecimal {
        Some(16)
    } else {
        None
    }
}

/// Returns the (optional) number of bits specified by the user.
pub fn total_bits(app: &App) -> (r: Option<usize>)
    requires
        app.bits is None && app.bytes is Some ==> app.bytes->0 * 8 <= usize::MAX,
    ensures
        r == spec_total_bits(*app),
{
    if let Some(app_bits) = app.bits {
        Some(app_bits)
    } else if let Some(bytes) = app.bytes {
        Some(bytes * 8)
    } else if app.byte {
        Some(8)
    } else if app.short {
        Some(16)
    } else if app.integer {
        Some(32)
    } else if app.long {
        Some(64)
    } else {
        None
    }
}

/// Returns the (optional) radix specified by the user.
pub fn radix(app: &App) -> (r: Option<u32>)
    ensures
        r == spec_radix(*app),
{
    if app.radix.is_some() {
        app.radix
    } else if app.binary {
        Some(2)
    } else if app.octal {
        Some(8)
    } else if app.decimal {
        Some(10)
    } else if app.hexadecimal {
        Some(16)
    } else {
        None
    }
}

/// The radix the input is read in: the flags', else its prefix's, else 10.
pub open spec fn chosen_radix(app: App) -> u32 {
    match spec_radix(app) {
        Some(r) => r,
        None => if starts_with2(app.input@, '0', 'x') {
            16
        } else if starts_with2(app.input@, '0', 'b') {
            2
        } else if starts_with2(app.input@, '0', 'o') || starts_with2(app.input@, '0', 'O') {
            8
        } else {
            10
        },
    }
}

/// Whether the width that bits or bytes ask for is above 64.
pub open spec fn too_many_bits(app: App) -> bool {
    match app.bits {
        Some(b) => b > STORAGE_BITS,
        None => match app.bytes {
            Some(b) => b * 8 > STORAGE_BITS,
            None => false,
        },
    }
}

/// Whether the input is written with a leading `-`.
pub open spec fn input_negative(app: App) -> bool {
    app.input@.len() > 0 && app.input@[0] == '-'
}

/// The 64-bit word the input stands for and its significant bits, or `None`
/// when it is no numeral that fits: a negative input is read as an `i64` and
/// has its leading ones but one as padding, another one as a `u64` and has
/// its leading zeros as padding unless its digits tell the width.
pub open spec fn parsed_input(app: App) -> Option<(u64, usize)> {
    let radix = chosen_radix(app) as nat;
    let text = numeral_text(app.input@, radix);
    if input_negative(app) {
        match signed_numeral(text, radix) {
            Some(v) => if i64::MIN <= v <= i64::MAX {
                let w = (v as i64) as u64;
                Some((w, (64 - u64_leading_ones(w) + 1) as usize))
            } else {
                None
            },
            None => None,
        }
    } else {
        match unsigned_numeral(text, radix) {
            Some(v) => if v <= u64::MAX {
                let w = v as u64;
                Some(
                    (
                        w,
                        match numeral_bits(app.input@, radix) {
                            Some(n) => n,
                            None => (64 - u64_leading_zeros(w)) as usize,
                        },
                    ),
                )
            } else {
                None
            },
            None => None,
        }
    }
}

/// The options an integer is built with for significant bits `sig`: the width
/// asked for or else `sig`; signed when asked or the input is negative; ones
/// filled in when signed or asked, unless zeros are asked for.
pub open spec fn options_for(app: App, sig: usize) -> IntegerOptions {
    let signed = app.signed || input_negative(app);
    IntegerOptions {
        signed,
        size: match spec_total_bits(app) {
            Some(n) => n,
            None => sig,
        },
        significant_bits: Some(sig),
        sign_extend: !app.zero_extend && (app.sign_extend || signed),
    }
}

/// Builds the integer that the input and the flags describe.
pub fn build_integer(app: &App) -> (r: Result<Integer, RunError>)
    requires
        2 <= chosen_radix(*app) <= 36,
        app.input@.len() * 4 <= usize::MAX,
    ensures
        too_many_bits(*app) <==> r matches Err(RunError::TooManyBits),
        !too_many_bits(*app) ==> (parsed_input(*app) is None <==> r matches Err(RunError::Parse(_))),
        r matches Err(RunError::Width(e)) ==> e == IntegerError::WidthExceedsStorage,
        !too_many_bits(*app) && parsed_input(*app) is Some ==> ({
            let (w, sig) = parsed_input(*app)->0;
            let o = options_for(*app, sig);
            &&& (o.size > STORAGE_BITS <==> r matches Err(RunError::Width(_)))
            &&& (r matches Ok(v) ==> {
                &&& v.wf()
                &&& v.bit_view() == construct_bits(w, o)
                &&& v.negative_flag() == (o.signed && top_bit(construct_bits(w, o)))
            })
        }),
{
    broadcast use axiom_u64_leading_ones, axiom_u64_leading_zeros;

    let radix = match radix(app) {
        Some(r) => r,
        None => match identify_radix(app.input.as_str()) {
            Some(r) => r,
            None => 10,
        },
    };
    let too_many = match app.bits {
        Some(b) => b > STORAGE_BITS,
        None => match app.bytes {
            Some(b) => b > STORAGE_BITS / 8,
            None => false,
        },
    };
    if too_many {
        return Err(RunError::TooManyBits);
    }
    let chars = chars_of(app.input.as_str());
    let is_negative = chars.len() > 0 && chars[0] == '-';
    let (word, opt_significant_bits): (u64, Option<usize>) = if is_negative {
        match parse_signed(app.input.as_str(), radix) {
            Ok((v, _)) => {
                let w = v as u64;
                (w, Some((64 - w.leading_ones() + 1) as usize))
            },
            Err(e) => {
                return Err(RunError::Parse(e));
            },
        }
    } else {
        match parse(app.input.as_str(), radix) {
            Ok((v, n)) => (v, n),
            Err(e) => {
                return Err(RunError::Parse(e));
            },
        }
    };
    let significant_bits = match opt_significant_bits {
        Some(n) => n,
        None => (64 - word.leading_zeros()) as usize,
    };
    let bit_size = match total_bits(app) {
        Some(n) => n,
        None => significant_bits,
    };
    let signed = app.signed || is_negative;
    let sign_extend = !app.zero_extend && (app.sign_extend || signed);
    let options = IntegerOptions::new(signed, bit_size, Some(significant_bits), sign_extend);
    assert(options == options_for(*app, significant_bits));
    match Integer::new(word, options) {
        Ok(v) => Ok(v),
        Err(e) => Err(RunError::Width(e)),
    }
}

} // verus!
