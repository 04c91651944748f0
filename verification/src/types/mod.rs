//! Core domain value types.
//!
//! Every value type validates its invariant at construction and fails with a
//! [`ValidationError`] otherwise; it never silently clamps.

use vstd::prelude::*;

pub mod market_data;
pub mod price;
pub mod signal;

verus! {

/// True exactly when `c` is an ASCII letter or digit.
pub open spec fn is_alnum_char(c: char) -> bool {
    let x = c as u32;
    (48 <= x <= 57) || (65 <= x <= 90) || (97 <= x <= 122)
}

/// Maps an ASCII lowercase letter to its uppercase form and leaves every
/// other character unchanged.
pub open spec fn upper_char(c: char) -> char {
    if 97 <= c as u32 <= 122 {
        (((c as u32) - 32) as u8) as char
    } else {
        c
    }
}

/// True exactly when `c` is an ASCII digit or uppercase letter.
pub open spec fn is_upper_alnum_char(c: char) -> bool {
    let x = c as u32;
    (48 <= x <= 57) || (65 <= x <= 90)
}

/// An instrument identifier: one to ten ASCII alphanumeric characters,
/// normalized to uppercase at construction. Symbols key positions, caches
/// and risk groupings.
#[derive(Debug)]
pub struct Symbol {
    text: String,
}

impl View for Symbol {
    type V = Seq<char>;

    closed spec fn view(&self) -> Seq<char> {
        self.text@
    }
}

impl Symbol {
    /// The invariant every constructed symbol satisfies.
    pub open spec fn wf(self) -> bool {
        &&& 1 <= self@.len() <= 10
        &&& forall|i: int| 0 <= i < self@.len() ==> is_upper_alnum_char(#[trigger] self@[i])
    }

    /// Validates and uppercases an identifier.
    ///
    /// Rejections are checked in this order: empty, too long, invalid
    /// character; the first failing check is the one reported.
    pub fn new(s: &str) -> (r: Result<Symbol, ValidationError>)
        ensures
            (if s@.len() == 0 {
                r == Err::<Symbol, ValidationError>(ValidationError::EmptySymbol)
            } else if s@.len() > 10 {
                r == Err::<Symbol, ValidationError>(
                    ValidationError::SymbolTooLong(s@.len() as usize),
                )
            } else if exists|i: int| 0 <= i < s@.len() && !is_alnum_char(#[trigger] s@[i]) {
                r == Err::<Symbol, ValidationError>(ValidationError::InvalidSymbolCharacters)
            } else {
                r matches Ok(sym) && sym@ == s@.map_values(|c: char| upper_char(c)) && sym.wf()
            }),
    {
        let n = s.unicode_len();
        if n == 0 {
            return Err(ValidationError::EmptySymbol);
        }
        if n > 10 {
            return Err(ValidationError::SymbolTooLong(n));
        }
        let mut bytes: Vec<u8> = Vec::new();
        let mut i: usize = 0;
        while i < n
            invariant
                n == s@.len(),
                1 <= n <= 10,
                0 <= i <= n,
                bytes@.len() == i,
                forall|j: int| 0 <= j < i ==> is_alnum_char(#[trigger] s@[j]),
                forall|j: int|
                    0 <= j < i ==> #[trigger] bytes@[j] == upper_char(s@[j]) as u8
                        && bytes@[j] < 128 && is_upper_alnum_char(upper_char(s@[j])),
            decreases n - i,
        {
            let c = s.get_char(i);
            let code: u32 = c as u32;
            let upper: u32 = if 97 <= code && code <= 122 {
                code - 32
            } else if (48 <= code && code <= 57) || (65 <= code && code <= 90) {
                code
            } else {
                return Err(ValidationError::InvalidSymbolCharacters);
            };
            bytes.push(upper as u8);
            i += 1;
        }
        let text = string_from_ascii(bytes);
        let sym = Symbol { text };
        proof {
            assert(sym@ =~= s@.map_values(|c: char| upper_char(c)));
        }
        Ok(sym)
    }

    /// The identifier as a string slice.
    pub fn as_str(&self) -> (r: &str)
        ensures
            r@ == self@,
    {
        self.text.as_str()
    }

    /// True exactly when the two symbols name the same instrument.
    pub fn same_as(&self, other: &Symbol) -> (r: bool)
        ensures
            r == (self@ == other@),
    {
        self.text == other.text
    }
}

impl Clone for Symbol {
    /// A clone names the same instrument.
    fn clone(&self) -> (r: Self)
        ensures
            r@ == self@,
    {
        Symbol { text: self.text.clone() }
    }
}

/// Relies on `String::from_utf8`: ASCII bytes decode to exactly the
/// characters with the same codes.
#[verifier::external_body]
fn string_from_ascii(v: Vec<u8>) -> (r: String)
    requires
        forall|i: int| 0 <= i < v@.len() ==> v@[i] < 128,
    ensures
        r@ == v@.map_values(|b: u8| b as char),
{
    String::from_utf8(v).unwrap_or_default()
}

/// Why a value-type constructor rejected its input.
#[derive(Debug, Clone, Copy, PartialEq, Eq, Structural)]
pub enum ValidationError {
    /// A symbol must have at least one character.
    EmptySymbol,
    /// A symbol may have at most ten characters; carries the offending length.
    SymbolTooLong(usize),
    /// A symbol may hold ASCII letters and digits only.
    InvalidSymbolCharacters,
    /// A price must be strictly positive; carries the rejected amount in cents.
    InvalidPrice(i64),
    /// A quantity must be nonzero; carries the rejected share count.
    InvalidQuantity(i64),
    /// A confidence must lie in [0, 10000] basis points; carries the rejected value.
    InvalidConfidence(u32),
}

} // verus!
