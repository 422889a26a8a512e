//! The command surface: the two operations a caller can ask for and the
//! parameters each one carries. The surrounding binary parses the command
//! line into these types; the library only consumes them.

use vstd::prelude::*;
use crate::json::{dec_digits, is_digit_spec, chars_of, is_digit_exec};

verus! {

/// A temperature given as a decimal numeral: a whole part and at least
/// one fraction digit, so that `whole = 1, frac = "5"` stands for 1.5.
/// The service takes temperatures in a small nonnegative range, so no
/// sign is carried.
pub struct Temperature {
    pub whole: u32,
    pub frac: String,
}

impl Temperature {
    /// A well-formed temperature has a nonempty fraction made of digits.
    pub open spec fn wf(&self) -> bool {
        &&& self.frac@.len() >= 1
        &&& forall|k: int| 0 <= k < self.frac@.len() ==> is_digit_spec(#[trigger] self.frac@[k])
    }

    /// The characters of the decimal numeral, as they go on the wire.
    pub open spec fn chars(&self) -> Seq<char> {
        dec_digits(self.whole as nat) + "."@ + self.frac@
    }

    /// Builds a temperature from its whole part and its fraction digits,
    /// refusing a fraction that is empty or holds a non-digit.
    pub fn new(whole: u32, frac: &str) -> (r: Option<Temperature>)
        ensures
            r is Some <==> (frac@.len() >= 1 && forall|k: int|
                0 <= k < frac@.len() ==> is_digit_spec(#[trigger] frac@[k])),
            r matches Some(t) ==> t.wf() && t.whole == whole && t.frac@ == frac@,
    {
        let digits = chars_of(frac);
        if digits.len() == 0 {
            return None;
        }
        let mut k: usize = 0;
        while k < digits.len()
            invariant
                k <= digits@.len(),
                digits@ == frac@,
                forall|m: int| 0 <= m < k ==> is_digit_spec(#[trigger] digits@[m]),
            decreases digits@.len() - k,
        {
            if !is_digit_exec(digits[k]) {
                return None;
            }
            k += 1;
        }
        Some(Temperature { whole, frac: String::from_str(frac) })
    }
}

/// The parameters of a text completion request, as given on the command
/// line: only the prompt is required, the rest defaults when absent.
pub struct TextCommand {
    pub description: String,
    pub model: Option<String>,
    pub temperature: Option<Temperature>,
    pub max_tokens: Option<u32>,
}

/// The parameters of an image generation request.
pub struct ImageCommand {
    pub description: String,
}

/// The one operation a single invocation asks for.
pub enum CommandTypes {
    GenerateText(TextCommand),
    GenerateImage(ImageCommand),
}

/// A parsed command line: exactly one operation.
pub struct Args {
    pub commands: CommandTypes,
}

} // verus!
