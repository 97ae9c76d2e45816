use vstd::prelude::*;

use regex::Regex;

verus! {

/// A compiled regular expression of the regex crate, carried through unread.
#[verifier::external_type_specification]
#[verifier::external_body]
pub struct ExRegex(regex::Regex);

/// The error of the regex crate for a pattern that does not compile.
#[verifier::external_type_specification]
#[verifier::external_body]
pub struct ExRegexError(regex::Error);

/// Relies on regex::Regex::new to compile a pattern: it returns an error for
/// a pattern that is invalid or compiles too big, and does not panic.
pub assume_specification[ regex::Regex::new ](re: &str) -> Result<regex::Regex, regex::Error>;

/// The shape of an interface line of the kernel's counter table: a name of
/// letters and digits, a colon, then sixteen unsigned numbers.
pub const IF_LINE_RE: &'static str = r"^\s*[[:alnum:]]+:(?:\s+\d+){16}$";

/// Whether `IF_LINE_RE`, as the regex crate matches it, matches `line`.
pub uninterp spec fn is_interface_line(line: Seq<char>) -> bool;

/// `IF_LINE_RE`, compiled. Only `build` makes one, so every value holds
/// the same pattern.
pub struct InterfaceLine {
    re: Regex,
}

impl InterfaceLine {
    /// Relies on regex::Regex::is_match: whether the compiled `IF_LINE_RE`
    /// matches somewhere in `line`, which depends on `line` alone.
    #[verifier::external_body]
    pub(crate) fn is_match(&self, line: &str) -> (r: bool)
        ensures
            r == is_interface_line(line@),
    {
        self.re.is_match(line)
    }
}

/// Compiles the pattern of an interface line.
pub fn build() -> (r: Result<InterfaceLine, String>)
    ensures
        match r {
            Ok(_) => true,
            Err(e) => e@ == "regular expression is invalid"@,
        },
{
    match Regex::new(IF_LINE_RE) {
        Ok(re) => Ok(InterfaceLine { re }),
        Err(_) => Err(String::from_str("regular expression is invalid")),
    }
}

} // verus!
