use crate::errors::{type_error, ErrorKind, JobError, JobErrorView};
use vstd::prelude::*;

verus! {

/// The error of a regular expression that does not compile, `regex::Error`, as a
/// type whose values are only handed on.
#[verifier::external_type_specification]
#[verifier::external_body]
pub struct ExRegexError(regex::Error);

/// Whether `pattern` is a regular expression that `regex::Regex::new` accepts.
pub uninterp spec fn regex_valid(pattern: Seq<char>) -> bool;

/// Whether the regular expression `pattern` has a match somewhere in `text`, as
/// `regex::Regex::is_match` finds it. It means nothing for a pattern that is not valid.
pub uninterp spec fn regex_accepts(pattern: Seq<char>, text: Seq<char>) -> bool;

/// Compiles `pattern` with `regex::Regex::new` and asks `regex::Regex::is_match` whether
/// it has a match somewhere in `text`. The contract is not proved: it says that the
/// compilation succeeds exactly for the patterns that `regex_valid` names, and that the
/// answer is the one that `regex_accepts` names. Both depend on the two texts alone.
#[verifier::external_body]
fn regex_search(pattern: &str, text: &str) -> (r: Result<bool, regex::Error>)
    ensures
        r is Ok <==> regex_valid(pattern@),
        r matches Ok(found) ==> found == regex_accepts(pattern@, text@),
{
    match regex::Regex::new(pattern) {
        Ok(compiled) => Ok(compiled.is_match(text)),
        Err(e) => Err(e),
    }
}

/// A regular expression that is known to compile, kept as its source text.
#[derive(Debug)]
pub struct Regex {
    source: String,
}

impl View for Regex {
    type V = Seq<char>;

    closed spec fn view(&self) -> Seq<char> {
        self.source@
    }
}

impl Clone for Regex {
    fn clone(&self) -> (res: Regex)
        ensures
            res@ == self@,
    {
        proof {
            use_type_invariant(self);
        }
        Regex { source: self.source.clone() }
    }
}

impl Regex {
    #[verifier::type_invariant]
    spec fn compiles(self) -> bool {
        regex_valid(self.source@)
    }

    /// The regular expression written as `pattern`, or a type error where `pattern`
    /// does not compile.
    pub fn new(pattern: &str) -> (r: Result<Regex, JobError>)
        ensures
            r is Ok <==> regex_valid(pattern@),
            r matches Ok(re) ==> re@ == pattern@,
            r matches Err(e) ==> e@ == (JobErrorView {
                kind: ErrorKind::Type,
                message: "Invalid regular expression"@,
            }),
    {
        match regex_search(pattern, "") {
            Ok(_) => Ok(Regex { source: pattern.to_owned() }),
            Err(_) => Err(type_error("Invalid regular expression")),
        }
    }

    /// Whether the expression has a match somewhere in `text`.
    pub fn is_match(&self, text: &str) -> (found: bool)
        ensures
            found == regex_accepts(self@, text@),
    {
        proof {
            use_type_invariant(self);
        }
        match regex_search(self.source.as_str(), text) {
            Ok(found) => found,
            Err(_) => false,
        }
    }

    /// The source text of the expression.
    pub fn as_str(&self) -> (s: &str)
        ensures
            s@ == self@,
    {
        self.source.as_str()
    }
}

} // verus!
