//! Compiled regular expressions from `regex`, each kept with the source text it was compiled from.
use vstd::prelude::*;
use regex::Regex;

verus! {

/// `regex::Regex`, a compiled pattern, carried through the library as an opaque value.
#[verifier::external_type_specification]
#[verifier::external_body]
pub struct ExRegex(Regex);

/// `regex::Error`, why a pattern did not compile.
#[verifier::external_type_specification]
#[verifier::external_body]
pub struct ExRegexError(regex::Error);

/// Whether `regex` compiles `pattern` with its default settings (the syntax is valid and the
/// compiled program stays under the default size limit).
pub uninterp spec fn regex_compiles(pattern: Seq<char>) -> bool;

/// Whether the regex compiled from `pattern` matches somewhere in `text`.
pub uninterp spec fn regex_finds(pattern: Seq<char>, text: Seq<char>) -> bool;

/// A compiled pattern together with its source text. Its fields are private to this module, and
/// `compile_pattern` is the only code that builds one: so the regex it holds is always the one
/// compiled from its source text, which is what `pattern_finds` relies on.
pub struct CompiledPattern {
    source: String,
    re: Regex,
}

impl View for CompiledPattern {
    type V = Seq<char>;

    /// The pattern's source text.
    closed spec fn view(&self) -> Seq<char> {
        self.source@
    }
}

/// Calls `Regex::new`: `Ok` exactly when `regex` compiles `pattern`; the compiled pattern keeps
/// `pattern` as its source.
#[verifier::external_body]
pub(crate) fn compile_pattern(pattern: &str) -> (r: Result<CompiledPattern, regex::Error>)
    ensures
        r is Ok <==> regex_compiles(pattern@),
        r matches Ok(c) ==> c@ == pattern@,
{
    match Regex::new(pattern) {
        Ok(re) => Ok(CompiledPattern { source: pattern.to_string(), re }),
        Err(e) => Err(e),
    }
}

/// Calls `Regex::is_match`: whether the pattern matches anywhere in `text`.
#[verifier::external_body]
pub(crate) fn pattern_finds(p: &CompiledPattern, text: &str) -> (b: bool)
    ensures
        b == regex_finds(p@, text@),
{
    p.re.is_match(text)
}

} // verus!
