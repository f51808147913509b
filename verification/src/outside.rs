//! What this library takes from other crates and from parts of std that
//! Verus has no contract for. Nothing in this file is proved: each item says
//! what is assumed of the function it names.

use crate::config::Config;
use std::string::FromUtf8Error;
use std::sync::Arc;
use vstd::prelude::*;
use vstd::utf8::{decode_utf8, valid_utf8};

verus! {

/// The views of a list of strings.
pub open spec fn texts(list: Seq<String>) -> Seq<Seq<char>> {
    list.map_values(|s: String| s@)
}

/// The view of a string that may be missing.
pub open spec fn text_of(s: Option<String>) -> Option<Seq<char>> {
    match s {
        Some(s) => Some(s@),
        None => None,
    }
}

/// `num_cpus::get`: the number of logical cores that this process may use.
/// Its documentation promises that the number is at least one; which number
/// it is depends on the machine.
#[verifier::external_body]
pub(crate) fn available_cpus() -> (n: usize)
    ensures
        n >= 1,
{
    num_cpus::get()
}

/// `Arc::clone`: one more handle on the same configuration.
#[verifier::external_body]
pub(crate) fn share_config(config: &Arc<Config>) -> (shared: Arc<Config>)
    ensures
        *shared == **config,
{
    Arc::clone(config)
}

/// The compiled form of a glob pattern.
#[verifier::external_type_specification]
#[verifier::external_body]
pub struct ExPattern(glob::Pattern);

/// The error of a glob pattern that does not compile.
#[verifier::external_type_specification]
#[verifier::external_body]
pub struct ExPatternError(glob::PatternError);

/// What `glob::Pattern::new` makes of a pattern: the compiled pattern, or
/// nothing where the pattern is malformed.
pub uninterp spec fn glob_compile(pattern: Seq<char>) -> Option<glob::Pattern>;

/// Whether `glob::Pattern::matches` finds that a compiled pattern matches a
/// text, with the crate's default options.
pub uninterp spec fn glob_match(pattern: glob::Pattern, text: Seq<char>) -> bool;

/// `glob::Pattern::new` reads the pattern and nothing else: the same pattern
/// is always compiled, or always refused, in the same way.
pub assume_specification[ glob::Pattern::new ](pattern: &str) -> (r: Result<
    glob::Pattern,
    glob::PatternError,
>)
    ensures
        r.ok() == glob_compile(pattern@),
;

/// `glob::Pattern::matches` reads the compiled pattern and the text and
/// nothing else.
pub assume_specification[ glob::Pattern::matches ](pattern: &glob::Pattern, text: &str) -> (b:
    bool)
    ensures
        b == glob_match(*pattern, text@),
;

/// What `std::path::Path::ancestors` yields for a path: the path itself, then
/// its parent, then the parent of that, to the last one that has none.
pub uninterp spec fn path_ancestors(path: Seq<char>) -> Seq<Seq<char>>;

/// What `std::path::Path::file_name` gives for a path: its last component,
/// where that is a name.
pub uninterp spec fn path_file_name(path: Seq<char>) -> Option<Seq<char>>;

/// `std::path::Path::ancestors`, each ancestor as a string. The ancestors are
/// cut from the text of the path: no file system is asked.
#[verifier::external_body]
pub(crate) fn ancestors_of(path: &str) -> (list: Vec<String>)
    ensures
        texts(list@) == path_ancestors(path@),
{
    std::path::Path::new(path).ancestors().map(|a| a.to_string_lossy().into_owned()).collect()
}

/// `std::path::Path::file_name`, as a string. The name is cut from the text
/// of the path: no file system is asked.
#[verifier::external_body]
pub(crate) fn file_name_of(path: &str) -> (name: Option<String>)
    ensures
        text_of(name) == path_file_name(path@),
{
    std::path::Path::new(path).file_name().map(|n| n.to_string_lossy().into_owned())
}

/// The error of bytes that are no UTF-8.
#[verifier::external_type_specification]
#[verifier::external_body]
pub struct ExFromUtf8Error(FromUtf8Error);

/// `String::from_utf8` succeeds just on well-formed UTF-8, and the string
/// then holds the chars that the bytes encode.
pub assume_specification[ String::from_utf8 ](bytes: Vec<u8>) -> (r: Result<String, FromUtf8Error>)
    ensures
        r is Ok <==> valid_utf8(bytes@),
        r matches Ok(s) ==> s@ == decode_utf8(bytes@),
;

/// `String::push` appends one char.
pub assume_specification[ String::push ](s: &mut String, c: char)
    ensures
        final(s)@ == old(s)@.push(c),
;

} // verus!
