//! The `matches` command: whether a text matches a regular expression.

use crate::builtins::help::{check_help, has_help_flag};
use crate::builtins::report::{complaint, helped, quiet, Outcome, OutcomeView};
use crate::builtins::{BAD_ARG, FAILURE, SUCCESS};
use crate::text::texts;
use vstd::prelude::*;

verus! {

/// A compiled regular expression of the `regex` crate.
#[verifier::external_type_specification]
#[verifier::external_body]
pub struct ExRegex(regex::Regex);

/// Why `regex::Regex::new` refuses a pattern, in the words of its error;
/// nothing for a pattern that it compiles.
pub uninterp spec fn regex_error(pattern: Seq<char>) -> Option<Seq<char>>;

/// Whether `regex::Regex::is_match` finds a match of the pattern anywhere in
/// the text.
pub uninterp spec fn regex_matches(pattern: Seq<char>, input: Seq<char>) -> bool;

/// A regular expression, compiled, together with the text it was compiled
/// from.
pub struct Pattern {
    source: String,
    compiled: regex::Regex,
}

impl View for Pattern {
    type V = Seq<char>;

    closed spec fn view(&self) -> Seq<char> {
        self.source@
    }
}

impl Pattern {
    /// Compiles a pattern with `regex::Regex::new`. Whether the pattern
    /// compiles, and the words of the error if it does not, depend on the
    /// pattern alone. The result keeps the text beside what was compiled from
    /// it.
    #[verifier::external_body]
    pub(crate) fn compile(source: &str) -> (r: Result<Pattern, String>)
        ensures
            r matches Ok(pattern) ==> regex_error(source@) is None && pattern@ == source@,
            r matches Err(why) ==> regex_error(source@) == Some(why@),
    {
        match regex::Regex::new(source) {
            Ok(compiled) => Ok(Pattern { source: source.to_owned(), compiled }),
            Err(err) => Err(err.to_string()),
        }
    }

    /// Searches a text with `regex::Regex::is_match`, which tells whether the
    /// expression matches anywhere in it: a function of the pattern and the
    /// text alone.
    #[verifier::external_body]
    pub(crate) fn is_match(&self, input: &str) -> (r: bool)
        ensures
            r == regex_matches(self@, input@),
    {
        self.compiled.is_match(input)
    }
}

/// What the search for `pattern` in `input` comes to: whether it matched, or
/// else why the pattern does not compile.
pub open spec fn searched(pattern: Seq<char>, input: Seq<char>) -> Result<bool, Seq<char>> {
    match regex_error(pattern) {
        Some(why) => Err(why),
        None => Ok(regex_matches(pattern, input)),
    }
}

/// The outcome of the `matches` command once the search was made: a match is
/// success, no match is failure, and a pattern that does not compile is a
/// failure that names the pattern and the reason.
pub open spec fn reported(pattern: Seq<char>, search: Result<bool, Seq<char>>) -> OutcomeView {
    match search {
        Ok(found) => if found {
            quiet(SUCCESS as int)
        } else {
            quiet(FAILURE as int)
        },
        Err(why) => complaint(
            FAILURE as int,
            "couldn't compile input regex "@ + pattern + ": "@ + why + seq!['\n'],
        ),
    }
}

/// The outcome of the `matches` command. Its arguments are its name, the text
/// and the pattern; any other number of arguments is a usage error, unless a
/// flag asks for the manual page.
pub open spec fn matched(args: Seq<Seq<char>>) -> OutcomeView {
    if has_help_flag(args) {
        helped()
    } else if args.len() != 3 {
        complaint(BAD_ARG as int, "match takes two arguments\n"@)
    } else {
        reported(args[2], searched(args[2], args[1]))
    }
}

/// The view of a result of a search.
pub open spec fn search_view(search: Result<bool, String>) -> Result<bool, Seq<char>> {
    match search {
        Ok(found) => Ok(found),
        Err(why) => Err(why@),
    }
}

/// Searches `input` for a match of `pattern`.
pub fn search(pattern: &str, input: &str) -> (r: Result<bool, String>)
    ensures
        search_view(r) == searched(pattern@, input@),
{
    match Pattern::compile(pattern) {
        Ok(compiled) => Ok(compiled.is_match(input)),
        Err(why) => Err(why),
    }
}

/// Settles the outcome of the `matches` command once the search was made.
pub fn report(pattern: &str, search: Result<bool, String>) -> (r: Outcome)
    ensures
        r@ == reported(pattern@, search_view(search)),
{
    match search {
        Ok(found) => if found {
            Outcome::quiet(SUCCESS)
        } else {
            Outcome::quiet(FAILURE)
        },
        Err(why) => {
            let mut text = String::new();
            text.append("couldn't compile input regex ");
            text.append(pattern);
            text.append(": ");
            text.append(why.as_str());
            text.push('\n');
            assert(text@ =~= "couldn't compile input regex "@ + pattern@ + ": "@ + why@
                + seq!['\n']);
            Outcome::complaint(FAILURE, text)
        },
    }
}

/// Checks if a string matches a given regex.
pub fn builtin_matches(args: &Vec<String>) -> (r: Outcome)
    ensures
        r@ == matched(texts(args@)),
{
    if check_help(args) {
        return Outcome::helped();
    }
    if args.len() != 3 {
        let mut text = String::new();
        text.append("match takes two arguments\n");
        assert(text@ =~= "match takes two arguments\n"@);
        return Outcome::complaint(BAD_ARG, text);
    }
    let input = args[1].as_str();
    let pattern = args[2].as_str();
    assert(texts(args@)[1] == args@[1]@);
    assert(texts(args@)[2] == args@[2]@);
    report(pattern, search(pattern, input))
}

} // verus!
