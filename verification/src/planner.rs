//! Command planning: from a command template and two paths to the argument
//! vector of the command to run.

use crate::text::char_is_whitespace;
use crate::text::chars_of;
use crate::text::is_whitespace;
use crate::text::same_text;
use crate::text::texts_of;
use vstd::prelude::*;
use vstd::string::StrSliceExecFns;
use vstd::string::StringExecFns;

verus! {

/// Why a template yields no command.
#[derive(Clone, Copy, Debug, PartialEq, Eq)]
pub enum PlanError {
    /// The template holds no token.
    NoTokens,
    /// The first token, which names the program, is a `$` name that nothing
    /// is substituted for.
    UnresolvedProgram,
}

/// The token that stands for the path of the source file.
pub open spec fn source_placeholder() -> Seq<char> {
    "$file_path"@
}

/// The token that stands for the path of the destination file.
pub open spec fn destination_placeholder() -> Seq<char> {
    "$file_path_out"@
}

/// The number of characters at the start of `s` that are not white space.
pub open spec fn word_len(s: Seq<char>) -> nat
    decreases s.len(),
{
    if s.len() == 0 || is_whitespace(s[0]) {
        0
    } else {
        1 + word_len(s.drop_first())
    }
}

/// A word is no longer than the text it starts, and not empty where that
/// text starts with a character that is not white space.
pub proof fn lemma_word_len(s: Seq<char>)
    ensures
        word_len(s) <= s.len(),
        s.len() > 0 && !is_whitespace(s[0]) ==> word_len(s) > 0,
    decreases s.len(),
{
    if s.len() > 0 && !is_whitespace(s[0]) {
        lemma_word_len(s.drop_first());
    }
}

/// The tokens of `s`: its longest runs of characters that are not white
/// space, in order.
pub open spec fn tokens_of(s: Seq<char>) -> Seq<Seq<char>>
    decreases s.len(),
{
    if s.len() == 0 {
        Seq::empty()
    } else if is_whitespace(s[0]) {
        tokens_of(s.drop_first())
    } else {
        proof {
            lemma_word_len(s);
        }
        seq![s.take(word_len(s) as int)] + tokens_of(s.skip(word_len(s) as int))
    }
}

/// What a token of a template becomes in the command: a placeholder becomes
/// the path it stands for, any other token stays as it is.
pub open spec fn substituted(token: Seq<char>, source: Seq<char>, destination: Seq<char>) -> Seq<
    char,
> {
    if token == source_placeholder() {
        source
    } else if token == destination_placeholder() {
        destination
    } else {
        token
    }
}

/// The argument vector of `template` for the two paths.
pub open spec fn arguments_of(
    template: Seq<char>,
    source: Seq<char>,
    destination: Seq<char>,
) -> Seq<Seq<char>> {
    tokens_of(template).map_values(|token: Seq<char>| substituted(token, source, destination))
}

/// Whether `token` is a `$` name that is neither of the two placeholders.
pub open spec fn is_unresolved(token: Seq<char>) -> bool {
    &&& token.len() > 0
    &&& token[0] == '$'
    &&& token != source_placeholder()
    &&& token != destination_placeholder()
}

/// The command that `template` plans for the two paths: its argument vector,
/// program first, or the reason why there is none.
pub open spec fn planned(template: Seq<char>, source: Seq<char>, destination: Seq<char>) -> Result<
    Seq<Seq<char>>,
    PlanError,
> {
    let tokens = tokens_of(template);
    if tokens.len() == 0 {
        Err(PlanError::NoTokens)
    } else if is_unresolved(tokens[0]) {
        Err(PlanError::UnresolvedProgram)
    } else {
        Ok(arguments_of(template, source, destination))
    }
}

/// The position at which the word that starts at `start` ends.
fn word_end(chars: &[char], start: usize) -> (end: usize)
    requires
        start <= chars@.len(),
    ensures
        end == start + word_len(chars@.skip(start as int)),
        end <= chars@.len(),
{
    let mut end = start;
    while end < chars.len() && !char_is_whitespace(chars[end])
        invariant
            start <= end <= chars@.len(),
            word_len(chars@.skip(start as int)) == (end - start) + word_len(
                chars@.skip(end as int),
            ),
        decreases chars@.len() - end,
    {
        assert(chars@.skip(end as int).drop_first() =~= chars@.skip(end + 1));
        end += 1;
    }
    end
}

/// Splits `template` at white space.
pub fn tokenize(template: &str) -> (tokens: Vec<String>)
    ensures
        texts_of(tokens@) == tokens_of(template@),
{
    let chars = chars_of(template);
    let mut tokens: Vec<String> = Vec::new();
    let mut i: usize = 0;
    assert(template@.skip(0) =~= template@);
    while i < chars.len()
        invariant
            chars@ == template@,
            i <= chars@.len(),
            tokens_of(template@) == texts_of(tokens@) + tokens_of(template@.skip(i as int)),
        decreases chars@.len() - i,
    {
        let ghost rest = template@.skip(i as int);
        if char_is_whitespace(chars[i]) {
            assert(rest.drop_first() =~= template@.skip(i + 1));
            i += 1;
        } else {
            let end = word_end(chars.as_slice(), i);
            let token = String::from_str(template.substring_char(i, end));
            proof {
                assert(rest.take(word_len(rest) as int) =~= template@.subrange(
                    i as int,
                    end as int,
                ));
                assert(rest.skip(word_len(rest) as int) =~= template@.skip(end as int));
            }
            tokens.push(token);
            i = end;
        }
    }
    tokens
}

/// Tells whether `token` is a `$` name that nothing is substituted for.
fn unresolved(token: &str) -> (unresolved: bool)
    ensures
        unresolved == is_unresolved(token@),
{
    let chars = chars_of(token);
    chars.len() > 0 && chars[0] == '$' && !same_text(token, "$file_path") && !same_text(
        token,
        "$file_path_out",
    )
}

/// Plans the command of `template` for a source and a destination file:
/// splits the template at white space and puts the two paths in place of the
/// tokens `$file_path` and `$file_path_out`. The first argument is the
/// program.
pub fn plan_command(template: &str, source: &str, destination: &str) -> (plan: Result<
    Vec<String>,
    PlanError,
>)
    ensures
        match plan {
            Ok(arguments) => planned(template@, source@, destination@) == Ok::<
                Seq<Seq<char>>,
                PlanError,
            >(texts_of(arguments@)),
            Err(error) => planned(template@, source@, destination@) == Err::<
                Seq<Seq<char>>,
                PlanError,
            >(error),
        },
{
    let tokens = tokenize(template);
    if tokens.len() == 0 {
        return Err(PlanError::NoTokens);
    }
    if unresolved(tokens[0].as_str()) {
        return Err(PlanError::UnresolvedProgram);
    }
    let mut arguments: Vec<String> = Vec::new();
    let mut i: usize = 0;
    while i < tokens.len()
        invariant
            i <= tokens@.len(),
            arguments@.len() == i,
            forall|k: int|
                0 <= k < i ==> (#[trigger] arguments@[k])@ == substituted(
                    tokens@[k]@,
                    source@,
                    destination@,
                ),
        decreases tokens@.len() - i,
    {
        let token = tokens[i].as_str();
        let argument = if same_text(token, "$file_path") {
            String::from_str(source)
        } else if same_text(token, "$file_path_out") {
            String::from_str(destination)
        } else {
            String::from_str(token)
        };
        arguments.push(argument);
        i += 1;
    }
    assert(texts_of(arguments@) =~= arguments_of(template@, source@, destination@));
    Ok(arguments)
}

} // verus!
