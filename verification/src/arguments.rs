//! The arguments of an agent, written on one line as for a shell.

use vstd::prelude::*;

use crate::error;
use crate::error::{message2, ToolError};
use crate::text;

verus! {

/// The error that `shell_words` reports.
#[verifier::external_type_specification]
#[verifier::external_body]
pub struct ExParseError(shell_words::ParseError);

/// The words that `shell_words::split` finds on a line; none if it refuses it.
pub uninterp spec fn shell_words_of(line: Seq<char>) -> Option<Seq<Seq<char>>>;

pub open spec fn is_separator(c: char) -> bool {
    c == ' ' || c == '\t' || c == '\n'
}

pub open spec fn has_quote(line: Seq<char>) -> bool {
    line.contains('\'') || line.contains('"')
}

/// Neither a quote nor an escape nor the start of a comment.
pub open spec fn is_plain(line: Seq<char>) -> bool {
    !has_quote(line) && !line.contains('\\') && !line.contains('#')
}

/// How far the first word of a line reaches that starts with one.
pub open spec fn word_end(line: Seq<char>) -> int
    decreases line.len(),
{
    if line.len() == 0 || is_separator(line[0]) {
        0
    } else {
        1 + word_end(line.skip(1))
    }
}

/// The words of a plain line: what stands between separators.
pub open spec fn plain_words(line: Seq<char>) -> Seq<Seq<char>>
    decreases line.len(),
{
    if line.len() == 0 {
        Seq::empty()
    } else if is_separator(line[0]) {
        plain_words(line.skip(1))
    } else if 0 < word_end(line) <= line.len() {
        seq![line.take(word_end(line))] + plain_words(line.skip(word_end(line)))
    } else {
        Seq::empty()
    }
}

/// The words that splitting a line has given; none if the line was refused.
pub open spec fn words_of(result: Result<Vec<String>, shell_words::ParseError>) -> Option<
    Seq<Seq<char>>,
> {
    match result {
        Ok(words) => Some(text::views(words@)),
        Err(_) => None,
    }
}

/// `shell_words::split` splits a line into words as a shell does, with quotes and
/// escapes removed and without expansions. Of the result this claims that it
/// depends on the line alone, that a line without quotes is never refused, and
/// that the words of a plain line are what stands between blanks, tabulators and
/// line breaks; what quotes and escapes make of a word is not said.
#[verifier::external_body]
fn split_words(line: &str) -> (result: Result<Vec<String>, shell_words::ParseError>)
    ensures
        words_of(result) == shell_words_of(line@),
        result is Ok || has_quote(line@),
        words_of(result) == Some(plain_words(line@)) || !is_plain(line@),
{
    shell_words::split(line)
}

/// The message that `shell_words::ParseError` displays, which is always the same.
#[verifier::external_body]
fn problem_text(problem: &shell_words::ParseError) -> (message: String)
    ensures
        message@ == "missing closing quote"@,
{
    format!("{}", problem)
}

/// Turns what splitting a line has given into arguments or an error.
pub fn agent_arguments(result: Result<Vec<String>, shell_words::ParseError>) -> (out: Result<
    Vec<String>,
    ToolError,
>)
    ensures
        match result {
            Ok(words) => out == Ok::<Vec<String>, ToolError>(words),
            Err(_) => out matches Err(e) && error::is_message(
                e,
                "could not parse agent arguments: "@ + "missing closing quote"@,
            ),
        },
{
    match result {
        Ok(words) => Ok(words),
        Err(problem) => Err(
            message2("could not parse agent arguments: ", problem_text(&problem).as_str()),
        ),
    }
}

/// Splits a line into arguments, with quotes removed.
pub fn parse_agent_arguments(line: &str) -> (out: Result<Vec<String>, ToolError>)
    ensures
        match out {
            Ok(words) => shell_words_of(line@) == Some(text::views(words@)),
            Err(e) => shell_words_of(line@) is None && error::is_message(
                e,
                "could not parse agent arguments: "@ + "missing closing quote"@,
            ),
        },
        !has_quote(line@) ==> out is Ok,
        is_plain(line@) ==> (out matches Ok(words) && text::views(words@) == plain_words(line@)),
{
    agent_arguments(split_words(line))
}

/// A line without quotes is split at its blanks: a word and what is behind it, and blanks
/// before a word do not count.
pub proof fn plain_lines_are_split_at_blanks(word: Seq<char>, blank: char, rest: Seq<char>)
    requires
        word.len() > 0,
        forall|i: int|
            0 <= i < word.len() ==> #[trigger] word[i] != ' ' && word[i] != '\t' && word[i]
                != '\n',
        blank == ' ' || blank == '\t' || blank == '\n',
    ensures
        plain_words(word + seq![blank] + rest) == seq![word] + plain_words(rest),
        plain_words(seq![blank] + rest) == plain_words(rest),
        plain_words(word) == seq![word],
        plain_words(Seq::empty()) == Seq::<Seq<char>>::empty(),
{
    let whole = word + seq![blank] + rest;
    let n = word.len() as int;
    lemma_word_end(whole, n);
    assert(whole.take(n) =~= word);
    assert(whole.skip(n) =~= seq![blank] + rest);
    assert((seq![blank] + rest).skip(1) =~= rest);
    assert(!is_separator(whole[0])) by {
        assert(whole[0] == word[0]);
    }
    assert(plain_words(whole.skip(n)) == plain_words(rest));
    lemma_word_end(word, n);
    assert(word.take(n) =~= word);
    assert(word.skip(n) =~= Seq::<char>::empty());
    assert(plain_words(word.skip(n)) =~= Seq::<Seq<char>>::empty());
    assert(!is_separator(word[0]));
    assert(plain_words(word) =~= seq![word]);
}

proof fn lemma_word_end(line: Seq<char>, n: int)
    requires
        0 <= n <= line.len(),
        forall|i: int| 0 <= i < n ==> !is_separator(#[trigger] line[i]),
        n < line.len() ==> is_separator(line[n]),
    ensures
        word_end(line) == n,
    decreases n,
{
    if n > 0 {
        let rest = line.skip(1);
        assert(!is_separator(line[0]));
        assert forall|i: int| 0 <= i < n - 1 implies !is_separator(#[trigger] rest[i]) by {
            assert(rest[i] == line[i + 1]);
        }
        lemma_word_end(rest, n - 1);
    }
}

} // verus!
