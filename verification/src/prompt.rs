//! Questions to the user and the reading of the answers.

use vstd::prelude::*;
use vstd::string::*;
use crate::text::{chars_of, is_letter, lower, to_lower, trim, trim_bounds, trimmed};

verus! {

/// The text that asks `question` as a question of yes or no; no is what an
/// empty answer means.
pub open spec fn yes_no_prompt_text(question: Seq<char>) -> Seq<char> {
    question + " [y/N]: "@
}

/// The text that asks for a line under the heading `question`.
pub open spec fn line_prompt_text(question: Seq<char>) -> Seq<char> {
    question + ": "@
}

/// Whether `answer` says yes: it is `y` or `yes`, in either case of
/// letters, with nothing but white space around it.
pub open spec fn says_yes(answer: Seq<char>) -> bool {
    let a = lower(trimmed(answer));
    a == seq!['y'] || a == seq!['y', 'e', 's']
}

/// The text that asks `question` as a question of yes or no.
pub fn yes_no_prompt(question: &str) -> (text: String)
    ensures
        text@ == yes_no_prompt_text(question@),
{
    let mut text = question.to_owned();
    text.append(" [y/N]: ");
    text
}

/// The text that asks for a line under the heading `question`.
pub fn line_prompt(question: &str) -> (text: String)
    ensures
        text@ == line_prompt_text(question@),
{
    let mut text = question.to_owned();
    text.append(": ");
    text
}

/// Whether `answer` says yes.
pub fn is_yes(answer: &str) -> (r: bool)
    ensures
        r == says_yes(answer@),
{
    let v = chars_of(answer);
    let (a, b) = trim_bounds(&v);
    let ghost t = lower(trimmed(answer@));
    let n = b - a;
    proof {
        assert(t.len() == n);
        assert(forall|i: int| 0 <= i < n ==> t[i] == to_lower(v@[a + i]));
        assert(seq!['y'].len() == 1 && seq!['y', 'e', 's'].len() == 3);
        assert(seq!['y'][0] == 'y' && seq!['y', 'e', 's'][0] == 'y' && seq!['y', 'e', 's'][1]
            == 'e' && seq!['y', 'e', 's'][2] == 's');
        assert(to_lower('Y') == 'y' && to_lower('E') == 'e' && to_lower('S') == 's');
    }
    if n == 1 {
        let r = is_letter(v[a], 'Y');
        assert(r ==> t =~= seq!['y']);
        assert(!r ==> t[0] != 'y');
        r
    } else if n == 3 {
        let r = is_letter(v[a], 'Y') && is_letter(v[a + 1], 'E') && is_letter(v[a + 2], 'S');
        assert(r ==> t =~= seq!['y', 'e', 's']);
        assert(!r ==> t[0] != 'y' || t[1] != 'e' || t[2] != 's');
        r
    } else {
        false
    }
}

/// What the user entered on `line`: the line without the white space
/// around it.
pub fn entered(line: &str) -> (text: String)
    ensures
        text@ == trimmed(line@),
{
    trim(line)
}

} // verus!
