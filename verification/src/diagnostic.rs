//! The text that reports a failed check.

use vstd::prelude::*;
use crate::decimal::{append_decimal, decimal, is_digit, lemma_decimal_is_digits};

verus! {

/// What a failed check found.
#[derive(Clone, Copy, Debug, PartialEq, Eq, Structural)]
pub enum Mismatch {
    /// A single value lies outside the tolerance.
    Scalar,
    /// The two arrays differ in their number of rows or of columns.
    Shape,
    /// Some element lies outside the tolerance; which one is not said.
    Element,
    /// The element at this row and column, both counted from zero, lies
    /// outside the tolerance.
    ElementAt { row: usize, column: usize },
}

/// What the diagnostic says after the caller's message.
pub open spec fn detail(mismatch: Mismatch) -> Seq<char> {
    match mismatch {
        Mismatch::Scalar => Seq::empty(),
        Mismatch::Shape => " Shape mismatch."@,
        Mismatch::Element => " Element mismatch."@,
        Mismatch::ElementAt { row, column } => " Element mismatch at ("@ + decimal(row as nat)
            + ", "@ + decimal(column as nat) + ")."@,
    }
}

/// The whole diagnostic of a failed check: one line that starts with
/// `FAILURE: ` and holds the caller's message and the detail, then one
/// empty line.
pub open spec fn failure_text(message: Seq<char>, mismatch: Mismatch) -> Seq<char> {
    "FAILURE: "@ + message + detail(mismatch) + "\n\n"@
}

/// Writes the diagnostic of a failed check.
pub fn describe(message: &str, mismatch: Mismatch) -> (text: String)
    ensures
        text@ == failure_text(message@, mismatch),
{
    let mut text = String::from_str("FAILURE: ");
    text.append(message);
    match mismatch {
        Mismatch::Scalar => {},
        Mismatch::Shape => {
            text.append(" Shape mismatch.");
        },
        Mismatch::Element => {
            text.append(" Element mismatch.");
        },
        Mismatch::ElementAt { row, column } => {
            text.append(" Element mismatch at (");
            append_decimal(&mut text, row);
            text.append(", ");
            append_decimal(&mut text, column);
            text.append(").");
        },
    }
    assert(text@ =~= "FAILURE: "@ + message@ + detail(mismatch));
    text.append("\n\n");
    text
}

/// The line feed, which ends a line of the diagnostic.
pub open spec fn line_feed() -> char {
    '\n'
}

/// The layout of a diagnostic: the nine characters `FAILURE: `, the
/// caller's message, unchanged, the detail, and two line feeds.
pub proof fn lemma_failure_text_layout(message: Seq<char>, mismatch: Mismatch)
    ensures
        ({
            let text = failure_text(message, mismatch);
            let message_end = 9 + message.len() as int;
            let detail_end = message_end + detail(mismatch).len() as int;
            &&& text.len() == detail_end + 2
            &&& text.subrange(0, 9) == seq!['F', 'A', 'I', 'L', 'U', 'R', 'E', ':', ' ']
            &&& text.subrange(9, message_end) == message
            &&& text.subrange(message_end, detail_end) == detail(mismatch)
            &&& text.subrange(detail_end, detail_end + 2) == seq![line_feed(), line_feed()]
        }),
{
    reveal_strlit("FAILURE: ");
    reveal_strlit("\n\n");
    let text = failure_text(message, mismatch);
    let message_end = 9 + message.len() as int;
    let detail_end = message_end + detail(mismatch).len() as int;
    assert(text.subrange(0, 9) =~= seq!['F', 'A', 'I', 'L', 'U', 'R', 'E', ':', ' ']);
    assert(text.subrange(9, message_end) =~= message);
    assert(text.subrange(message_end, detail_end) =~= detail(mismatch));
    assert(text.subrange(detail_end, detail_end + 2) =~= seq![line_feed(), line_feed()]);
}

/// No detail holds a line feed.
pub proof fn lemma_detail_is_one_line(mismatch: Mismatch)
    ensures
        forall|i: int| 0 <= i < detail(mismatch).len() ==> detail(mismatch)[i] != line_feed(),
{
    reveal_strlit(" Shape mismatch.");
    reveal_strlit(" Element mismatch.");
    reveal_strlit(" Element mismatch at (");
    reveal_strlit(", ");
    reveal_strlit(").");
    match mismatch {
        Mismatch::ElementAt { row, column } => {
            lemma_decimal_is_digits(row as nat);
            lemma_decimal_is_digits(column as nat);
            let head = " Element mismatch at ("@;
            let first = decimal(row as nat);
            let second = decimal(column as nat);
            assert forall|i: int| 0 <= i < detail(mismatch).len() implies detail(mismatch)[i]
                != line_feed() by {
                if i < head.len() {
                } else if i < head.len() + first.len() {
                    assert(is_digit(first[i - head.len()]));
                } else if i < head.len() + first.len() + 2 {
                } else if i < head.len() + first.len() + 2 + second.len() {
                    assert(is_digit(second[i - head.len() - first.len() - 2]));
                } else {
                }
            }
        },
        _ => {},
    }
}

/// A diagnostic is one line and one empty line: where the message holds
/// no line feed, the text holds exactly two, and they are its last two
/// characters.
pub proof fn lemma_failure_text_is_two_lines(message: Seq<char>, mismatch: Mismatch)
    requires
        forall|i: int| 0 <= i < message.len() ==> message[i] != line_feed(),
    ensures
        forall|i: int|
            0 <= i < failure_text(message, mismatch).len() ==> (failure_text(message, mismatch)[i]
                == line_feed() <==> i >= failure_text(message, mismatch).len() - 2),
{
    lemma_failure_text_layout(message, mismatch);
    lemma_detail_is_one_line(mismatch);
    reveal_strlit("FAILURE: ");
    reveal_strlit("\n\n");
}

} // verus!
