//! What holds of every scan, proved from the grammar.

use vstd::prelude::*;
use crate::chars::{
    digit, is_digit, lemma_span, lemma_span_unique, span, unicode_white_space, whitespace,
};
use crate::grammar::{
    begins_with, consumed, illegal_character, lemma_scan_consumes, number, scan, scan_all,
    starts_lexeme, Cursor, ErrorView, Item,
};
use crate::source::Position;
use crate::tokens::TokenKind;

verus! {

/// From input that holds nothing but whitespace a pull yields nothing, and
/// so does the whole scan.
pub proof fn lemma_blank_input_yields_nothing(cursor: Cursor)
    requires
        forall|i: int| 0 <= i < cursor.rest.len() ==> unicode_white_space(#[trigger] cursor.rest[i]),
    ensures
        scan(cursor).item is None,
        scan_all(cursor) == Seq::<Item>::empty(),
{
    lemma_span_unique(cursor.rest, whitespace(), cursor.rest.len());
    lemma_scan_consumes(cursor);
}

/// A character that starts no lexeme is reported as an error and is the only
/// character consumed behind the whitespace: the next pull goes on from the
/// character that follows it, so the rest of the scan is the scan of what
/// follows.
pub proof fn lemma_illegal_character_consumes_one(cursor: Cursor)
    requires
        span(cursor.rest, whitespace()) < cursor.rest.len(),
        !starts_lexeme(cursor.rest[span(cursor.rest, whitespace()) as int]),
    ensures
        ({
            let blank = span(cursor.rest, whitespace());
            let next = cursor.advance(blank + 1);
            let error = Err(
                ErrorView {
                    position: next.position,
                    message: illegal_character(cursor.rest[blank as int]),
                },
            );
            &&& scan(cursor).item == Some(error)
            &&& scan(cursor).next == next
            &&& next.rest == cursor.rest.skip(blank + 1 as int)
            &&& scan_all(cursor) == seq![error] + scan_all(next)
        }),
{
    let blank = span(cursor.rest, whitespace());
    cursor.lemma_advance_more(blank, 1);
}

/// Whether `a` is `b` or comes before it: on an earlier line, or on the
/// same line at no later a column.
pub open spec fn not_after(a: Position, b: Position) -> bool {
    a.line < b.line || (a.line == b.line && a.column <= b.column)
}

/// How many newlines `s` holds.
pub open spec fn newlines(s: Seq<char>) -> nat
    decreases s.len(),
{
    if s.len() == 0 {
        0
    } else if s.last() == '\n' {
        newlines(s.drop_last()) + 1
    } else {
        newlines(s.drop_last())
    }
}

/// How many characters of `s` stand behind its last newline; all of them
/// where it holds none.
pub open spec fn since_newline(s: Seq<char>) -> nat
    decreases s.len(),
{
    if s.len() == 0 || s.last() == '\n' {
        0
    } else {
        since_newline(s.drop_last()) + 1
    }
}

/// The location as a function of the text consumed: the line goes up by one
/// for each newline, and the column counts the characters consumed since the
/// last newline, on top of the column at the start where there was none.
pub proof fn lemma_position_counts(start: Position, s: Seq<char>)
    ensures
        start.after(s).line == start.line + newlines(s),
        start.after(s).column == if newlines(s) == 0 {
            start.column + s.len()
        } else {
            since_newline(s)
        },
        newlines(s) == 0 ==> since_newline(s) == s.len(),
    decreases s.len(),
{
    if s.len() > 0 {
        let front = s.drop_last();
        lemma_position_counts(start, front);
        assert(s =~= front.push(s.last()));
        start.lemma_after_push(front, s.last());
    }
}

/// The location never goes back as characters are consumed.
pub proof fn lemma_position_never_goes_back(start: Position, s: Seq<char>)
    ensures
        not_after(start, start.after(s)),
{
    lemma_position_counts(start, s);
}

/// A pull leaves the scanner at or behind the location at which it began,
/// and what it yields carries the location at which it ended: the end of
/// the lexeme, not its start.
pub proof fn lemma_item_is_placed_at_the_end(cursor: Cursor)
    ensures
        not_after(cursor.position, scan(cursor).next.position),
        scan(cursor).item matches Some(item) ==> position_of(item) == scan(cursor).next.position,
{
    lemma_scan_consumes(cursor);
    lemma_position_never_goes_back(cursor.position, cursor.rest.take(consumed(cursor) as int));
}

/// The location that an item carries.
pub open spec fn position_of(item: Item) -> Position {
    match item {
        Ok(token) => token.position,
        Err(error) => error.position,
    }
}

/// The items of a scan come in the order of their locations: none lies
/// before the place at which the scan began, and none before an earlier one.
pub proof fn lemma_items_come_in_order(cursor: Cursor, i: int, j: int)
    requires
        0 <= i <= j < scan_all(cursor).len(),
    ensures
        not_after(cursor.position, position_of(scan_all(cursor)[i])),
        not_after(position_of(scan_all(cursor)[i]), position_of(scan_all(cursor)[j])),
    decreases cursor.rest.len(),
{
    lemma_scan_consumes(cursor);
    lemma_item_is_placed_at_the_end(cursor);
    let pull = scan(cursor);
    let rest = scan_all(pull.next);
    assert(scan_all(cursor) =~= seq![pull.item->0] + rest);
    if i == 0 {
        if j > 0 {
            lemma_items_come_in_order(pull.next, j - 1, j - 1);
            assert(scan_all(cursor)[j] == rest[j - 1]);
        }
    } else {
        lemma_items_come_in_order(pull.next, i - 1, j - 1);
        assert(scan_all(cursor)[i] == rest[i - 1]);
        assert(scan_all(cursor)[j] == rest[j - 1]);
    }
}

/// Once a pull has yielded nothing, every later pull yields nothing and
/// leaves the scanner as it is.
pub proof fn lemma_exhausted_stays_exhausted(cursor: Cursor)
    requires
        scan(cursor).item is None,
    ensures
        scan(scan(cursor).next).item is None,
        scan(scan(cursor).next).next == scan(cursor).next,
{
    lemma_scan_consumes(cursor);
    let end = scan(cursor).next;
    end.lemma_advance_none();
}

/// The shape of a number literal: one digit or more, and optionally a
/// point with one digit or more behind it.
pub open spec fn is_number_literal(text: Seq<char>) -> bool {
    let whole = span(text, digit());
    &&& whole > 0
    &&& whole == text.len() || {
        &&& text[whole as int] == '.'
        &&& whole + 1 < text.len()
        &&& whole + 1 + span(text.skip(whole + 1 as int), digit()) == text.len()
    }
}

/// The text of every number token has the shape of a number literal, so it
/// can be read as a decimal fraction.
pub proof fn lemma_number_is_well_formed(first: char, tail: Seq<char>)
    requires
        is_digit(first),
    ensures
        number(first, tail).outcome matches Ok(kind) ==> kind matches TokenKind::Number(text)
            && is_number_literal(text),
{
    let whole = span(tail, digit());
    lemma_span(tail, digit());
    if begins_with(tail.skip(whole as int), '.') {
        let behind = tail.skip(whole + 1 as int);
        let fraction = span(behind, digit());
        lemma_span(behind, digit());
        if fraction > 0 {
            let text = seq![first] + tail.take(whole + 1 + fraction as int);
            assert forall|i: int| 0 <= i < whole + 1 implies digit()(#[trigger] text[i]) by {
                if i > 0 {
                    assert(text[i] == tail[i - 1]);
                }
            }
            assert(text[whole + 1 as int] == tail[whole as int]);
            lemma_span_unique(text, digit(), whole + 1);
            let last = text.skip(whole + 2 as int);
            assert(last =~= behind.take(fraction as int));
            assert forall|i: int| 0 <= i < fraction implies digit()(#[trigger] last[i]) by {
                assert(last[i] == behind[i]);
            }
            lemma_span_unique(last, digit(), fraction);
        }
    } else {
        let text = seq![first] + tail.take(whole as int);
        assert forall|i: int| 0 <= i < text.len() implies digit()(#[trigger] text[i]) by {
            if i > 0 {
                assert(text[i] == tail[i - 1]);
            }
        }
        lemma_span_unique(text, digit(), text.len());
    }
}

} // verus!
