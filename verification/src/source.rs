//! Positions in the source text.

use vstd::prelude::*;
use vstd::string::StringExecFns;
use crate::text::{decimal, push_decimal};

verus! {

/// A line and a column as mathematical naturals.
pub struct Position {
    pub line: nat,
    pub column: nat,
}

impl Position {
    /// Where a scan starts: line 1, before the first column.
    pub open spec fn start() -> Position {
        Position { line: 1, column: 0 }
    }

    /// The position once `c` has been consumed: a newline opens the next
    /// line at column 0, any other character moves one column on.
    pub open spec fn step(self, c: char) -> Position {
        if c == '\n' {
            Position { line: self.line + 1, column: 0 }
        } else {
            Position { line: self.line, column: self.column + 1 }
        }
    }

    /// The position once all of `s` has been consumed, first character first.
    pub open spec fn after(self, s: Seq<char>) -> Position
        decreases s.len(),
    {
        if s.len() == 0 {
            self
        } else {
            self.step(s[0]).after(s.drop_first())
        }
    }

    /// Consuming `a` and then `b` is consuming `a` followed by `b`.
    pub proof fn lemma_after_concat(self, a: Seq<char>, b: Seq<char>)
        ensures
            self.after(a + b) == self.after(a).after(b),
        decreases a.len(),
    {
        if a.len() == 0 {
            assert(a + b =~= b);
        } else {
            assert((a + b).drop_first() =~= a.drop_first() + b);
            self.step(a[0]).lemma_after_concat(a.drop_first(), b);
        }
    }

    /// Consuming one more character at the end is one more step.
    pub proof fn lemma_after_push(self, s: Seq<char>, c: char)
        ensures
            self.after(s.push(c)) == self.after(s).step(c),
    {
        let one = seq![c];
        assert(s.push(c) =~= s + one);
        self.lemma_after_concat(s, one);
        assert(one.drop_first().len() == 0);
        assert(self.after(s).after(one) == self.after(s).step(c).after(one.drop_first()));
    }

    /// How a position is written: line, comma, space, column.
    pub open spec fn text(self) -> Seq<char> {
        decimal(self.line) + ", "@ + decimal(self.column)
    }
}

/// A line and a column of the source text. Lines count from 1; the column is
/// the number of characters consumed since the line began.
#[derive(Clone, Copy, Debug, PartialEq, Eq)]
pub struct Location {
    pub line: usize,
    pub column: usize,
}

impl View for Location {
    type V = Position;

    open spec fn view(&self) -> Position {
        Position { line: self.line as nat, column: self.column as nat }
    }
}

impl Location {
    /// Writes the location as `<line>, <column>`.
    pub fn to_string(&self) -> (text: String)
        ensures
            text@ == self@.text(),
    {
        let mut text = String::new();
        push_decimal(&mut text, self.line);
        text.append(", ");
        push_decimal(&mut text, self.column);
        assert(text@ =~= self@.text());
        text
    }
}

} // verus!
