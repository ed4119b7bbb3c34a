//! Running the scanner over a whole source text.

use vstd::prelude::*;
use crate::grammar::{lemma_scan_consumes, scan_all, Cursor, Item};
use crate::scanner::{item_view, items_view, Error, Scanner};
use crate::tokens::{Token, TokenType};

verus! {

/// Whether a consumer of the scan acts on `item`: on every error, and on
/// every token but a comment.
pub open spec fn is_reported(item: Item) -> bool {
    !(item matches Ok(token) && token.kind is Comment)
}

/// `is_reported` as a predicate.
pub open spec fn reported() -> spec_fn(Item) -> bool {
    |item: Item| is_reported(item)
}

/// Tells whether a consumer of the scan acts on `item`.
pub fn reports(item: &Result<Token, Error>) -> (acts: bool)
    ensures
        acts == is_reported(item_view(*item)),
{
    match item {
        Ok(token) => !matches!(token.token_type, TokenType::Comment(_)),
        Err(_) => true,
    }
}

/// Scans the whole of `source` and returns, in order, what a consumer is to
/// act on: the tokens without the comments, and the errors.
pub fn run(source: &str) -> (items: Vec<Result<Token, Error>>)
    requires
        source@.len() < usize::MAX,
    ensures
        items_view(items@) == scan_all(Cursor::start(source@)).filter(reported()),
{
    let mut scanner = Scanner::new(source);
    let mut items: Vec<Result<Token, Error>> = Vec::new();
    let ghost mut seen: Seq<Item> = Seq::empty();
    proof {
        reveal(Seq::filter);
        assert(items_view(items@) =~= seen.filter(reported()));
    }
    loop
        invariant
            seen + scan_all(scanner@) == scan_all(Cursor::start(source@)),
            items_view(items@) == seen.filter(reported()),
        ensures
            items_view(items@) == scan_all(Cursor::start(source@)).filter(reported()),
        decreases scanner@.rest.len(),
    {
        proof {
            lemma_scan_consumes(scanner@);
        }
        let ghost kept = items_view(items@);
        match scanner.next_token() {
            Some(item) => {
                proof {
                    let found = item_view(item);
                    assert(seen.push(found) + scan_all(scanner@) =~= seen + (seq![found]
                        + scan_all(scanner@)));
                    seen.lemma_filter_push(found, reported());
                    seen = seen.push(found);
                }
                if reports(&item) {
                    items.push(item);
                    assert(items_view(items@) =~= kept.push(item_view(item)));
                }
            },
            None => {
                assert(seen =~= scan_all(Cursor::start(source@)));
                break ;
            },
        }
    }
    items
}

} // verus!
