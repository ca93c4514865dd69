//! Deck files: one card per line, written `[name] - text`; blank lines are
//! skipped and ids are given in order from 0.

use crate::cards::{BaseCard, Card, CardId, CardView};
use crate::deck::{card_views, Deck};
use crate::text::{chars_of, find_char, find_from, skip_ws, trim, trim_bounds, trim_start};
use vstd::prelude::*;

verus! {

/// Why a deck file could not be read; `line` counts from 1.
#[derive(Debug, Clone, Copy, PartialEq, Eq, Structural)]
pub enum DeckError {
    /// No `[name]` segment.
    MissingName { line: usize },
    /// Nothing but white space between the brackets.
    EmptyName { line: usize },
    /// No `-` after the name.
    MissingSeparator { line: usize },
    /// Nothing but white space after the `-`.
    EmptyText { line: usize },
    /// More cards than ids.
    IdOverflow,
}

/// A line of a deck file: `None` if blank, else its card's name and text, or
/// what is wrong with it.
pub open spec fn parse_line(line: Seq<char>, line_no: usize) -> Option<
    Result<(Seq<char>, Seq<char>), DeckError>,
> {
    let l = trim(line);
    let s = find_from(l, '[', 0);
    let e = find_from(l, ']', 0);
    if l.len() == 0 {
        None
    } else if !(s < l.len() && e < l.len() && e > s) {
        Some(Err(DeckError::MissingName { line: line_no }))
    } else if trim(l.subrange(s + 1, e)).len() == 0 {
        Some(Err(DeckError::EmptyName { line: line_no }))
    } else if trim_start(l.subrange(e + 1, l.len() as int)).len() == 0 || trim_start(
        l.subrange(e + 1, l.len() as int),
    )[0] != '-' {
        Some(Err(DeckError::MissingSeparator { line: line_no }))
    } else if trim(trim_start(l.subrange(e + 1, l.len() as int)).drop_first()).len() == 0 {
        Some(Err(DeckError::EmptyText { line: line_no }))
    } else {
        Some(
            Ok(
                (
                    trim(l.subrange(s + 1, e)),
                    trim(trim_start(l.subrange(e + 1, l.len() as int)).drop_first()),
                ),
            ),
        )
    }
}

proof fn lemma_find_from_bounds(s: Seq<char>, c: char, i: int)
    requires
        0 <= i <= s.len(),
    ensures
        i <= find_from(s, c, i) <= s.len(),
    decreases s.len() - i,
{
    if i < s.len() && s[i] != c {
        lemma_find_from_bounds(s, c, i + 1);
    }
}

/// The entries of the lines of `s` from position `start` on, that line being
/// number `line_no` and `count` cards having come before; the first faulty
/// line's error if there is one.
pub open spec fn parse_entries(s: Seq<char>, start: int, line_no: int, count: int) -> Result<
    Seq<(Seq<char>, Seq<char>)>,
    DeckError,
>
    decreases s.len() + 1 - start,
    when 0 <= start <= s.len()
    via parse_entries_decreases
{
    let e = find_from(s, '\n', start);
    match parse_line(s.subrange(start, e), line_no as usize) {
        None => if e < s.len() {
            parse_entries(s, e + 1, line_no + 1, count)
        } else {
            Ok(Seq::empty())
        },
        Some(Err(err)) => Err(err),
        Some(Ok(entry)) => if count >= usize::MAX {
            Err(DeckError::IdOverflow)
        } else if e < s.len() {
            match parse_entries(s, e + 1, line_no + 1, count + 1) {
                Ok(v) => Ok(seq![entry] + v),
                Err(err) => Err(err),
            }
        } else {
            Ok(seq![entry])
        },
    }
}

#[via_fn]
proof fn parse_entries_decreases(s: Seq<char>, start: int, line_no: int, count: int) {
    lemma_find_from_bounds(s, '\n', start);
}

/// The cards made from entries, with ids in order from `first`.
pub open spec fn cards_from(v: Seq<(Seq<char>, Seq<char>)>, first: int) -> Seq<CardView> {
    Seq::new(
        v.len(),
        |i: int| CardView { id: (first + i) as usize, name: v[i].0, description: v[i].1 },
    )
}

/// `r` placed after the entries `p`.
pub open spec fn after(
    p: Seq<(Seq<char>, Seq<char>)>,
    r: Result<Seq<(Seq<char>, Seq<char>)>, DeckError>,
) -> Result<Seq<(Seq<char>, Seq<char>)>, DeckError> {
    match r {
        Ok(v) => Ok(p + v),
        Err(e) => Err(e),
    }
}

/// Reads the cards of a deck file's contents, one per non-blank line.
pub fn load_deck<T: Card>(contents: &str) -> (r: Result<Deck<T>, DeckError>)
    requires
        contents@.len() < usize::MAX,
    ensures
        match parse_entries(contents@, 0, 1, 0) {
            Ok(v) => r matches Ok(d) && card_views(d@) == cards_from(v, 0),
            Err(e) => r == Err::<Deck<T>, DeckError>(e),
        },
{
    let chars = chars_of(contents);
    let ghost s = chars@;
    let n = chars.len();
    let mut deck: Deck<T> = Deck::new();
    let mut start: usize = 0;
    let mut line_no: usize = 1;
    let mut id: usize = 0;
    let ghost mut entries: Seq<(Seq<char>, Seq<char>)> = Seq::empty();
    assert(after(entries, parse_entries(s, 0, 1, 0)) =~= parse_entries(s, 0, 1, 0)) by {
        match parse_entries(s, 0, 1, 0) {
            Ok(v) => {
                assert(entries + v =~= v);
            },
            Err(_) => {},
        }
    }
    loop
        invariant
            s == contents@,
            chars@ == s,
            n == s.len(),
            n < usize::MAX,
            start <= n,
            1 <= line_no <= start + 1,
            id == entries.len(),
            card_views(deck@) == cards_from(entries, 0),
            parse_entries(s, 0, 1, 0) == after(
                entries,
                parse_entries(s, start as int, line_no as int, id as int),
            ),
        decreases n + 1 - start,
    {
        let e = find_char(&chars, start, n, '\n');
        proof {
            lemma_find_from_bounds(s, '\n', start as int);
            lemma_find_same(s, '\n', start as int, start as int);
        }
        let ghost line = s.subrange(start as int, e as int);
        let (a, b) = trim_bounds(&chars, start, e);
        let ghost l = s.subrange(a as int, b as int);
        assert(l == trim(line));
        let ghost step = parse_line(line, line_no);
        if a == b {
            assert(step is None);
            if e == n {
                assert(cards_from(entries, 0) =~= card_views(deck@));
                proof {
                    assert(entries + Seq::<(Seq<char>, Seq<char>)>::empty() =~= entries);
                }
                return Ok(deck);
            }
            start = e + 1;
            line_no += 1;
            continue;
        }
        let open = find_char(&chars, a, b, '[');
        let close = find_char(&chars, a, b, ']');
        if !(open < b && close < b && close > open) {
            return Err(DeckError::MissingName { line: line_no });
        }
        let (na, nb) = trim_bounds(&chars, open + 1, close);
        proof {
            assert(l.subrange(open - a + 1, close - a) =~= s.subrange(open + 1, close as int));
        }
        if na == nb {
            return Err(DeckError::EmptyName { line: line_no });
        }
        let dash = skip_ws(&chars, close + 1, b);
        proof {
            assert(l.subrange(close - a + 1, l.len() as int) =~= s.subrange(close + 1, b as int));
        }
        if dash == b || chars[dash] != '-' {
            return Err(DeckError::MissingSeparator { line: line_no });
        }
        let (ta, tb) = trim_bounds(&chars, dash + 1, b);
        proof {
            assert(s.subrange(dash as int, b as int).drop_first() =~= s.subrange(
                dash + 1,
                b as int,
            ));
        }
        if ta == tb {
            return Err(DeckError::EmptyText { line: line_no });
        }
        let name = string_of(&chars, na, nb);
        let text = string_of(&chars, ta, tb);
        let ghost entry = (s.subrange(na as int, nb as int), s.subrange(ta as int, tb as int));
        assert(step == Some(Ok::<(Seq<char>, Seq<char>), DeckError>(entry)));
        let card = T::from_base(BaseCard::new(CardId::new(id), name, text));
        let ghost old_deck = deck@;
        let ghost cv = card@;
        deck.add_card(card);
        if id == usize::MAX {
            return Err(DeckError::IdOverflow);
        }
        proof {
            let old_entries = entries;
            entries = entries.push(entry);
            assert(card_views(deck@) =~= card_views(old_deck).push(cv));
            assert(card_views(deck@) =~= cards_from(entries, 0));
            if e < n {
                match parse_entries(s, e + 1, line_no + 1, id + 1) {
                    Ok(v) => {
                        assert(old_entries + (seq![entry] + v) =~= entries + v);
                    },
                    Err(_) => {},
                }
            } else {
                assert(old_entries + seq![entry] =~= entries);
            }
        }
        id += 1;
        if e == n {
            proof {
                assert(entries =~= entries + Seq::<(Seq<char>, Seq<char>)>::empty());
            }
            return Ok(deck);
        }
        start = e + 1;
        line_no += 1;
    }
}

proof fn lemma_find_same(s: Seq<char>, c: char, i: int, j: int)
    requires
        0 <= i <= j <= s.len(),
    ensures
        find_from(s.subrange(i, s.len() as int), c, j - i) + i == find_from(s, c, j),
    decreases s.len() - j,
{
    if j < s.len() && s[j] != c {
        lemma_find_same(s, c, i, j + 1);
    }
}

/// The characters `s[lo..hi]` as a string.
fn string_of(s: &Vec<char>, lo: usize, hi: usize) -> (r: String)
    requires
        lo <= hi <= s@.len(),
    ensures
        r@ == s@.subrange(lo as int, hi as int),
{
    let mut out = String::new();
    let mut k = lo;
    while k < hi
        invariant
            lo <= k <= hi <= s@.len(),
            out@ == s@.subrange(lo as int, k as int),
        decreases hi - k,
    {
        out.push(s[k]);
        k += 1;
        assert(out@ =~= s@.subrange(lo as int, k as int));
    }
    out
}

} // verus!
