//! Game configuration: deck file paths, win conditions and game mode, and
//! the command-line choice between hosting and joining.

use crate::text::chars_of;
use vstd::prelude::*;

verus! {

/// The variants of the game.
#[derive(Debug, Clone, Copy, PartialEq, Eq, Structural)]
pub enum GameMode {
    Original,
    ApplesEyeView,
    BadHarvest,
    TwoForOne,
}

/// Whether to host a game or join one.
pub enum Mode {
    Host { players: usize, bots: usize },
    Client { ip: String },
}

/// Hosting or joining, from the command-line options: an address means
/// joining it; otherwise the game is hosted, with absent counts taken as 0.
pub fn parse_args(players: Option<usize>, bots: Option<usize>, ip: Option<String>) -> (r: Mode)
    ensures
        ip is Some ==> (r matches Mode::Client { ip: a } && a == ip.unwrap()),
        ip is None ==> (r matches Mode::Host { players: p, bots: b } && p == (match players {
            Some(n) => n,
            None => 0,
        }) && b == (match bots {
            Some(n) => n,
            None => 0,
        })),
{
    match ip {
        Some(ip) => Mode::Client { ip },
        None => {
            let players = match players {
                Some(n) => n,
                None => 0,
            };
            let bots = match bots {
                Some(n) => n,
                None => 0,
            };
            Mode::Host { players, bots }
        },
    }
}

/// Value of a string of ASCII decimal digits.
pub open spec fn digits_value(s: Seq<char>) -> nat
    decreases s.len(),
{
    if s.len() == 0 {
        0
    } else {
        digits_value(s.drop_last()) * 10 + (s.last() as nat - '0' as nat) as nat
    }
}

/// Whether every character of `s` is an ASCII decimal digit.
pub open spec fn all_digits(s: Seq<char>) -> bool {
    forall|i: int| 0 <= i < s.len() ==> '0' <= #[trigger] s[i] <= '9'
}

/// What `str::parse::<usize>` accepts: an optional `+`, then at least one
/// decimal digit, with a value that fits.
pub open spec fn parse_usize(s: Seq<char>) -> Option<usize> {
    let digits = if s.len() > 0 && s[0] == '+' {
        s.drop_first()
    } else {
        s
    };
    if digits.len() > 0 && all_digits(digits) && digits_value(digits) <= usize::MAX {
        Some(digits_value(digits) as usize)
    } else {
        None
    }
}

/// The player count a win-condition key names: `"<n>_p"`.
pub open spec fn key_player_count(key: Seq<char>) -> Option<usize> {
    if key.len() >= 2 && key[key.len() - 2] == '_' && key[key.len() - 1] == 'p' {
        parse_usize(key.subrange(0, key.len() - 2))
    } else {
        None
    }
}

/// The entry chosen among the first entries `es`, as (player count, apples):
/// the first well-formed entry, replaced by each later one whose count is
/// larger than the chosen one's and at most `total`.
pub open spec fn chosen_entry(es: Seq<(Seq<char>, usize)>, total: usize) -> Option<(usize, usize)>
    decreases es.len(),
{
    if es.len() == 0 {
        None
    } else {
        let acc = chosen_entry(es.drop_last(), total);
        match key_player_count(es.last().0) {
            None => acc,
            Some(n) => match acc {
                Some(best) => if n <= total && n > best.0 {
                    Some((n, es.last().1))
                } else {
                    acc
                },
                None => Some((n, es.last().1)),
            },
        }
    }
}

proof fn lemma_digits_value_grows(s: Seq<char>, i: int, j: int)
    requires
        0 <= i <= j <= s.len(),
    ensures
        digits_value(s.subrange(0, i)) <= digits_value(s.subrange(0, j)),
    decreases j - i,
{
    if i < j {
        lemma_digits_value_grows(s, i, j - 1);
        assert(s.subrange(0, j).drop_last() =~= s.subrange(0, j - 1));
    }
}

/// `str::parse::<usize>` on characters.
fn parse_count(s: &Vec<char>, start: usize, end: usize) -> (r: Option<usize>)
    requires
        start <= end <= s@.len(),
    ensures
        r == parse_usize(s@.subrange(start as int, end as int)),
{
    let ghost t = s@.subrange(start as int, end as int);
    let mut i = start;
    if i < end && s[i] == '+' {
        i += 1;
    }
    let ghost digits = s@.subrange(i as int, end as int);
    assert(digits =~= (if t.len() > 0 && t[0] == '+' { t.drop_first() } else { t }));
    if i == end {
        return None;
    }
    let mut value: usize = 0;
    let mut k = i;
    while k < end
        invariant
            i <= k <= end <= s@.len(),
            digits == s@.subrange(i as int, end as int),
            t == s@.subrange(start as int, end as int),
            digits == (if t.len() > 0 && t[0] == '+' {
                t.drop_first()
            } else {
                t
            }),
            digits.len() > 0,
            value == digits_value(s@.subrange(i as int, k as int)),
            all_digits(s@.subrange(i as int, k as int)),
        decreases end - k,
    {
        let c = s[k];
        if c < '0' || c > '9' {
            assert(!all_digits(digits)) by {
                assert(digits[k - i] == c);
            }
            return None;
        }
        let d = (c as u32 - '0' as u32) as usize;
        assert(s@.subrange(i as int, k + 1).drop_last() =~= s@.subrange(i as int, k as int));
        let next = match value.checked_mul(10) {
            Some(m) => m.checked_add(d),
            None => None,
        };
        match next {
            Some(v) => {
                value = v;
            },
            None => {
                proof {
                    lemma_digits_value_grows(digits, k + 1 - i, digits.len() as int);
                    assert(digits.subrange(0, k + 1 - i) =~= s@.subrange(i as int, k + 1));
                    assert(digits.subrange(0, digits.len() as int) =~= digits);
                }
                return None;
            },
        }
        k += 1;
        assert(all_digits(s@.subrange(i as int, k as int)));
    }
    assert(s@.subrange(i as int, k as int) =~= digits);
    Some(value)
}

/// The game's configuration.
pub struct Config {
    red_deck_fp: String,
    green_deck_fp: String,
    win_condition: Vec<(String, usize)>,
    game_mode: GameMode,
}

impl Config {
    /// The win-condition entries, as (key, apples), in the order given.
    pub closed spec fn win_entries(&self) -> Seq<(Seq<char>, usize)> {
        self.win_condition@.map_values(|e: (String, usize)| (e.0@, e.1))
    }

    /// The red deck's file path.
    pub closed spec fn spec_red_deck_path(&self) -> Seq<char> {
        self.red_deck_fp@
    }

    /// The green deck's file path.
    pub closed spec fn spec_green_deck_path(&self) -> Seq<char> {
        self.green_deck_fp@
    }

    /// The configured game mode.
    pub closed spec fn spec_game_mode(&self) -> GameMode {
        self.game_mode
    }

    /// A configuration from its parts; `win_condition` maps keys `"<n>_p"`
    /// to the apples needed to win with `n` players, in the order they are
    /// to be considered.
    pub fn new(
        red_deck_fp: String,
        green_deck_fp: String,
        win_condition: Vec<(String, usize)>,
        game_mode: GameMode,
    ) -> (r: Config)
        ensures
            r.spec_red_deck_path() == red_deck_fp@,
            r.spec_green_deck_path() == green_deck_fp@,
            r.win_entries() == win_condition@.map_values(|e: (String, usize)| (e.0@, e.1)),
            r.spec_game_mode() == game_mode,
    {
        Config { red_deck_fp, green_deck_fp, win_condition, game_mode }
    }

    /// The red deck's file path.
    pub fn red_deck_path(&self) -> (r: &str)
        ensures
            r@ == self.spec_red_deck_path(),
    {
        self.red_deck_fp.as_str()
    }

    /// The green deck's file path.
    pub fn green_deck_path(&self) -> (r: &str)
        ensures
            r@ == self.spec_green_deck_path(),
    {
        self.green_deck_fp.as_str()
    }

    /// The apples needed to win a game of `total_players`: the value of the
    /// chosen win-condition entry (see `chosen_entry`), or `None` when no key
    /// is well formed.
    pub fn get_required_apples(&self, total_players: usize) -> (r: Option<usize>)
        ensures
            r == (match chosen_entry(self.win_entries(), total_players) {
                Some(e) => Some(e.1),
                None => None::<usize>,
            }),
    {
        let ghost es = self.win_entries();
        let mut acc: Option<(usize, usize)> = None;
        let mut i: usize = 0;
        while i < self.win_condition.len()
            invariant
                i <= self.win_condition@.len(),
                es == self.win_entries(),
                acc == chosen_entry(es.subrange(0, i as int), total_players),
            decreases self.win_condition@.len() - i,
        {
            let key = chars_of(self.win_condition[i].0.as_str());
            let v = self.win_condition[i].1;
            let len = key.len();
            let count = if len >= 2 && key[len - 2] == '_' && key[len - 1] == 'p' {
                parse_count(&key, 0, len - 2)
            } else {
                None
            };
            assert(es.subrange(0, i + 1).drop_last() =~= es.subrange(0, i as int));
            assert(count == key_player_count(es[i as int].0));
            acc = match count {
                None => acc,
                Some(n) => match acc {
                    Some(best) => if n <= total_players && n > best.0 {
                        Some((n, v))
                    } else {
                        acc
                    },
                    None => Some((n, v)),
                },
            };
            i += 1;
        }
        assert(es.subrange(0, i as int) =~= es);
        match acc {
            Some(e) => Some(e.1),
            None => None,
        }
    }

    /// The configured game mode.
    pub fn game_mode(&self) -> (r: GameMode)
        ensures
            r == self.spec_game_mode(),
    {
        self.game_mode
    }
}

} // verus!
