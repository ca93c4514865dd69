//! The two kinds of participant, and how many of each a game expects.

use crate::cards::{GreenCard, RedCard};
use crate::player::{BasePlayer, PlayerId};
use vstd::prelude::*;

verus! {

/// Number of human players a game waits for.
pub struct ExpectedHumans(pub usize);

/// Number of bots a game starts.
pub struct ExpectedBots(pub usize);

/// The players a game expects: humans, then bots.
pub struct ExpectedPlayers(pub ExpectedHumans, pub ExpectedBots);

impl ExpectedPlayers {
    /// Number of expected players.
    pub fn total(&self) -> (r: usize)
        requires
            self.0.0 + self.1.0 <= usize::MAX,
        ensures
            r == self.0.0 + self.1.0,
    {
        self.humans() + self.bots()
    }

    /// Number of expected humans.
    pub fn humans(&self) -> (r: usize)
        ensures
            r == self.0.0,
    {
        self.0.0
    }

    /// Number of expected bots.
    pub fn bots(&self) -> (r: usize)
        ensures
            r == self.1.0,
    {
        self.1.0
    }
}

/// A computer player.
pub struct Bot {
    player: BasePlayer,
}

impl Bot {
    /// The bot's identifier.
    pub closed spec fn spec_id(&self) -> PlayerId {
        self.player.id
    }

    /// The red cards the bot holds.
    pub closed spec fn hand(&self) -> Seq<RedCard> {
        self.player.hand@
    }

    /// A bot with an empty hand.
    pub fn new(id: PlayerId) -> (r: Bot)
        ensures
            r.spec_id() == id,
            r.hand() == Seq::<RedCard>::empty(),
    {
        Bot { player: BasePlayer::new(id) }
    }

    /// Deals a red card to the bot.
    pub fn add_card(&mut self, red: RedCard)
        ensures
            final(self).hand() == old(self).hand().push(red),
            final(self).spec_id() == old(self).spec_id(),
    {
        self.player.hand.add_card(red);
    }

    /// The bot plays the first card available.
    pub fn choose_card(&self, _hand: &[RedCard], _green_card: &GreenCard) -> (r: Option<usize>)
        ensures
            r == Some(0usize),
    {
        Some(0)
    }

    /// As judge, the bot picks the first card offered.
    pub fn judge_cards(&self, _options: &[RedCard], _green_card: &GreenCard) -> (r: Option<usize>)
        ensures
            r == Some(0usize),
    {
        Some(0)
    }
}

/// A human player.
pub struct Human {
    player: BasePlayer,
}

impl Human {
    /// The player's identifier.
    pub closed spec fn spec_id(&self) -> PlayerId {
        self.player.id
    }

    /// A human player with identifier `id` and an empty hand.
    pub fn new(id: usize) -> (r: Human)
        ensures
            r.spec_id() == PlayerId(id),
    {
        Human { player: BasePlayer::new(PlayerId(id)) }
    }
}

} // verus!
