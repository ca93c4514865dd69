//! The application messages exchanged between host and clients.

use crate::cards::{GreenCard, RedCard};
use vstd::prelude::*;

verus! {

/// One game message; serialised by the transport layer, framed by the codec.
#[derive(Debug, Clone, PartialEq)]
pub enum GameMessage {
    AssignId(usize),
    DealRedCard(RedCard),
    DealGreenCard(GreenCard),
    RequestRedCardChoice(GreenCard),
    RequestJudgeChoice(Vec<RedCard>, GreenCard),
    RedCardPlayed(usize, RedCard),
    JudgeVoted(usize),
    WinnerAnnouncement(usize, GreenCard),
    CurrentScore(usize),
    MaxScore(usize),
    GameEnd,
}

} // verus!
