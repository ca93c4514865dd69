use apples2apples::cards::{BaseCard, Card, CardId, GreenCard, RedCard};
use apples2apples::config::{parse_args, Config, GameMode, Mode};
use apples2apples::dealer::{DealError, DealerState, DeckHandler};
use apples2apples::deck::Deck;
use apples2apples::deck_loader::{load_deck, DeckError};
use apples2apples::player::{BasePlayer, PlayerHand, PlayerId};
use apples2apples::players::{Bot, ExpectedBots, ExpectedHumans, ExpectedPlayers, Human};
use apples2apples::protocol::Protocol;
use apples2apples::score::{ManagerState, Score, ScoreError, ScoreResult, ScoreState};

fn red(id: usize, name: &str) -> RedCard {
    RedCard::new(CardId::new(id), name.to_string(), format!("{name} text"))
}

fn green(id: usize, name: &str) -> GreenCard {
    GreenCard::new(CardId::new(id), name.to_string(), format!("{name} text"))
}

fn red_deck(names: &[&str]) -> Deck<RedCard> {
    let mut deck = Deck::new();
    for (i, name) in names.iter().enumerate() {
        deck.add_card(red(i, name));
    }
    deck
}

#[test]
fn card_accessors() {
    let base = BaseCard::new(CardId::from(4usize), "Cat".to_string(), "furry".to_string());
    assert_eq!(base.id().value(), 4);
    assert_eq!(base.name(), "Cat");
    assert_eq!(base.description(), "furry");
    let card = GreenCard::from(base.clone());
    assert_eq!(card.base(), &base);
    assert_eq!(Card::name(&card), "Cat");
    assert_eq!(usize::from(CardId::from(9u32)), 9);
}

#[test]
fn deck_draws_from_top() {
    let mut deck = red_deck(&["a", "b", "c"]);
    assert_eq!(deck.deck_size(), 3);
    assert_eq!(deck.draw_card().map(|c| c.base().name().to_string()), Some("c".to_string()));
    assert_eq!(deck.draw_index(0).map(|c| c.base().name().to_string()), Some("a".to_string()));
    assert!(deck.draw_index(5).is_none());
    assert_eq!(deck.deck_size(), 1);
    assert_eq!(deck.get_cards(), vec![red(1, "b")]);
    deck.draw_card();
    assert!(deck.draw_card().is_none());
}

#[test]
fn permutation_needs_same_cards_in_other_order() {
    let deck = red_deck(&["a", "b", "c"]);
    let mut reordered = Deck::new();
    reordered.add_card(red(2, "c"));
    reordered.add_card(red(0, "a"));
    reordered.add_card(red(1, "b"));
    assert!(deck.is_permutation(&reordered));
    assert!(!deck.is_permutation(&red_deck(&["a", "b", "c"])));
    assert!(!deck.is_permutation(&red_deck(&["a", "b"])));
    let mut other = Deck::new();
    other.add_card(red(2, "c"));
    other.add_card(red(0, "a"));
    other.add_card(red(1, "x"));
    assert!(!deck.is_permutation(&other));
    let mut twice = Deck::new();
    twice.add_card(red(0, "a"));
    twice.add_card(red(0, "a"));
    twice.add_card(red(1, "b"));
    assert!(!red_deck(&["a", "b", "b"]).is_permutation(&twice));
}

#[test]
fn shuffle_keeps_the_cards() {
    let names: Vec<String> = (0..20).map(|i| format!("card{i}")).collect();
    let refs: Vec<&str> = names.iter().map(|s| s.as_str()).collect();
    let original = red_deck(&refs);
    let mut deck = red_deck(&refs);
    deck.shuffle();
    assert_eq!(deck.deck_size(), 20);
    let mut ids: Vec<usize> = deck.get_cards().iter().map(|c| c.base().id().value()).collect();
    ids.sort();
    assert_eq!(ids, (0..20).collect::<Vec<usize>>());
    assert!(deck.is_permutation(&original) || deck.get_cards() == original.get_cards());
}

#[test]
fn extend_puts_cards_on_top() {
    let mut deck = red_deck(&["a"]);
    deck.extend(red_deck(&["b", "c"]));
    let names: Vec<String> =
        deck.get_cards().iter().map(|c| c.base().name().to_string()).collect();
    assert_eq!(names, vec!["a", "b", "c"]);
}

#[test]
fn hand_add_and_remove() {
    let mut hand = PlayerHand::new();
    hand.add_card(red(0, "a"));
    hand.add_card(red(1, "b"));
    assert_eq!(hand.len(), 2);
    assert_eq!(hand.remove_card(0), Some(red(0, "a")));
    assert_eq!(hand.remove_card(3), None);
    assert_eq!(hand.get_cards(), &[red(1, "b")][..]);
    let player = BasePlayer::new(PlayerId(3));
    assert_eq!(player.id, PlayerId(3));
    assert_eq!(player.hand.len(), 0);
    assert_eq!(player.score, 0);
}

#[test]
fn bots_pick_the_first_card() {
    let mut bot = Bot::new(PlayerId(1));
    bot.add_card(red(0, "a"));
    let hand = [red(0, "a")];
    assert_eq!(bot.choose_card(&hand, &green(0, "g")), Some(0));
    assert_eq!(bot.judge_cards(&hand, &green(0, "g")), Some(0));
    let _human = Human::new(2);
    let expected = ExpectedPlayers(ExpectedHumans(3), ExpectedBots(2));
    assert_eq!(expected.humans(), 3);
    assert_eq!(expected.bots(), 2);
    assert_eq!(expected.total(), 5);
}

#[test]
fn deal_cards_success() {
    let mut handler = DeckHandler::new();
    let reds = load_deck::<RedCard>(
        "[Apple] - a fruit\n[Bear] - big\n[Cat] - furry\n[Dog] - loyal\n\
         [Eel] - slippery\n[Fox] - clever\n[Goat] - stubborn\n[Hat] - worn\n",
    )
    .expect("red deck");
    let greens = load_deck::<GreenCard>("[Funny] - amusing\n[Fast] - quick\n").expect("green deck");
    handler.load_decks(reds, greens);
    handler.shuffle();
    let mut dealer = DealerState { deck_handler: handler };

    let red_cards = dealer.deal_red_cards(7).expect("red cards");
    assert_eq!(7, red_cards.len(), "The dealt red card amount does not match the expected amount");

    let green_cards = dealer.deal_green_cards(1).expect("Should successfully deal green cards");
    assert_eq!(green_cards.len(), 1, "The amount of green cards does not match the expected amount");

    assert_eq!(dealer.deck_sizes(), (1, 1));
}

#[test]
fn deal_cards_insufficient() {
    let handler = DeckHandler::new();
    let mut dealer = DealerState { deck_handler: handler };
    let result = dealer.deal_red_cards(5);
    assert!(result.is_err(), "Should fail when dealing from empty deck");
    match result {
        Err(DealError::OutOfCards { requested, available }) => {
            assert_eq!(requested, 5);
            assert_eq!(available, 0);
        }
        _ => panic!("Wrong error type"),
    }
}

#[test]
fn dealing_takes_the_top_cards_in_order() {
    let mut handler = DeckHandler::new();
    for (i, name) in ["a", "b", "c"].iter().enumerate() {
        handler.insert_red_card(red(i, name));
    }
    handler.insert_green_card(green(0, "g"));
    let mut dealer = DealerState { deck_handler: handler };
    let dealt = dealer.deal_red_cards(2).expect("two cards");
    assert_eq!(dealt, vec![red(2, "c"), red(1, "b")]);
    assert_eq!(dealer.deal_red_cards(2), Err(DealError::OutOfCards { requested: 2, available: 1 }));
    assert_eq!(dealer.deck_sizes(), (0, 1));
    assert_eq!(dealer.deal_green_cards(0), Err(DealError::InvalidAmount { amount: 0 }));
    assert_eq!(dealer.deck_handler.get_green_card(), Some(green(0, "g")));
    assert_eq!(dealer.deck_handler.get_red_card(), None);
    assert_eq!(dealer.deck_handler.green_card_deck_size(), 0);
    assert_eq!(dealer.deck_handler.red_card_deck_size(), 0);
}

#[test]
fn deck_file_lines_become_cards() {
    let deck = load_deck::<RedCard>("  [Apple]  -  A fruit \r\n\n\t[ Big Bear ]-Large animal\n")
        .expect("deck");
    let cards = deck.get_cards();
    assert_eq!(cards.len(), 2);
    assert_eq!(cards[0].base().id().value(), 0);
    assert_eq!(cards[0].base().name(), "Apple");
    assert_eq!(cards[0].base().description(), "A fruit");
    assert_eq!(cards[1].base().id().value(), 1);
    assert_eq!(cards[1].base().name(), "Big Bear");
    assert_eq!(cards[1].base().description(), "Large animal");
    assert_eq!(load_deck::<RedCard>("").expect("empty").deck_size(), 0);
}

#[test]
fn deck_file_errors_name_the_line() {
    assert_eq!(load_deck::<RedCard>("[a] - b\nno name").err(), Some(DeckError::MissingName { line: 2 }));
    assert_eq!(load_deck::<RedCard>("]a[ - b").err(), Some(DeckError::MissingName { line: 1 }));
    assert_eq!(load_deck::<RedCard>("\n\n[  ] - b").err(), Some(DeckError::EmptyName { line: 3 }));
    assert_eq!(load_deck::<RedCard>("[a] b").err(), Some(DeckError::MissingSeparator { line: 1 }));
    assert_eq!(load_deck::<RedCard>("[a] -   ").err(), Some(DeckError::EmptyText { line: 1 }));
}

#[test]
fn required_apples_follows_player_count() {
    let config = Config::new(
        "red.txt".to_string(),
        "green.txt".to_string(),
        vec![
            ("4_p".to_string(), 8),
            ("5_p".to_string(), 7),
            ("oops".to_string(), 1),
            ("6_p".to_string(), 6),
            ("+8_p".to_string(), 4),
        ],
        GameMode::Original,
    );
    assert_eq!(config.red_deck_path(), "red.txt");
    assert_eq!(config.green_deck_path(), "green.txt");
    assert_eq!(config.game_mode(), GameMode::Original);
    assert_eq!(config.get_required_apples(4), Some(8));
    assert_eq!(config.get_required_apples(5), Some(7));
    assert_eq!(config.get_required_apples(7), Some(6));
    assert_eq!(config.get_required_apples(100), Some(4));
    let none = Config::new(String::new(), String::new(), vec![("x_p".to_string(), 3)], GameMode::TwoForOne);
    assert_eq!(none.get_required_apples(4), None);
    let first = Config::new(String::new(), String::new(), vec![("9_p".to_string(), 3)], GameMode::BadHarvest);
    assert_eq!(first.get_required_apples(2), Some(3));
}

#[test]
fn args_choose_host_or_client() {
    match parse_args(Some(3), None, None) {
        Mode::Host { players, bots } => assert_eq!((players, bots), (3, 0)),
        Mode::Client { .. } => panic!("expected host"),
    }
    match parse_args(Some(3), Some(1), Some("127.0.0.1:4000".to_string())) {
        Mode::Client { ip } => assert_eq!(ip, "127.0.0.1:4000"),
        Mode::Host { .. } => panic!("expected client"),
    }
}

#[test]
fn scores_accumulate_to_a_win() {
    let mut manager = ManagerState::new(3);
    assert_eq!(manager.get_score(0), 0);
    assert_eq!(manager.add_score_check_winner(0, 1), ScoreResult::Continue);
    assert_eq!(manager.get_score(0), 1);
    assert_eq!(manager.add_score_check_winner(17, 3), ScoreResult::Win);
    assert_eq!(manager.add_score_check_winner(0, 2), ScoreResult::Win);

    let mut state = ScoreState::new();
    assert_eq!(
        state.retrieve_score(PlayerId(4)),
        Err(ScoreError::PlayerNotFound { player_id: PlayerId(4) })
    );
    state.update_score(PlayerId(4), Score(2));
    state.update_score(PlayerId(4), Score(5));
    assert_eq!(state.retrieve_score(PlayerId(4)), Ok(Score(5)));
}

#[test]
fn protocol_hands_out_its_transport() {
    let mut protocol = Protocol::new(vec![1u8]);
    protocol.transport_mut().push(2);
    assert_eq!(protocol.transport_mut(), &vec![1u8, 2]);
}
