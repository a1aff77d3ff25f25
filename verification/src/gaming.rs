//! Card-game data model, and the dealing of starting hands.

use vstd::prelude::*;

verus! {

/// Whether a match is open to anyone.
#[derive(Debug, Clone, Copy, PartialEq, Eq, Structural)]
pub enum MatchType {
    /// Open game.
    Public,
    /// Invitation only.
    Private,
}

/// Lifecycle of a match.
#[derive(Debug, Clone, Copy, PartialEq, Eq, Structural)]
pub enum MatchState {
    /// Waiting for players.
    Waiting,
    /// Being played.
    InProgress,
    /// Finished.
    Completed,
}

/// Why a player left the running order.
#[derive(Debug, Clone, Copy, PartialEq, Eq, Structural)]
pub enum DefeatReason {
    /// Drew the exploding card without a defuse.
    Explosion,
    /// Ran out of time.
    Timeout,
    /// Left the match.
    Leave,
}

/// Public data of one player.
pub struct UserInfo {
    pub id: String,
    pub name: String,
    pub rating: i32,
    pub avatar_url: Option<String>,
}

/// The kinds of cards in the deck.
#[derive(Debug, Clone, Copy, PartialEq, Eq, Structural)]
pub enum CardType {
    ExplodingKitten,
    Defuse,
    Skip,
    SeeTheFuture,
    Shuffle,
    Attack,
    Favor,
    Cat,
    Nope,
    ImplodingKitten,
    AlterTheFuture,
    ShareTheFuture,
    BuryCard,
    SpeedUpExplosion,
}

/// One card.
pub struct Card {
    pub id: String,
    pub card_type: CardType,
    pub variant: Option<String>,
}

/// One player in a match, with their hand.
pub struct MatchPlayer {
    pub user: UserInfo,
    pub hand: Vec<Card>,
    pub is_active: bool,
    pub is_winner: bool,
    pub is_turn: bool,
}

/// The kinds of card actions.
#[derive(Debug, Clone, Copy, PartialEq, Eq, Structural)]
pub enum CardActionType {
    /// Play a card.
    Play,
    /// Draw a card.
    Draw,
    /// Cancel with a nope card.
    Nope,
    /// Defuse an explosion.
    Defuse,
}

/// One card action, as recorded in the match history.
pub struct CardAction {
    pub action_type: CardActionType,
    pub user_id: String,
    pub card_id: Option<String>,
    pub card_type: Option<CardType>,
    pub is_canceled: bool,
    pub created_at: u64,
}

/// The whole state of one match.
pub struct MatchData {
    pub id: String,
    pub match_type: MatchType,
    pub state: MatchState,
    pub players: Vec<MatchPlayer>,
    pub out: Vec<MatchPlayer>,
    pub spectators: Vec<UserInfo>,
    pub deck: Vec<Card>,
    pub discard_pile: Vec<Card>,
    pub turn_index: usize,
    pub created_at: u64,
    pub updated_at: u64,
    pub draw_count: usize,
    pub skip_votes: std::collections::HashMap<String, bool>,
    pub action_history: Vec<CardAction>,
    pub chain_state: Option<CardAction>,
    pub chain_wait_time: u64,
}

/// A named work queue and the delay its items wait before they run.
pub struct Queue {
    pub name: &'static str,
    pub delay: u64,
}

/// Work item of the card-action queue.
pub struct CardActionQueuePayload {
    pub match_id: String,
    pub user_id: String,
    pub card_id: String,
}

/// Work item of the inactivity queue.
pub struct InactivityQueuePayload {
    pub match_id: String,
    pub user_id: String,
}

/// How long a chain waits for reactions before it resolves, in
/// milliseconds.
pub fn default_chain_wait_time() -> (r: u64)
    ensures
        r == 5000,
{
    5000
}

/// Number of cards each player is dealt to start with.
pub const INITIAL_CARD_COUNT: usize = 4;

/// Whether a hand holds a defuse card.
pub open spec fn has_defuse(hand: Seq<Card>) -> bool {
    exists|i: int| 0 <= i < hand.len() && hand[i].card_type is Defuse
}

/// Builds the spare defuse card handed to a player the deck ran dry for.
fn extra_defuse_card(user_id: &String) -> (r: Card)
    ensures
        r.card_type is Defuse,
{
    let mut id = String::from_str("defuse-extra-");
    id.append(user_id.as_str());
    Card { id, card_type: CardType::Defuse, variant: None }
}

/// Deals the starting hands: each player draws up to `INITIAL_CARD_COUNT`
/// cards from the top of the deck and is guaranteed a defuse card — from
/// their draw, from the deck, or as a fresh spare.  Hands only grow, and
/// nothing but the players' hands and the deck changes.
pub fn distribute_cards(match_data: &mut MatchData)
    ensures
        final(match_data).players@.len() == old(match_data).players@.len(),
        forall|p: int| 0 <= p < final(match_data).players@.len() ==> {
            &&& (#[trigger] final(match_data).players@[p]).user == old(match_data).players@[p].user
            &&& final(match_data).players@[p].is_active == old(match_data).players@[p].is_active
            &&& final(match_data).players@[p].is_winner == old(match_data).players@[p].is_winner
            &&& final(match_data).players@[p].is_turn == old(match_data).players@[p].is_turn
            &&& old(match_data).players@[p].hand@.is_prefix_of(final(match_data).players@[p].hand@)
            &&& has_defuse(final(match_data).players@[p].hand@)
        },
        final(match_data).id == old(match_data).id,
        final(match_data).match_type == old(match_data).match_type,
        final(match_data).state == old(match_data).state,
        final(match_data).out == old(match_data).out,
        final(match_data).spectators == old(match_data).spectators,
        final(match_data).discard_pile == old(match_data).discard_pile,
        final(match_data).turn_index == old(match_data).turn_index,
        final(match_data).created_at == old(match_data).created_at,
        final(match_data).updated_at == old(match_data).updated_at,
        final(match_data).draw_count == old(match_data).draw_count,
        final(match_data).skip_votes == old(match_data).skip_votes,
        final(match_data).action_history == old(match_data).action_history,
        final(match_data).chain_state == old(match_data).chain_state,
        final(match_data).chain_wait_time == old(match_data).chain_wait_time,
{
    let n = match_data.players.len();
    for p in 0..n
        invariant
            n == match_data.players@.len(),
            n == old(match_data).players@.len(),
            forall|q: int| p <= q < n ==> #[trigger] match_data.players@[q]
                == old(match_data).players@[q],
            forall|q: int| 0 <= q < p ==> {
                &&& (#[trigger] match_data.players@[q]).user == old(match_data).players@[q].user
                &&& match_data.players@[q].is_active == old(match_data).players@[q].is_active
                &&& match_data.players@[q].is_winner == old(match_data).players@[q].is_winner
                &&& match_data.players@[q].is_turn == old(match_data).players@[q].is_turn
                &&& old(match_data).players@[q].hand@.is_prefix_of(match_data.players@[q].hand@)
                &&& has_defuse(match_data.players@[q].hand@)
            },
            match_data.id == old(match_data).id,
            match_data.match_type == old(match_data).match_type,
            match_data.state == old(match_data).state,
            match_data.out == old(match_data).out,
            match_data.spectators == old(match_data).spectators,
            match_data.discard_pile == old(match_data).discard_pile,
            match_data.turn_index == old(match_data).turn_index,
            match_data.created_at == old(match_data).created_at,
            match_data.updated_at == old(match_data).updated_at,
            match_data.draw_count == old(match_data).draw_count,
            match_data.skip_votes == old(match_data).skip_votes,
            match_data.action_history == old(match_data).action_history,
            match_data.chain_state == old(match_data).chain_state,
            match_data.chain_wait_time == old(match_data).chain_wait_time,
    {
        let mut player = match_data.players.remove(p);
        let mut deck: Vec<Card> = Vec::new();
        core::mem::swap(&mut deck, &mut match_data.deck);
        let ghost hand0 = player.hand@;
        for d in 0..INITIAL_CARD_COUNT
            invariant
                player.user == old(match_data).players@[p as int].user,
                player.is_active == old(match_data).players@[p as int].is_active,
                player.is_winner == old(match_data).players@[p as int].is_winner,
                player.is_turn == old(match_data).players@[p as int].is_turn,
                hand0 == old(match_data).players@[p as int].hand@,
                hand0.is_prefix_of(player.hand@),
        {
            match deck.pop() {
                Some(card) => {
                    let ghost before = player.hand@;
                    player.hand.push(card);
                    proof {
                        assert(before.is_prefix_of(player.hand@));
                    }
                },
                None => {},
            }
        }
        let mut have_defuse: bool = false;
        let hand_len = player.hand.len();
        for k in 0..hand_len
            invariant
                hand_len == player.hand@.len(),
                have_defuse ==> has_defuse(player.hand@),
                !have_defuse ==> forall|i: int| 0 <= i < k ==> !((#[trigger] player.hand@[i]).card_type is Defuse),
        {
            if matches!(player.hand[k].card_type, CardType::Defuse) {
                have_defuse = true;
            }
        }
        if !have_defuse {
            let mut pos: usize = 0;
            let mut found: bool = false;
            let deck_len = deck.len();
            while pos < deck_len && !found
                invariant
                    deck_len == deck@.len(),
                    pos <= deck_len,
                    found ==> pos < deck_len && deck@[pos as int].card_type is Defuse,
                decreases deck_len - pos + (if found { 0int } else { 1int }),
            {
                if matches!(deck[pos].card_type, CardType::Defuse) {
                    found = true;
                } else {
                    pos = pos + 1;
                }
            }
            if found {
                let defuse_card = deck.remove(pos);
                let ghost before = player.hand@;
                player.hand.push(defuse_card);
                proof {
                    assert(player.hand@[player.hand@.len() - 1].card_type is Defuse);
                    assert(before.is_prefix_of(player.hand@));
                }
            } else {
                let spare = extra_defuse_card(&player.user.id);
                let ghost before = player.hand@;
                player.hand.push(spare);
                proof {
                    assert(player.hand@[player.hand@.len() - 1].card_type is Defuse);
                    assert(before.is_prefix_of(player.hand@));
                }
            }
        }
        proof {
            assert(has_defuse(player.hand@));
            assert(hand0.is_prefix_of(player.hand@));
        }
        core::mem::swap(&mut deck, &mut match_data.deck);
        match_data.players.insert(p, player);
    }
}

} // verus!
