//! Tests of the utility functions, model types and their tags.

use citadel::errors::InternalError;
use citadel::game::GameCachePrefix;
use citadel::gaming::{
    distribute_cards, default_chain_wait_time, Card, CardType, MatchData, MatchPlayer, MatchState,
    MatchType, UserInfo,
};
use citadel::metrics::MetricGroup;
use citadel::passport::{ClientEvent, ResponseEvent, ServerEvent, UserEvents, UserStatus,
    UserStatusString};
use citadel::profile::UserStats;
use citadel::sdk::Profile;
use citadel::tool::{shuffle, split_into_chunks};
use citadel::types::Network;

#[test]
fn test_split_into_chunks() {
    let array = vec![1, 2, 3, 4, 5, 6, 7];

    let chunks = split_into_chunks(&array, 3);
    assert_eq!(chunks, vec![vec![1, 2, 3], vec![4, 5, 6], vec![7]]);

    let big_chunks = split_into_chunks(&array, 10);
    assert_eq!(big_chunks, vec![vec![1, 2, 3, 4, 5, 6, 7]]);

    let empty = Vec::<i32>::new();
    let empty_chunks = split_into_chunks(&empty, 3);
    assert_eq!(empty_chunks, Vec::<Vec<i32>>::new());
}

#[test]
fn test_shuffle() {
    let original = vec![1, 2, 3, 4, 5];
    let shuffled = shuffle(&original);

    assert_eq!(original.len(), shuffled.len());

    for item in &original {
        assert!(shuffled.contains(item));
    }
}

#[test]
fn error_tags_and_status_codes() {
    assert_eq!(InternalError::InvalidPTB.as_str(), "InvalidPTB");
    assert_eq!(InternalError::NoAccess.as_str(), "NoAccess");
    assert_eq!(InternalError::OldPackageVersion.as_str(), "OldPackageVersion");
    assert_eq!(InternalError::SuiClientNotFresh.as_str(), "SuiClientNotFresh");
    assert_eq!(InternalError::InvalidPTB.status_code(), 403);
    assert_eq!(InternalError::Failure.status_code(), 503);
    assert_eq!(InternalError::SuiClientNotFresh.status_code(), 503);
    assert_eq!(InternalError::InvalidToken.status_code(), 401);
}

#[test]
fn network_urls() {
    let net = Network::Testnet;
    assert_eq!(net.node_url(), "https://fullnode.testnet.sui.io:443");
    assert_eq!(net.graphql_url(), "https://sui-testnet.mystenlabs.com/graphql");
    assert_eq!(net.explorer_tx_url("abc"), "https://suiscan.xyz/testnet/tx/abc");
    assert_eq!(
        net.explorer_object_url("0x1"),
        "https://suiscan.xyz/testnet/object/0x1"
    );
    assert_eq!(
        net.explorer_account_url("0x2"),
        "https://suiscan.xyz/testnet/account/0x2"
    );
    assert!(matches!(Network::from_str("devnet"), Some(Network::Devnet)));
    assert!(matches!(Network::from_str("mainnet"), Some(Network::Mainnet)));
    assert!(Network::from_str("moonnet").is_none());
}

#[test]
fn event_names_round_trip() {
    assert_eq!(ServerEvent::Online.as_str(), "user:online");
    assert_eq!(UserEvents::server_event(ServerEvent::Unfriended), "user:unfriended");
    assert_eq!(UserEvents::client_event(ClientEvent::Block), "user:block");
    assert_eq!(
        UserEvents::response_event(ResponseEvent::FriendRequestSent),
        "user:friend-request-sent"
    );
    for event in [
        ClientEvent::SendFriendRequest,
        ClientEvent::RevokeFriendRequest,
        ClientEvent::AcceptFriendRequest,
        ClientEvent::RejectFriendRequest,
        ClientEvent::Unfriend,
        ClientEvent::Block,
        ClientEvent::Unblock,
        ClientEvent::GetSupplemental,
        ClientEvent::SetInterim,
    ] {
        assert_eq!(ClientEvent::from_str(event.as_str()), Some(event));
    }
    assert_eq!(ClientEvent::from_str("user:unknown"), None);
}

#[test]
fn metric_and_cache_tags() {
    assert_eq!(MetricGroup::Requests.as_str(), "requests");
    assert_eq!(
        MetricGroup::CheckpointTimestampDelay.as_str(),
        "checkpoint_timestamp_delay"
    );
    assert_eq!(GameCachePrefix::USER.as_str(), "user");
    assert_eq!(GameCachePrefix::MATCH.as_str(), "match");
}

#[test]
fn status_string_collapses_presence() {
    assert_eq!(UserStatusString::from(UserStatus::Offline), UserStatusString::Offline);
    assert_eq!(UserStatusString::from(UserStatus::Online), UserStatusString::Online);
    assert_eq!(UserStatusString::from(UserStatus::InGame), UserStatusString::Online);
    assert_eq!(UserStatusString::from(UserStatus::Idle), UserStatusString::Online);
}

#[test]
fn stats_read_off_profile() {
    let profile = Profile {
        id: vec![1u8; 32],
        avatar: String::new(),
        rating: 1450,
        played: 8,
        won: 5,
        lost: 3,
    };
    let stats = UserStats::from_profile(&profile);
    assert_eq!(stats.won, 5);
    assert_eq!(stats.lost, 3);
    assert_eq!(stats.played, 8);
    assert_eq!(stats.winrate, 62); // 5 / 8 in whole percent
    assert_eq!(stats.rating, 1450);

    let fresh = Profile { played: 0, won: 0, lost: 0, ..profile };
    assert_eq!(UserStats::from_profile(&fresh).winrate, 0);
}

fn player(id: &str, cards: Vec<Card>) -> MatchPlayer {
    MatchPlayer {
        user: UserInfo {
            id: String::from(id),
            name: String::from(id),
            rating: 1500,
            avatar_url: None,
        },
        hand: cards,
        is_active: true,
        is_winner: false,
        is_turn: false,
    }
}

fn card(id: &str, card_type: CardType) -> Card {
    Card { id: String::from(id), card_type, variant: None }
}

#[test]
fn dealing_guarantees_a_defuse_for_every_player() {
    let deck = vec![
        card("s1", CardType::Skip),
        card("s2", CardType::Shuffle),
        card("d1", CardType::Defuse),
        card("s3", CardType::Attack),
        card("s4", CardType::Cat),
        card("s5", CardType::Nope),
        card("s6", CardType::Favor),
        card("s7", CardType::SeeTheFuture),
        card("s8", CardType::Skip),
    ];
    let mut match_data = MatchData {
        id: String::from("m1"),
        match_type: MatchType::Public,
        state: MatchState::Waiting,
        players: vec![player("alice", vec![]), player("bob", vec![])],
        out: vec![],
        spectators: vec![],
        deck,
        discard_pile: vec![],
        turn_index: 0,
        created_at: 0,
        updated_at: 0,
        draw_count: 0,
        skip_votes: std::collections::HashMap::new(),
        action_history: vec![],
        chain_state: None,
        chain_wait_time: default_chain_wait_time(),
    };
    distribute_cards(&mut match_data);
    assert_eq!(match_data.players.len(), 2);
    for p in &match_data.players {
        assert!(p.hand.len() >= 4, "each player draws a starting hand");
        assert!(
            p.hand.iter().any(|c| matches!(c.card_type, CardType::Defuse)),
            "every player holds a defuse card"
        );
    }
}
