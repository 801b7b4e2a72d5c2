use tic_tac_toe::Coin;
use tic_tac_toe::Coord;
use tic_tac_toe::ExecuteMsg;
use tic_tac_toe::GameResponse;
use tic_tac_toe::GameStore;
use tic_tac_toe::MessageInfo;
use tic_tac_toe::PlayerSymbol;
use tic_tac_toe::QueryKey;
use tic_tac_toe::QueryMsg;
use tic_tac_toe::Status;
use tic_tac_toe::execute;
use tic_tac_toe::query;

fn coins(amount: u128, denom: &str) -> Vec<Coin> {
    vec![Coin { denom: denom.to_string(), amount }]
}

fn mock_info(sender: &str, funds: &[Coin]) -> MessageInfo {
    MessageInfo { sender: sender.to_string(), funds: funds.to_vec() }
}

#[test]
fn query_empty_games_with_both_users() {
    // GIVEN
    let store = GameStore::new();

    // WHEN
    let value: Vec<GameResponse> = query(
        &store,
        QueryMsg::Games {
            key: Some(QueryKey {
                host: String::from("host"),
                opponent: String::from("opponent"),
            }),
            status: None,
        },
    );

    // THEN
    assert_eq!(value, vec![]);
}

#[test]
fn query_empty_games_with_no_users() {
    // GIVEN
    let store = GameStore::new();

    // WHEN
    let value: Vec<GameResponse> = query(&store, QueryMsg::Games { key: None, status: None });

    // THEN
    assert_eq!(value, vec![]);
}

#[test]
fn query_happy_path_empty_games_with_both_users() {
    // GIVEN a store holding no match for the asked pair
    let mut store = GameStore::new();
    execute(
        &mut store,
        mock_info("someone", &coins(2, "token")),
        ExecuteMsg::Invite {
            coord: Coord { x: 0, y: 0 },
            host_symbol: PlayerSymbol::X,
            opponent: String::from("else"),
        },
    )
    .unwrap();

    // WHEN
    let value: Vec<GameResponse> = query(
        &store,
        QueryMsg::Games {
            key: Some(QueryKey {
                host: String::from("host"),
                opponent: String::from("opponent"),
            }),
            status: None,
        },
    );

    // THEN
    assert_eq!(value, vec![]);
}

#[test]
fn query_happy_path_empty_games_with_no_users() {
    // GIVEN
    let store = GameStore::new();

    // WHEN
    let value: Vec<GameResponse> = query(&store, QueryMsg::Games { key: None, status: None });

    // THEN
    assert_eq!(value, vec![]);
}

#[test]
fn query_all_games_in_storage_order() {
    // GIVEN two stored matches
    let mut store = GameStore::new();
    execute(
        &mut store,
        mock_info("host", &coins(2, "token")),
        ExecuteMsg::Invite {
            coord: Coord { x: 0, y: 0 },
            host_symbol: PlayerSymbol::X,
            opponent: String::from("opponent"),
        },
    )
    .unwrap();
    execute(
        &mut store,
        mock_info("alice", &coins(3, "token")),
        ExecuteMsg::Invite {
            coord: Coord { x: 1, y: 1 },
            host_symbol: PlayerSymbol::O,
            opponent: String::from("bob"),
        },
    )
    .unwrap();

    // WHEN
    let value = query(&store, QueryMsg::Games { key: None, status: None });

    // THEN both are reported, in the order they were stored
    assert_eq!(value.len(), 2);
    assert_eq!(value[0].host, String::from("host"));
    assert_eq!(value[0].opponent, String::from("opponent"));
    assert_eq!(value[1].host, String::from("alice"));
    assert_eq!(value[1].opponent, String::from("bob"));
}

#[test]
fn query_filters_by_status() {
    // GIVEN one invited and one rejected match
    let mut store = GameStore::new();
    execute(
        &mut store,
        mock_info("host", &coins(2, "token")),
        ExecuteMsg::Invite {
            coord: Coord { x: 0, y: 0 },
            host_symbol: PlayerSymbol::X,
            opponent: String::from("opponent"),
        },
    )
    .unwrap();
    execute(
        &mut store,
        mock_info("alice", &coins(3, "token")),
        ExecuteMsg::Invite {
            coord: Coord { x: 1, y: 1 },
            host_symbol: PlayerSymbol::O,
            opponent: String::from("bob"),
        },
    )
    .unwrap();
    execute(
        &mut store,
        mock_info("bob", &[]),
        ExecuteMsg::Reject { as_host: false, opponent: String::from("alice") },
    )
    .unwrap();

    // WHEN
    let invited = query(&store, QueryMsg::Games { key: None, status: Some(Status::INVITED) });
    let rejected = query(&store, QueryMsg::Games { key: None, status: Some(Status::REJECTED) });
    let playing = query(&store, QueryMsg::Games { key: None, status: Some(Status::PLAYING) });

    // THEN
    assert_eq!(invited.len(), 1);
    assert_eq!(invited[0].host, String::from("host"));
    assert_eq!(rejected.len(), 1);
    assert_eq!(rejected[0].host, String::from("alice"));
    assert_eq!(playing, vec![]);
}

#[test]
fn query_by_key_with_status_mismatch() {
    // GIVEN an invited match
    let mut store = GameStore::new();
    execute(
        &mut store,
        mock_info("host", &coins(2, "token")),
        ExecuteMsg::Invite {
            coord: Coord { x: 0, y: 0 },
            host_symbol: PlayerSymbol::X,
            opponent: String::from("opponent"),
        },
    )
    .unwrap();

    // WHEN asking for it under a status it does not have
    let value = query(
        &store,
        QueryMsg::Games {
            key: Some(QueryKey {
                host: String::from("host"),
                opponent: String::from("opponent"),
            }),
            status: Some(Status::COMPLETED),
        },
    );

    // THEN
    assert_eq!(value, vec![]);
}

#[test]
fn query_key_is_directional() {
    // GIVEN a match stored under (host, opponent)
    let mut store = GameStore::new();
    execute(
        &mut store,
        mock_info("host", &coins(2, "token")),
        ExecuteMsg::Invite {
            coord: Coord { x: 0, y: 0 },
            host_symbol: PlayerSymbol::X,
            opponent: String::from("opponent"),
        },
    )
    .unwrap();

    // WHEN asking under the reversed key
    let value = query(
        &store,
        QueryMsg::Games {
            key: Some(QueryKey {
                host: String::from("opponent"),
                opponent: String::from("host"),
            }),
            status: None,
        },
    );

    // THEN the reversed slot is a different, empty one
    assert_eq!(value, vec![]);
}
