use tic_tac_toe::Coin;
use tic_tac_toe::Coord;
use tic_tac_toe::ExecuteMsg;
use tic_tac_toe::Game;
use tic_tac_toe::GameResponse;
use tic_tac_toe::GameStore;
use tic_tac_toe::MessageInfo;
use tic_tac_toe::PlayerSymbol;
use tic_tac_toe::QueryKey;
use tic_tac_toe::QueryMsg;
use tic_tac_toe::Response;
use tic_tac_toe::Status;
use tic_tac_toe::Transfer;
use tic_tac_toe::execute;
use tic_tac_toe::query;

fn coins(amount: u128, denom: &str) -> Vec<Coin> {
    vec![Coin { denom: denom.to_string(), amount }]
}

fn mock_info(sender: &str, funds: &[Coin]) -> MessageInfo {
    MessageInfo { sender: sender.to_string(), funds: funds.to_vec() }
}

fn host_plays(store: &mut GameStore, x: u8, y: u8) -> Result<Response, tic_tac_toe::ContractError> {
    execute(
        store,
        mock_info("host", &coins(2, "token")),
        ExecuteMsg::Play { as_host: true, coord: Coord { x, y }, opponent: String::from("opponent") },
    )
}

fn opponent_plays(
    store: &mut GameStore,
    x: u8,
    y: u8,
) -> Result<Response, tic_tac_toe::ContractError> {
    execute(
        store,
        mock_info("opponent", &coins(2, "token")),
        ExecuteMsg::Play { as_host: false, coord: Coord { x, y }, opponent: String::from("host") },
    )
}

#[test]
fn tie() {
    // GIVEN
    let mut store = GameStore::new();
    execute(
        &mut store,
        mock_info("host", &coins(2, "token")),
        ExecuteMsg::Invite {
            coord: Coord { x: 1, y: 1 },
            host_symbol: PlayerSymbol::X,
            opponent: String::from("opponent"),
        },
    )
    .unwrap();
    execute(
        &mut store,
        mock_info("opponent", &coins(2, "token")),
        ExecuteMsg::Accept { coord: Coord { x: 2, y: 2 }, host: String::from("host") },
    )
    .unwrap();
    host_plays(&mut store, 2, 0).unwrap();
    opponent_plays(&mut store, 0, 2).unwrap();
    host_plays(&mut store, 1, 2).unwrap();
    opponent_plays(&mut store, 1, 0).unwrap();
    host_plays(&mut store, 0, 0).unwrap();
    opponent_plays(&mut store, 2, 1).unwrap();

    // WHEN
    let play_res = host_plays(&mut store, 0, 1).unwrap();
    let query_value: Vec<GameResponse> = query(
        &store,
        QueryMsg::Games {
            key: Some(QueryKey {
                host: String::from("host"),
                opponent: String::from("opponent"),
            }),
            status: Some(Status::COMPLETED),
        },
    );

    // THEN
    assert_eq!(
        play_res,
        Response::new()
            .add_attribute("method", "play")
            .add_attribute("x", "0")
            .add_attribute("y", "1")
            .add_attribute("status", "COMPLETED")
            .add_attribute("opponent", "opponent")
            .add_message(Transfer {
                to_address: String::from("host"),
                amount: coins(2, "token"),
            })
            .add_message(Transfer {
                to_address: String::from("opponent"),
                amount: coins(2, "token"),
            })
    );
    assert_eq!(
        query_value,
        vec![GameResponse {
            host: String::from("host"),
            opponent: String::from("opponent"),
            game: Game {
                board: vec![
                    vec![
                        Some(PlayerSymbol::X),
                        Some(PlayerSymbol::O),
                        Some(PlayerSymbol::X),
                    ],
                    vec![
                        Some(PlayerSymbol::X),
                        Some(PlayerSymbol::X),
                        Some(PlayerSymbol::O),
                    ],
                    vec![
                        Some(PlayerSymbol::O),
                        Some(PlayerSymbol::X),
                        Some(PlayerSymbol::O),
                    ],
                ],
                player_round: PlayerSymbol::X,
                host_symbol: PlayerSymbol::X,
                prize: coins(4, "token"),
                status: Status::COMPLETED,
                winner: None,
            },
        }]
    );
}

#[test]
fn host_wins() {
    // GIVEN
    let mut store = GameStore::new();
    execute(
        &mut store,
        mock_info("host", &coins(2, "token")),
        ExecuteMsg::Invite {
            coord: Coord { x: 1, y: 1 },
            host_symbol: PlayerSymbol::X,
            opponent: String::from("opponent"),
        },
    )
    .unwrap();
    execute(
        &mut store,
        mock_info("opponent", &coins(2, "token")),
        ExecuteMsg::Accept { coord: Coord { x: 2, y: 2 }, host: String::from("host") },
    )
    .unwrap();
    host_plays(&mut store, 1, 0).unwrap();
    opponent_plays(&mut store, 0, 2).unwrap();

    // WHEN
    let play_res = host_plays(&mut store, 1, 2).unwrap();
    let query_value: Vec<GameResponse> = query(
        &store,
        QueryMsg::Games {
            key: Some(QueryKey {
                host: String::from("host"),
                opponent: String::from("opponent"),
            }),
            status: Some(Status::COMPLETED),
        },
    );

    // THEN
    assert_eq!(
        play_res,
        Response::new()
            .add_attribute("method", "play")
            .add_attribute("x", "1")
            .add_attribute("y", "2")
            .add_attribute("status", "COMPLETED")
            .add_attribute("opponent", "opponent")
            .add_attribute("winner", "X")
            .add_message(Transfer {
                to_address: String::from("host"),
                amount: coins(4, "token"),
            })
    );
    assert_eq!(
        query_value,
        vec![GameResponse {
            host: String::from("host"),
            opponent: String::from("opponent"),
            game: Game {
                board: vec![
                    vec![None, Some(PlayerSymbol::X), None],
                    vec![None, Some(PlayerSymbol::X), None],
                    vec![
                        Some(PlayerSymbol::O),
                        Some(PlayerSymbol::X),
                        Some(PlayerSymbol::O),
                    ],
                ],
                player_round: PlayerSymbol::X,
                host_symbol: PlayerSymbol::X,
                prize: coins(4, "token"),
                status: Status::COMPLETED,
                winner: Some(PlayerSymbol::X),
            },
        }]
    );
}

#[test]
fn opponent_wins_row() {
    // GIVEN: host is O, opponent plays X and fills the top row
    let mut store = GameStore::new();
    execute(
        &mut store,
        mock_info("host", &coins(2, "token")),
        ExecuteMsg::Invite {
            coord: Coord { x: 0, y: 2 },
            host_symbol: PlayerSymbol::O,
            opponent: String::from("opponent"),
        },
    )
    .unwrap();
    execute(
        &mut store,
        mock_info("opponent", &coins(2, "token")),
        ExecuteMsg::Accept { coord: Coord { x: 0, y: 0 }, host: String::from("host") },
    )
    .unwrap();
    host_plays(&mut store, 1, 1).unwrap();
    opponent_plays(&mut store, 1, 0).unwrap();
    host_plays(&mut store, 2, 1).unwrap();

    // WHEN the opponent completes the top row
    let play_res = opponent_plays(&mut store, 2, 0).unwrap();

    // THEN the whole doubled stake goes to the mover
    assert_eq!(
        play_res,
        Response::new()
            .add_attribute("method", "play")
            .add_attribute("x", "2")
            .add_attribute("y", "0")
            .add_attribute("status", "COMPLETED")
            .add_attribute("opponent", "host")
            .add_attribute("winner", "X")
            .add_message(Transfer {
                to_address: String::from("opponent"),
                amount: coins(4, "token"),
            })
    );
    let query_value = query(&store, QueryMsg::Games { key: None, status: None });
    assert_eq!(query_value[0].game.winner, Some(PlayerSymbol::X));
    assert_eq!(query_value[0].game.status, Status::COMPLETED);
}

#[test]
fn invite_again_after_completed_game() {
    // GIVEN a match played to a win
    let mut store = GameStore::new();
    execute(
        &mut store,
        mock_info("host", &coins(2, "token")),
        ExecuteMsg::Invite {
            coord: Coord { x: 1, y: 1 },
            host_symbol: PlayerSymbol::X,
            opponent: String::from("opponent"),
        },
    )
    .unwrap();
    execute(
        &mut store,
        mock_info("opponent", &coins(2, "token")),
        ExecuteMsg::Accept { coord: Coord { x: 2, y: 2 }, host: String::from("host") },
    )
    .unwrap();
    host_plays(&mut store, 1, 0).unwrap();
    opponent_plays(&mut store, 0, 2).unwrap();
    host_plays(&mut store, 1, 2).unwrap();

    // WHEN the same pair starts over
    let res = execute(
        &mut store,
        mock_info("host", &coins(2, "token")),
        ExecuteMsg::Invite {
            coord: Coord { x: 0, y: 0 },
            host_symbol: PlayerSymbol::O,
            opponent: String::from("opponent"),
        },
    );

    // THEN the completed match no longer blocks a fresh invitation
    assert!(res.is_ok());
    let query_value = query(
        &store,
        QueryMsg::Games {
            key: Some(QueryKey {
                host: String::from("host"),
                opponent: String::from("opponent"),
            }),
            status: Some(Status::INVITED),
        },
    );
    assert_eq!(query_value.len(), 1);
    assert_eq!(query_value[0].game.host_symbol, PlayerSymbol::O);
}
