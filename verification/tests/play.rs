use tic_tac_toe::Coin;
use tic_tac_toe::ContractError;
use tic_tac_toe::Coord;
use tic_tac_toe::ExecuteMsg;
use tic_tac_toe::Game;
use tic_tac_toe::GameResponse;
use tic_tac_toe::GameStore;
use tic_tac_toe::MessageInfo;
use tic_tac_toe::PlayerSymbol;
use tic_tac_toe::QueryKey;
use tic_tac_toe::QueryMsg;
use tic_tac_toe::Response;
use tic_tac_toe::Status;
use tic_tac_toe::execute;
use tic_tac_toe::query;

fn coins(amount: u128, denom: &str) -> Vec<Coin> {
    vec![Coin { denom: denom.to_string(), amount }]
}

fn mock_info(sender: &str, funds: &[Coin]) -> MessageInfo {
    MessageInfo { sender: sender.to_string(), funds: funds.to_vec() }
}

/// An accepted match: X for the host at (2,0), O for the opponent at (1,1),
/// the turn at the host, a doubled stake of 4 "token".
fn playing_store() -> GameStore {
    let mut store = GameStore::new();
    execute(
        &mut store,
        mock_info("host", &coins(2, "token")),
        ExecuteMsg::Invite {
            coord: Coord { x: 2, y: 0 },
            host_symbol: PlayerSymbol::X,
            opponent: String::from("opponent"),
        },
    )
    .unwrap();
    execute(
        &mut store,
        mock_info("opponent", &coins(2, "token")),
        ExecuteMsg::Accept { coord: Coord { x: 1, y: 1 }, host: String::from("host") },
    )
    .unwrap();
    store
}

#[test]
fn play_round() {
    // GIVEN
    let mut store = playing_store();

    // WHEN
    let play_res = execute(
        &mut store,
        mock_info("host", &coins(2, "token")),
        ExecuteMsg::Play {
            as_host: true,
            coord: Coord { x: 2, y: 2 },
            opponent: String::from("opponent"),
        },
    )
    .unwrap();
    let query_value: Vec<GameResponse> = query(
        &store,
        QueryMsg::Games {
            key: Some(QueryKey {
                host: String::from("host"),
                opponent: String::from("opponent"),
            }),
            status: Some(Status::PLAYING),
        },
    );

    // THEN
    assert_eq!(
        play_res,
        Response::new()
            .add_attribute("method", "play")
            .add_attribute("x", "2")
            .add_attribute("y", "2")
            .add_attribute("status", "PLAYING")
            .add_attribute("opponent", "opponent")
    );
    assert_eq!(
        query_value,
        vec![GameResponse {
            host: String::from("host"),
            opponent: String::from("opponent"),
            game: Game {
                board: vec![
                    vec![None, None, Some(PlayerSymbol::X)],
                    vec![None, Some(PlayerSymbol::O), None],
                    vec![None, None, Some(PlayerSymbol::X)],
                ],
                player_round: PlayerSymbol::O,
                host_symbol: PlayerSymbol::X,
                prize: coins(4, "token"),
                status: Status::PLAYING,
                winner: None,
            },
        }]
    );
}

#[test]
fn play_round_with_invalid_coords() {
    // GIVEN
    let mut store = playing_store();

    // WHEN
    let play_res = execute(
        &mut store,
        mock_info("host", &coins(2, "token")),
        ExecuteMsg::Play {
            as_host: true,
            coord: Coord { x: 3, y: 3 },
            opponent: String::from("opponent"),
        },
    )
    .unwrap_err();

    // THEN
    assert_eq!(play_res, ContractError::InvalidCoord { coord: Coord { x: 3, y: 3 } });
}

#[test]
fn play_inexistent_round() {
    // GIVEN
    let mut store = playing_store();

    // WHEN the opponent addresses a key with itself as host
    let play_res = execute(
        &mut store,
        mock_info("opponent", &coins(2, "token")),
        ExecuteMsg::Play {
            as_host: true,
            coord: Coord { x: 1, y: 2 },
            opponent: String::from("opponent"),
        },
    )
    .unwrap_err();

    // THEN
    assert_eq!(
        play_res,
        ContractError::InvalidGame {
            host: String::from("opponent"),
            opponent: String::from("opponent"),
        }
    );
}

#[test]
fn play_invited_round() {
    // GIVEN an invitation that was never accepted
    let mut store = GameStore::new();
    execute(
        &mut store,
        mock_info("host", &coins(2, "token")),
        ExecuteMsg::Invite {
            coord: Coord { x: 2, y: 0 },
            host_symbol: PlayerSymbol::X,
            opponent: String::from("opponent"),
        },
    )
    .unwrap();

    // WHEN
    let play_res = execute(
        &mut store,
        mock_info("opponent", &coins(2, "token")),
        ExecuteMsg::Play {
            as_host: true,
            coord: Coord { x: 1, y: 2 },
            opponent: String::from("host"),
        },
    )
    .unwrap_err();

    // THEN
    assert_eq!(
        play_res,
        ContractError::InvalidGame {
            host: String::from("opponent"),
            opponent: String::from("host"),
        }
    );
}

#[test]
fn play_round_on_existent_symbol() {
    // GIVEN
    let mut store = playing_store();

    // WHEN
    let play_res = execute(
        &mut store,
        mock_info("host", &coins(2, "token")),
        ExecuteMsg::Play {
            as_host: true,
            coord: Coord { x: 1, y: 1 },
            opponent: String::from("opponent"),
        },
    )
    .unwrap_err();

    // THEN
    assert_eq!(play_res, ContractError::CoordinateAlreadyPlayed { coord: Coord { x: 1, y: 1 } });
}

#[test]
fn play_two_rounds_as_host() {
    // GIVEN
    let mut store = playing_store();
    execute(
        &mut store,
        mock_info("host", &coins(2, "token")),
        ExecuteMsg::Play {
            as_host: true,
            coord: Coord { x: 2, y: 1 },
            opponent: String::from("opponent"),
        },
    )
    .unwrap();

    // WHEN
    let play_res = execute(
        &mut store,
        mock_info("host", &coins(2, "token")),
        ExecuteMsg::Play {
            as_host: true,
            coord: Coord { x: 0, y: 0 },
            opponent: String::from("opponent"),
        },
    )
    .unwrap_err();

    // THEN
    assert_eq!(
        play_res,
        ContractError::TurnAlreadyPlayed { second_player: String::from("opponent") }
    );
}

#[test]
fn play_two_rounds_as_opponent() {
    // GIVEN a match where the turn is the host's
    let mut store = playing_store();

    // WHEN the opponent moves again without the host moving
    let play_res = execute(
        &mut store,
        mock_info("opponent", &coins(2, "token")),
        ExecuteMsg::Play {
            as_host: false,
            coord: Coord { x: 0, y: 0 },
            opponent: String::from("host"),
        },
    )
    .unwrap_err();

    // THEN
    assert_eq!(play_res, ContractError::TurnAlreadyPlayed { second_player: String::from("host") });
}
