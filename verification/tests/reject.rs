use tic_tac_toe::Coin;
use tic_tac_toe::ContractError;
use tic_tac_toe::Coord;
use tic_tac_toe::ExecuteMsg;
use tic_tac_toe::GameStore;
use tic_tac_toe::MessageInfo;
use tic_tac_toe::PlayerSymbol;
use tic_tac_toe::QueryKey;
use tic_tac_toe::QueryMsg;
use tic_tac_toe::Response;
use tic_tac_toe::Status;
use tic_tac_toe::Transfer;
use tic_tac_toe::execute;
use tic_tac_toe::query;

fn coins(amount: u128, denom: &str) -> Vec<Coin> {
    vec![Coin { denom: denom.to_string(), amount }]
}

fn mock_info(sender: &str, funds: &[Coin]) -> MessageInfo {
    MessageInfo { sender: sender.to_string(), funds: funds.to_vec() }
}

#[test]
fn reject_round() {
    // GIVEN
    let mut store = GameStore::new();
    execute(
        &mut store,
        mock_info("host", &coins(2, "token")),
        ExecuteMsg::Invite {
            coord: Coord { x: 2, y: 0 },
            host_symbol: PlayerSymbol::X,
            opponent: String::from("opponent"),
        },
    )
    .unwrap();

    // WHEN
    let reject_res = execute(
        &mut store,
        mock_info("opponent", &coins(2, "token")),
        ExecuteMsg::Reject { as_host: false, opponent: String::from("host") },
    )
    .unwrap();

    // THEN the full stake is refunded to the host
    assert_eq!(
        reject_res,
        Response::new()
            .add_attribute("method", "reject")
            .add_attribute("opponent", "host")
            .add_message(Transfer {
                to_address: String::from("host"),
                amount: coins(2, "token"),
            })
    );
}

#[test]
fn reject_inexistent_existent_round() {
    // GIVEN
    let mut store = GameStore::new();

    // WHEN
    let reject_res = execute(
        &mut store,
        mock_info("opponent", &coins(2, "token")),
        ExecuteMsg::Reject { as_host: false, opponent: String::from("host") },
    )
    .unwrap_err();

    // THEN
    assert_eq!(
        reject_res,
        ContractError::GameNotFound {
            host: String::from("opponent"),
            opponent: String::from("host"),
        }
    );
}

#[test]
fn reject_as_host_refunds_host() {
    // GIVEN
    let mut store = GameStore::new();
    execute(
        &mut store,
        mock_info("host", &coins(7, "token")),
        ExecuteMsg::Invite {
            coord: Coord { x: 0, y: 1 },
            host_symbol: PlayerSymbol::O,
            opponent: String::from("opponent"),
        },
    )
    .unwrap();

    // WHEN the host itself withdraws the invitation
    let reject_res = execute(
        &mut store,
        mock_info("host", &[]),
        ExecuteMsg::Reject { as_host: true, opponent: String::from("opponent") },
    )
    .unwrap();

    // THEN the refund still goes to the host, and the match is REJECTED
    assert_eq!(
        reject_res,
        Response::new()
            .add_attribute("method", "reject")
            .add_attribute("opponent", "opponent")
            .add_message(Transfer {
                to_address: String::from("host"),
                amount: coins(7, "token"),
            })
    );
    let query_value = query(
        &store,
        QueryMsg::Games {
            key: Some(QueryKey {
                host: String::from("host"),
                opponent: String::from("opponent"),
            }),
            status: None,
        },
    );
    assert_eq!(query_value[0].game.status, Status::REJECTED);
}

#[test]
fn reject_playing_round_not_found() {
    // GIVEN an already accepted match
    let mut store = GameStore::new();
    execute(
        &mut store,
        mock_info("host", &coins(2, "token")),
        ExecuteMsg::Invite {
            coord: Coord { x: 2, y: 0 },
            host_symbol: PlayerSymbol::X,
            opponent: String::from("opponent"),
        },
    )
    .unwrap();
    execute(
        &mut store,
        mock_info("opponent", &coins(2, "token")),
        ExecuteMsg::Accept { coord: Coord { x: 1, y: 1 }, host: String::from("host") },
    )
    .unwrap();

    // WHEN a rejection comes after acceptance
    let reject_res = execute(
        &mut store,
        mock_info("opponent", &[]),
        ExecuteMsg::Reject { as_host: false, opponent: String::from("host") },
    )
    .unwrap_err();

    // THEN only an INVITED match can be rejected
    assert_eq!(
        reject_res,
        ContractError::GameNotFound {
            host: String::from("opponent"),
            opponent: String::from("host"),
        }
    );
}
