//! The match state machine: Invite, Reject, Accept and Play, each specified
//! as a pure transition on the store's mathematical value and implemented
//! against that specification. Validation precedes mutation everywhere: an
//! operation that errs leaves the store exactly as it was.

use vstd::prelude::*;

use crate::error::ContractError;
use crate::error::ErrorView;
use crate::msg::ExecuteMsg;
use crate::msg::InfoView;
use crate::msg::MessageInfo;
use crate::msg::MsgView;
use crate::response::AttributeView;
use crate::response::Response;
use crate::response::ResponseView;
use crate::response::Transfer;
use crate::response::TransferView;
use crate::state::board_at;
use crate::state::board_full;
use crate::state::board_set;
use crate::state::clone_coins;
use crate::state::CoinView;
use crate::state::coins_equal;
use crate::state::doubled_prize;
use crate::state::game_new_spec;
use crate::state::game_wf;
use crate::state::halved_prize;
use crate::state::prize_fits_doubling;
use crate::state::status_text;
use crate::state::symbol_text;
use crate::state::wins;
use crate::state::Coord;
use crate::state::Game;
use crate::state::GameView;
use crate::state::PlayerSymbol;
use crate::state::Status;
use crate::store::has_active;
use crate::store::lookup;
use crate::store::save_spec;
use crate::store::EntryView;
use crate::store::GameStore;

verus! {

/// One descriptive attribute.
pub open spec fn attr(key: Seq<char>, value: Seq<char>) -> AttributeView {
    AttributeView { key, value }
}

/// The decimal text of a board coordinate component.
pub open spec fn coord_text(v: u8) -> Seq<char> {
    if v == 0 {
        "0"@
    } else if v == 1 {
        "1"@
    } else {
        "2"@
    }
}

/// The decimal text of a board coordinate component.
fn coord_string(v: u8) -> (s: String)
    requires
        v < 3,
    ensures
        s@ == coord_text(v),
{
    if v == 0 {
        "0".to_owned()
    } else if v == 1 {
        "1".to_owned()
    } else {
        "2".to_owned()
    }
}

/// What a successful invitation reports.
pub open spec fn invite_response(
    coord: Coord,
    host_symbol: PlayerSymbol,
    opponent: Seq<char>,
) -> ResponseView {
    ResponseView {
        attributes: seq![
            attr("method"@, "invite"@),
            attr("x"@, coord_text(coord.x)),
            attr("y"@, coord_text(coord.y)),
            attr("host_symbol"@, symbol_text(host_symbol)),
            attr("opponent"@, opponent),
        ],
        messages: Seq::empty(),
    }
}

/// What a successful rejection reports: the whole stake goes back to the
/// match's host.
pub open spec fn reject_response(
    opponent: Seq<char>,
    refund_to: Seq<char>,
    prize: Seq<CoinView>,
) -> ResponseView {
    ResponseView {
        attributes: seq![attr("method"@, "reject"@), attr("opponent"@, opponent)],
        messages: seq![TransferView { to_address: refund_to, amount: prize }],
    }
}

/// What a successful acceptance reports.
pub open spec fn accept_response(coord: Coord, host: Seq<char>) -> ResponseView {
    ResponseView {
        attributes: seq![
            attr("method"@, "accept"@),
            attr("x"@, coord_text(coord.x)),
            attr("y"@, coord_text(coord.y)),
            attr("opponent"@, host),
        ],
        messages: Seq::empty(),
    }
}

/// The attributes every successful move reports.
pub open spec fn play_base_attrs(coord: Coord, st: Status, opponent: Seq<char>) -> Seq<
    AttributeView,
> {
    seq![
        attr("method"@, "play"@),
        attr("x"@, coord_text(coord.x)),
        attr("y"@, coord_text(coord.y)),
        attr("status"@, status_text(st)),
        attr("opponent"@, opponent),
    ]
}

/// What an invitation does: rejects an off-board coordinate, a self-invite,
/// and a pair with an active match in either direction; otherwise stores a
/// fresh INVITED match under `(sender, opponent)` escrowing the attached
/// funds.
pub open spec fn invite_spec(
    store: Seq<EntryView>,
    sender: Seq<char>,
    funds: Seq<CoinView>,
    coord: Coord,
    host_symbol: PlayerSymbol,
    opponent: Seq<char>,
) -> (Result<ResponseView, ErrorView>, Seq<EntryView>) {
    if !coord.spec_valid() {
        (Err(ErrorView::InvalidCoord { coord }), store)
    } else if opponent == sender {
        (Err(ErrorView::CannotStartGame), store)
    } else if has_active(store, sender, opponent) || has_active(store, opponent, sender) {
        (Err(ErrorView::GameAlreadyInProgress { host: sender, opponent }), store)
    } else {
        (
            Ok(invite_response(coord, host_symbol, opponent)),
            save_spec(store, sender, opponent, game_new_spec(coord, funds, host_symbol)),
        )
    }
}

/// What a rejection does: the caller addresses the match by role; only an
/// INVITED match can be rejected, and its whole stake is refunded to the
/// stored host (the party that funded the invitation), whichever side
/// rejects.
pub open spec fn reject_spec(
    store: Seq<EntryView>,
    sender: Seq<char>,
    as_host: bool,
    opponent: Seq<char>,
) -> (Result<ResponseView, ErrorView>, Seq<EntryView>) {
    let host = if as_host {
        sender
    } else {
        opponent
    };
    let opp = if as_host {
        opponent
    } else {
        sender
    };
    match lookup(store, host, opp) {
        Some(g) => if g.status == Status::INVITED {
            (
                Ok(reject_response(opponent, host, g.prize)),
                save_spec(store, host, opp, GameView { status: Status::REJECTED, ..g }),
            )
        } else {
            (Err(ErrorView::GameNotFound { host: sender, opponent }), store)
        },
        None => (Err(ErrorView::GameNotFound { host: sender, opponent }), store),
    }
}

/// What an acceptance does: rejects an off-board coordinate, a missing or
/// non-INVITED match, an occupied cell, and funds that differ from the
/// stake; otherwise doubles every stake amount, places the accepter's mark
/// (the opening move folded into acceptance), hands the turn to the host,
/// and sets the match PLAYING.
pub open spec fn accept_spec(
    store: Seq<EntryView>,
    sender: Seq<char>,
    funds: Seq<CoinView>,
    coord: Coord,
    host: Seq<char>,
) -> (Result<ResponseView, ErrorView>, Seq<EntryView>) {
    if !coord.spec_valid() {
        (Err(ErrorView::InvalidCoord { coord }), store)
    } else {
        match lookup(store, host, sender) {
            Some(g) => if g.status == Status::INVITED {
                if board_at(g.board, coord) is Some {
                    (Err(ErrorView::CoordinateAlreadyPlayed { coord }), store)
                } else if funds != g.prize {
                    (Err(ErrorView::InvalidReceivedFunds), store)
                } else {
                    let g2 = GameView {
                        board: board_set(g.board, coord, Some(g.player_round)),
                        player_round: g.player_round.spec_other(),
                        prize: doubled_prize(g.prize),
                        status: Status::PLAYING,
                        ..g
                    };
                    (Ok(accept_response(coord, host)), save_spec(store, host, sender, g2))
                }
            } else {
                (Err(ErrorView::InvalidGame { host: sender, opponent: host }), store)
            },
            None => (Err(ErrorView::InvalidGame { host: sender, opponent: host }), store),
        }
    }
}

/// What a move does: rejects an off-board coordinate, a missing or
/// non-PLAYING match at the role-addressed key, an occupied cell, and a
/// caller whose turn it is not; otherwise places the mover's mark. A
/// completed line ends the match with the mover as winner and the whole
/// stake sent to the mover; a full board without a line ends it as a tie,
/// sending each side half of the stake; otherwise the turn flips.
pub open spec fn play_spec(
    store: Seq<EntryView>,
    sender: Seq<char>,
    as_host: bool,
    coord: Coord,
    opponent: Seq<char>,
) -> (Result<ResponseView, ErrorView>, Seq<EntryView>) {
    if !coord.spec_valid() {
        (Err(ErrorView::InvalidCoord { coord }), store)
    } else {
        let host = if as_host {
            sender
        } else {
            opponent
        };
        let opp = if as_host {
            opponent
        } else {
            sender
        };
        match lookup(store, host, opp) {
            Some(g) => if g.status == Status::PLAYING {
                if board_at(g.board, coord) is Some {
                    (Err(ErrorView::CoordinateAlreadyPlayed { coord }), store)
                } else if (if as_host {
                    g.player_round != g.host_symbol
                } else {
                    g.player_round == g.host_symbol
                }) {
                    (Err(ErrorView::TurnAlreadyPlayed { second_player: opponent }), store)
                } else {
                    let s = g.player_round;
                    let b2 = board_set(g.board, coord, Some(s));
                    if wins(b2, s) {
                        let g2 = GameView {
                            board: b2,
                            status: Status::COMPLETED,
                            winner: Some(s),
                            ..g
                        };
                        let rv = ResponseView {
                            attributes: play_base_attrs(coord, Status::COMPLETED, opponent).push(
                                attr("winner"@, symbol_text(s)),
                            ),
                            messages: seq![TransferView { to_address: sender, amount: g.prize }],
                        };
                        (Ok(rv), save_spec(store, host, opp, g2))
                    } else if board_full(b2) {
                        let g2 = GameView { board: b2, status: Status::COMPLETED, ..g };
                        let rv = ResponseView {
                            attributes: play_base_attrs(coord, Status::COMPLETED, opponent),
                            messages: seq![
                                TransferView { to_address: sender, amount: halved_prize(g.prize) },
                                TransferView {
                                    to_address: opponent,
                                    amount: halved_prize(g.prize),
                                },
                            ],
                        };
                        (Ok(rv), save_spec(store, host, opp, g2))
                    } else {
                        let g2 = GameView { board: b2, player_round: s.spec_other(), ..g };
                        let rv = ResponseView {
                            attributes: play_base_attrs(coord, Status::PLAYING, opponent),
                            messages: Seq::empty(),
                        };
                        (Ok(rv), save_spec(store, host, opp, g2))
                    }
                }
            } else {
                (Err(ErrorView::InvalidGame { host: sender, opponent }), store)
            },
            None => (Err(ErrorView::InvalidGame { host: sender, opponent }), store),
        }
    }
}

/// What any state-changing call does.
pub open spec fn execute_spec(store: Seq<EntryView>, info: InfoView, msg: MsgView) -> (
    Result<ResponseView, ErrorView>,
    Seq<EntryView>,
) {
    match msg {
        MsgView::Invite { coord, host_symbol, opponent } => invite_spec(
            store,
            info.sender,
            info.funds,
            coord,
            host_symbol,
            opponent,
        ),
        MsgView::Reject { as_host, opponent } => reject_spec(store, info.sender, as_host, opponent),
        MsgView::Accept { coord, host } => accept_spec(store, info.sender, info.funds, coord, host),
        MsgView::Play { as_host, coord, opponent } => play_spec(
            store,
            info.sender,
            as_host,
            coord,
            opponent,
        ),
    }
}

/// The executable result agrees with the specified one: same success or
/// failure, and the same mathematical value either way.
pub open spec fn result_matches(
    r: Result<Response, ContractError>,
    v: Result<ResponseView, ErrorView>,
) -> bool {
    match r {
        Ok(resp) => v matches Ok(rv) && resp@ == rv,
        Err(e) => v matches Err(ev) && e@ == ev,
    }
}

/// If an INVITED match is stored under `(host, sender)`, its stake can
/// still be doubled within the machine range. Acceptance multiplies every
/// stake amount by two and owes its caller that this cannot overflow.
pub open spec fn accept_prize_fits(
    store: Seq<EntryView>,
    host: Seq<char>,
    sender: Seq<char>,
) -> bool {
    match lookup(store, host, sender) {
        Some(g) => g.status == Status::INVITED ==> prize_fits_doubling(g.prize),
        None => true,
    }
}

/// Dispatches a state-changing call to the operation it names.
pub fn execute(store: &mut GameStore, info: MessageInfo, msg: ExecuteMsg) -> (r: Result<
    Response,
    ContractError,
>)
    requires
        old(store).wf(),
        msg@ matches MsgView::Accept { host, .. } ==> accept_prize_fits(
            old(store)@,
            host,
            info.sender@,
        ),
    ensures
        result_matches(r, execute_spec(old(store)@, info@, msg@).0),
        final(store)@ == execute_spec(old(store)@, info@, msg@).1,
        final(store).wf(),
{
    match msg {
        ExecuteMsg::Invite { coord, host_symbol, opponent } => try_invite(
            store,
            info,
            coord,
            host_symbol,
            opponent,
        ),
        ExecuteMsg::Reject { as_host, opponent } => try_reject(store, info, as_host, opponent),
        ExecuteMsg::Accept { coord, host } => try_accept(store, info, coord, host),
        ExecuteMsg::Play { as_host, coord, opponent } => try_play(
            store,
            info,
            as_host,
            coord,
            opponent,
        ),
    }
}

fn try_invite(
    store: &mut GameStore,
    info: MessageInfo,
    coord: Coord,
    host_symbol: PlayerSymbol,
    opponent: String,
) -> (r: Result<Response, ContractError>)
    requires
        old(store).wf(),
    ensures
        result_matches(
            r,
            invite_spec(old(store)@, info.sender@, info@.funds, coord, host_symbol, opponent@).0,
        ),
        final(store)@ == invite_spec(
            old(store)@,
            info.sender@,
            info@.funds,
            coord,
            host_symbol,
            opponent@,
        ).1,
        final(store).wf(),
{
    if !coord.is_valid() {
        return Err(ContractError::InvalidCoord { coord });
    }
    if opponent == info.sender {
        return Err(ContractError::CannotStartGame {});
    }
    let hosted = store.load(&info.sender, &opponent);
    let invited = store.load(&opponent, &info.sender);
    let hosted_active = match &hosted {
        Some(g) => g.status.is_active(),
        None => false,
    };
    let invited_active = match &invited {
        Some(g) => g.status.is_active(),
        None => false,
    };
    if hosted_active || invited_active {
        return Err(ContractError::GameAlreadyInProgress { host: info.sender, opponent });
    }
    let game = Game::new(coord, info.funds, host_symbol);
    store.save(info.sender, opponent.clone(), game);
    let resp = Response::new()
        .add_attribute("method", "invite")
        .add_attribute_value("x", coord_string(coord.x))
        .add_attribute_value("y", coord_string(coord.y))
        .add_attribute_value("host_symbol", host_symbol.text())
        .add_attribute_value("opponent", opponent);
    proof {
        assert(resp@.attributes =~= invite_response(coord, host_symbol, opponent@).attributes);
        assert(resp@ =~~= invite_response(coord, host_symbol, opponent@));
    }
    Ok(resp)
}

fn try_reject(store: &mut GameStore, info: MessageInfo, as_host: bool, opponent: String) -> (r:
    Result<Response, ContractError>)
    requires
        old(store).wf(),
    ensures
        result_matches(r, reject_spec(old(store)@, info.sender@, as_host, opponent@).0),
        final(store)@ == reject_spec(old(store)@, info.sender@, as_host, opponent@).1,
        final(store).wf(),
{
    let key_host = if as_host {
        info.sender.clone()
    } else {
        opponent.clone()
    };
    let key_opp = if as_host {
        opponent.clone()
    } else {
        info.sender.clone()
    };
    let found = store.load(&key_host, &key_opp);
    let mut game = match found {
        Some(g) => {
            if g.status == Status::INVITED {
                g
            } else {
                return Err(ContractError::GameNotFound { host: info.sender, opponent });
            }
        },
        None => {
            return Err(ContractError::GameNotFound { host: info.sender, opponent });
        },
    };
    let ghost g0 = game@;
    game.status = Status::REJECTED;
    proof {
        assert(game@ =~~= (GameView { status: Status::REJECTED, ..g0 }));
    }
    let refund = Transfer { to_address: key_host.clone(), amount: clone_coins(&game.prize) };
    store.save(key_host, key_opp, game);
    let resp = Response::new()
        .add_attribute("method", "reject")
        .add_attribute_value("opponent", opponent)
        .add_message(refund);
    proof {
        let rv = reject_spec(old(store)@, info.sender@, as_host, opponent@).0->Ok_0;
        assert(resp@.attributes =~= rv.attributes);
        assert(resp@.messages =~= rv.messages);
        assert(resp@ =~~= rv);
    }
    Ok(resp)
}

fn try_accept(store: &mut GameStore, info: MessageInfo, coord: Coord, host: String) -> (r: Result<
    Response,
    ContractError,
>)
    requires
        old(store).wf(),
        accept_prize_fits(old(store)@, host@, info.sender@),
    ensures
        result_matches(r, accept_spec(old(store)@, info.sender@, info@.funds, coord, host@).0),
        final(store)@ == accept_spec(old(store)@, info.sender@, info@.funds, coord, host@).1,
        final(store).wf(),
{
    if !coord.is_valid() {
        return Err(ContractError::InvalidCoord { coord });
    }
    let found = store.load(&host, &info.sender);
    let mut game = match found {
        Some(g) => {
            if g.status == Status::INVITED {
                g
            } else {
                return Err(ContractError::InvalidGame { host: info.sender, opponent: host });
            }
        },
        None => {
            return Err(ContractError::InvalidGame { host: info.sender, opponent: host });
        },
    };
    if game.already_played_on(coord) {
        return Err(ContractError::CoordinateAlreadyPlayed { coord });
    }
    if !coins_equal(&game.prize, &info.funds) {
        return Err(ContractError::InvalidReceivedFunds {});
    }
    let ghost g0 = game@;
    game.double_prize();
    game.play(coord);
    game.finish_round();
    game.status = Status::PLAYING;
    proof {
        assert(game@ =~~= (GameView {
            board: board_set(g0.board, coord, Some(g0.player_round)),
            player_round: g0.player_round.spec_other(),
            prize: doubled_prize(g0.prize),
            status: Status::PLAYING,
            ..g0
        }));
        assert forall|i: int| 0 <= i < game@.prize.len() implies (#[trigger] game@.prize[i]).amount
            % 2 == 0 by {
            assert(g0.prize[i].amount <= u128::MAX / 2);
        }
        assert(game_wf(game@));
    }
    store.save(host.clone(), info.sender, game);
    let resp = Response::new()
        .add_attribute("method", "accept")
        .add_attribute_value("x", coord_string(coord.x))
        .add_attribute_value("y", coord_string(coord.y))
        .add_attribute_value("opponent", host);
    proof {
        assert(resp@.attributes =~= accept_response(coord, host@).attributes);
        assert(resp@ =~~= accept_response(coord, host@));
    }
    Ok(resp)
}

fn try_play(
    store: &mut GameStore,
    info: MessageInfo,
    as_host: bool,
    coord: Coord,
    opponent: String,
) -> (r: Result<Response, ContractError>)
    requires
        old(store).wf(),
    ensures
        result_matches(r, play_spec(old(store)@, info.sender@, as_host, coord, opponent@).0),
        final(store)@ == play_spec(old(store)@, info.sender@, as_host, coord, opponent@).1,
        final(store).wf(),
{
    if !coord.is_valid() {
        return Err(ContractError::InvalidCoord { coord });
    }
    let key_host = if as_host {
        info.sender.clone()
    } else {
        opponent.clone()
    };
    let key_opp = if as_host {
        opponent.clone()
    } else {
        info.sender.clone()
    };
    let found = store.load(&key_host, &key_opp);
    let mut game = match found {
        Some(g) => {
            if g.status == Status::PLAYING {
                g
            } else {
                return Err(ContractError::InvalidGame { host: info.sender, opponent });
            }
        },
        None => {
            return Err(ContractError::InvalidGame { host: info.sender, opponent });
        },
    };
    if game.already_played_on(coord) {
        return Err(ContractError::CoordinateAlreadyPlayed { coord });
    }
    if game.already_played(as_host) {
        return Err(ContractError::TurnAlreadyPlayed { second_player: opponent });
    }
    let ghost g0 = game@;
    game.play(coord);
    let won = game.is_current_player_winner();
    let full = game.is_full_board();
    if won {
        game.status = Status::COMPLETED;
        game.winner = Some(game.player_round);
        proof {
            assert(game@ =~~= (GameView {
                board: board_set(g0.board, coord, Some(g0.player_round)),
                status: Status::COMPLETED,
                winner: Some(g0.player_round),
                ..g0
            }));
        }
    } else if full {
        game.status = Status::COMPLETED;
        proof {
            assert(game@ =~~= (GameView {
                board: board_set(g0.board, coord, Some(g0.player_round)),
                status: Status::COMPLETED,
                ..g0
            }));
        }
    } else {
        game.finish_round();
        proof {
            assert(game@ =~~= (GameView {
                board: board_set(g0.board, coord, Some(g0.player_round)),
                player_round: g0.player_round.spec_other(),
                ..g0
            }));
        }
    }
    // taken before the record moves into the store; each outcome below uses
    // its own share of these
    let status_string = game.status.text();
    let winner_string = game.player_round.text();
    let prize_copy = clone_coins(&game.prize);
    let half = game.get_half_prize();
    store.save(key_host, key_opp, game);
    let resp = Response::new()
        .add_attribute("method", "play")
        .add_attribute_value("x", coord_string(coord.x))
        .add_attribute_value("y", coord_string(coord.y))
        .add_attribute_value("status", status_string)
        .add_attribute("opponent", opponent.as_str());
    let ghost spec_result = play_spec(old(store)@, info.sender@, as_host, coord, opponent@);
    if won {
        let resp = resp
            .add_attribute_value("winner", winner_string)
            .add_message(Transfer { to_address: info.sender, amount: prize_copy });
        proof {
            let rv = spec_result.0->Ok_0;
            assert(resp@.attributes =~= rv.attributes);
            assert(resp@.messages =~= rv.messages);
            assert(resp@ =~~= rv);
        }
        Ok(resp)
    } else if full {
        let resp = resp
            .add_message(Transfer { to_address: info.sender, amount: clone_coins(&half) })
            .add_message(Transfer { to_address: opponent, amount: half });
        proof {
            let rv = spec_result.0->Ok_0;
            assert(resp@.attributes =~= rv.attributes);
            assert(resp@.messages =~= rv.messages);
            assert(resp@ =~~= rv);
        }
        Ok(resp)
    } else {
        proof {
            let rv = spec_result.0->Ok_0;
            assert(resp@.attributes =~= rv.attributes);
            assert(resp@.messages =~= rv.messages);
            assert(resp@ =~~= rv);
        }
        Ok(resp)
    }
}

} // verus!
