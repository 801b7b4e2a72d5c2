//! Laws of the match engine, each proved from the transition
//! specifications alone.

use vstd::prelude::*;

use crate::error::ErrorView;
use crate::execute::accept_spec;
use crate::execute::invite_spec;
use crate::execute::play_spec;
use crate::response::ResponseView;
use crate::response::TransferView;
use crate::state::board_at;
use crate::state::board_full;
use crate::state::board_set;
use crate::state::doubled_prize;
use crate::state::empty_board;
use crate::state::game_new_spec;
use crate::state::halved_prize;
use crate::state::lemma_board_set_at;
use crate::state::lemma_empty_board_at;
use crate::state::wins;
use crate::state::CoinView;
use crate::state::Coord;
use crate::state::GameView;
use crate::state::PlayerSymbol;
use crate::state::Status;
use crate::execute::execute_spec;
use crate::msg::InfoView;
use crate::msg::MsgView;
use crate::store::has_active;
use crate::store::lemma_find_index;
use crate::store::lemma_lookup_save;
use crate::store::lemma_lookup_save_other;
use crate::store::lookup;
use crate::store::one_active_per_pair;
use crate::store::save_spec;
use crate::store::store_wf;
use crate::store::EntryView;

verus! {

/// An off-board coordinate is rejected by invitation, acceptance and play
/// alike, with the coordinate error, and the store is left untouched.
pub proof fn lemma_invalid_coord_rejected(
    store: Seq<EntryView>,
    sender: Seq<char>,
    funds: Seq<CoinView>,
    coord: Coord,
    host_symbol: PlayerSymbol,
    as_host: bool,
    other: Seq<char>,
)
    requires
        !coord.spec_valid(),
    ensures
        invite_spec(store, sender, funds, coord, host_symbol, other) == (
            Err::<ResponseView, ErrorView>(ErrorView::InvalidCoord { coord }),
            store,
        ),
        accept_spec(store, sender, funds, coord, other) == (
            Err::<ResponseView, ErrorView>(ErrorView::InvalidCoord { coord }),
            store,
        ),
        play_spec(store, sender, as_host, coord, other) == (
            Err::<ResponseView, ErrorView>(ErrorView::InvalidCoord { coord }),
            store,
        ),
{
}

/// Inviting oneself always fails with the self-invite error, whatever the
/// stake, the symbol and the stored matches, and the store is left
/// untouched. An off-board coordinate is reported before the self-invite
/// check, so a valid coordinate is assumed.
pub proof fn lemma_self_invite_rejected(
    store: Seq<EntryView>,
    sender: Seq<char>,
    funds: Seq<CoinView>,
    coord: Coord,
    host_symbol: PlayerSymbol,
)
    requires
        coord.spec_valid(),
    ensures
        invite_spec(store, sender, funds, coord, host_symbol, sender) == (
            Err::<ResponseView, ErrorView>(ErrorView::CannotStartGame),
            store,
        ),
{
}

/// Once an invitation between two addresses succeeds, repeating it — in
/// the same direction or the opposite one — fails with the active-match
/// error while the stored match is still active, and the store is left
/// untouched. An off-board coordinate is reported first, so a valid
/// coordinate is assumed for the repeated invitation.
pub proof fn lemma_active_match_blocks_invite(
    store: Seq<EntryView>,
    a: Seq<char>,
    funds: Seq<CoinView>,
    coord: Coord,
    host_symbol: PlayerSymbol,
    b: Seq<char>,
    funds2: Seq<CoinView>,
    coord2: Coord,
    host_symbol2: PlayerSymbol,
)
    requires
        coord2.spec_valid(),
        invite_spec(store, a, funds, coord, host_symbol, b).0 is Ok,
    ensures
        ({
            let s2 = invite_spec(store, a, funds, coord, host_symbol, b).1;
            &&& invite_spec(s2, a, funds2, coord2, host_symbol2, b) == (
                Err::<ResponseView, ErrorView>(
                    ErrorView::GameAlreadyInProgress { host: a, opponent: b },
                ),
                s2,
            )
            &&& invite_spec(s2, b, funds2, coord2, host_symbol2, a) == (
                Err::<ResponseView, ErrorView>(
                    ErrorView::GameAlreadyInProgress { host: b, opponent: a },
                ),
                s2,
            )
        }),
{
    let g = game_new_spec(coord, funds, host_symbol);
    lemma_lookup_save(store, a, b, g);
}

/// Attached funds that differ from the stored stake make acceptance fail
/// with the stake mismatch error, and the store is left untouched. The
/// checks that come first are assumed to pass: the coordinate is on the
/// board, an invited match exists under the key, and its cell is free.
pub proof fn lemma_stake_mismatch_rejected(
    store: Seq<EntryView>,
    sender: Seq<char>,
    funds: Seq<CoinView>,
    coord: Coord,
    host: Seq<char>,
)
    requires
        coord.spec_valid(),
        lookup(store, host, sender) matches Some(g) && {
            &&& g.status == Status::INVITED
            &&& board_at(g.board, coord) is None
            &&& funds != g.prize
        },
    ensures
        accept_spec(store, sender, funds, coord, host) == (
            Err::<ResponseView, ErrorView>(ErrorView::InvalidReceivedFunds),
            store,
        ),
{
}

/// An invitation placing X at one cell, accepted at a different cell,
/// yields a running match whose board holds exactly two marks — X at the
/// invitation's cell, O at the acceptance's — with the turn back at the
/// host.
pub proof fn lemma_invite_accept_round_trip(
    store: Seq<EntryView>,
    a: Seq<char>,
    b: Seq<char>,
    funds: Seq<CoinView>,
    c0: Coord,
    c1: Coord,
)
    requires
        invite_spec(store, a, funds, c0, PlayerSymbol::X, b).0 is Ok,
        c1.spec_valid(),
        c1 != c0,
    ensures
        ({
            let s2 = invite_spec(store, a, funds, c0, PlayerSymbol::X, b).1;
            let r = accept_spec(s2, b, funds, c1, a).0;
            let s3 = accept_spec(s2, b, funds, c1, a).1;
            &&& r is Ok
            &&& lookup(s3, a, b) matches Some(g) && {
                &&& g.status == Status::PLAYING
                &&& g.player_round == PlayerSymbol::X
                &&& board_at(g.board, c0) == Some(PlayerSymbol::X)
                &&& board_at(g.board, c1) == Some(PlayerSymbol::O)
                &&& forall|c: Coord|
                    c.spec_valid() && c != c0 && c != c1 ==> board_at(g.board, c) is None
            }
        }),
{
    let g0 = game_new_spec(c0, funds, PlayerSymbol::X);
    let s2 = invite_spec(store, a, funds, c0, PlayerSymbol::X, b).1;
    lemma_lookup_save(store, a, b, g0);
    lemma_empty_board_at(c1);
    lemma_board_set_at(empty_board(), c0, Some(PlayerSymbol::X), c1);
    assert(board_at(g0.board, c1) is None);
    let b2 = board_set(g0.board, c1, Some(PlayerSymbol::O));
    let g2 = GameView {
        board: b2,
        player_round: PlayerSymbol::O.spec_other(),
        prize: doubled_prize(g0.prize),
        status: Status::PLAYING,
        ..g0
    };
    assert(accept_spec(s2, b, funds, c1, a).1 == save_spec(s2, a, b, g2));
    lemma_lookup_save(s2, a, b, g2);
    lemma_board_set_at(g0.board, c1, Some(PlayerSymbol::O), c0);
    lemma_board_set_at(empty_board(), c0, Some(PlayerSymbol::X), c0);
    assert(board_at(b2, c0) == Some(PlayerSymbol::X));
    lemma_board_set_at(g0.board, c1, Some(PlayerSymbol::O), c1);
    assert forall|c: Coord| c.spec_valid() && c != c0 && c != c1 implies board_at(
        b2,
        c,
    ) is None by {
        lemma_board_set_at(g0.board, c1, Some(PlayerSymbol::O), c);
        lemma_board_set_at(empty_board(), c0, Some(PlayerSymbol::X), c);
        lemma_empty_board_at(c);
    }
}

/// A move that completes a line of the mover's symbol ends the match:
/// status COMPLETED, the mover recorded as winner, and one transfer of the
/// entire stake to the mover.
pub proof fn lemma_win_settles_whole_stake(
    store: Seq<EntryView>,
    sender: Seq<char>,
    as_host: bool,
    coord: Coord,
    opponent: Seq<char>,
)
    requires
        coord.spec_valid(),
        ({
            let host = if as_host {
                sender
            } else {
                opponent
            };
            let opp = if as_host {
                opponent
            } else {
                sender
            };
            lookup(store, host, opp) matches Some(g) && {
                &&& g.status == Status::PLAYING
                &&& board_at(g.board, coord) is None
                &&& if as_host {
                    g.player_round == g.host_symbol
                } else {
                    g.player_round != g.host_symbol
                }
                &&& wins(board_set(g.board, coord, Some(g.player_round)), g.player_round)
            }
        }),
    ensures
        ({
            let host = if as_host {
                sender
            } else {
                opponent
            };
            let opp = if as_host {
                opponent
            } else {
                sender
            };
            let g = lookup(store, host, opp)->Some_0;
            let r = play_spec(store, sender, as_host, coord, opponent).0;
            let s2 = play_spec(store, sender, as_host, coord, opponent).1;
            &&& r matches Ok(rv) && rv.messages == seq![
                TransferView { to_address: sender, amount: g.prize },
            ]
            &&& lookup(s2, host, opp) matches Some(g2) && {
                &&& g2.status == Status::COMPLETED
                &&& g2.winner == Some(g.player_round)
            }
        }),
{
    let host = if as_host {
        sender
    } else {
        opponent
    };
    let opp = if as_host {
        opponent
    } else {
        sender
    };
    let g = lookup(store, host, opp)->Some_0;
    let s = g.player_round;
    let g2 = GameView {
        board: board_set(g.board, coord, Some(s)),
        status: Status::COMPLETED,
        winner: Some(s),
        ..g
    };
    lemma_lookup_save(store, host, opp, g2);
}

/// A move that fills the board without completing a line ends the match as
/// a tie: no winner, and two transfers — one to each side — of half the
/// stake each, which together return the doubled stake exactly, with no
/// remainder.
pub proof fn lemma_tie_splits_stake_exactly(
    store: Seq<EntryView>,
    sender: Seq<char>,
    as_host: bool,
    coord: Coord,
    opponent: Seq<char>,
)
    requires
        store_wf(store),
        coord.spec_valid(),
        ({
            let host = if as_host {
                sender
            } else {
                opponent
            };
            let opp = if as_host {
                opponent
            } else {
                sender
            };
            lookup(store, host, opp) matches Some(g) && {
                &&& g.status == Status::PLAYING
                &&& g.winner is None
                &&& board_at(g.board, coord) is None
                &&& if as_host {
                    g.player_round == g.host_symbol
                } else {
                    g.player_round != g.host_symbol
                }
                &&& !wins(board_set(g.board, coord, Some(g.player_round)), g.player_round)
                &&& board_full(board_set(g.board, coord, Some(g.player_round)))
            }
        }),
    ensures
        ({
            let host = if as_host {
                sender
            } else {
                opponent
            };
            let opp = if as_host {
                opponent
            } else {
                sender
            };
            let g = lookup(store, host, opp)->Some_0;
            let r = play_spec(store, sender, as_host, coord, opponent).0;
            let s2 = play_spec(store, sender, as_host, coord, opponent).1;
            &&& r matches Ok(rv) && rv.messages == seq![
                TransferView { to_address: sender, amount: halved_prize(g.prize) },
                TransferView { to_address: opponent, amount: halved_prize(g.prize) },
            ]
            &&& lookup(s2, host, opp) matches Some(g2) && {
                &&& g2.status == Status::COMPLETED
                &&& g2.winner is None
            }
            &&& forall|i: int|
                0 <= i < g.prize.len() ==> (#[trigger] halved_prize(g.prize)[i]).amount * 2
                    == g.prize[i].amount
        }),
{
    let host = if as_host {
        sender
    } else {
        opponent
    };
    let opp = if as_host {
        opponent
    } else {
        sender
    };
    let g = lookup(store, host, opp)->Some_0;
    let s = g.player_round;
    let g2 = GameView { board: board_set(g.board, coord, Some(s)), status: Status::COMPLETED, ..g };
    lemma_lookup_save(store, host, opp, g2);
    lemma_find_index(store, host, opp);
    assert forall|i: int| 0 <= i < g.prize.len() implies (#[trigger] halved_prize(
        g.prize,
    )[i]).amount * 2 == g.prize[i].amount by {
        assert(g.prize[i].amount % 2 == 0);
        assert(halved_prize(g.prize)[i].amount == g.prize[i].amount / 2);
    }
}

/// A second move by the same role, with no move by the other role in
/// between, is rejected as out of turn, and the store is left untouched.
/// The first move must leave the match running and the second coordinate
/// must address a free cell of the board: the missing-match and
/// occupied-cell checks come first and would be reported instead.
pub proof fn lemma_second_move_out_of_turn(
    store: Seq<EntryView>,
    sender: Seq<char>,
    as_host: bool,
    c1: Coord,
    c2: Coord,
    opponent: Seq<char>,
)
    requires
        c2.spec_valid(),
        play_spec(store, sender, as_host, c1, opponent).0 is Ok,
        ({
            let s2 = play_spec(store, sender, as_host, c1, opponent).1;
            let host = if as_host {
                sender
            } else {
                opponent
            };
            let opp = if as_host {
                opponent
            } else {
                sender
            };
            lookup(s2, host, opp) matches Some(g2) && {
                &&& g2.status == Status::PLAYING
                &&& board_at(g2.board, c2) is None
            }
        }),
    ensures
        ({
            let s2 = play_spec(store, sender, as_host, c1, opponent).1;
            play_spec(s2, sender, as_host, c2, opponent) == (
                Err::<ResponseView, ErrorView>(
                    ErrorView::TurnAlreadyPlayed { second_player: opponent },
                ),
                s2,
            )
        }),
{
    let host = if as_host {
        sender
    } else {
        opponent
    };
    let opp = if as_host {
        opponent
    } else {
        sender
    };
    let g = lookup(store, host, opp)->Some_0;
    let s = g.player_round;
    let b2 = board_set(g.board, c1, Some(s));
    if wins(b2, s) {
        let gw = GameView { board: b2, status: Status::COMPLETED, winner: Some(s), ..g };
        lemma_lookup_save(store, host, opp, gw);
        assert(false);
    } else if board_full(b2) {
        let gt = GameView { board: b2, status: Status::COMPLETED, ..g };
        lemma_lookup_save(store, host, opp, gt);
        assert(false);
    } else {
        let gn = GameView { board: b2, player_round: s.spec_other(), ..g };
        lemma_lookup_save(store, host, opp, gn);
    }
}

/// A save changes which matches are active only at its own key: if the
/// invariant of one active match per unordered pair held before, and an
/// active match is only written where the reversed direction holds none,
/// it holds after.
proof fn lemma_save_preserves_pair_invariant(
    s: Seq<EntryView>,
    key_host: Seq<char>,
    key_opp: Seq<char>,
    g: GameView,
)
    requires
        one_active_per_pair(s),
        g.status.spec_is_active() ==> key_host == key_opp || !has_active(s, key_opp, key_host),
    ensures
        one_active_per_pair(save_spec(s, key_host, key_opp, g)),
{
    let s2 = save_spec(s, key_host, key_opp, g);
    lemma_lookup_save(s, key_host, key_opp, g);
    assert forall|h: Seq<char>, o: Seq<char>| h != o && #[trigger] has_active(s2, h, o) implies
        !has_active(s2, o, h) by {
        if h == key_host && o == key_opp {
            lemma_lookup_save_other(s, key_host, key_opp, g, o, h);
            assert(has_active(s2, o, h) == has_active(s, key_opp, key_host));
            assert(g.status.spec_is_active());
        } else if o == key_host && h == key_opp {
            lemma_lookup_save_other(s, key_host, key_opp, g, h, o);
            assert(has_active(s2, h, o) == has_active(s, key_opp, key_host));
        } else {
            lemma_lookup_save_other(s, key_host, key_opp, g, h, o);
            lemma_lookup_save_other(s, key_host, key_opp, g, o, h);
            assert(has_active(s2, h, o) == has_active(s, h, o));
            assert(has_active(s2, o, h) == has_active(s, o, h));
        }
    }
}

/// Every operation preserves the invariant that at most one active
/// (invited or playing) match exists between any two addresses, counting
/// both orderings of the pair: an invitation checks both directions
/// before it stores anything, and no other operation turns an inactive
/// match active.
pub proof fn lemma_execute_preserves_one_active_per_pair(
    store: Seq<EntryView>,
    info: InfoView,
    msg: MsgView,
)
    requires
        one_active_per_pair(store),
    ensures
        one_active_per_pair(execute_spec(store, info, msg).1),
{
    match msg {
        MsgView::Invite { coord, host_symbol, opponent } => {
            if coord.spec_valid() && opponent != info.sender && !has_active(
                store,
                info.sender,
                opponent,
            ) && !has_active(store, opponent, info.sender) {
                lemma_save_preserves_pair_invariant(
                    store,
                    info.sender,
                    opponent,
                    game_new_spec(coord, info.funds, host_symbol),
                );
            }
        },
        MsgView::Reject { as_host, opponent } => {
            let key_host = if as_host {
                info.sender
            } else {
                opponent
            };
            let key_opp = if as_host {
                opponent
            } else {
                info.sender
            };
            match lookup(store, key_host, key_opp) {
                Some(g) => {
                    if g.status == Status::INVITED {
                        lemma_save_preserves_pair_invariant(
                            store,
                            key_host,
                            key_opp,
                            GameView { status: Status::REJECTED, ..g },
                        );
                    }
                },
                None => {},
            }
        },
        MsgView::Accept { coord, host } => {
            if coord.spec_valid() {
                match lookup(store, host, info.sender) {
                    Some(g) => {
                        if g.status == Status::INVITED && board_at(g.board, coord) is None
                            && info.funds == g.prize {
                            // the invited match is active, so by the invariant the
                            // reversed direction holds no active match
                            assert(has_active(store, host, info.sender));
                            lemma_save_preserves_pair_invariant(
                                store,
                                host,
                                info.sender,
                                GameView {
                                    board: board_set(g.board, coord, Some(g.player_round)),
                                    player_round: g.player_round.spec_other(),
                                    prize: doubled_prize(g.prize),
                                    status: Status::PLAYING,
                                    ..g
                                },
                            );
                        }
                    },
                    None => {},
                }
            }
        },
        MsgView::Play { as_host, coord, opponent } => {
            if coord.spec_valid() {
                let key_host = if as_host {
                    info.sender
                } else {
                    opponent
                };
                let key_opp = if as_host {
                    opponent
                } else {
                    info.sender
                };
                match lookup(store, key_host, key_opp) {
                    Some(g) => {
                        if g.status == Status::PLAYING && board_at(g.board, coord) is None && !(
                        if as_host {
                            g.player_round != g.host_symbol
                        } else {
                            g.player_round == g.host_symbol
                        }) {
                            // the running match is active, so the reversed
                            // direction holds no active match
                            assert(has_active(store, key_host, key_opp));
                            let s = g.player_round;
                            let b2 = board_set(g.board, coord, Some(s));
                            if wins(b2, s) {
                                lemma_save_preserves_pair_invariant(
                                    store,
                                    key_host,
                                    key_opp,
                                    GameView {
                                        board: b2,
                                        status: Status::COMPLETED,
                                        winner: Some(s),
                                        ..g
                                    },
                                );
                            } else if board_full(b2) {
                                lemma_save_preserves_pair_invariant(
                                    store,
                                    key_host,
                                    key_opp,
                                    GameView { board: b2, status: Status::COMPLETED, ..g },
                                );
                            } else {
                                lemma_save_preserves_pair_invariant(
                                    store,
                                    key_host,
                                    key_opp,
                                    GameView { board: b2, player_round: s.spec_other(), ..g },
                                );
                            }
                        }
                    },
                    None => {},
                }
            }
        },
    }
}

} // verus!
