//! A wagered two-player tic-tac-toe match engine.
//!
//! A host invites an opponent, escrowing a stake; the opponent accepts by
//! matching the stake (which doubles the escrowed prize) and taking the
//! opening move; the players then alternate moves until one of them completes
//! a line (the whole prize goes to the winner) or the board fills up (the
//! prize is split evenly). Matches are kept in an index keyed by the ordered
//! address pair (host, opponent); at most one active match may exist between
//! two addresses, counting both orderings.

use vstd::prelude::*;

mod error;
mod execute;
mod laws;
mod msg;
mod query;

pub use laws::lemma_active_match_blocks_invite;
pub use laws::lemma_execute_preserves_one_active_per_pair;
pub use laws::lemma_invalid_coord_rejected;
pub use laws::lemma_invite_accept_round_trip;
pub use laws::lemma_second_move_out_of_turn;
pub use laws::lemma_self_invite_rejected;
pub use laws::lemma_stake_mismatch_rejected;
pub use laws::lemma_tie_splits_stake_exactly;
pub use laws::lemma_win_settles_whole_stake;
mod response;
mod state;
mod store;

pub use query::filtered_games;
pub use query::query;
pub use query::query_games;
pub use query::query_games_spec;
pub use query::query_spec;
pub use query::response_of;
pub use query::status_matches;

pub use execute::accept_prize_fits;
pub use execute::accept_response;
pub use execute::accept_spec;
pub use execute::attr;
pub use execute::coord_text;
pub use execute::execute;
pub use execute::execute_spec;
pub use execute::invite_response;
pub use execute::invite_spec;
pub use execute::play_base_attrs;
pub use execute::play_spec;
pub use execute::reject_response;
pub use execute::reject_spec;
pub use execute::result_matches;
pub use store::find_index;
pub use store::has_active;
pub use store::key_matches;
pub use store::lemma_find_index;
pub use store::lemma_find_index_first;
pub use store::lemma_lookup_save;
pub use store::lemma_lookup_save_other;
pub use store::lookup;
pub use store::one_active_per_pair;
pub use store::save_spec;
pub use store::store_wf;
pub use store::EntryView;
pub use store::GameStore;

pub use error::ContractError;
pub use error::ErrorView;
pub use msg::ExecuteMsg;
pub use msg::InfoView;
pub use msg::InstantiateMsg;
pub use msg::MessageInfo;
pub use msg::MsgView;
pub use msg::QueryKey;
pub use msg::QueryKeyView;
pub use msg::QueryMsg;
pub use msg::QueryMsgView;
pub use response::Attribute;
pub use response::AttributeView;
pub use response::GameResponse;
pub use response::GameResponseView;
pub use response::Response;
pub use response::ResponseView;
pub use response::Transfer;
pub use response::TransferView;
pub use state::board_at;
pub use state::board_full;
pub use state::board_set;
pub use state::board_wf;
pub use state::cell_has;
pub use state::doubled_prize;
pub use state::empty_board;
pub use state::empty_row;
pub use state::game_new_spec;
pub use state::game_wf;
pub use state::halved_prize;
pub use state::lemma_board_set_at;
pub use state::lemma_empty_board_at;
pub use state::prize_fits_doubling;
pub use state::status_text;
pub use state::symbol_text;
pub use state::wins;
pub use state::BoardView;
pub use state::Coin;
pub use state::CoinView;
pub use state::Coord;
pub use state::Game;
pub use state::GameView;
pub use state::PlayerSymbol;
pub use state::Status;

verus! {

} // verus!
