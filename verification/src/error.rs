//! Every way an operation can be rejected. No error mutates stored state.

use vstd::prelude::*;

use crate::state::Coord;

verus! {

/// The caller-visible rejection of an attempted operation.
#[derive(Clone, Debug, PartialEq)]
pub enum ContractError {
    /// An invitation named the inviter itself as the opponent.
    CannotStartGame {},
    /// An active (invited or playing) match already exists between the two
    /// addresses, in one direction or the other.
    GameAlreadyInProgress { host: String, opponent: String },
    /// No match in the stage the operation needs exists at the addressed
    /// key (acceptance wants an invited match, play wants a running one).
    InvalidGame { host: String, opponent: String },
    /// No invited match exists at the key a rejection addressed.
    GameNotFound { host: String, opponent: String },
    /// The addressed cell already holds a mark.
    CoordinateAlreadyPlayed { coord: Coord },
    /// The caller already moved; the other player must move first.
    TurnAlreadyPlayed { second_player: String },
    /// A coordinate outside the 3x3 board.
    InvalidCoord { coord: Coord },
    /// The funds attached to an acceptance differ from the match's stake.
    InvalidReceivedFunds {},
}

/// The mathematical value of a [`ContractError`].
pub ghost enum ErrorView {
    CannotStartGame,
    GameAlreadyInProgress { host: Seq<char>, opponent: Seq<char> },
    InvalidGame { host: Seq<char>, opponent: Seq<char> },
    GameNotFound { host: Seq<char>, opponent: Seq<char> },
    CoordinateAlreadyPlayed { coord: Coord },
    TurnAlreadyPlayed { second_player: Seq<char> },
    InvalidCoord { coord: Coord },
    InvalidReceivedFunds,
}

impl View for ContractError {
    type V = ErrorView;

    open spec fn view(&self) -> ErrorView {
        match self {
            ContractError::CannotStartGame {} => ErrorView::CannotStartGame,
            ContractError::GameAlreadyInProgress { host, opponent } => {
                ErrorView::GameAlreadyInProgress { host: host@, opponent: opponent@ }
            },
            ContractError::InvalidGame { host, opponent } => ErrorView::InvalidGame {
                host: host@,
                opponent: opponent@,
            },
            ContractError::GameNotFound { host, opponent } => ErrorView::GameNotFound {
                host: host@,
                opponent: opponent@,
            },
            ContractError::CoordinateAlreadyPlayed { coord } => {
                ErrorView::CoordinateAlreadyPlayed { coord: *coord }
            },
            ContractError::TurnAlreadyPlayed { second_player } => ErrorView::TurnAlreadyPlayed {
                second_player: second_player@,
            },
            ContractError::InvalidCoord { coord } => ErrorView::InvalidCoord { coord: *coord },
            ContractError::InvalidReceivedFunds {} => ErrorView::InvalidReceivedFunds,
        }
    }
}

} // verus!
