//! The operations a caller can ask of the engine, and what a call carries.

use vstd::prelude::*;

use crate::state::Coin;
use crate::state::CoinView;
use crate::state::Coord;
use crate::state::PlayerSymbol;
use crate::state::Status;

verus! {

/// Setting the engine up takes no configuration.
#[derive(Clone, Debug, PartialEq, Eq, Structural)]
pub struct InstantiateMsg {}

/// A state-changing call.
#[derive(Clone, Debug, PartialEq)]
pub enum ExecuteMsg {
    /// Start a match against `opponent`, placing `host_symbol` at `coord`
    /// and escrowing the attached funds.
    Invite { coord: Coord, host_symbol: PlayerSymbol, opponent: String },
    /// Decline an invitation; the escrowed stake is refunded to the host.
    Reject { as_host: bool, opponent: String },
    /// Join the match hosted by `host`, matching its stake and placing the
    /// opening mark at `coord`.
    Accept { coord: Coord, host: String },
    /// Place the caller's mark at `coord` in the running match.
    Play { as_host: bool, coord: Coord, opponent: String },
}

/// The mathematical value of an [`ExecuteMsg`].
pub ghost enum MsgView {
    Invite { coord: Coord, host_symbol: PlayerSymbol, opponent: Seq<char> },
    Reject { as_host: bool, opponent: Seq<char> },
    Accept { coord: Coord, host: Seq<char> },
    Play { as_host: bool, coord: Coord, opponent: Seq<char> },
}

impl View for ExecuteMsg {
    type V = MsgView;

    open spec fn view(&self) -> MsgView {
        match self {
            ExecuteMsg::Invite { coord, host_symbol, opponent } => MsgView::Invite {
                coord: *coord,
                host_symbol: *host_symbol,
                opponent: opponent@,
            },
            ExecuteMsg::Reject { as_host, opponent } => MsgView::Reject {
                as_host: *as_host,
                opponent: opponent@,
            },
            ExecuteMsg::Accept { coord, host } => MsgView::Accept { coord: *coord, host: host@ },
            ExecuteMsg::Play { as_host, coord, opponent } => MsgView::Play {
                as_host: *as_host,
                coord: *coord,
                opponent: opponent@,
            },
        }
    }
}

/// An exact match key: the ordered (host, opponent) address pair.
#[derive(Clone, Debug, PartialEq, Eq)]
pub struct QueryKey {
    pub host: String,
    pub opponent: String,
}

/// The mathematical value of a [`QueryKey`].
#[verifier::ext_equal]
pub ghost struct QueryKeyView {
    pub host: Seq<char>,
    pub opponent: Seq<char>,
}

impl View for QueryKey {
    type V = QueryKeyView;

    open spec fn view(&self) -> QueryKeyView {
        QueryKeyView { host: self.host@, opponent: self.opponent@ }
    }
}

/// A read-only call.
#[derive(Clone, Debug, PartialEq)]
pub enum QueryMsg {
    /// List stored matches, optionally restricted to one exact key and/or
    /// one status.
    Games { key: Option<QueryKey>, status: Option<Status> },
}

/// The mathematical value of a [`QueryMsg`].
pub ghost enum QueryMsgView {
    Games { key: Option<QueryKeyView>, status: Option<Status> },
}

impl View for QueryMsg {
    type V = QueryMsgView;

    open spec fn view(&self) -> QueryMsgView {
        match self {
            QueryMsg::Games { key, status } => QueryMsgView::Games {
                key: match key {
                    Some(k) => Some(k@),
                    None => None,
                },
                status: *status,
            },
        }
    }
}

/// Who makes a call and what funds the call attaches.
#[derive(Clone, Debug, PartialEq)]
pub struct MessageInfo {
    pub sender: String,
    pub funds: Vec<Coin>,
}

/// The mathematical value of a [`MessageInfo`].
#[verifier::ext_equal]
pub ghost struct InfoView {
    pub sender: Seq<char>,
    pub funds: Seq<CoinView>,
}

impl View for MessageInfo {
    type V = InfoView;

    open spec fn view(&self) -> InfoView {
        InfoView { sender: self.sender@, funds: self.funds.deep_view() }
    }
}

} // verus!
