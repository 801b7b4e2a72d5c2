//! What a successful operation reports back: descriptive attributes and the
//! transfer instructions an external ledger is asked to execute.

use vstd::prelude::*;

use crate::state::Coin;
use crate::state::CoinView;
use crate::state::Game;
use crate::state::GameView;

verus! {

/// One key/value pair describing what an operation did.
#[derive(Clone, Debug, PartialEq, Eq)]
pub struct Attribute {
    pub key: String,
    pub value: String,
}

/// The mathematical value of an [`Attribute`].
#[verifier::ext_equal]
pub ghost struct AttributeView {
    pub key: Seq<char>,
    pub value: Seq<char>,
}

impl View for Attribute {
    type V = AttributeView;

    open spec fn view(&self) -> AttributeView {
        AttributeView { key: self.key@, value: self.value@ }
    }
}

impl DeepView for Attribute {
    type V = AttributeView;

    open spec fn deep_view(&self) -> AttributeView {
        self@
    }
}

/// An instruction to send funds to an address. The engine never moves funds
/// itself; it emits these for an external ledger to execute.
#[derive(Clone, Debug, PartialEq, Eq)]
pub struct Transfer {
    pub to_address: String,
    pub amount: Vec<Coin>,
}

/// The mathematical value of a [`Transfer`].
#[verifier::ext_equal]
pub ghost struct TransferView {
    pub to_address: Seq<char>,
    pub amount: Seq<CoinView>,
}

impl View for Transfer {
    type V = TransferView;

    open spec fn view(&self) -> TransferView {
        TransferView { to_address: self.to_address@, amount: self.amount.deep_view() }
    }
}

impl DeepView for Transfer {
    type V = TransferView;

    open spec fn deep_view(&self) -> TransferView {
        self@
    }
}

/// What a successful operation reports back.
#[derive(Clone, Debug, PartialEq, Eq)]
pub struct Response {
    pub attributes: Vec<Attribute>,
    pub messages: Vec<Transfer>,
}

/// The mathematical value of a [`Response`].
#[verifier::ext_equal]
pub ghost struct ResponseView {
    pub attributes: Seq<AttributeView>,
    pub messages: Seq<TransferView>,
}

impl View for Response {
    type V = ResponseView;

    open spec fn view(&self) -> ResponseView {
        ResponseView {
            attributes: self.attributes.deep_view(),
            messages: self.messages.deep_view(),
        }
    }
}

impl Response {
    /// A response with no attributes and no transfer instructions.
    pub fn new() -> (r: Response)
        ensures
            r@ == (ResponseView { attributes: Seq::empty(), messages: Seq::empty() }),
    {
        let r = Response { attributes: Vec::new(), messages: Vec::new() };
        proof {
            assert(r@.attributes =~= Seq::<AttributeView>::empty());
            assert(r@.messages =~= Seq::<TransferView>::empty());
            assert(r@ =~= (ResponseView {
                attributes: Seq::empty(),
                messages: Seq::empty(),
            }));
        }
        r
    }

    /// The response with one more attribute appended.
    pub fn add_attribute(self, key: &str, value: &str) -> (r: Response)
        ensures
            r@ == (ResponseView {
                attributes: self@.attributes.push(AttributeView { key: key@, value: value@ }),
                ..self@
            }),
    {
        let ghost prev = self@;
        let mut attributes = self.attributes;
        attributes.push(Attribute { key: key.to_owned(), value: value.to_owned() });
        let r = Response { attributes, messages: self.messages };
        proof {
            assert forall|j: int| 0 <= j < prev.attributes.len() implies r@.attributes[j]
                == prev.attributes[j] by {
                assert(r.attributes@[j] == r.attributes@.subrange(
                    0,
                    prev.attributes.len() as int,
                )[j]);
            }
            assert(r@.attributes =~= prev.attributes.push(AttributeView {
                key: key@,
                value: value@,
            }));
            assert(r@ =~= (ResponseView {
                attributes: prev.attributes.push(AttributeView { key: key@, value: value@ }),
                ..prev
            }));
        }
        r
    }

    /// The response with one more attribute appended, its value given as an
    /// owned string.
    pub fn add_attribute_value(self, key: &str, value: String) -> (r: Response)
        ensures
            r@ == (ResponseView {
                attributes: self@.attributes.push(AttributeView { key: key@, value: value@ }),
                ..self@
            }),
    {
        let ghost prev = self@;
        let mut attributes = self.attributes;
        attributes.push(Attribute { key: key.to_owned(), value });
        let r = Response { attributes, messages: self.messages };
        proof {
            assert(r@.attributes =~= prev.attributes.push(AttributeView {
                key: key@,
                value: value@,
            }));
            assert(r@ =~= (ResponseView {
                attributes: prev.attributes.push(AttributeView { key: key@, value: value@ }),
                ..prev
            }));
        }
        r
    }

    /// The response with one more transfer instruction appended.
    pub fn add_message(self, msg: Transfer) -> (r: Response)
        ensures
            r@ == (ResponseView { messages: self@.messages.push(msg@), ..self@ }),
    {
        let ghost prev = self@;
        let mut messages = self.messages;
        messages.push(msg);
        let r = Response { attributes: self.attributes, messages };
        proof {
            assert(r@.messages =~= prev.messages.push(msg@));
            assert(r@ =~= (ResponseView { messages: prev.messages.push(msg@), ..prev }));
        }
        r
    }
}

/// One stored match together with the key it is stored under.
#[derive(Debug, PartialEq, Eq)]
pub struct GameResponse {
    pub game: Game,
    pub host: String,
    pub opponent: String,
}

/// The mathematical value of a [`GameResponse`].
#[verifier::ext_equal]
pub ghost struct GameResponseView {
    pub game: GameView,
    pub host: Seq<char>,
    pub opponent: Seq<char>,
}

impl View for GameResponse {
    type V = GameResponseView;

    open spec fn view(&self) -> GameResponseView {
        GameResponseView { game: self.game@, host: self.host@, opponent: self.opponent@ }
    }
}

impl DeepView for GameResponse {
    type V = GameResponseView;

    open spec fn deep_view(&self) -> GameResponseView {
        self@
    }
}

} // verus!
