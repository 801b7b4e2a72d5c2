//! Read-only lookup of stored matches, by exact key and/or status.

use vstd::prelude::*;

use crate::msg::QueryKey;
use crate::msg::QueryKeyView;
use crate::msg::QueryMsg;
use crate::msg::QueryMsgView;
use crate::response::GameResponse;
use crate::response::GameResponseView;
use crate::state::Status;
use crate::store::lookup;
use crate::store::EntryView;
use crate::store::GameStore;

verus! {

impl DeepView for QueryKey {
    type V = QueryKeyView;

    open spec fn deep_view(&self) -> QueryKeyView {
        self@
    }
}

/// The status passes the optional filter.
pub open spec fn status_matches(s: Status, want: Option<Status>) -> bool {
    match want {
        None => true,
        Some(t) => s == t,
    }
}

/// A stored entry reported with its key.
pub open spec fn response_of(e: EntryView) -> GameResponseView {
    GameResponseView { game: e.game, host: e.host, opponent: e.opponent }
}

/// All stored entries whose status passes the filter, reported in storage
/// order.
pub open spec fn filtered_games(entries: Seq<EntryView>, status: Option<Status>) -> Seq<
    GameResponseView,
>
    decreases entries.len(),
{
    if entries.len() == 0 {
        Seq::empty()
    } else {
        let prefix = filtered_games(entries.drop_last(), status);
        if status_matches(entries.last().game.status, status) {
            prefix.push(response_of(entries.last()))
        } else {
            prefix
        }
    }
}

/// What a match listing returns: with an exact key, the match stored under
/// it (if any, and if it passes the status filter); without one, every
/// stored match that passes the filter, in storage order.
pub open spec fn query_games_spec(
    store: Seq<EntryView>,
    key: Option<QueryKeyView>,
    status: Option<Status>,
) -> Seq<GameResponseView> {
    match key {
        Some(k) => match lookup(store, k.host, k.opponent) {
            Some(g) => if status_matches(g.status, status) {
                seq![GameResponseView { game: g, host: k.host, opponent: k.opponent }]
            } else {
                Seq::empty()
            },
            None => Seq::empty(),
        },
        None => filtered_games(store, status),
    }
}

/// What any read-only call returns.
pub open spec fn query_spec(store: Seq<EntryView>, msg: QueryMsgView) -> Seq<GameResponseView> {
    match msg {
        QueryMsgView::Games { key, status } => query_games_spec(store, key, status),
    }
}

/// Indexing the deep view of a response list equals the view of the indexed
/// response.
proof fn lemma_responses_index(v: &Vec<GameResponse>, i: int)
    requires
        0 <= i < v@.len(),
    ensures
        v.deep_view().len() == v@.len(),
        v.deep_view()[i] == v@[i]@,
{
}

/// Lists stored matches, optionally restricted to one exact key and/or one
/// status.
pub fn query_games(store: &GameStore, key: Option<QueryKey>, status: Option<Status>) -> (r: Vec<
    GameResponse,
>)
    ensures
        r.deep_view() == query_games_spec(store@, key.deep_view(), status),
{
    match key {
        Some(k) => {
            let mut out: Vec<GameResponse> = Vec::new();
            match store.load(&k.host, &k.opponent) {
                Some(g) => {
                    let keep = match status {
                        Some(want) => g.status == want,
                        None => true,
                    };
                    if keep {
                        let resp = GameResponse { game: g, host: k.host, opponent: k.opponent };
                        out.push(resp);
                        proof {
                            lemma_responses_index(&out, 0);
                            assert(out.deep_view() =~= query_games_spec(
                                store@,
                                key.deep_view(),
                                status,
                            ));
                        }
                    } else {
                        proof {
                            assert(out.deep_view() =~= Seq::<GameResponseView>::empty());
                        }
                    }
                },
                None => {
                    proof {
                        assert(out.deep_view() =~= Seq::<GameResponseView>::empty());
                    }
                },
            }
            out
        },
        None => {
            let n = store.len();
            let mut out: Vec<GameResponse> = Vec::new();
            let mut i: usize = 0;
            proof {
                assert(store@.take(0) =~= Seq::<EntryView>::empty());
                assert(out.deep_view() =~= Seq::<GameResponseView>::empty());
            }
            while i < n
                invariant
                    n == store@.len(),
                    i <= n,
                    out.deep_view() == filtered_games(store@.take(i as int), status),
                decreases n - i,
            {
                let ghost taken = store@.take(i as int + 1);
                proof {
                    assert(taken.drop_last() =~= store@.take(i as int));
                    assert(taken.last() == store@[i as int]);
                }
                let st = store.status_at(i);
                let keep = match status {
                    Some(want) => st == want,
                    None => true,
                };
                if keep {
                    let resp = store.entry_response(i);
                    let ghost prev = out.deep_view();
                    out.push(resp);
                    proof {
                        lemma_responses_index(&out, prev.len() as int);
                        assert forall|j: int| 0 <= j < prev.len() implies out.deep_view()[j]
                            == prev[j] by {
                            lemma_responses_index(&out, j);
                        }
                        assert(out.deep_view() =~= prev.push(response_of(store@[i as int])));
                        assert(filtered_games(taken, status) == filtered_games(
                            taken.drop_last(),
                            status,
                        ).push(response_of(taken.last())));
                    }
                } else {
                    proof {
                        assert(filtered_games(taken, status) == filtered_games(
                            taken.drop_last(),
                            status,
                        ));
                    }
                }
                i = i + 1;
            }
            proof {
                assert(store@.take(n as int) =~= store@);
            }
            out
        },
    }
}

/// Dispatches a read-only call to the lookup it names.
pub fn query(store: &GameStore, msg: QueryMsg) -> (r: Vec<GameResponse>)
    ensures
        r.deep_view() == query_spec(store@, msg@),
{
    match msg {
        QueryMsg::Games { key, status } => query_games(store, key, status),
    }
}

} // verus!
