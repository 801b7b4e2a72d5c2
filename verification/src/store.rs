//! The matchmaking index: one stored match per ordered (host, opponent)
//! address pair, in insertion order.

use vstd::prelude::*;

use crate::response::GameResponse;
use crate::response::GameResponseView;
use crate::state::game_wf;
use crate::state::Game;
use crate::state::GameView;
use crate::state::Status;

verus! {

/// One stored match with its key.
struct GameEntry {
    host: String,
    opponent: String,
    game: Game,
}

/// The mathematical value of one stored entry.
#[verifier::ext_equal]
pub ghost struct EntryView {
    pub host: Seq<char>,
    pub opponent: Seq<char>,
    pub game: GameView,
}

impl View for GameEntry {
    type V = EntryView;

    closed spec fn view(&self) -> EntryView {
        EntryView { host: self.host@, opponent: self.opponent@, game: self.game@ }
    }
}

impl DeepView for GameEntry {
    type V = EntryView;

    closed spec fn deep_view(&self) -> EntryView {
        self@
    }
}

/// The entry is stored under the key `(host, opponent)`.
pub open spec fn key_matches(e: EntryView, host: Seq<char>, opponent: Seq<char>) -> bool {
    e.host == host && e.opponent == opponent
}

/// The position of the first entry stored under `(host, opponent)`.
pub open spec fn find_index(s: Seq<EntryView>, host: Seq<char>, opponent: Seq<char>) -> Option<int>
    decreases s.len(),
{
    if s.len() == 0 {
        None
    } else if key_matches(s[0], host, opponent) {
        Some(0)
    } else {
        match find_index(s.drop_first(), host, opponent) {
            Some(i) => Some(i + 1),
            None => None,
        }
    }
}

/// The match stored under `(host, opponent)`, if any.
pub open spec fn lookup(s: Seq<EntryView>, host: Seq<char>, opponent: Seq<char>) -> Option<
    GameView,
> {
    match find_index(s, host, opponent) {
        Some(i) => Some(s[i].game),
        None => None,
    }
}

/// The store after `game` is written under `(host, opponent)`: the existing
/// entry under that key is replaced, or a new entry is appended.
pub open spec fn save_spec(
    s: Seq<EntryView>,
    host: Seq<char>,
    opponent: Seq<char>,
    game: GameView,
) -> Seq<EntryView> {
    match find_index(s, host, opponent) {
        Some(i) => s.update(i, EntryView { host, opponent, game }),
        None => s.push(EntryView { host, opponent, game }),
    }
}

/// An active (invited or playing) match is stored under `(host, opponent)`.
pub open spec fn has_active(s: Seq<EntryView>, host: Seq<char>, opponent: Seq<char>) -> bool {
    match lookup(s, host, opponent) {
        Some(g) => g.status.spec_is_active(),
        None => false,
    }
}

/// Every key appears at most once, and every stored match is well-formed.
pub open spec fn store_wf(s: Seq<EntryView>) -> bool {
    &&& forall|i: int, j: int|
        #![trigger s[i], s[j]]
        0 <= i < s.len() && 0 <= j < s.len() && i != j ==> !key_matches(
            s[i],
            s[j].host,
            s[j].opponent,
        )
    &&& forall|i: int| 0 <= i < s.len() ==> game_wf((#[trigger] s[i]).game)
}

/// `find_index` returns the position of the first entry under the key, and
/// `None` exactly when no entry carries the key.
pub proof fn lemma_find_index(s: Seq<EntryView>, host: Seq<char>, opponent: Seq<char>)
    ensures
        match find_index(s, host, opponent) {
            Some(i) => {
                &&& 0 <= i < s.len()
                &&& key_matches(s[i], host, opponent)
                &&& forall|j: int| 0 <= j < i ==> !key_matches(#[trigger] s[j], host, opponent)
            },
            None => forall|j: int|
                0 <= j < s.len() ==> !key_matches(#[trigger] s[j], host, opponent),
        },
    decreases s.len(),
{
    if s.len() > 0 && !key_matches(s[0], host, opponent) {
        lemma_find_index(s.drop_first(), host, opponent);
        match find_index(s.drop_first(), host, opponent) {
            Some(i) => {
                assert(s.drop_first()[i] == s[i + 1]);
                assert forall|j: int| 0 <= j < i + 1 implies !key_matches(
                    #[trigger] s[j],
                    host,
                    opponent,
                ) by {
                    if j > 0 {
                        assert(s.drop_first()[j - 1] == s[j]);
                    }
                }
            },
            None => {
                assert forall|j: int| 0 <= j < s.len() implies !key_matches(
                    #[trigger] s[j],
                    host,
                    opponent,
                ) by {
                    if j > 0 {
                        assert(s.drop_first()[j - 1] == s[j]);
                    }
                }
            },
        }
    }
}

/// A position that holds the key, with no earlier position holding it, is
/// the one `find_index` returns.
pub proof fn lemma_find_index_first(s: Seq<EntryView>, host: Seq<char>, opponent: Seq<char>, i: int)
    requires
        0 <= i < s.len(),
        key_matches(s[i], host, opponent),
        forall|j: int| 0 <= j < i ==> !key_matches(#[trigger] s[j], host, opponent),
    ensures
        find_index(s, host, opponent) == Some(i),
{
    lemma_find_index(s, host, opponent);
}

/// After a save, the saved match is what a lookup under its key finds.
pub proof fn lemma_lookup_save(s: Seq<EntryView>, host: Seq<char>, opponent: Seq<char>, g: GameView)
    ensures
        lookup(save_spec(s, host, opponent, g), host, opponent) == Some(g),
{
    lemma_find_index(s, host, opponent);
    let e = EntryView { host, opponent, game: g };
    match find_index(s, host, opponent) {
        Some(i) => {
            let s2 = s.update(i, e);
            assert forall|j: int| 0 <= j < i implies !key_matches(
                #[trigger] s2[j],
                host,
                opponent,
            ) by {
                assert(s2[j] == s[j]);
            }
            lemma_find_index_first(s2, host, opponent, i);
        },
        None => {
            let s2 = s.push(e);
            assert forall|j: int| 0 <= j < s.len() implies !key_matches(
                #[trigger] s2[j],
                host,
                opponent,
            ) by {
                assert(s2[j] == s[j]);
            }
            assert(s2[s.len() as int] == e);
            lemma_find_index_first(s2, host, opponent, s.len() as int);
        },
    }
}

/// After a save, a lookup under a different key finds what it found
/// before.
pub proof fn lemma_lookup_save_other(
    s: Seq<EntryView>,
    host: Seq<char>,
    opponent: Seq<char>,
    g: GameView,
    host2: Seq<char>,
    opponent2: Seq<char>,
)
    requires
        !(host2 == host && opponent2 == opponent),
    ensures
        lookup(save_spec(s, host, opponent, g), host2, opponent2) == lookup(s, host2, opponent2),
{
    lemma_find_index(s, host, opponent);
    lemma_find_index(s, host2, opponent2);
    let e = EntryView { host, opponent, game: g };
    let s2 = save_spec(s, host, opponent, g);
    match find_index(s, host2, opponent2) {
        Some(k) => {
            // the entry under the other key is untouched: a replacement
            // happens at a position carrying (host, opponent), never at k
            assert forall|j: int| 0 <= j < k implies !key_matches(
                #[trigger] s2[j],
                host2,
                opponent2,
            ) by {
                match find_index(s, host, opponent) {
                    Some(i) => {
                        if j == i {
                            assert(s2[j] == e);
                        } else {
                            assert(s2[j] == s[j]);
                        }
                    },
                    None => {
                        assert(s2[j] == s[j]);
                    },
                }
            }
            match find_index(s, host, opponent) {
                Some(i) => {
                    assert(i != k);
                    assert(s2[k] == s[k]);
                },
                None => {
                    assert(s2[k] == s[k]);
                },
            }
            lemma_find_index_first(s2, host2, opponent2, k);
        },
        None => {
            assert forall|j: int| 0 <= j < s2.len() implies !key_matches(
                #[trigger] s2[j],
                host2,
                opponent2,
            ) by {
                match find_index(s, host, opponent) {
                    Some(i) => {
                        if j == i {
                            assert(s2[j] == e);
                        } else {
                            assert(s2[j] == s[j]);
                        }
                    },
                    None => {
                        if j == s.len() {
                            assert(s2[j] == e);
                        } else {
                            assert(s2[j] == s[j]);
                        }
                    },
                }
            }
            lemma_find_index(s2, host2, opponent2);
            if find_index(s2, host2, opponent2) is Some {
                let k = find_index(s2, host2, opponent2)->Some_0;
                assert(key_matches(s2[k], host2, opponent2));
                assert(false);
            }
        },
    }
}

/// At most one active (invited or playing) match exists between any two
/// addresses, counting both orderings of the pair as the same pair.
pub open spec fn one_active_per_pair(s: Seq<EntryView>) -> bool {
    forall|h: Seq<char>, o: Seq<char>|
        h != o && #[trigger] has_active(s, h, o) ==> !has_active(s, o, h)
}

/// The matchmaking index: at most one stored match per ordered address
/// pair.
pub struct GameStore {
    entries: Vec<GameEntry>,
}

impl View for GameStore {
    type V = Seq<EntryView>;

    closed spec fn view(&self) -> Seq<EntryView> {
        self.entries.deep_view()
    }
}

/// Indexing the deep view of the entry list equals the view of the indexed
/// entry.
proof fn lemma_entries_index(e: &Vec<GameEntry>, i: int)
    requires
        0 <= i < e@.len(),
    ensures
        e.deep_view().len() == e@.len(),
        e.deep_view()[i] == e@[i]@,
{
}

impl GameStore {
    /// Every key unique, every stored match well-formed.
    pub open spec fn wf(&self) -> bool {
        store_wf(self@)
    }

    /// An empty index.
    pub fn new() -> (s: GameStore)
        ensures
            s@ == Seq::<EntryView>::empty(),
            s.wf(),
    {
        let s = GameStore { entries: Vec::new() };
        proof {
            assert(s@ =~= Seq::<EntryView>::empty());
        }
        s
    }

    /// The position of the entry stored under `(host, opponent)`, if any.
    fn find(&self, host: &String, opponent: &String) -> (r: Option<usize>)
        ensures
            match r {
                Some(i) => find_index(self@, host@, opponent@) == Some(i as int),
                None => find_index(self@, host@, opponent@) is None,
            },
    {
        let n = self.entries.len();
        let mut i: usize = 0;
        while i < n
            invariant
                n == self.entries@.len(),
                i <= n,
                forall|j: int| 0 <= j < i ==> !key_matches(#[trigger] self@[j], host@, opponent@),
            decreases n - i,
        {
            proof {
                lemma_entries_index(&self.entries, i as int);
            }
            if self.entries[i].host == *host && self.entries[i].opponent == *opponent {
                proof {
                    assert(key_matches(self@[i as int], host@, opponent@));
                    lemma_find_index(self@, host@, opponent@);
                }
                return Some(i);
            }
            i = i + 1;
        }
        proof {
            lemma_find_index(self@, host@, opponent@);
        }
        None
    }

    /// A copy of the match stored under `(host, opponent)`, if any.
    pub fn load(&self, host: &String, opponent: &String) -> (r: Option<Game>)
        ensures
            match r {
                Some(g) => lookup(self@, host@, opponent@) == Some(g@),
                None => lookup(self@, host@, opponent@) is None,
            },
            self.wf() ==> match r {
                Some(g) => game_wf(g@),
                None => true,
            },
    {
        match self.find(host, opponent) {
            Some(i) => {
                proof {
                    lemma_find_index(self@, host@, opponent@);
                    lemma_entries_index(&self.entries, i as int);
                }
                Some(self.entries[i].game.duplicate())
            },
            None => None,
        }
    }

    /// Writes `game` under `(host, opponent)`, replacing the entry already
    /// stored under that key, or appending a new one.
    pub fn save(&mut self, host: String, opponent: String, game: Game)
        requires
            old(self).wf(),
            game_wf(game@),
        ensures
            final(self)@ == save_spec(old(self)@, host@, opponent@, game@),
            final(self).wf(),
    {
        let entry = GameEntry { host, opponent, game };
        let ghost ev = entry@;
        let ghost prev = self@;
        match self.find(&entry.host, &entry.opponent) {
            Some(i) => {
                proof {
                    lemma_find_index(prev, ev.host, ev.opponent);
                }
                self.entries.set(i, entry);
                proof {
                    lemma_entries_index(&self.entries, i as int);
                    assert forall|j: int| 0 <= j < prev.len() && j != i implies self@[j]
                        == prev[j] by {
                        lemma_entries_index(&self.entries, j);
                    }
                    assert(self@ =~= prev.update(i as int, ev));
                }
            },
            None => {
                self.entries.push(entry);
                proof {
                    lemma_entries_index(&self.entries, prev.len() as int);
                    assert forall|j: int| 0 <= j < prev.len() implies self@[j] == prev[j] by {
                        lemma_entries_index(&self.entries, j);
                    }
                    assert(self@ =~= prev.push(ev));
                    lemma_find_index(prev, ev.host, ev.opponent);
                }
            },
        }
    }

    /// How many matches are stored.
    pub fn len(&self) -> (n: usize)
        ensures
            n == self@.len(),
    {
        self.entries.len()
    }

    /// The stored match at position `i`, copied together with its key.
    pub fn entry_response(&self, i: usize) -> (r: GameResponse)
        requires
            i < self@.len(),
        ensures
            r@ == (GameResponseView {
                game: self@[i as int].game,
                host: self@[i as int].host,
                opponent: self@[i as int].opponent,
            }),
    {
        proof {
            lemma_entries_index(&self.entries, i as int);
        }
        let e = &self.entries[i];
        GameResponse { game: e.game.duplicate(), host: e.host.clone(), opponent: e.opponent.clone() }
    }

    /// The status of the stored match at position `i`.
    pub fn status_at(&self, i: usize) -> (s: Status)
        requires
            i < self@.len(),
        ensures
            s == self@[i as int].game.status,
    {
        proof {
            lemma_entries_index(&self.entries, i as int);
        }
        self.entries[i].game.status
    }
}

} // verus!
