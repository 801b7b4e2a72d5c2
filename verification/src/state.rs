//! Board positions, player symbols and match status.

use vstd::prelude::*;

verus! {

/// One of the two players' marks.
#[derive(Clone, Copy, Debug, PartialEq, Eq, Structural)]
pub enum PlayerSymbol {
    X,
    O,
}

/// Lifecycle stage of a match.
#[allow(non_camel_case_types)]
#[derive(Clone, Copy, Debug, PartialEq, Eq, Structural)]
pub enum Status {
    INVITED,
    PLAYING,
    COMPLETED,
    REJECTED,
}

/// A board position; only `x < 3 && y < 3` addresses a cell.
#[derive(Clone, Copy, Debug, PartialEq, Eq, Structural)]
pub struct Coord {
    pub x: u8,
    pub y: u8,
}

impl Coord {
    /// Whether this coordinate addresses a cell of the 3x3 board.
    pub open spec fn spec_valid(self) -> bool {
        self.x < 3 && self.y < 3
    }

    /// Whether this coordinate addresses a cell of the 3x3 board.
    #[verifier::when_used_as_spec(spec_valid)]
    pub fn is_valid(self) -> (b: bool)
        ensures
            b == self.spec_valid(),
    {
        self.x < 3 && self.y < 3
    }
}

impl PlayerSymbol {
    /// The symbol the other player holds.
    pub open spec fn spec_other(self) -> PlayerSymbol {
        match self {
            PlayerSymbol::X => PlayerSymbol::O,
            PlayerSymbol::O => PlayerSymbol::X,
        }
    }

    /// The symbol the other player holds.
    #[verifier::when_used_as_spec(spec_other)]
    pub fn other(self) -> (s: PlayerSymbol)
        ensures
            s == self.spec_other(),
    {
        match self {
            PlayerSymbol::X => PlayerSymbol::O,
            PlayerSymbol::O => PlayerSymbol::X,
        }
    }

    /// The display name of the symbol, "X" or "O".
    pub fn text(&self) -> (s: String)
        ensures
            s@ == symbol_text(*self),
    {
        match self {
            PlayerSymbol::X => "X".to_owned(),
            PlayerSymbol::O => "O".to_owned(),
        }
    }
}

/// The display name of a symbol.
pub open spec fn symbol_text(s: PlayerSymbol) -> Seq<char> {
    match s {
        PlayerSymbol::X => "X"@,
        PlayerSymbol::O => "O"@,
    }
}

impl Status {
    /// A match in one of these stages blocks a fresh invitation between the
    /// same two addresses.
    pub open spec fn spec_is_active(self) -> bool {
        self == Status::INVITED || self == Status::PLAYING
    }

    /// A match in one of these stages blocks a fresh invitation between the
    /// same two addresses.
    #[verifier::when_used_as_spec(spec_is_active)]
    pub fn is_active(self) -> (b: bool)
        ensures
            b == self.spec_is_active(),
    {
        match self {
            Status::INVITED => true,
            Status::PLAYING => true,
            Status::COMPLETED => false,
            Status::REJECTED => false,
        }
    }

    /// The display name of the status.
    pub fn text(&self) -> (s: String)
        ensures
            s@ == status_text(*self),
    {
        match self {
            Status::INVITED => "INVITED".to_owned(),
            Status::PLAYING => "PLAYING".to_owned(),
            Status::COMPLETED => "COMPLETED".to_owned(),
            Status::REJECTED => "REJECTED".to_owned(),
        }
    }
}

/// The display name of a status.
pub open spec fn status_text(s: Status) -> Seq<char> {
    match s {
        Status::INVITED => "INVITED"@,
        Status::PLAYING => "PLAYING"@,
        Status::COMPLETED => "COMPLETED"@,
        Status::REJECTED => "REJECTED"@,
    }
}

impl View for PlayerSymbol {
    type V = PlayerSymbol;

    open spec fn view(&self) -> PlayerSymbol {
        *self
    }
}

impl DeepView for PlayerSymbol {
    type V = PlayerSymbol;

    open spec fn deep_view(&self) -> PlayerSymbol {
        *self
    }
}

/// An amount of one denomination of fungible value.
#[derive(Clone, Debug, PartialEq, Eq)]
pub struct Coin {
    pub denom: String,
    pub amount: u128,
}

/// The mathematical value of a [`Coin`].
#[verifier::ext_equal]
pub ghost struct CoinView {
    pub denom: Seq<char>,
    pub amount: u128,
}

impl View for Coin {
    type V = CoinView;

    open spec fn view(&self) -> CoinView {
        CoinView { denom: self.denom@, amount: self.amount }
    }
}

impl DeepView for Coin {
    type V = CoinView;

    open spec fn deep_view(&self) -> CoinView {
        self@
    }
}

/// The mathematical value of a 3x3 board: row `y` of the grid is `board[y]`,
/// and the cell at coordinate `(x, y)` is `board[y][x]`.
pub type BoardView = Seq<Seq<Option<PlayerSymbol>>>;

/// A board row with no marks.
pub open spec fn empty_row() -> Seq<Option<PlayerSymbol>> {
    seq![None, None, None]
}

/// A board with no marks.
pub open spec fn empty_board() -> BoardView {
    seq![empty_row(), empty_row(), empty_row()]
}

/// The board is a 3x3 grid.
pub open spec fn board_wf(b: BoardView) -> bool {
    &&& b.len() == 3
    &&& forall|y: int| 0 <= y < 3 ==> (#[trigger] b[y]).len() == 3
}

/// The cell addressed by a valid coordinate.
pub open spec fn board_at(b: BoardView, coord: Coord) -> Option<PlayerSymbol> {
    b[coord.y as int][coord.x as int]
}

/// The board with the cell at `coord` replaced by `v`.
pub open spec fn board_set(b: BoardView, coord: Coord, v: Option<PlayerSymbol>) -> BoardView {
    b.update(coord.y as int, b[coord.y as int].update(coord.x as int, v))
}

/// Every cell holds a mark.
pub open spec fn board_full(b: BoardView) -> bool {
    forall|x: int, y: int| 0 <= x < 3 && 0 <= y < 3 ==> (#[trigger] b[y][x]) is Some
}

/// The cell at `(x, y)` holds the mark `s`.
pub open spec fn cell_has(b: BoardView, x: int, y: int, s: PlayerSymbol) -> bool {
    b[y][x] == Some(s)
}

/// Some line of three — a row, a column or a diagonal — is entirely
/// occupied by `s`.
pub open spec fn wins(b: BoardView, s: PlayerSymbol) -> bool {
    ||| cell_has(b, 0, 0, s) && cell_has(b, 1, 0, s) && cell_has(b, 2, 0, s)
    ||| cell_has(b, 0, 1, s) && cell_has(b, 1, 1, s) && cell_has(b, 2, 1, s)
    ||| cell_has(b, 0, 2, s) && cell_has(b, 1, 2, s) && cell_has(b, 2, 2, s)
    ||| cell_has(b, 0, 0, s) && cell_has(b, 0, 1, s) && cell_has(b, 0, 2, s)
    ||| cell_has(b, 1, 0, s) && cell_has(b, 1, 1, s) && cell_has(b, 1, 2, s)
    ||| cell_has(b, 2, 0, s) && cell_has(b, 2, 1, s) && cell_has(b, 2, 2, s)
    ||| cell_has(b, 0, 0, s) && cell_has(b, 1, 1, s) && cell_has(b, 2, 2, s)
    ||| cell_has(b, 2, 0, s) && cell_has(b, 1, 1, s) && cell_has(b, 0, 2, s)
}

/// Every amount in `p` multiplied by two, denominations and order kept.
pub open spec fn doubled_prize(p: Seq<CoinView>) -> Seq<CoinView> {
    p.map_values(|c: CoinView| CoinView { denom: c.denom, amount: (c.amount * 2) as u128 })
}

/// Every amount in `p` divided by two (floor), denominations and order kept.
pub open spec fn halved_prize(p: Seq<CoinView>) -> Seq<CoinView> {
    p.map_values(|c: CoinView| CoinView { denom: c.denom, amount: (c.amount / 2) as u128 })
}

/// Every amount in `p` can be doubled without exceeding the machine range.
pub open spec fn prize_fits_doubling(p: Seq<CoinView>) -> bool {
    forall|i: int| 0 <= i < p.len() ==> (#[trigger] p[i]).amount <= u128::MAX / 2
}

/// One match between two players: the board, the two symbols, whose turn it
/// is, the escrowed prize, and where the match stands.
#[derive(Debug, PartialEq, Eq)]
pub struct Game {
    pub board: Vec<Vec<Option<PlayerSymbol>>>,
    pub host_symbol: PlayerSymbol,
    pub player_round: PlayerSymbol,
    pub prize: Vec<Coin>,
    pub status: Status,
    pub winner: Option<PlayerSymbol>,
}

/// The mathematical value of a [`Game`].
#[verifier::ext_equal]
pub ghost struct GameView {
    pub board: BoardView,
    pub host_symbol: PlayerSymbol,
    pub player_round: PlayerSymbol,
    pub prize: Seq<CoinView>,
    pub status: Status,
    pub winner: Option<PlayerSymbol>,
}

impl View for Game {
    type V = GameView;

    open spec fn view(&self) -> GameView {
        GameView {
            board: self.board.deep_view(),
            host_symbol: self.host_symbol,
            player_round: self.player_round,
            prize: self.prize.deep_view(),
            status: self.status,
            winner: self.winner,
        }
    }
}

/// A well-formed game has a 3x3 board, and while it is being played its
/// prize amounts are all even: acceptance doubled them exactly once, so a
/// tie can split them without remainder.
pub open spec fn game_wf(g: GameView) -> bool {
    &&& board_wf(g.board)
    &&& g.status == Status::PLAYING ==> forall|i: int|
        0 <= i < g.prize.len() ==> (#[trigger] g.prize[i]).amount % 2 == 0
}

/// The game a fresh invitation creates: the host's mark at `coord`, the
/// opposite symbol to move (its move is folded into acceptance), the
/// attached funds escrowed, and status INVITED.
pub open spec fn game_new_spec(coord: Coord, prize: Seq<CoinView>, host_symbol: PlayerSymbol) -> GameView {
    GameView {
        board: board_set(empty_board(), coord, Some(host_symbol)),
        host_symbol: host_symbol,
        player_round: host_symbol.spec_other(),
        prize: prize,
        status: Status::INVITED,
        winner: None,
    }
}

/// Writing one cell changes that cell and no other.
pub proof fn lemma_board_set_at(b: BoardView, c: Coord, v: Option<PlayerSymbol>, c2: Coord)
    requires
        board_wf(b),
        c.spec_valid(),
        c2.spec_valid(),
    ensures
        board_at(board_set(b, c, v), c2) == if c2.x == c.x && c2.y == c.y {
            v
        } else {
            board_at(b, c2)
        },
        board_wf(board_set(b, c, v)),
{
}

/// An empty board has no mark anywhere.
pub proof fn lemma_empty_board_at(c: Coord)
    requires
        c.spec_valid(),
    ensures
        board_wf(empty_board()),
        board_at(empty_board(), c) is None,
{
    if c.y == 0 {
        assert(empty_board()[0] == empty_row());
    } else if c.y == 1 {
        assert(empty_board()[1] == empty_row());
    } else {
        assert(empty_board()[2] == empty_row());
    }
    assert(empty_row()[c.x as int] is None);
}

/// A row of `Option<PlayerSymbol>` cells views deeply as its plain view.
proof fn lemma_row_deep_view(r: &Vec<Option<PlayerSymbol>>)
    ensures
        r.deep_view() =~= r@,
{
    assert forall|i: int| 0 <= i < r@.len() implies r.deep_view()[i] == r@[i] by {
        match r@[i] {
            Some(s) => {},
            None => {},
        }
    }
}

/// Indexing the deep view of a board equals the plain view of the
/// indexed row.
proof fn lemma_board_index(b: &Vec<Vec<Option<PlayerSymbol>>>, y: int)
    requires
        0 <= y < b@.len(),
    ensures
        b.deep_view().len() == b@.len(),
        b.deep_view()[y] == b@[y]@,
{
    lemma_row_deep_view(&b@[y]);
    assert(b.deep_view()[y] == b@[y].deep_view());
}

/// Indexing the deep view of a coin list equals the view of the indexed
/// coin.
proof fn lemma_coins_index(p: &Vec<Coin>, i: int)
    requires
        0 <= i < p@.len(),
    ensures
        p.deep_view().len() == p@.len(),
        p.deep_view()[i] == p@[i]@,
{
}

fn make_empty_row() -> (r: Vec<Option<PlayerSymbol>>)
    ensures
        r.deep_view() == empty_row(),
{
    let mut r: Vec<Option<PlayerSymbol>> = Vec::new();
    r.push(None);
    r.push(None);
    r.push(None);
    proof {
        lemma_row_deep_view(&r);
        assert(r.deep_view() =~= empty_row());
    }
    r
}

fn clone_row(r: &Vec<Option<PlayerSymbol>>) -> (out: Vec<Option<PlayerSymbol>>)
    ensures
        out@ == r@,
        out.deep_view() == r.deep_view(),
{
    let mut out: Vec<Option<PlayerSymbol>> = Vec::new();
    let n = r.len();
    let mut i: usize = 0;
    while i < n
        invariant
            n == r@.len(),
            i <= n,
            out@ =~= r@.take(i as int),
        decreases n - i,
    {
        out.push(r[i]);
        i = i + 1;
    }
    proof {
        assert(out@ =~= r@);
        assert(out.deep_view() =~= r.deep_view());
    }
    out
}

/// Replaces the cell addressed by `coord` with `v`.
fn set_board_cell(board: &mut Vec<Vec<Option<PlayerSymbol>>>, coord: Coord, v: Option<PlayerSymbol>)
    requires
        board_wf(old(board).deep_view()),
        coord.is_valid(),
    ensures
        final(board).deep_view() == board_set(old(board).deep_view(), coord, v),
{
    let y = coord.y as usize;
    let x = coord.x as usize;
    proof {
        assert(board@.len() == board.deep_view().len());
        lemma_board_index(board, y as int);
    }
    let mut row = clone_row(&board[y]);
    row.set(x, v);
    board.set(y, row);
    proof {
        lemma_board_index(board, y as int);
        assert forall|j: int| 0 <= j < 3 && j != y implies final(board).deep_view()[j] == old(
            board,
        ).deep_view()[j] by {
            lemma_board_index(board, j);
            lemma_board_index(old(board), j);
        }
        lemma_row_deep_view(&row);
        assert(final(board).deep_view() =~~= board_set(old(board).deep_view(), coord, v));
    }
}

/// Copies a coin list; the copy has the same mathematical value.
pub(crate) fn clone_coins(p: &Vec<Coin>) -> (out: Vec<Coin>)
    ensures
        out.deep_view() == p.deep_view(),
{
    let mut out: Vec<Coin> = Vec::new();
    let n = p.len();
    let mut i: usize = 0;
    while i < n
        invariant
            n == p@.len(),
            i <= n,
            out@.len() == i,
            forall|j: int| 0 <= j < i ==> out.deep_view()[j] == p.deep_view()[j],
        decreases n - i,
    {
        proof {
            lemma_coins_index(p, i as int);
        }
        let c = Coin { denom: p[i].denom.clone(), amount: p[i].amount };
        let ghost prev = out.deep_view();
        out.push(c);
        proof {
            lemma_coins_index(&out, i as int);
            assert forall|j: int| 0 <= j < i implies out.deep_view()[j] == prev[j] by {
                lemma_coins_index(&out, j);
            }
        }
        i = i + 1;
    }
    proof {
        assert(out.deep_view() =~= p.deep_view());
    }
    out
}

/// Compares two coin lists for exact equality: same denominations with the
/// same amounts, in the same order.
pub(crate) fn coins_equal(a: &Vec<Coin>, b: &Vec<Coin>) -> (eq: bool)
    ensures
        eq == (a.deep_view() == b.deep_view()),
{
    let n = a.len();
    if n != b.len() {
        proof {
            assert(a.deep_view().len() != b.deep_view().len());
        }
        return false;
    }
    let mut i: usize = 0;
    while i < n
        invariant
            n == a@.len(),
            n == b@.len(),
            i <= n,
            forall|j: int| 0 <= j < i ==> a.deep_view()[j] == b.deep_view()[j],
        decreases n - i,
    {
        proof {
            lemma_coins_index(a, i as int);
            lemma_coins_index(b, i as int);
        }
        if a[i].denom != b[i].denom || a[i].amount != b[i].amount {
            proof {
                assert(a.deep_view()[i as int] != b.deep_view()[i as int]);
            }
            return false;
        }
        proof {
            assert(a.deep_view()[i as int] =~= b.deep_view()[i as int]);
        }
        i = i + 1;
    }
    proof {
        assert(a.deep_view() =~= b.deep_view());
    }
    true
}

impl Game {
    /// The board is a 3x3 grid.
    pub open spec fn wf(&self) -> bool {
        board_wf(self@.board)
    }

    /// Creates the match an invitation records: the host's mark placed at
    /// `coord`, the opposite symbol to move next, the attached funds
    /// escrowed, status INVITED.
    pub fn new(coord: Coord, prize: Vec<Coin>, host_symbol: PlayerSymbol) -> (g: Game)
        requires
            coord.is_valid(),
        ensures
            g@ == game_new_spec(coord, prize.deep_view(), host_symbol),
            g.wf(),
    {
        let symbol_round = host_symbol.other();
        let mut board: Vec<Vec<Option<PlayerSymbol>>> = Vec::new();
        board.push(make_empty_row());
        board.push(make_empty_row());
        board.push(make_empty_row());
        proof {
            assert(board.deep_view() =~= empty_board());
        }
        set_board_cell(&mut board, coord, Some(host_symbol));
        let g = Game {
            board,
            host_symbol,
            player_round: symbol_round,
            prize,
            status: Status::INVITED,
            winner: None,
        };
        proof {
            assert(g@ =~~= game_new_spec(coord, prize.deep_view(), host_symbol));
        }
        g
    }

    /// Copies the game; the copy has the same mathematical value.
    pub fn duplicate(&self) -> (g: Game)
        ensures
            g@ == self@,
            g.wf() == self.wf(),
    {
        let mut board: Vec<Vec<Option<PlayerSymbol>>> = Vec::new();
        let n = self.board.len();
        let mut i: usize = 0;
        while i < n
            invariant
                n == self.board@.len(),
                i <= n,
                board@.len() == i,
                forall|j: int| 0 <= j < i ==> board.deep_view()[j] == self.board.deep_view()[j],
            decreases n - i,
        {
            proof {
                lemma_board_index(&self.board, i as int);
            }
            let row = clone_row(&self.board[i]);
            let ghost prev = board.deep_view();
            board.push(row);
            proof {
                lemma_board_index(&board, i as int);
                assert forall|j: int| 0 <= j < i implies board.deep_view()[j] == prev[j] by {
                    lemma_board_index(&board, j);
                    assert(prev[j] == board@[j].deep_view());
                }
                assert forall|j: int| 0 <= j < i implies board.deep_view()[j]
                    == self.board.deep_view()[j] by {
                    assert(prev[j] == self.board.deep_view()[j]);
                }
            }
            i = i + 1;
        }
        proof {
            assert(board.deep_view() =~= self.board.deep_view());
        }
        let g = Game {
            board,
            host_symbol: self.host_symbol,
            player_round: self.player_round,
            prize: clone_coins(&self.prize),
            status: self.status,
            winner: self.winner,
        };
        proof {
            assert(g@ =~~= self@);
        }
        g
    }

    /// The cell addressed by `coord` already holds a mark.
    pub fn already_played_on(&self, coord: Coord) -> (b: bool)
        requires
            self.wf(),
            coord.is_valid(),
        ensures
            b == (board_at(self@.board, coord) is Some),
    {
        proof {
            assert(self.board@.len() == 3);
            lemma_board_index(&self.board, coord.y as int);
        }
        self.board[coord.y as usize][coord.x as usize].is_some()
    }

    /// The caller in the given role has already moved: it is not that
    /// role's turn.
    pub fn already_played(&self, as_host: bool) -> (b: bool)
        ensures
            b == if as_host {
                self@.player_round != self@.host_symbol
            } else {
                self@.player_round == self@.host_symbol
            },
    {
        let same = match (self.player_round, self.host_symbol) {
            (PlayerSymbol::X, PlayerSymbol::X) => true,
            (PlayerSymbol::O, PlayerSymbol::O) => true,
            _ => false,
        };
        if as_host {
            !same
        } else {
            same
        }
    }

    /// Multiplies every prize amount by two, keeping denominations and
    /// order.
    pub fn double_prize(&mut self)
        requires
            prize_fits_doubling(old(self)@.prize),
        ensures
            final(self)@ == (GameView { prize: doubled_prize(old(self)@.prize), ..old(self)@ }),
    {
        let mut out: Vec<Coin> = Vec::new();
        let n = self.prize.len();
        let mut i: usize = 0;
        while i < n
            invariant
                n == self.prize@.len(),
                i <= n,
                out@.len() == i,
                prize_fits_doubling(self.prize.deep_view()),
                forall|j: int| 0 <= j < i ==> out.deep_view()[j] == doubled_prize(self.prize.deep_view())[j],
            decreases n - i,
        {
            proof {
                lemma_coins_index(&self.prize, i as int);
            }
            let c = Coin { denom: self.prize[i].denom.clone(), amount: self.prize[i].amount * 2 };
            let ghost prev = out.deep_view();
            out.push(c);
            proof {
                lemma_coins_index(&out, i as int);
                assert(out@.len() == i + 1);
                assert forall|j: int| 0 <= j < i implies out.deep_view()[j] == prev[j] by {
                    lemma_coins_index(&out, j);
                    assert(out@[j] == out@.subrange(0, i as int)[j]);
                    assert(prev[j] == out@[j].deep_view());
                }
                assert forall|j: int| 0 <= j < i implies out.deep_view()[j] == doubled_prize(
                    self.prize.deep_view(),
                )[j] by {
                    assert(prev[j] == doubled_prize(self.prize.deep_view())[j]);
                }
                assert(out.deep_view()[i as int] == doubled_prize(self.prize.deep_view())[i as int]);
            }
            i = i + 1;
        }
        proof {
            assert(out.deep_view() =~= doubled_prize(self.prize.deep_view()));
        }
        self.prize = out;
        proof {
            assert(final(self)@ =~~= (GameView { prize: doubled_prize(old(self)@.prize), ..old(self)@ }));
        }
    }

    /// Every prize amount divided by two (floor), denominations and order
    /// kept; the game itself is unchanged.
    pub fn get_half_prize(&self) -> (out: Vec<Coin>)
        ensures
            out.deep_view() == halved_prize(self@.prize),
    {
        let mut out: Vec<Coin> = Vec::new();
        let n = self.prize.len();
        let mut i: usize = 0;
        while i < n
            invariant
                n == self.prize@.len(),
                i <= n,
                out@.len() == i,
                forall|j: int| 0 <= j < i ==> out.deep_view()[j] == halved_prize(self.prize.deep_view())[j],
            decreases n - i,
        {
            proof {
                lemma_coins_index(&self.prize, i as int);
            }
            let c = Coin { denom: self.prize[i].denom.clone(), amount: self.prize[i].amount / 2 };
            let ghost prev = out.deep_view();
            out.push(c);
            proof {
                lemma_coins_index(&out, i as int);
                assert forall|j: int| 0 <= j < i implies out.deep_view()[j] == prev[j] by {
                    lemma_coins_index(&out, j);
                    assert(prev[j] == out@[j].deep_view());
                }
                assert forall|j: int| 0 <= j < i implies out.deep_view()[j] == halved_prize(
                    self.prize.deep_view(),
                )[j] by {
                    assert(prev[j] == halved_prize(self.prize.deep_view())[j]);
                }
                assert(out.deep_view()[i as int] == halved_prize(self.prize.deep_view())[i as int]);
            }
            i = i + 1;
        }
        proof {
            assert(out.deep_view() =~= halved_prize(self.prize.deep_view()));
        }
        out
    }

    /// Places the mark of the player whose turn it is at `coord`.
    pub fn play(&mut self, coord: Coord)
        requires
            old(self).wf(),
            coord.is_valid(),
        ensures
            final(self)@ == (GameView {
                board: board_set(old(self)@.board, coord, Some(old(self)@.player_round)),
                ..old(self)@
            }),
            final(self).wf(),
    {
        let v = Some(self.player_round);
        set_board_cell(&mut self.board, coord, v);
        proof {
            assert(final(self)@ =~~= (GameView {
                board: board_set(old(self)@.board, coord, Some(old(self)@.player_round)),
                ..old(self)@
            }));
        }
    }

    /// Hands the turn to the other player.
    pub fn finish_round(&mut self)
        ensures
            final(self)@ == (GameView { player_round: old(self)@.player_round.spec_other(), ..old(self)@ }),
    {
        self.player_round = self.player_round.other();
        proof {
            assert(final(self)@ =~~= (GameView {
                player_round: old(self)@.player_round.spec_other(),
                ..old(self)@
            }));
        }
    }

    /// Every cell of the board holds a mark.
    pub fn is_full_board(&self) -> (b: bool)
        requires
            self.wf(),
        ensures
            b == board_full(self@.board),
    {
        let mut y: usize = 0;
        while y < 3
            invariant
                self.wf(),
                y <= 3,
                forall|i: int, j: int| 0 <= i < 3 && 0 <= j < y ==> (#[trigger] self@.board[j][i]) is Some,
            decreases 3 - y,
        {
            proof {
                assert(self.board@.len() == 3);
                lemma_board_index(&self.board, y as int);
            }
            let mut x: usize = 0;
            while x < 3
                invariant
                    self.wf(),
                    y < 3,
                    x <= 3,
                    self.board@.len() == 3,
                    forall|i: int| 0 <= i < x ==> (#[trigger] self@.board[y as int][i]) is Some,
                decreases 3 - x,
            {
                proof {
                    lemma_board_index(&self.board, y as int);
                }
                if self.board[y][x].is_none() {
                    return false;
                }
                x = x + 1;
            }
            y = y + 1;
        }
        true
    }

    /// The mark of the player whose turn it is completes some line of
    /// three.
    pub fn is_current_player_winner(&self) -> (b: bool)
        requires
            self.wf(),
        ensures
            b == wins(self@.board, self@.player_round),
    {
        let s = self.player_round;
        (self.cell_is(0, 0, s) && self.cell_is(1, 0, s) && self.cell_is(2, 0, s))
            || (self.cell_is(0, 1, s) && self.cell_is(1, 1, s) && self.cell_is(2, 1, s))
            || (self.cell_is(0, 2, s) && self.cell_is(1, 2, s) && self.cell_is(2, 2, s))
            || (self.cell_is(0, 0, s) && self.cell_is(0, 1, s) && self.cell_is(0, 2, s))
            || (self.cell_is(1, 0, s) && self.cell_is(1, 1, s) && self.cell_is(1, 2, s))
            || (self.cell_is(2, 0, s) && self.cell_is(2, 1, s) && self.cell_is(2, 2, s))
            || (self.cell_is(0, 0, s) && self.cell_is(1, 1, s) && self.cell_is(2, 2, s))
            || (self.cell_is(2, 0, s) && self.cell_is(1, 1, s) && self.cell_is(0, 2, s))
    }

    /// The cell at `(x, y)` holds the mark `s`.
    fn cell_is(&self, x: usize, y: usize, s: PlayerSymbol) -> (b: bool)
        requires
            self.wf(),
            x < 3,
            y < 3,
        ensures
            b == cell_has(self@.board, x as int, y as int, s),
    {
        proof {
            assert(self.board@.len() == 3);
            lemma_board_index(&self.board, y as int);
        }
        match self.board[y][x] {
            Some(v) => v == s,
            None => false,
        }
    }
}

} // verus!

