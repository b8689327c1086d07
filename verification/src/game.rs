//! The game state engine: coordinates, pieces, boards, and the rules for
//! applying one move to the shared game state.

use vstd::prelude::*;

verus! {

/// Side length of one board; the global grid is BOARD_LENGTH * BOARD_LENGTH
/// sub-boards of BOARD_LENGTH * BOARD_LENGTH cells each.
pub const BOARD_LENGTH: usize = 3;

/// Side length of the global grid of cells.
pub const GAME_LENGTH: usize = 9;

/// A pair of grid coordinates. As a global address both components lie in
/// [0, GAME_LENGTH); as a board-local or meta address both lie in
/// [0, BOARD_LENGTH).
#[derive(Copy, Clone, Debug, PartialEq, Eq, Structural)]
pub struct Coordinates {
    pub x: usize,
    pub y: usize,
}

impl Coordinates {
    /// True when the pair addresses a cell of the global grid.
    pub open spec fn in_game(self) -> bool {
        self.x < GAME_LENGTH && self.y < GAME_LENGTH
    }

    /// True when the pair addresses a cell of one board.
    pub open spec fn in_board(self) -> bool {
        self.x < BOARD_LENGTH && self.y < BOARD_LENGTH
    }

    /// The meta-board address of the sub-board this global cell lies in.
    pub open spec fn spec_meta(self) -> Coordinates {
        Coordinates { x: self.x / BOARD_LENGTH, y: self.y / BOARD_LENGTH }
    }

    /// The cell's address within its sub-board.
    pub open spec fn spec_local(self) -> Coordinates {
        Coordinates { x: self.x % BOARD_LENGTH, y: self.y % BOARD_LENGTH }
    }

    /// Which sub-board a global cell belongs to.
    pub fn to_meta(&self) -> (r: Coordinates)
        ensures
            r == self.spec_meta(),
    {
        Coordinates { x: self.x / BOARD_LENGTH, y: self.y / BOARD_LENGTH }
    }

    /// The cell's address within that sub-board.
    pub fn to_local(&self) -> (r: Coordinates)
        ensures
            r == self.spec_local(),
    {
        Coordinates { x: self.x % BOARD_LENGTH, y: self.y % BOARD_LENGTH }
    }

    /// True iff the pair lies on the primary diagonal of a board.
    pub fn on_diagonal_00(&self) -> (r: bool)
        ensures
            r == (self.x == self.y),
    {
        self.x == self.y
    }

    /// True iff the pair lies on the anti-diagonal of a board.
    pub fn on_diagonal_02(&self) -> (r: bool)
        ensures
            r == ((self.x == 0 && self.y == 2) || (self.x == 1 && self.y == 1) || (self.x == 2
                && self.y == 0)),
    {
        match (self.x, self.y) {
            (0, 2) | (1, 1) | (2, 0) => true,
            _ => false,
        }
    }

    /// Range check a caller can run before handing the pair to the engine.
    pub fn in_range(&self) -> (r: bool)
        ensures
            r == self.in_game(),
    {
        self.x < GAME_LENGTH && self.y < GAME_LENGTH
    }
}

/// A player's mark. Absence of a mark is an empty cell, not a Piece variant.
#[derive(Copy, Clone, Debug, PartialEq, Eq, Structural)]
pub enum Piece {
    Cross,
    Nought,
}

/// Number of cells of one board.
pub const BOARD_CELLS: usize = 9;

/// A 3x3 grid of optionally occupied cells, stored row-major: the cell at
/// (x, y) sits at index BOARD_LENGTH * x + y. The same shape serves both a
/// sub-board and the meta-board.
#[derive(Clone, Debug)]
pub struct Board {
    pub cells: Vec<Option<Piece>>,
}

/// Index of cell (x, y) in a board's backing vector.
pub open spec fn cell_index(x: int, y: int) -> int {
    3 * x + y
}

impl Board {
    /// The board holds exactly one entry per cell.
    pub open spec fn wf(self) -> bool {
        self.cells@.len() == BOARD_CELLS
    }

    /// The mark at cell (x, y), if any.
    pub open spec fn spec_cell(self, x: int, y: int) -> Option<Piece> {
        self.cells@[cell_index(x, y)]
    }

    /// An entirely empty board.
    pub fn new() -> (b: Board)
        ensures
            b.wf(),
            forall|i: int| 0 <= i < BOARD_CELLS ==> b.cells@[i] is None,
    {
        let mut cells: Vec<Option<Piece>> = Vec::new();
        let mut i: usize = 0;
        while i < BOARD_CELLS
            invariant
                i <= BOARD_CELLS,
                cells@.len() == i,
                forall|j: int| 0 <= j < i ==> cells@[j] is None,
            decreases BOARD_CELLS - i,
        {
            cells.push(None);
            i = i + 1;
        }
        Board { cells }
    }

    /// The mark at cell (x, y), if any.
    pub fn cell(&self, x: usize, y: usize) -> (r: Option<Piece>)
        requires
            self.wf(),
            x < BOARD_LENGTH,
            y < BOARD_LENGTH,
        ensures
            r == self.spec_cell(x as int, y as int),
    {
        self.cells[BOARD_LENGTH * x + y]
    }

    /// True iff cell (x, y) holds the mark p.
    pub fn cell_has(&self, x: usize, y: usize, p: Piece) -> (r: bool)
        requires
            self.wf(),
            x < BOARD_LENGTH,
            y < BOARD_LENGTH,
        ensures
            r == (self.spec_cell(x as int, y as int) == Some(p)),
    {
        match self.cell(x, y) {
            Some(q) => q == p,
            None => false,
        }
    }

    /// Write mark p into cell (x, y).
    pub fn set_cell(&mut self, x: usize, y: usize, p: Piece)
        requires
            old(self).wf(),
            x < BOARD_LENGTH,
            y < BOARD_LENGTH,
        ensures
            final(self).wf(),
            final(self).cells@ == old(self).cells@.update(cell_index(x as int, y as int), Some(p)),
    {
        self.cells[BOARD_LENGTH * x + y] = Some(p);
    }
}

impl View for Board {
    type V = Seq<Option<Piece>>;

    open spec fn view(&self) -> Seq<Option<Piece>> {
        self.cells@
    }
}

impl Piece {
    /// The other player's mark.
    pub open spec fn spec_other(self) -> Piece {
        match self {
            Piece::Nought => Piece::Cross,
            Piece::Cross => Piece::Nought,
        }
    }

    /// The other player's mark.
    pub fn other(self) -> (r: Piece)
        ensures
            r == self.spec_other(),
    {
        match self {
            Piece::Nought => Piece::Cross,
            Piece::Cross => Piece::Nought,
        }
    }
}

/// The mathematical model of a board: one entry per cell, row-major.
pub type BoardModel = Seq<Option<Piece>>;

/// Every cell of the full row x holds mark p.
pub open spec fn row_win(b: BoardModel, x: int, p: Piece) -> bool {
    b[cell_index(x, 0)] == Some(p) && b[cell_index(x, 1)] == Some(p) && b[cell_index(x, 2)]
        == Some(p)
}

/// Every cell of the full column y holds mark p.
pub open spec fn column_win(b: BoardModel, y: int, p: Piece) -> bool {
    b[cell_index(0, y)] == Some(p) && b[cell_index(1, y)] == Some(p) && b[cell_index(2, y)]
        == Some(p)
}

/// Every cell of the primary diagonal holds mark p.
pub open spec fn diagonal_00_win(b: BoardModel, p: Piece) -> bool {
    b[cell_index(0, 0)] == Some(p) && b[cell_index(1, 1)] == Some(p) && b[cell_index(2, 2)]
        == Some(p)
}

/// Every cell of the anti-diagonal holds mark p.
pub open spec fn diagonal_02_win(b: BoardModel, p: Piece) -> bool {
    b[cell_index(0, 2)] == Some(p) && b[cell_index(1, 1)] == Some(p) && b[cell_index(2, 0)]
        == Some(p)
}

/// The mark just placed at (x, y) completes a winning line for p: one of the
/// (up to) four lines through (x, y) is entirely p's. Only lines through the
/// just-played cell can have turned winning, so these four decide it.
pub open spec fn line_win(b: BoardModel, x: int, y: int, p: Piece) -> bool {
    row_win(b, x, p) || column_win(b, y, p) || (x == y && diagonal_00_win(b, p)) || (x + y == 2
        && diagonal_02_win(b, p))
}

/// Some cell of the board is still empty.
pub open spec fn board_has_empty(b: BoardModel) -> bool {
    exists|i: int| 0 <= i < BOARD_CELLS && b[i] is None
}

/// The abstract game state the contracts speak of.
#[verifier::ext_equal]
pub ghost struct GameModel {
    /// When present, the next move must land in this sub-board.
    pub restriction: Option<Coordinates>,
    /// Per sub-board, the mark that has won it, if any.
    pub meta: BoardModel,
    /// The nine sub-boards, indexed by cell_index of their meta address.
    pub boards: Seq<BoardModel>,
    /// Whose move it is.
    pub turn: Piece,
    /// True once the meta-board has been won.
    pub game_over: bool,
}

impl GameModel {
    /// Shape of a well-formed model: nine sub-boards of nine cells, a nine
    /// cell meta-board, and any restriction a board address.
    pub open spec fn wf(self) -> bool {
        &&& self.meta.len() == BOARD_CELLS
        &&& self.boards.len() == BOARD_CELLS
        &&& forall|i: int| 0 <= i < BOARD_CELLS ==> (#[trigger] self.boards[i]).len() == BOARD_CELLS
        &&& (self.restriction matches Some(r) ==> r.in_board())
    }

    /// The model of a fresh game: all cells empty, Nought to move, no
    /// restriction, not over.
    pub open spec fn init() -> GameModel {
        GameModel {
            restriction: None,
            meta: Seq::new(BOARD_CELLS as nat, |i: int| None),
            boards: Seq::new(BOARD_CELLS as nat, |i: int| Seq::new(BOARD_CELLS as nat, |j: int| None)),
            turn: Piece::Nought,
            game_over: false,
        }
    }

    /// The sub-board at meta address m may still receive marks and may still
    /// be won: it is not yet decided and has at least one empty cell.
    pub open spec fn board_open(self, m: Coordinates) -> bool {
        self.meta[cell_index(m.x as int, m.y as int)] is None && board_has_empty(
            self.boards[cell_index(m.x as int, m.y as int)],
        )
    }
}

/// How the engine answered a requested move.
#[derive(Copy, Clone, Debug, PartialEq, Eq, Structural)]
pub enum MoveOutcome {
    /// The move was legal and has been applied.
    Accepted,
    /// The match is already decided; nothing may change any more.
    GameAlreadyOver,
    /// A restriction is in force and the move targets another sub-board.
    WrongBoard,
    /// The targeted sub-board has already been won.
    BoardAlreadyWon,
    /// The targeted cell already holds a mark.
    TileAlreadyTaken,
}

/// The answer the engine owes for a requested move: the four rejection
/// checks in their fixed order, else acceptance.
pub open spec fn outcome_of(m: GameModel, c: Coordinates) -> MoveOutcome {
    let mi = cell_index(c.spec_meta().x as int, c.spec_meta().y as int);
    let li = cell_index(c.spec_local().x as int, c.spec_local().y as int);
    if m.game_over {
        MoveOutcome::GameAlreadyOver
    } else if m.restriction matches Some(r) && r != c.spec_meta() {
        MoveOutcome::WrongBoard
    } else if m.meta[mi] is Some {
        MoveOutcome::BoardAlreadyWon
    } else if m.boards[mi][li] is Some {
        MoveOutcome::TileAlreadyTaken
    } else {
        MoveOutcome::Accepted
    }
}

/// The just-played sub-board after the mover's mark is written into the
/// addressed cell.
pub open spec fn step_board(m: GameModel, c: Coordinates) -> BoardModel {
    m.boards[cell_index(c.spec_meta().x as int, c.spec_meta().y as int)].update(
        cell_index(c.spec_local().x as int, c.spec_local().y as int),
        Some(m.turn),
    )
}

/// The state after an accepted move at global address c: the mover's mark is
/// written into the addressed cell; if that completes a line of the
/// sub-board the sub-board is claimed on the meta-board, and if that in turn
/// completes a line of the meta-board the game ends with turn and
/// restriction frozen; otherwise the restriction becomes the just-played
/// local address when that sub-board is still open, else None, and the turn
/// passes to the other player.
pub open spec fn step(m: GameModel, c: Coordinates) -> GameModel {
    let mc = c.spec_meta();
    let lc = c.spec_local();
    let mi = cell_index(mc.x as int, mc.y as int);
    let li = cell_index(lc.x as int, lc.y as int);
    let board1 = step_board(m, c);
    let boards1 = m.boards.update(mi, board1);
    let sub_won = line_win(board1, lc.x as int, lc.y as int, m.turn);
    let meta1 = if sub_won {
        m.meta.update(mi, Some(m.turn))
    } else {
        m.meta
    };
    let meta_won = sub_won && line_win(meta1, mc.x as int, mc.y as int, m.turn);
    if meta_won {
        GameModel {
            restriction: m.restriction,
            meta: meta1,
            boards: boards1,
            turn: m.turn,
            game_over: true,
        }
    } else {
        let after = GameModel {
            restriction: m.restriction,
            meta: meta1,
            boards: boards1,
            turn: m.turn,
            game_over: false,
        };
        GameModel {
            restriction: if after.board_open(lc) {
                Some(lc)
            } else {
                None
            },
            meta: meta1,
            boards: boards1,
            turn: m.turn.spec_other(),
            game_over: false,
        }
    }
}

/// The authoritative game state: restriction, meta-board, the nine
/// sub-boards (indexed by cell_index of their meta address), turn, and
/// whether the match is decided.
#[derive(Clone, Debug)]
pub struct GameState {
    pub meta_coords_restriction: Option<Coordinates>,
    pub meta_pieces: Board,
    pub pieces: Vec<Board>,
    pub turn: Piece,
    pub game_over: bool,
}

impl View for GameState {
    type V = GameModel;

    open spec fn view(&self) -> GameModel {
        GameModel {
            restriction: self.meta_coords_restriction,
            meta: self.meta_pieces@,
            boards: self.pieces@.map_values(|b: Board| b@),
            turn: self.turn,
            game_over: self.game_over,
        }
    }
}

impl GameState {
    /// The concrete state has the shape the model asks of it.
    pub open spec fn wf(self) -> bool {
        self@.wf()
    }

    /// A fresh game: every cell empty, Nought to move, no restriction, not
    /// over.
    pub fn new() -> (s: GameState)
        ensures
            s.wf(),
            s@ == GameModel::init(),
    {
        let mut pieces: Vec<Board> = Vec::new();
        let mut i: usize = 0;
        while i < BOARD_CELLS
            invariant
                i <= BOARD_CELLS,
                pieces@.len() == i,
                forall|j: int| 0 <= j < i ==> (#[trigger] pieces@[j])@ =~= Seq::new(
                    BOARD_CELLS as nat,
                    |k: int| None::<Piece>,
                ),
            decreases BOARD_CELLS - i,
        {
            pieces.push(Board::new());
            i = i + 1;
        }
        let s = GameState {
            meta_coords_restriction: None,
            meta_pieces: Board::new(),
            pieces,
            turn: Piece::Nought,
            game_over: false,
        };
        proof {
            assert(s@.meta =~= GameModel::init().meta);
            assert(s@.boards =~~= GameModel::init().boards);
            assert(s@ =~~= GameModel::init());
        }
        s
    }

    /// Apply one requested move at the global address global_coords. The
    /// four rejection checks run in their fixed order and a rejected move
    /// leaves the state untouched; an accepted move transforms the state
    /// exactly as step describes.
    pub fn request_action(&mut self, global_coords: Coordinates) -> (r: MoveOutcome)
        requires
            old(self).wf(),
            global_coords.in_game(),
        ensures
            final(self).wf(),
            r == outcome_of(old(self)@, global_coords),
            r == MoveOutcome::Accepted ==> final(self)@ == step(old(self)@, global_coords),
            r != MoveOutcome::Accepted ==> *final(self) == *old(self),
    {
        if self.game_over {
            return MoveOutcome::GameAlreadyOver;
        }
        let meta_coords = global_coords.to_meta();
        proof {
            assert(meta_coords.in_board());
        }
        if let Some(coords) = self.meta_coords_restriction {
            if coords != meta_coords {
                return MoveOutcome::WrongBoard;
            }
        }
        let mi = BOARD_LENGTH * meta_coords.x + meta_coords.y;
        proof {
            assert(mi as int == cell_index(meta_coords.x as int, meta_coords.y as int));
        }
        if self.meta_pieces.cells[mi].is_some() {
            return MoveOutcome::BoardAlreadyWon;
        }
        let local_coords = global_coords.to_local();
        proof {
            assert(local_coords.in_board());
        }
        let li = BOARD_LENGTH * local_coords.x + local_coords.y;
        if self.pieces[mi].cells[li].is_some() {
            return MoveOutcome::TileAlreadyTaken;
        }
        let ghost pre = self@;
        let t = self.turn;
        let mut board = self.pieces.remove(mi);
        board.set_cell(local_coords.x, local_coords.y, t);
        let sub_won = self.move_wins_board(&board, local_coords);
        self.pieces.insert(mi, board);
        proof {
            assert(self.pieces@ =~= old(self).pieces@.update(mi as int, board));
            assert(board@ == pre.boards[mi as int].update(
                cell_index(local_coords.x as int, local_coords.y as int),
                Some(t),
            ));
            assert(self@.boards =~~= pre.boards.update(mi as int, board@));
            assert(sub_won == line_win(
                step_board(pre, global_coords),
                local_coords.x as int,
                local_coords.y as int,
                t,
            ));
        }
        if sub_won {
            self.meta_pieces.set_cell(meta_coords.x, meta_coords.y, t);
            if self.move_wins_board(&self.meta_pieces, meta_coords) {
                self.game_over = true;
                proof {
                    assert(self@ =~~= step(pre, global_coords));
                }
                return MoveOutcome::Accepted;
            }
        }
        self.meta_coords_restriction = if self.board_is_open(local_coords) {
            Some(local_coords)
        } else {
            None
        };
        self.turn = t.other();
        proof {
            assert(self@ =~~= step(pre, global_coords));
        }
        MoveOutcome::Accepted
    }

    /// Runtime check of the well-formedness the engine's operations demand,
    /// for callers that built or received a state outside the engine.
    pub fn check_wf(&self) -> (r: bool)
        ensures
            r == self.wf(),
    {
        if self.meta_pieces.cells.len() != BOARD_CELLS {
            return false;
        }
        if self.pieces.len() != BOARD_CELLS {
            return false;
        }
        let mut i: usize = 0;
        while i < BOARD_CELLS
            invariant
                i <= BOARD_CELLS,
                self.pieces@.len() == BOARD_CELLS,
                forall|j: int| 0 <= j < i ==> (#[trigger] self.pieces@[j])@.len() == BOARD_CELLS,
            decreases BOARD_CELLS - i,
        {
            if self.pieces[i].cells.len() != BOARD_CELLS {
                proof {
                    assert(self@.boards[i as int] == self.pieces@[i as int]@);
                }
                return false;
            }
            i = i + 1;
        }
        match self.meta_coords_restriction {
            Some(r) => r.x < BOARD_LENGTH && r.y < BOARD_LENGTH,
            None => true,
        }
    }

    /// Does the mark just placed at coords complete a winning line for the
    /// player to move? Checks exactly the (up to) four lines through coords:
    /// its full row, its full column, and each diagonal it lies on.
    pub fn move_wins_board(&self, board: &Board, coords: Coordinates) -> (r: bool)
        requires
            board.wf(),
            coords.in_board(),
        ensures
            r == line_win(board@, coords.x as int, coords.y as int, self.turn),
    {
        let t = self.turn;
        let row_win = board.cell_has(coords.x, 0, t) && board.cell_has(coords.x, 1, t)
            && board.cell_has(coords.x, 2, t);
        let column_win = board.cell_has(0, coords.y, t) && board.cell_has(1, coords.y, t)
            && board.cell_has(2, coords.y, t);
        let diagonal_00_win = coords.on_diagonal_00() && board.cell_has(0, 0, t) && board.cell_has(
            1,
            1,
            t,
        ) && board.cell_has(2, 2, t);
        let diagonal_02_win = coords.on_diagonal_02() && board.cell_has(0, 2, t) && board.cell_has(
            1,
            1,
            t,
        ) && board.cell_has(2, 0, t);
        row_win || column_win || diagonal_00_win || diagonal_02_win
    }

    /// The sub-board at meta address meta_coords may still receive marks and
    /// still be won: not yet decided, and at least one cell empty.
    pub fn board_is_open(&self, meta_coords: Coordinates) -> (r: bool)
        requires
            self.wf(),
            meta_coords.in_board(),
        ensures
            r == self@.board_open(meta_coords),
    {
        let mi = BOARD_LENGTH * meta_coords.x + meta_coords.y;
        if self.meta_pieces.cells[mi].is_none() {
            let board = &self.pieces[mi];
            proof {
                assert(self@.boards[mi as int] == self.pieces@[mi as int]@);
            }
            let mut i: usize = 0;
            while i < BOARD_CELLS
                invariant
                    i <= BOARD_CELLS,
                    self.wf(),
                    meta_coords.in_board(),
                    mi == BOARD_LENGTH * meta_coords.x + meta_coords.y,
                    self@.meta[mi as int] is None,
                    board.wf(),
                    board@ == self@.boards[mi as int],
                    forall|j: int| 0 <= j < i ==> board.cells@[j] is Some,
                decreases BOARD_CELLS - i,
            {
                if board.cells[i].is_none() {
                    proof {
                        assert(self@.boards[mi as int][i as int] is None);
                        assert(board_has_empty(self@.boards[mi as int]));
                    }
                    return true;
                }
                i = i + 1;
            }
            false
        } else {
            false
        }
    }
}

} // verus!
