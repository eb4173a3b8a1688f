//! The 3x3 board: tile states, legal placement, and detection of a finished
//! line or a full board.

use vstd::prelude::*;
use vstd::string::*;

verus! {

/// What one tile of the board holds.
#[derive(Copy, Clone, PartialEq, Eq, Structural, Debug)]
pub enum TileState {
    Empty,
    Ex,
    Oh,
}

impl TileState {
    /// The single character that depicts this tile.
    pub open spec fn glyph(self) -> char {
        match self {
            TileState::Empty => '_',
            TileState::Ex => 'X',
            TileState::Oh => 'O',
        }
    }

    /// The single character that depicts this tile.
    pub fn symbol(self) -> (c: char)
        ensures
            c == self.glyph(),
    {
        match self {
            TileState::Empty => '_',
            TileState::Ex => 'X',
            TileState::Oh => 'O',
        }
    }

    /// The depiction of this tile as a one-character string.
    pub fn as_str(self) -> (s: &'static str)
        ensures
            s@ == seq![self.glyph()],
    {
        proof {
            reveal_strlit("_");
            reveal_strlit("X");
            reveal_strlit("O");
        }
        let s = match self {
            TileState::Empty => "_",
            TileState::Ex => "X",
            TileState::Oh => "O",
        };
        assert(s@ =~= seq![self.glyph()]);
        s
    }
}

/// Why a placement was refused.
#[derive(Copy, Clone, PartialEq, Eq, Structural, Debug)]
pub enum BoardUpdateError {
    /// The addressed tile already holds a mark.
    AlreadyOccupied,
    /// A coordinate lies outside 1..=3.
    TileNonExistent,
}

/// The mathematical model of a board: three rows of three tiles, row-major.
pub type Grid = Seq<Seq<TileState>>;

/// A grid has exactly three rows of exactly three tiles.
pub open spec fn well_shaped(g: Grid) -> bool {
    &&& g.len() == 3
    &&& g[0].len() == 3
    &&& g[1].len() == 3
    &&& g[2].len() == 3
}

/// The grid on which every tile is empty.
pub open spec fn empty_grid() -> Grid {
    Seq::new(3, |r: int| Seq::new(3, |c: int| TileState::Empty))
}

/// Both 1-based coordinates address a tile of the board.
pub open spec fn in_range(x: int, y: int) -> bool {
    1 <= x <= 3 && 1 <= y <= 3
}

/// The tile in column `x` and row `y`, both 1-based.
pub open spec fn tile_at(g: Grid, x: int, y: int) -> TileState {
    g[y - 1][x - 1]
}

/// The grid `g` with the tile in column `x`, row `y` replaced by `mark`.
pub open spec fn with_tile(g: Grid, x: int, y: int, mark: TileState) -> Grid {
    g.update(y - 1, g[y - 1].update(x - 1, mark))
}

/// The outcome of placing `mark` in column `x`, row `y` of `g`: the new grid,
/// or the reason for which nothing changes.
pub open spec fn place(g: Grid, x: int, y: int, mark: TileState) -> Result<
    Grid,
    BoardUpdateError,
> {
    if !in_range(x, y) {
        Err(BoardUpdateError::TileNonExistent)
    } else if tile_at(g, x, y) != TileState::Empty {
        Err(BoardUpdateError::AlreadyOccupied)
    } else {
        Ok(with_tile(g, x, y, mark))
    }
}

/// The grid after an attempt to place `mark` in column `x`, row `y` of `g`:
/// a refused placement leaves it as it was.
pub open spec fn after_place(g: Grid, x: int, y: int, mark: TileState) -> Grid {
    match place(g, x, y, mark) {
        Ok(placed) => placed,
        Err(_) => g,
    }
}

/// The tile at position `i` (0, 1, 2) of line `k`. Lines 0..3 are the rows,
/// 3..6 the columns, 6 the main diagonal and 7 the anti-diagonal.
pub open spec fn line_tile(g: Grid, k: int, i: int) -> TileState {
    if k < 3 {
        g[k][i]
    } else if k < 6 {
        g[i][k - 3]
    } else if k == 6 {
        g[i][i]
    } else {
        g[i][2 - i]
    }
}

/// Line `k` holds three identical marks.
pub open spec fn line_won(g: Grid, k: int) -> bool {
    &&& line_tile(g, k, 0) != TileState::Empty
    &&& line_tile(g, k, 0) == line_tile(g, k, 1)
    &&& line_tile(g, k, 1) == line_tile(g, k, 2)
}

/// How many of the three tiles of line `k` hold `mark`.
pub open spec fn like_marks(g: Grid, k: int, mark: TileState) -> nat {
    let a: nat = if line_tile(g, k, 0) == mark { 1 } else { 0 };
    let b: nat = if line_tile(g, k, 1) == mark { 1 } else { 0 };
    let c: nat = if line_tile(g, k, 2) == mark { 1 } else { 0 };
    a + b + c
}

/// Some row holds three identical marks.
pub open spec fn horizontal_win(g: Grid) -> bool {
    line_won(g, 0) || line_won(g, 1) || line_won(g, 2)
}

/// Some column holds three identical marks.
pub open spec fn vertical_win(g: Grid) -> bool {
    line_won(g, 3) || line_won(g, 4) || line_won(g, 5)
}

/// One of the two diagonals holds three identical marks.
pub open spec fn diagonal_win(g: Grid) -> bool {
    line_won(g, 6) || line_won(g, 7)
}

/// Some of the eight lines holds three identical marks.
pub open spec fn won(g: Grid) -> bool {
    exists|k: int| 0 <= k < 8 && #[trigger] line_won(g, k)
}

/// How many tiles of row `r` hold a mark.
pub open spec fn row_marks(g: Grid, r: int) -> nat {
    let a: nat = if g[r][0] != TileState::Empty { 1 } else { 0 };
    let b: nat = if g[r][1] != TileState::Empty { 1 } else { 0 };
    let c: nat = if g[r][2] != TileState::Empty { 1 } else { 0 };
    a + b + c
}

/// How many tiles of the grid hold a mark.
pub open spec fn marks(g: Grid) -> nat {
    row_marks(g, 0) + row_marks(g, 1) + row_marks(g, 2)
}

/// No tile of the grid is empty.
pub open spec fn full(g: Grid) -> bool {
    marks(g) == 9
}

/// The text of one row: its tiles between vertical bars, then a line feed.
pub open spec fn render_row(row: Seq<TileState>) -> Seq<char> {
    seq!['|', row[0].glyph(), '|', row[1].glyph(), '|', row[2].glyph(), '|', '\n']
}

/// The text of the whole grid: its three rows from the first to the third.
pub open spec fn render_grid(g: Grid) -> Seq<char> {
    render_row(g[0]) + render_row(g[1]) + render_row(g[2])
}

/// The 3x3 grid of tiles.
#[derive(Copy, Clone, Debug)]
pub struct Board {
    tiles: [[TileState; 3]; 3],
}

impl View for Board {
    type V = Grid;

    closed spec fn view(&self) -> Grid {
        Seq::new(3, |r: int| self.tiles[r]@)
    }
}

impl Default for Board {
    fn default() -> (b: Board)
        ensures
            b@ == empty_grid(),
    {
        let b = Board { tiles: [[TileState::Empty; 3]; 3] };
        assert(b@ =~~= empty_grid());
        b
    }
}

impl Board {
    /// Every board has three rows of three tiles.
    pub proof fn lemma_shape(&self)
        ensures
            well_shaped(self@),
    {
    }

    fn cell(&self, row: usize, col: usize) -> (t: TileState)
        requires
            row < 3,
            col < 3,
        ensures
            t == self@[row as int][col as int],
    {
        self.tiles[row][col]
    }

    /// The tile in column `x`, row `y` (both 1-based), if there is one.
    pub fn tile(&self, x: usize, y: usize) -> (t: Option<TileState>)
        ensures
            t == if in_range(x as int, y as int) {
                Some(tile_at(self@, x as int, y as int))
            } else {
                None
            },
    {
        if 1 <= x && x <= 3 && 1 <= y && y <= 3 {
            Some(self.cell(y - 1, x - 1))
        } else {
            None
        }
    }

    /// Places `state` in column `x`, row `y` (both 1-based) if both lie in
    /// 1..=3 and the tile is empty; otherwise leaves the board as it is and
    /// says why.
    pub fn update(&mut self, x: usize, y: usize, state: TileState) -> (res: Result<
        (),
        BoardUpdateError,
    >)
        ensures
            final(self)@ == after_place(old(self)@, x as int, y as int, state),
            match place(old(self)@, x as int, y as int, state) {
                Ok(_) => res is Ok,
                Err(e) => res == Err::<(), BoardUpdateError>(e),
            },
    {
        if !(1 <= x && x <= 3 && 1 <= y && y <= 3) {
            return Err(BoardUpdateError::TileNonExistent);
        }
        let col: usize = x - 1;
        let row: usize = y - 1;
        match self.cell(row, col) {
            TileState::Empty => {
                self.tiles[row][col] = state;
                assert(self@ =~~= with_tile(old(self)@, x as int, y as int, state));
                Ok(())
            },
            _ => Err(BoardUpdateError::AlreadyOccupied),
        }
    }

    /// Sets every tile back to empty.
    pub fn reset(&mut self)
        ensures
            final(self)@ == empty_grid(),
    {
        self.tiles = [[TileState::Empty; 3]; 3];
        assert(self@ =~~= empty_grid());
    }

    /// Whether some row holds three identical marks.
    pub fn any_horizontal_win(&self) -> (res: bool)
        ensures
            res == horizontal_win(self@),
    {
        let mut r: usize = 0;
        while r < 3
            invariant
                r <= 3,
                forall|k: int| 0 <= k < r ==> !#[trigger] line_won(self@, k),
            decreases 3 - r,
        {
            let first = self.cell(r, 0);
            if first != TileState::Empty && first == self.cell(r, 1) && first == self.cell(r, 2) {
                assert(line_won(self@, r as int));
                return true;
            }
            r += 1;
        }
        false
    }

    /// Whether some column holds three identical marks.
    pub fn any_vertical_win(&self) -> (res: bool)
        ensures
            res == vertical_win(self@),
    {
        let mut c: usize = 0;
        while c < 3
            invariant
                c <= 3,
                forall|k: int| 3 <= k < c + 3 ==> !#[trigger] line_won(self@, k),
            decreases 3 - c,
        {
            let first = self.cell(0, c);
            if first != TileState::Empty && first == self.cell(1, c) && first == self.cell(2, c) {
                assert(line_won(self@, c + 3));
                return true;
            }
            c += 1;
        }
        false
    }

    /// Whether one of the two diagonals holds three identical marks.
    pub fn any_diagonal_win(&self) -> (res: bool)
        ensures
            res == diagonal_win(self@),
    {
        let centre = self.cell(1, 1);
        if centre == TileState::Empty {
            return false;
        }
        if self.cell(0, 0) == centre && centre == self.cell(2, 2) {
            return true;
        }
        self.cell(0, 2) == centre && centre == self.cell(2, 0)
    }

    /// Whether any row, column or diagonal holds three identical marks.
    pub fn any_row_won(&self) -> (res: bool)
        ensures
            res == won(self@),
    {
        proof {
            lemma_won_by_direction(self@);
        }
        self.any_horizontal_win() || self.any_vertical_win() || self.any_diagonal_win()
    }

    /// Whether every tile holds a mark.
    pub fn full(&self) -> (res: bool)
        ensures
            res == full(self@),
    {
        let mut r: usize = 0;
        while r < 3
            invariant
                r <= 3,
                forall|k: int| 0 <= k < r ==> #[trigger] row_marks(self@, k) == 3,
            decreases 3 - r,
        {
            if self.cell(r, 0) == TileState::Empty || self.cell(r, 1) == TileState::Empty
                || self.cell(r, 2) == TileState::Empty {
                assert(row_marks(self@, r as int) < 3);
                return false;
            }
            r += 1;
        }
        true
    }

    fn push_row(&self, buf: &mut String, row: usize)
        requires
            row < 3,
        ensures
            final(buf)@ == old(buf)@ + render_row(self@[row as int]),
    {
        proof {
            reveal_strlit("|");
            reveal_strlit("|\n");
        }
        buf.append("|");
        buf.append(self.cell(row, 0).as_str());
        buf.append("|");
        buf.append(self.cell(row, 1).as_str());
        buf.append("|");
        buf.append(self.cell(row, 2).as_str());
        buf.append("|\n");
        assert(buf@ =~= old(buf)@ + render_row(self@[row as int]));
    }

    /// The board as text: one line per row, each tile between vertical bars,
    /// an empty tile as an underscore.
    pub fn render(&self) -> (s: String)
        ensures
            s@ == render_grid(self@),
    {
        let mut buf = String::new();
        self.push_row(&mut buf, 0);
        self.push_row(&mut buf, 1);
        self.push_row(&mut buf, 2);
        assert(buf@ =~= render_grid(self@));
        buf
    }
}

/// A line is won in some direction exactly if it is won at all.
pub proof fn lemma_won_by_direction(g: Grid)
    ensures
        won(g) == (horizontal_win(g) || vertical_win(g) || diagonal_win(g)),
{
    if horizontal_win(g) || vertical_win(g) || diagonal_win(g) {
        let k = if line_won(g, 0) {
            0int
        } else if line_won(g, 1) {
            1
        } else if line_won(g, 2) {
            2
        } else if line_won(g, 3) {
            3
        } else if line_won(g, 4) {
            4
        } else if line_won(g, 5) {
            5
        } else if line_won(g, 6) {
            6
        } else {
            7
        };
        assert(line_won(g, k));
    }
}

/// A grid is full exactly if none of its nine tiles is empty.
pub proof fn lemma_full_has_no_empty_tile(g: Grid)
    ensures
        full(g) <==> forall|x: int, y: int| in_range(x, y) ==> #[trigger] tile_at(g, x, y) != TileState::Empty,
{
    if forall|x: int, y: int| in_range(x, y) ==> #[trigger] tile_at(g, x, y) != TileState::Empty {
        assert(tile_at(g, 1, 1) != TileState::Empty);
        assert(tile_at(g, 2, 1) != TileState::Empty);
        assert(tile_at(g, 3, 1) != TileState::Empty);
        assert(tile_at(g, 1, 2) != TileState::Empty);
        assert(tile_at(g, 2, 2) != TileState::Empty);
        assert(tile_at(g, 3, 2) != TileState::Empty);
        assert(tile_at(g, 1, 3) != TileState::Empty);
        assert(tile_at(g, 2, 3) != TileState::Empty);
        assert(tile_at(g, 3, 3) != TileState::Empty);
    }
}

/// Placing any mark on the empty board at a coordinate in range succeeds:
/// exactly that tile becomes the mark and the other eight stay empty.
pub proof fn lemma_place_on_empty(x: int, y: int, mark: TileState)
    requires
        in_range(x, y),
    ensures
        place(empty_grid(), x, y, mark) is Ok,
        well_shaped(place(empty_grid(), x, y, mark).unwrap()),
        forall|i: int, j: int|
            in_range(i, j) ==> #[trigger] tile_at(place(empty_grid(), x, y, mark).unwrap(), i, j) == if i == x
                && j == y {
                mark
            } else {
                TileState::Empty
            },
{
}

/// Placing at a coordinate of which either part lies outside 1..=3 fails,
/// whatever the grid and the mark, and the grid stays as it was.
pub proof fn lemma_place_out_of_range(g: Grid, x: int, y: int, mark: TileState)
    requires
        !in_range(x, y),
    ensures
        place(g, x, y, mark) == Err::<Grid, BoardUpdateError>(BoardUpdateError::TileNonExistent),
        after_place(g, x, y, mark) == g,
{
}

/// After a mark was placed at a coordinate, a second placement there fails
/// as occupied, whatever its mark, and the tile keeps the first mark.
pub proof fn lemma_place_twice(g: Grid, x: int, y: int, first: TileState, second: TileState)
    requires
        well_shaped(g),
        first != TileState::Empty,
        place(g, x, y, first) is Ok,
    ensures
        tile_at(place(g, x, y, first).unwrap(), x, y) == first,
        place(place(g, x, y, first).unwrap(), x, y, second) == Err::<Grid, BoardUpdateError>(
            BoardUpdateError::AlreadyOccupied,
        ),
        after_place(after_place(g, x, y, first), x, y, second) == after_place(g, x, y, first),
{
}

/// A successful placement changes the addressed tile and no other, and keeps
/// the shape of the grid.
pub proof fn lemma_place_changes_one_tile(g: Grid, x: int, y: int, mark: TileState)
    requires
        well_shaped(g),
        place(g, x, y, mark) is Ok,
    ensures
        well_shaped(place(g, x, y, mark).unwrap()),
        tile_at(g, x, y) == TileState::Empty,
        forall|i: int, j: int|
            in_range(i, j) ==> #[trigger] tile_at(place(g, x, y, mark).unwrap(), i, j) == if i == x && j == y {
                mark
            } else {
                tile_at(g, i, j)
            },
{
}

/// A successful placement of a mark raises the number of marks by one.
pub proof fn lemma_place_adds_mark(g: Grid, x: int, y: int, mark: TileState)
    requires
        well_shaped(g),
        mark != TileState::Empty,
        place(g, x, y, mark) is Ok,
    ensures
        marks(place(g, x, y, mark).unwrap()) == marks(g) + 1,
{
}

/// No line of the empty board is won, and it holds no mark.
pub proof fn lemma_empty_not_won()
    ensures
        !won(empty_grid()),
        marks(empty_grid()) == 0,
        well_shaped(empty_grid()),
{
}

/// A board on which every line holds fewer than three tiles of any one mark
/// has no won line.
pub proof fn lemma_few_like_marks_not_won(g: Grid)
    requires
        forall|k: int, mark: TileState|
            0 <= k < 8 && mark != TileState::Empty ==> #[trigger] like_marks(g, k, mark) < 3,
    ensures
        !won(g),
{
    assert forall|k: int| 0 <= k < 8 implies !#[trigger] line_won(g, k) by {
        if line_won(g, k) {
            assert(like_marks(g, k, line_tile(g, k, 0)) == 3);
        }
    }
}

/// A line is won exactly if all three of its tiles hold one and the same mark.
pub proof fn lemma_line_won_by_count(g: Grid, k: int)
    ensures
        line_won(g, k) <==> exists|mark: TileState|
            mark != TileState::Empty && #[trigger] like_marks(g, k, mark) == 3,
{
    if line_won(g, k) {
        assert(like_marks(g, k, line_tile(g, k, 0)) == 3);
    }
}

} // verus!
