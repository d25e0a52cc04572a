use vstd::prelude::*;

verus! {

/// The starting position, in row-by-row notation.
pub const DEFAULTFEN: &'static str = "rnbkqbnr/pppppppp/8/8/8/8/PPPPPPPP/RNBQKBNR w";

/// The side a piece belongs to; `NONE` marks "no one" and never owns a piece.
#[derive(Debug, Clone, Copy, PartialEq, Eq, Structural)]
pub enum TeamLoyalty {
    NONE,
    WHITE,
    BLACK,
}

impl Default for TeamLoyalty {
    fn default() -> (r: Self)
        ensures
            r == TeamLoyalty::WHITE,
    {
        TeamLoyalty::WHITE
    }
}

/// The kind of a piece; `NOTSET` marks an empty or uninitialised slot.
#[derive(Debug, Clone, Copy, PartialEq, Eq, Structural)]
pub enum EntityType {
    NOTSET,
    PAWN,
    ROOK,
    BISHOP,
    KNIGHT,
    QUEEN,
    KING,
}

impl Default for EntityType {
    fn default() -> (r: Self)
        ensures
            r == EntityType::NOTSET,
    {
        EntityType::NOTSET
    }
}

/// A board coordinate or delta: `x` is the column, `y` the row.
#[derive(Default, Debug, Clone, Copy, PartialEq, Eq, Structural)]
pub struct Vec2 {
    pub x: i32,
    pub y: i32,
}

#[derive(Default, Debug, Clone, Copy, PartialEq, Eq, Structural)]
pub struct Vec3 {
    pub x: i32,
    pub y: i32,
    pub z: i32,
}

/// A square of the board, addressed by column and row.
pub type Position = Vec2;

/// A piece placed on the board. `first_move` is true until the piece is
/// first relocated by a legal move.
#[derive(Default, Debug, Clone, Copy, PartialEq, Eq, Structural)]
pub struct GameEntity {
    pub entity_type: EntityType,
    pub team_id: TeamLoyalty,
    pub first_move: bool,
}

/// A piece that can stand on a board: a real kind and a real team.
pub open spec fn is_real_piece(e: GameEntity) -> bool {
    e.entity_type != EntityType::NOTSET && e.team_id != TeamLoyalty::NONE
}

/// The lowercase notation letter of a kind (`'\0'` for `NOTSET`).
pub open spec fn lower_letter(k: EntityType) -> char {
    match k {
        EntityType::PAWN => 'p',
        EntityType::ROOK => 'r',
        EntityType::KNIGHT => 'n',
        EntityType::BISHOP => 'b',
        EntityType::QUEEN => 'q',
        EntityType::KING => 'k',
        EntityType::NOTSET => '\0',
    }
}

/// The uppercase notation letter of a kind (`'\0'` for `NOTSET`).
pub open spec fn upper_letter(k: EntityType) -> char {
    match k {
        EntityType::PAWN => 'P',
        EntityType::ROOK => 'R',
        EntityType::KNIGHT => 'N',
        EntityType::BISHOP => 'B',
        EntityType::QUEEN => 'Q',
        EntityType::KING => 'K',
        EntityType::NOTSET => '\0',
    }
}

/// The glyph a square shows for a piece: uppercase for white, lowercase otherwise.
pub open spec fn glyph_of(e: GameEntity) -> char {
    if e.team_id == TeamLoyalty::WHITE {
        upper_letter(e.entity_type)
    } else {
        lower_letter(e.entity_type)
    }
}

/// The kind that a notation letter names, in either case (`NOTSET` for any other character).
pub open spec fn kind_of_char(c: char) -> EntityType {
    if c == 'p' || c == 'P' {
        EntityType::PAWN
    } else if c == 'r' || c == 'R' {
        EntityType::ROOK
    } else if c == 'n' || c == 'N' {
        EntityType::KNIGHT
    } else if c == 'b' || c == 'B' {
        EntityType::BISHOP
    } else if c == 'q' || c == 'Q' {
        EntityType::QUEEN
    } else if c == 'k' || c == 'K' {
        EntityType::KING
    } else {
        EntityType::NOTSET
    }
}

/// One of the twelve piece letters `pnbrqk` / `PNBRQK`.
pub open spec fn is_piece_char(c: char) -> bool {
    kind_of_char(c) != EntityType::NOTSET
}

/// The team of a piece letter: white for uppercase, black for lowercase.
pub open spec fn team_of_char(c: char) -> TeamLoyalty {
    if 'A' <= c && c <= 'Z' {
        TeamLoyalty::WHITE
    } else {
        TeamLoyalty::BLACK
    }
}

/// The fresh piece that a notation character places, if it is a piece letter.
pub open spec fn piece_of_char(c: char) -> Option<GameEntity> {
    if is_piece_char(c) {
        Some(GameEntity { entity_type: kind_of_char(c), team_id: team_of_char(c), first_move: true })
    } else {
        None
    }
}

/// One square of the board: whether it is occupied, by what, and the glyph
/// that the notation shows for it (`'1'` when empty).
#[derive(Debug, Clone, Copy)]
pub struct Cell {
    pub is_occupied: bool,
    pub occupier: Option<GameEntity>,
    pub cell_fen_repr: char,
}

impl Cell {
    /// The occupancy flag and the glyph agree with the occupier, which is a real piece.
    pub open spec fn wf(&self) -> bool {
        &&& self.is_occupied == self.occupier.is_some()
        &&& match self.occupier {
            None => self.cell_fen_repr == '1',
            Some(e) => is_real_piece(e) && self.cell_fen_repr == glyph_of(e),
        }
    }

    /// Empties the square and hands back what stood on it.
    pub fn make_empty(&mut self) -> (r: Option<GameEntity>)
        ensures
            r == old(self).occupier,
            final(self).occupier.is_none(),
            !final(self).is_occupied,
            final(self).cell_fen_repr == '1',
            final(self).wf(),
    {
        self.cell_fen_repr = '1';
        self.is_occupied = false;
        let last_occupier = self.occupier;
        self.occupier = None;
        last_occupier
    }

    /// Places `new_entity` on the square, with the glyph that matches it.
    pub fn update(&mut self, new_entity: GameEntity)
        ensures
            final(self).occupier == Some(new_entity),
            final(self).is_occupied,
            final(self).cell_fen_repr == glyph_of(new_entity),
            is_real_piece(new_entity) ==> final(self).wf(),
    {
        let fen_char = if new_entity.team_id == TeamLoyalty::WHITE {
            to_upper_letter(get_entity_fen(&new_entity.entity_type))
        } else {
            get_entity_fen(&new_entity.entity_type)
        };
        self.cell_fen_repr = fen_char;
        self.is_occupied = true;
        self.occupier = Some(new_entity);
    }
}

impl Default for Cell {
    fn default() -> (r: Self)
        ensures
            r.occupier.is_none(),
            !r.is_occupied,
            r.cell_fen_repr == '1',
            r.wf(),
    {
        Cell { is_occupied: false, occupier: None, cell_fen_repr: '1' }
    }
}

/// The lowercase notation letter of a kind; `'\0'` for `NOTSET`.
pub fn get_entity_fen(ent_type: &EntityType) -> (r: char)
    ensures
        r == lower_letter(*ent_type),
{
    match ent_type {
        EntityType::PAWN => 'p',
        EntityType::ROOK => 'r',
        EntityType::KNIGHT => 'n',
        EntityType::BISHOP => 'b',
        EntityType::QUEEN => 'q',
        EntityType::KING => 'k',
        EntityType::NOTSET => '\0',
    }
}

/// Turns a lowercase piece letter into its uppercase form.
fn to_upper_letter(c: char) -> (r: char)
    ensures
        forall|k: EntityType| c == lower_letter(k) ==> r == upper_letter(k),
{
    match c {
        'p' => 'P',
        'r' => 'R',
        'n' => 'N',
        'b' => 'B',
        'q' => 'Q',
        'k' => 'K',
        _ => c,
    }
}

/// The kind that a notation letter names, in either case; `NOTSET` otherwise.
pub fn get_entity_type(fen_equiv: char) -> (r: EntityType)
    ensures
        r == kind_of_char(fen_equiv),
{
    match fen_equiv {
        'p' | 'P' => EntityType::PAWN,
        'r' | 'R' => EntityType::ROOK,
        'n' | 'N' => EntityType::KNIGHT,
        'b' | 'B' => EntityType::BISHOP,
        'q' | 'Q' => EntityType::QUEEN,
        'k' | 'K' => EntityType::KING,
        _ => EntityType::NOTSET,
    }
}

/// A fresh piece of the kind that `fen_equiv` names, for `team`, that has not moved yet.
pub fn make_entity(fen_equiv: char, team: TeamLoyalty) -> (r: GameEntity)
    ensures
        r == (GameEntity { entity_type: kind_of_char(fen_equiv), team_id: team, first_move: true }),
{
    GameEntity { entity_type: get_entity_type(fen_equiv), team_id: team, first_move: true }
}

/// The square that one notation character describes: a fresh piece for a
/// piece letter (white when uppercase), an empty square for anything else.
pub fn create_cell(fen_equiv: char) -> (r: Cell)
    ensures
        r.occupier == piece_of_char(fen_equiv),
        r.wf(),
{
    let kind = get_entity_type(fen_equiv);
    if kind == EntityType::NOTSET {
        Cell::default()
    } else {
        let loyalty = if 'A' <= fen_equiv && fen_equiv <= 'Z' {
            TeamLoyalty::WHITE
        } else {
            TeamLoyalty::BLACK
        };
        Cell { is_occupied: true, occupier: Some(make_entity(fen_equiv, loyalty)), cell_fen_repr: fen_equiv }
    }
}

/// Why a notation string does not describe a board.
#[derive(Debug, Clone, Copy, PartialEq, Eq, Structural)]
pub enum ParseError {
    /// The string does not end in a space and a turn letter `w` or `b`.
    InvalidTurn,
    /// The placement holds a character other than `/`, `1`-`8` or a piece letter.
    InvalidCharacter,
    /// The placement does not have exactly eight rows.
    WrongRowCount,
    /// Some row does not span exactly eight columns.
    WrongColumnCount,
}

/// The 8x8 grid of squares, whose turn it is, and the (unused) check state.
#[derive(Debug, Clone)]
pub struct Board {
    pub cells: Vec<Vec<Cell>>,
    pub current_turn: TeamLoyalty,
    pub is_check: bool,
    pub is_checkmate: bool,
    pub who_in_check: TeamLoyalty,
}

/// What stands on each square of a row of cells.
pub open spec fn row_squares(row: Seq<Cell>) -> Seq<Option<GameEntity>> {
    row.map_values(|c: Cell| c.occupier)
}

/// What stands on each square of a grid of cells, row by row.
pub open spec fn grid_squares(rows: Seq<Vec<Cell>>) -> Seq<Seq<Option<GameEntity>>> {
    rows.map_values(|r: Vec<Cell>| row_squares(r@))
}

/// A grid of exactly eight rows of eight squares, each holding nothing or a real piece.
pub open spec fn is_full_grid(g: Seq<Seq<Option<GameEntity>>>) -> bool {
    &&& g.len() == 8
    &&& forall|r: int| 0 <= r < 8 ==> #[trigger] g[r].len() == 8
    &&& forall|r: int, c: int|
        0 <= r < 8 && 0 <= c < 8 ==> match #[trigger] g[r][c] {
            Some(e) => is_real_piece(e),
            None => true,
        }
}

/// A coordinate inside the board.
pub open spec fn in_bounds(p: Vec2) -> bool {
    0 <= p.x < 8 && 0 <= p.y < 8
}

/// What stands on square `p` of a grid.
pub open spec fn square(g: Seq<Seq<Option<GameEntity>>>, p: Vec2) -> Option<GameEntity> {
    g[p.y as int][p.x as int]
}

/// The grid with square `p` replaced by `v`.
pub open spec fn set_square(
    g: Seq<Seq<Option<GameEntity>>>,
    p: Vec2,
    v: Option<GameEntity>,
) -> Seq<Seq<Option<GameEntity>>> {
    g.update(p.y as int, g[p.y as int].update(p.x as int, v))
}

impl Board {
    /// Eight rows of eight well-formed cells, and white or black to move.
    pub open spec fn wf(&self) -> bool {
        &&& self.cells@.len() == 8
        &&& forall|r: int| 0 <= r < 8 ==> #[trigger] self.cells@[r]@.len() == 8
        &&& forall|r: int, c: int| 0 <= r < 8 && 0 <= c < 8 ==> #[trigger] self.cells@[r]@[c].wf()
        &&& self.current_turn != TeamLoyalty::NONE
    }

    /// What stands on each square, row by row.
    pub open spec fn squares(&self) -> Seq<Seq<Option<GameEntity>>> {
        grid_squares(self.cells@)
    }
}

/// A digit `1`-`8`: a run of that many empty squares.
pub open spec fn is_run_digit(c: char) -> bool {
    '1' <= c && c <= '8'
}

/// The number a digit character stands for.
pub open spec fn digit_value(c: char) -> nat {
    (c as u32 - '0' as u32) as nat
}

/// A character allowed in the placement part of the notation.
pub open spec fn is_placement_char(c: char) -> bool {
    c == '/' || is_run_digit(c) || is_piece_char(c)
}

/// The squares that one placement character adds to the current row.
pub open spec fn squares_of_char(c: char) -> Seq<Option<GameEntity>> {
    if is_run_digit(c) {
        Seq::new(digit_value(c), |i: int| None::<GameEntity>)
    } else if is_piece_char(c) {
        seq![piece_of_char(c)]
    } else {
        Seq::empty()
    }
}

/// The rows that a placement string describes, read left to right: `/`
/// opens a new row, every other character extends the last one.
pub open spec fn placement_rows(p: Seq<char>) -> Seq<Seq<Option<GameEntity>>>
    decreases p.len(),
{
    if p.len() == 0 {
        seq![Seq::empty()]
    } else {
        let rows = placement_rows(p.drop_last());
        if p.last() == '/' {
            rows.push(Seq::empty())
        } else {
            rows.update(rows.len() - 1, rows.last() + squares_of_char(p.last()))
        }
    }
}

/// The turn that a notation string ends with: a space, then `w` or `b`.
pub open spec fn notation_turn(s: Seq<char>) -> Option<TeamLoyalty> {
    if s.len() >= 2 && s[s.len() - 2] == ' ' {
        if s.last() == 'w' {
            Some(TeamLoyalty::WHITE)
        } else if s.last() == 'b' {
            Some(TeamLoyalty::BLACK)
        } else {
            None
        }
    } else {
        None
    }
}

/// The placement part of a notation string: all but the space and the turn letter.
pub open spec fn notation_placement(s: Seq<char>) -> Seq<char> {
    s.subrange(0, s.len() - 2)
}

/// The squares and the turn that a notation string describes, or why it describes none.
/// The turn is checked first, then the characters, then the row count, then each row's width.
pub open spec fn decode(s: Seq<char>) -> Result<(Seq<Seq<Option<GameEntity>>>, TeamLoyalty), ParseError> {
    match notation_turn(s) {
        None => Err(ParseError::InvalidTurn),
        Some(t) => {
            let p = notation_placement(s);
            let rows = placement_rows(p);
            if !(forall|i: int| 0 <= i < p.len() ==> #[trigger] is_placement_char(p[i])) {
                Err(ParseError::InvalidCharacter)
            } else if rows.len() != 8 {
                Err(ParseError::WrongRowCount)
            } else if exists|r: int| 0 <= r < 8 && #[trigger] rows[r].len() != 8 {
                Err(ParseError::WrongColumnCount)
            } else {
                Ok((rows, t))
            }
        }
    }
}

/// Every cell of every row is well-formed.
pub open spec fn all_cells_wf(rows: Seq<Vec<Cell>>) -> bool {
    forall|r: int, c: int| 0 <= r < rows.len() && 0 <= c < rows[r]@.len() ==> #[trigger] rows[r]@[c].wf()
}

/// Appends to `row` the squares that one digit or piece letter stands for.
fn extend_row(row: &mut Vec<Cell>, c: char)
    requires
        is_run_digit(c) || is_piece_char(c),
        forall|j: int| 0 <= j < old(row)@.len() ==> #[trigger] old(row)@[j].wf(),
    ensures
        row_squares(final(row)@) == row_squares(old(row)@) + squares_of_char(c),
        forall|j: int| 0 <= j < final(row)@.len() ==> #[trigger] final(row)@[j].wf(),
{
    if '1' <= c && c <= '8' {
        let count: usize = (c as u32 - '0' as u32) as usize;
        let mut k: usize = 0;
        while k < count
            invariant
                count == digit_value(c),
                k <= count,
                row_squares(row@) == row_squares(old(row)@) + Seq::new(k as nat, |i: int| None::<GameEntity>),
                forall|j: int| 0 <= j < row@.len() ==> #[trigger] row@[j].wf(),
            decreases count - k,
        {
            let ghost prev = row@;
            let empty = Cell::default();
            row.push(empty);
            k = k + 1;
            assert(row_squares(row@) =~= row_squares(prev).push(None));
            assert(Seq::new(k as nat, |i: int| None::<GameEntity>) =~= Seq::new((k - 1) as nat, |i: int| None::<GameEntity>).push(None));
            assert(row_squares(row@) =~= row_squares(old(row)@) + Seq::new(k as nat, |i: int| None::<GameEntity>));
        }
        assert(squares_of_char(c) =~= Seq::new(count as nat, |i: int| None::<GameEntity>));
    } else {
        let cell = create_cell(c);
        row.push(cell);
        assert(row_squares(final(row)@) =~= row_squares(old(row)@) + squares_of_char(c));
    }
}

impl Board {
    /// Reads a board from notation: eight `/`-separated rows of digits
    /// (runs of empty squares) and piece letters (uppercase white, lowercase
    /// black), then a space and `w` or `b` for the side to move. Every piece
    /// starts with its first move ahead of it.
    pub fn create_board(fen: String) -> (r: Result<Board, ParseError>)
        ensures
            match decode(fen@) {
                Ok(l) => r matches Ok(b) && b.wf() && b.squares() == l.0 && b.current_turn == l.1
                    && !b.is_check && !b.is_checkmate && b.who_in_check == TeamLoyalty::NONE,
                Err(e) => r == Err::<Board, ParseError>(e),
            },
    {
        let s = fen.as_str();
        let n = s.unicode_len();
        if n < 2 || s.get_char(n - 2) != ' ' {
            return Err(ParseError::InvalidTurn);
        }
        let t = s.get_char(n - 1);
        let current_turn = if t == 'w' {
            TeamLoyalty::WHITE
        } else if t == 'b' {
            TeamLoyalty::BLACK
        } else {
            return Err(ParseError::InvalidTurn);
        };
        let ghost p = notation_placement(s@);
        let mut cells: Vec<Vec<Cell>> = Vec::new();
        cells.push(Vec::new());
        assert(row_squares(cells@[0]@) =~= Seq::empty());
        assert(grid_squares(cells@) =~= placement_rows(p.subrange(0, 0)));
        let mut i: usize = 0;
        while i < n - 2
            invariant
                s@ == fen@,
                n == s@.len(),
                n >= 2,
                p == notation_placement(s@),
                notation_turn(s@) == Some(current_turn),
                i <= n - 2,
                cells@.len() >= 1,
                forall|j: int| 0 <= j < i ==> #[trigger] is_placement_char(p[j]),
                grid_squares(cells@) == placement_rows(p.subrange(0, i as int)),
                all_cells_wf(cells@),
            decreases n - 2 - i,
        {
            let c = s.get_char(i);
            assert(p[i as int] == c);
            assert(p.subrange(0, i + 1).drop_last() =~= p.subrange(0, i as int));
            assert(p.subrange(0, i + 1).last() == c);
            if c == '/' {
                let ghost prev = cells@;
                cells.push(Vec::new());
                assert(row_squares(cells@[prev.len() as int]@) =~= Seq::empty());
                assert(grid_squares(cells@) =~= placement_rows(p.subrange(0, i + 1)));
            } else if ('1' <= c && c <= '8') || get_entity_type(c) != EntityType::NOTSET {
                let last = cells.len() - 1;
                extend_row(&mut cells[last], c);
                assert(grid_squares(cells@) =~= placement_rows(p.subrange(0, i + 1)));
            } else {
                assert(!is_placement_char(p[i as int]));
                return Err(ParseError::InvalidCharacter);
            }
            i = i + 1;
        }
        assert(p.subrange(0, p.len() as int) =~= p);
        if cells.len() != 8 {
            return Err(ParseError::WrongRowCount);
        }
        let mut r: usize = 0;
        while r < 8
            invariant
                s@ == fen@,
                p == notation_placement(s@),
                notation_turn(s@) == Some(current_turn),
                forall|j: int| 0 <= j < p.len() ==> #[trigger] is_placement_char(p[j]),
                grid_squares(cells@) == placement_rows(p),
                all_cells_wf(cells@),
                cells@.len() == 8,
                r <= 8,
                forall|k: int| 0 <= k < r ==> #[trigger] cells@[k]@.len() == 8,
            decreases 8 - r,
        {
            if cells[r].len() != 8 {
                assert(grid_squares(cells@)[r as int].len() != 8);
                return Err(ParseError::WrongColumnCount);
            }
            r = r + 1;
        }
        let board = Board {
            cells,
            current_turn,
            is_check: false,
            is_checkmate: false,
            who_in_check: TeamLoyalty::NONE,
        };
        assert(forall|k: int| 0 <= k < 8 ==> #[trigger] grid_squares(board.cells@)[k].len() == board.cells@[k]@.len());
        Ok(board)
    }
}

/// The absolute value of an integer.
pub open spec fn abs(v: int) -> int {
    if v < 0 { -v } else { v }
}

/// The column distance between two coordinates.
pub open spec fn dist_x(from: Vec2, to: Vec2) -> int {
    abs(to.x - from.x)
}

/// The row distance between two coordinates.
pub open spec fn dist_y(from: Vec2, to: Vec2) -> int {
    abs(to.y - from.y)
}

/// Square `p` holds a piece of a team other than `piece`'s.
pub open spec fn holds_opponent(g: Seq<Seq<Option<GameEntity>>>, p: Vec2, piece: GameEntity) -> bool {
    match square(g, p) {
        Some(e) => e.team_id != piece.team_id,
        None => false,
    }
}

/// Square `p` holds a piece of `piece`'s own team.
pub open spec fn holds_friend(g: Seq<Seq<Option<GameEntity>>>, p: Vec2, piece: GameEntity) -> bool {
    match square(g, p) {
        Some(e) => e.team_id == piece.team_id,
        None => false,
    }
}

/// A pure horizontal or vertical move of at least one square.
pub open spec fn rook_shape(dx: int, dy: int) -> bool {
    (dx == 0 && dy != 0) || (dx != 0 && dy == 0)
}

/// A pure diagonal move of at least one square.
pub open spec fn bishop_shape(dx: int, dy: int) -> bool {
    dx == dy && dx != 0
}

/// Whether the geometry of the move suits the piece's kind. Pawns may step
/// one square (two before their first move) straight onto an empty square,
/// in either direction, or one square diagonally onto an opponent. The king
/// accepts any move whose column or row distance is one.
pub open spec fn shape_legal(g: Seq<Seq<Option<GameEntity>>>, from: Vec2, to: Vec2, piece: GameEntity) -> bool {
    let dx = dist_x(from, to);
    let dy = dist_y(from, to);
    match piece.entity_type {
        EntityType::PAWN => (dx == 0 && (dy == 1 || (piece.first_move && dy == 2)) && square(g, to).is_none())
            || (dx == 1 && dy == 1 && holds_opponent(g, to, piece)),
        EntityType::ROOK => rook_shape(dx, dy),
        EntityType::BISHOP => bishop_shape(dx, dy),
        EntityType::KNIGHT => (dx == 2 && dy == 1) || (dx == 1 && dy == 2),
        EntityType::QUEEN => rook_shape(dx, dy) || bishop_shape(dx, dy),
        EntityType::KING => dx == 1 || dy == 1,
        EntityType::NOTSET => false,
    }
}

/// The smaller of two integers.
pub open spec fn min(a: int, b: int) -> int {
    if a < b { a } else { b }
}

/// The larger of two integers.
pub open spec fn max(a: int, b: int) -> int {
    if a < b { b } else { a }
}

/// Every square strictly between `from` and `to` on `from`'s row is empty.
pub open spec fn horizontal_clear(g: Seq<Seq<Option<GameEntity>>>, from: Vec2, to: Vec2) -> bool {
    forall|x: int| min(from.x as int, to.x as int) < x < max(from.x as int, to.x as int)
        ==> (#[trigger] g[from.y as int][x]).is_none()
}

/// Every square strictly between `from` and `to` on `from`'s column is empty.
pub open spec fn vertical_clear(g: Seq<Seq<Option<GameEntity>>>, from: Vec2, to: Vec2) -> bool {
    forall|y: int| min(from.y as int, to.y as int) < y < max(from.y as int, to.y as int)
        ==> (#[trigger] g[y][from.x as int]).is_none()
}

/// The value `k` steps from `a` in the direction of `b`.
pub open spec fn step_toward(a: int, b: int, k: int) -> int {
    if a < b { a + k } else { a - k }
}

/// Every square strictly between `from` and `to` on their diagonal is empty.
pub open spec fn diagonal_clear(g: Seq<Seq<Option<GameEntity>>>, from: Vec2, to: Vec2) -> bool {
    forall|k: int| 0 < k < dist_x(from, to)
        ==> (#[trigger] g[step_toward(from.y as int, to.y as int, k)][step_toward(from.x as int, to.x as int, k)]).is_none()
}

/// No square that the move passes over is occupied, whatever its team.
/// A move along no line (a long king move) passes over nothing.
pub open spec fn path_clear(g: Seq<Seq<Option<GameEntity>>>, from: Vec2, to: Vec2) -> bool {
    if from.y == to.y {
        horizontal_clear(g, from, to)
    } else if from.x == to.x {
        vertical_clear(g, from, to)
    } else if dist_x(from, to) == dist_y(from, to) {
        diagonal_clear(g, from, to)
    } else {
        true
    }
}

/// A move of `piece` from `from` to `to` is legal: its shape suits the
/// kind, and, unless it is a knight, nothing stands in its way and the
/// destination holds no piece of its own team.
pub open spec fn legal_move(g: Seq<Seq<Option<GameEntity>>>, from: Vec2, to: Vec2, piece: GameEntity) -> bool {
    &&& shape_legal(g, from, to, piece)
    &&& (piece.entity_type == EntityType::KNIGHT || (path_clear(g, from, to) && !holds_friend(g, to, piece)))
}

/// The side that moves after `t`.
pub open spec fn other_team(t: TeamLoyalty) -> TeamLoyalty {
    if t == TeamLoyalty::WHITE { TeamLoyalty::BLACK } else { TeamLoyalty::WHITE }
}

/// The grid after the piece on `from` moves to `to` and loses its first move.
pub open spec fn moved_squares(g: Seq<Seq<Option<GameEntity>>>, from: Vec2, to: Vec2) -> Seq<Seq<Option<GameEntity>>> {
    let e = square(g, from)->Some_0;
    set_square(set_square(g, to, Some(GameEntity { first_move: false, ..e })), from, None)
}

impl Board {
    /// The cell at `pos`.
    pub fn at(&self, pos: Position) -> (r: &Cell)
        requires
            self.wf(),
            in_bounds(pos),
        ensures
            *r == self.cells@[pos.y as int]@[pos.x as int],
    {
        &self.cells[pos.y as usize][pos.x as usize]
    }

    /// What stands on `pos`.
    pub fn entity_at(&self, pos: Position) -> (r: &Option<GameEntity>)
        requires
            self.wf(),
            in_bounds(pos),
        ensures
            *r == square(self.squares(), pos),
    {
        &self.at(pos).occupier
    }
}

/// The column and row distances between two squares.
fn d(from: Vec2, to: Vec2) -> (r: (usize, usize))
    requires
        in_bounds(from),
        in_bounds(to),
    ensures
        r.0 == dist_x(from, to),
        r.1 == dist_y(from, to),
{
    let dx = if from.x < to.x { to.x - from.x } else { from.x - to.x };
    let dy = if from.y < to.y { to.y - from.y } else { from.y - to.y };
    (dx as usize, dy as usize)
}

/// Whether the geometry of moving `piece` from `from` to `to` suits its
/// kind; obstruction is not considered here.
pub fn validate(board: &Board, from: Vec2, to: Vec2, piece: GameEntity) -> (r: bool)
    requires
        board.wf(),
        in_bounds(from),
        in_bounds(to),
    ensures
        r == shape_legal(board.squares(), from, to, piece),
{
    let (dx, dy) = d(from, to);
    match piece.entity_type {
        EntityType::PAWN => {
            let target = board.entity_at(to);
            let step = dx == 0 && (dy == 1 || (piece.first_move && dy == 2)) && target.is_none();
            let capture = dx == 1 && dy == 1 && match target {
                Some(e) => e.team_id != piece.team_id,
                None => false,
            };
            step || capture
        },
        EntityType::ROOK => (dx == 0 && dy != 0) || (dx != 0 && dy == 0),
        EntityType::BISHOP => dx == dy && dx != 0,
        EntityType::KNIGHT => (dx == 2 && dy == 1) || (dx == 1 && dy == 2),
        EntityType::QUEEN => (dx == 0 && dy != 0) || (dx != 0 && dy == 0) || (dx == dy && dx != 0),
        EntityType::KING => dx == 1 || dy == 1,
        EntityType::NOTSET => false,
    }
}

/// Whether every square strictly between `start` and `end` on their common row is empty.
fn validate_horizontal(board: &Board, start: Vec2, end: Vec2) -> (r: bool)
    requires
        board.wf(),
        in_bounds(start),
        in_bounds(end),
        start.y == end.y,
    ensures
        r == horizontal_clear(board.squares(), start, end),
{
    let lo = if start.x < end.x { start.x } else { end.x };
    let hi = if start.x < end.x { end.x } else { start.x };
    let mut x = lo + 1;
    while x < hi
        invariant
            board.wf(),
            in_bounds(start),
            in_bounds(end),
            lo == min(start.x as int, end.x as int),
            hi == max(start.x as int, end.x as int),
            lo < x <= hi || x == lo + 1,
            forall|c: int| lo < c < x ==> (#[trigger] board.squares()[start.y as int][c]).is_none(),
        decreases hi - x,
    {
        if board.entity_at(Vec2 { x, y: start.y }).is_some() {
            return false;
        }
        x = x + 1;
    }
    true
}

/// Whether every square strictly between `start` and `end` on their common column is empty.
fn validate_vertical(board: &Board, start: Vec2, end: Vec2) -> (r: bool)
    requires
        board.wf(),
        in_bounds(start),
        in_bounds(end),
        start.x == end.x,
    ensures
        r == vertical_clear(board.squares(), start, end),
{
    let lo = if start.y < end.y { start.y } else { end.y };
    let hi = if start.y < end.y { end.y } else { start.y };
    let mut y = lo + 1;
    while y < hi
        invariant
            board.wf(),
            in_bounds(start),
            in_bounds(end),
            lo == min(start.y as int, end.y as int),
            hi == max(start.y as int, end.y as int),
            lo < y <= hi || y == lo + 1,
            forall|c: int| lo < c < y ==> (#[trigger] board.squares()[c][start.x as int]).is_none(),
        decreases hi - y,
    {
        if board.entity_at(Vec2 { x: start.x, y }).is_some() {
            return false;
        }
        y = y + 1;
    }
    true
}

/// Whether every square strictly between `start` and `end` on their common diagonal is empty,
/// walking one signed step on each axis at a time.
fn validate_diagonal(board: &Board, start: Vec2, end: Vec2) -> (r: bool)
    requires
        board.wf(),
        in_bounds(start),
        in_bounds(end),
        dist_x(start, end) == dist_y(start, end),
    ensures
        r == diagonal_clear(board.squares(), start, end),
{
    let (n, _) = d(start, end);
    let sx: i32 = if start.x < end.x { 1 } else { -1 };
    let sy: i32 = if start.y < end.y { 1 } else { -1 };
    let mut k: usize = 1;
    let mut x = start.x + sx;
    let mut y = start.y + sy;
    while k < n
        invariant
            board.wf(),
            in_bounds(start),
            in_bounds(end),
            n == dist_x(start, end),
            n == dist_y(start, end),
            sx == (if start.x < end.x { 1int } else { -1int }),
            sy == (if start.y < end.y { 1int } else { -1int }),
            1 <= k,
            k <= n || n == 0,
            x == step_toward(start.x as int, end.x as int, k as int),
            y == step_toward(start.y as int, end.y as int, k as int),
            forall|j: int| 0 < j < k ==> (#[trigger] board.squares()[step_toward(start.y as int, end.y as int, j)][step_toward(start.x as int, end.x as int, j)]).is_none(),
        decreases n - k,
    {
        if board.entity_at(Vec2 { x, y }).is_some() {
            return false;
        }
        k = k + 1;
        x = x + sx;
        y = y + sy;
    }
    true
}

/// Whether nothing stands in the way of a move from `from` to `to` and the
/// destination holds no piece of `piece`'s own team.
fn validate_path(board: &Board, from: Vec2, to: Vec2, piece: GameEntity) -> (r: bool)
    requires
        board.wf(),
        in_bounds(from),
        in_bounds(to),
    ensures
        r == (path_clear(board.squares(), from, to) && !holds_friend(board.squares(), to, piece)),
{
    let (dx, dy) = d(from, to);
    let clear = if from.y == to.y {
        validate_horizontal(board, from, to)
    } else if from.x == to.x {
        validate_vertical(board, from, to)
    } else if dx == dy {
        validate_diagonal(board, from, to)
    } else {
        true
    };
    let friend = match board.entity_at(to) {
        Some(e) => e.team_id == piece.team_id,
        None => false,
    };
    clear && !friend
}

/// Moves the piece on `original` to `new_pos` if the move is legal: the
/// piece loses its first move, the destination takes it (capturing what
/// stood there), the origin is emptied and the turn passes to the other
/// side. Returns whether the move was made; an empty origin or an illegal
/// move leaves the board exactly as it was. Whose piece it is, is the
/// caller's concern.
pub fn move_entity(board: &mut Board, original: Position, new_pos: Position) -> (r: bool)
    requires
        old(board).wf(),
        in_bounds(original),
        in_bounds(new_pos),
    ensures
        final(board).wf(),
        match square(old(board).squares(), original) {
            Some(e) => r == legal_move(old(board).squares(), original, new_pos, e),
            None => !r,
        },
        r ==> final(board).squares() == moved_squares(old(board).squares(), original, new_pos),
        r ==> final(board).current_turn == other_team(old(board).current_turn),
        r ==> final(board).is_check == old(board).is_check && final(board).is_checkmate == old(board).is_checkmate
            && final(board).who_in_check == old(board).who_in_check,
        !r ==> *final(board) == *old(board),
{
    let ent = match board.entity_at(original) {
        Some(e) => *e,
        None => {
            return false;
        },
    };
    let mut is_legal = validate(board, original, new_pos, ent);
    if ent.entity_type != EntityType::KNIGHT && is_legal {
        is_legal = validate_path(board, original, new_pos, ent);
    }
    if !is_legal {
        return false;
    }
    let moved = GameEntity { first_move: false, ..ent };
    let ghost g = board.squares();
    assert(board.cells@[original.y as int]@[original.x as int].wf());
    board.cells[new_pos.y as usize][new_pos.x as usize].update(moved);
    board.cells[original.y as usize][original.x as usize].make_empty();
    board.current_turn = if board.current_turn == TeamLoyalty::WHITE {
        TeamLoyalty::BLACK
    } else {
        TeamLoyalty::WHITE
    };
    assert(board.squares() =~~= moved_squares(g, original, new_pos));
    true
}

/// The digit character for a run length of one to eight.
pub open spec fn digit_char(n: nat) -> char {
    if n == 1 {
        '1'
    } else if n == 2 {
        '2'
    } else if n == 3 {
        '3'
    } else if n == 4 {
        '4'
    } else if n == 5 {
        '5'
    } else if n == 6 {
        '6'
    } else if n == 7 {
        '7'
    } else if n == 8 {
        '8'
    } else {
        '0'
    }
}

/// The text for a pending run of `run` empty squares: its digit, or nothing.
pub open spec fn run_text(run: nat) -> Seq<char> {
    if run > 0 { seq![digit_char(run)] } else { Seq::empty() }
}

/// The notation of `row`, read after a pending run of `run` empty squares:
/// runs of empty squares become one digit, pieces become their glyph.
pub open spec fn encode_row(row: Seq<Option<GameEntity>>, run: nat) -> Seq<char>
    decreases row.len(),
{
    if row.len() == 0 {
        run_text(run)
    } else {
        match row[0] {
            None => encode_row(row.drop_first(), run + 1),
            Some(e) => run_text(run) + seq![glyph_of(e)] + encode_row(row.drop_first(), 0),
        }
    }
}

/// The notation of the rows of a grid, joined by `/`.
pub open spec fn encode_rows(g: Seq<Seq<Option<GameEntity>>>) -> Seq<char>
    decreases g.len(),
{
    if g.len() == 0 {
        Seq::empty()
    } else if g.len() == 1 {
        encode_row(g[0], 0)
    } else {
        encode_rows(g.drop_last()) + seq!['/'] + encode_row(g.last(), 0)
    }
}

/// The letter that names the side to move: `w` for white, `b` otherwise.
pub open spec fn turn_char(t: TeamLoyalty) -> char {
    if t == TeamLoyalty::WHITE { 'w' } else { 'b' }
}

/// The notation of a grid and a side to move.
pub open spec fn encode(g: Seq<Seq<Option<GameEntity>>>, t: TeamLoyalty) -> Seq<char> {
    encode_rows(g) + seq![' ', turn_char(t)]
}

/// Relies on `String::push`: appends one character at the end.
#[verifier::external_body]
pub(crate) fn push_char(s: &mut String, c: char)
    ensures
        final(s)@ == old(s)@.push(c),
{
    s.push(c);
}

/// The digit character for a run length of one to eight.
fn run_digit(n: usize) -> (r: char)
    requires
        1 <= n <= 8,
    ensures
        r == digit_char(n as nat),
{
    match n {
        1 => '1',
        2 => '2',
        3 => '3',
        4 => '4',
        5 => '5',
        6 => '6',
        7 => '7',
        _ => '8',
    }
}

/// Appends the notation of one row of eight well-formed cells.
fn push_row_fen(out: &mut String, row: &Vec<Cell>)
    requires
        row@.len() == 8,
        forall|j: int| 0 <= j < 8 ==> #[trigger] row@[j].wf(),
    ensures
        final(out)@ == old(out)@ + encode_row(row_squares(row@), 0),
{
    let ghost sq = row_squares(row@);
    let mut acc: usize = 0;
    let mut j: usize = 0;
    assert(sq.subrange(0, 8) =~= sq);
    while j < 8
        invariant
            row@.len() == 8,
            forall|k: int| 0 <= k < 8 ==> #[trigger] row@[k].wf(),
            sq == row_squares(row@),
            j <= 8,
            acc <= j,
            out@ + encode_row(sq.subrange(j as int, 8), acc as nat) == old(out)@ + encode_row(sq, 0),
        decreases 8 - j,
    {
        let cell = &row[j];
        let ghost before = out@;
        assert(sq.subrange(j as int, 8).drop_first() =~= sq.subrange(j + 1, 8));
        assert(sq.subrange(j as int, 8)[0] == cell.occupier);
        if cell.occupier.is_none() {
            acc = acc + 1;
        } else {
            if acc > 0 {
                push_char(out, run_digit(acc));
            }
            let ghost mid = out@;
            assert(mid =~= before + run_text(acc as nat));
            assert(row@[j as int].wf());
            assert(cell.cell_fen_repr == glyph_of(cell.occupier->Some_0));
            push_char(out, cell.cell_fen_repr);
            assert(out@ =~= before + run_text(acc as nat) + seq![glyph_of(cell.occupier->Some_0)]);
            assert(out@ + encode_row(sq.subrange(j + 1, 8), 0) =~= before + (run_text(acc as nat)
                + seq![glyph_of(cell.occupier->Some_0)] + encode_row(sq.subrange(j + 1, 8), 0)));
            acc = 0;
        }
        j = j + 1;
    }
    if acc > 0 {
        push_char(out, run_digit(acc));
    }
    assert(out@ =~= old(out)@ + encode_row(sq, 0));
}

impl Board {
    /// The notation of the board: rows top to bottom joined by `/`, each a
    /// run-length code of empty squares and piece glyphs, then a space and
    /// `w` or `b` for the side to move.
    pub fn to_fen(&self) -> (r: String)
        requires
            self.wf(),
        ensures
            r@ == encode(self.squares(), self.current_turn),
    {
        let mut out = String::new();
        let mut i: usize = 0;
        while i < 8
            invariant
                self.wf(),
                i <= 8,
                out@ == encode_rows(self.squares().take(i as int)),
            decreases 8 - i,
        {
            let ghost before = out@;
            assert(self.squares().take(i + 1).drop_last() =~= self.squares().take(i as int));
            if i > 0 {
                push_char(&mut out, '/');
            }
            push_row_fen(&mut out, &self.cells[i]);
            assert(out@ =~= encode_rows(self.squares().take(i + 1)));
            i = i + 1;
        }
        assert(self.squares().take(8) =~= self.squares());
        push_char(&mut out, ' ');
        let turn = if self.current_turn == TeamLoyalty::WHITE { 'w' } else { 'b' };
        push_char(&mut out, turn);
        assert(out@ =~= encode(self.squares(), self.current_turn));
        out
    }
}

/// The glyphs of a row of cells, each after a space.
pub open spec fn row_glyph_text(row: Seq<Cell>) -> Seq<char>
    decreases row.len(),
{
    if row.len() == 0 {
        Seq::empty()
    } else {
        row_glyph_text(row.drop_last()) + seq![' ', row.last().cell_fen_repr]
    }
}

/// The rows of the debugging grid: each row's glyphs, then a line break
/// and the number of the next row.
pub open spec fn grid_rows_text(rows: Seq<Vec<Cell>>) -> Seq<char>
    decreases rows.len(),
{
    if rows.len() == 0 {
        Seq::empty()
    } else {
        grid_rows_text(rows.drop_last()) + row_glyph_text(rows.last()@) + seq!['\n', digit_char(rows.len() as nat)]
    }
}

/// The heading of the debugging grid: the column numbers, then the number of the first row.
pub open spec fn grid_heading() -> Seq<char> {
    seq!['-', ' ', '0', ' ', '1', ' ', '2', ' ', '3', ' ', '4', ' ', '5', ' ', '6', ' ', '7', '\n', '0']
}

impl Board {
    /// A grid of the glyphs, with column numbers above and row numbers on
    /// the left, for debugging.
    pub fn to_string(&self) -> (r: String)
        requires
            self.wf(),
        ensures
            r@ == grid_heading() + grid_rows_text(self.cells@),
    {
        let heading = "- 0 1 2 3 4 5 6 7\n0";
        let mut out = heading.to_owned();
        proof {
            reveal_strlit("- 0 1 2 3 4 5 6 7\n0");
        }
        assert(out@ =~= grid_heading());
        let mut i: usize = 0;
        while i < 8
            invariant
                self.wf(),
                i <= 8,
                out@ == grid_heading() + grid_rows_text(self.cells@.take(i as int)),
            decreases 8 - i,
        {
            let row = &self.cells[i];
            let ghost start = out@;
            let mut j: usize = 0;
            assert(row@.take(0) =~= Seq::<Cell>::empty());
            while j < 8
                invariant
                    row@.len() == 8,
                    j <= 8,
                    out@ == start + row_glyph_text(row@.take(j as int)),
                decreases 8 - j,
            {
                push_char(&mut out, ' ');
                push_char(&mut out, row[j].cell_fen_repr);
                assert(row@.take(j + 1).drop_last() =~= row@.take(j as int));
                assert(out@ =~= start + row_glyph_text(row@.take(j + 1)));
                j = j + 1;
            }
            assert(row@.take(8) =~= row@);
            push_char(&mut out, '\n');
            push_char(&mut out, run_digit(i + 1));
            assert(self.cells@.take(i + 1).drop_last() =~= self.cells@.take(i as int));
            assert(out@ =~= grid_heading() + grid_rows_text(self.cells@.take(i + 1)));
            i = i + 1;
        }
        assert(self.cells@.take(8) =~= self.cells@);
        out
    }

    /// Sets the side to move from the last character of a notation string:
    /// white for `w`, black for anything else.
    pub fn update_turn(&mut self, fen: String)
        requires
            fen@.len() > 0,
        ensures
            final(self).current_turn == (if fen@.last() == 'w' { TeamLoyalty::WHITE } else { TeamLoyalty::BLACK }),
            final(self).cells == old(self).cells,
            final(self).is_check == old(self).is_check,
            final(self).is_checkmate == old(self).is_checkmate,
            final(self).who_in_check == old(self).who_in_check,
    {
        let s = fen.as_str();
        let n = s.unicode_len();
        self.current_turn = if s.get_char(n - 1) == 'w' {
            TeamLoyalty::WHITE
        } else {
            TeamLoyalty::BLACK
        };
    }
}

} // verus!
