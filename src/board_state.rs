use vstd::prelude::*;

verus! {

/// True when the integer coordinates name a square of the board.
pub open spec fn in_bounds(x: int, y: int) -> bool {
    0 <= x < 8 && 0 <= y < 8
}

/// Index of a square in the dense 64-cell grid (rank-major).
pub open spec fn square_index(x: int, y: int) -> int {
    y * 8 + x
}

/// An offset coordinate as it is stored in a `u8`: negative values wrap around.
pub open spec fn wrap_coord(v: int) -> int {
    if v < 0 {
        v + 256
    } else {
        v
    }
}

/// A square of the board: `x` is the file (0 is file a), `y` the rank (0 is rank 1).
/// Offsets may produce values outside 0..=7, which must be bounds-checked before use.
#[derive(Copy, Clone, PartialEq, Eq, Structural, Debug)]
pub struct BoardPosition {
    pub x: u8,
    pub y: u8,
}

/// Letter of a file, 'a' to 'h'.
pub open spec fn file_char(x: int) -> char {
    if x == 0 { 'a' }
    else if x == 1 { 'b' }
    else if x == 2 { 'c' }
    else if x == 3 { 'd' }
    else if x == 4 { 'e' }
    else if x == 5 { 'f' }
    else if x == 6 { 'g' }
    else { 'h' }
}

/// Digit of a rank, '1' to '8'.
pub open spec fn rank_char(y: int) -> char {
    if y == 0 { '1' }
    else if y == 1 { '2' }
    else if y == 2 { '3' }
    else if y == 3 { '4' }
    else if y == 4 { '5' }
    else if y == 5 { '6' }
    else if y == 6 { '7' }
    else { '8' }
}

/// File index of a file letter, if it is one.
pub open spec fn file_of_char(c: char) -> Option<int> {
    if 'a' <= c && c <= 'h' {
        Some(c as int - 'a' as int)
    } else {
        None
    }
}

/// Rank index of a rank digit, if it is one.
pub open spec fn rank_of_char(c: char) -> Option<int> {
    if '1' <= c && c <= '8' {
        Some(c as int - '1' as int)
    } else {
        None
    }
}

/// True when `s` is square notation: a file letter followed by a rank digit.
pub open spec fn is_square_text(s: Seq<char>) -> bool {
    s.len() == 2 && file_of_char(s[0]) is Some && rank_of_char(s[1]) is Some
}

impl BoardPosition {
    pub open spec fn valid(self) -> bool {
        self.x < 8 && self.y < 8
    }

    pub open spec fn index(self) -> int {
        square_index(self.x as int, self.y as int)
    }

    /// The two characters that name this square.
    pub open spec fn text(self) -> Seq<char> {
        seq![file_char(self.x as int), rank_char(self.y as int)]
    }

    pub fn new(x: u8, y: u8) -> (r: BoardPosition)
        ensures
            r == (BoardPosition { x, y }),
    {
        BoardPosition { x, y }
    }

    /// Parses square notation such as "e4".
    pub fn from_text(string: &str) -> (r: BoardPosition)
        requires
            is_square_text(string@),
        ensures
            r.valid(),
            r.x as int == file_of_char(string@[0]).unwrap(),
            r.y as int == rank_of_char(string@[1]).unwrap(),
            r.text() == string@,
    {
        let f = string.get_char(0);
        let k = string.get_char(1);
        let x = (f as u32 - 'a' as u32) as u8;
        let y = (k as u32 - '1' as u32) as u8;
        let r = BoardPosition { x, y };
        assert(r.text() =~= string@);
        r
    }

    /// Square notation of a valid square, such as "e4".
    pub fn to_text(&self) -> (r: String)
        requires
            self.valid(),
        ensures
            r@ == self.text(),
            is_square_text(r@),
    {
        let mut s = String::new();
        s.push(file_letter(self.x));
        s.push(rank_digit(self.y));
        proof {
            assert(s@ =~= self.text());
        }
        s
    }

    pub fn bound_check(&self) -> (r: bool)
        ensures
            r == self.valid(),
    {
        self.x <= 7 && self.y <= 7
    }

    pub fn x_bound_check(&self) -> (r: bool)
        ensures
            r == (self.x < 8),
    {
        self.x <= 7
    }

    pub fn y_bound_check(&self) -> (r: bool)
        ensures
            r == (self.y < 8),
    {
        self.y <= 7
    }

    /// Offset seen from the side of `color`: a positive `y` moves towards the
    /// opponent's back rank.
    pub fn directional_ofset(&self, x: i8, y: i8, color: PieceColor) -> (r: BoardPosition)
        requires
            self.valid(),
            y > i8::MIN,
        ensures
            r.x as int == wrap_coord(self.x + x),
            r.y as int == wrap_coord(self.y + color.forward() * y),
    {
        let dy: i8 = match color {
            PieceColor::White => y,
            PieceColor::Black => -y,
        };
        self.nondirectional_ofset(x, dy)
    }

    /// Offset by `x` files and `y` ranks.
    pub fn nondirectional_ofset(&self, x: i8, y: i8) -> (r: BoardPosition)
        requires
            self.valid(),
        ensures
            r.x as int == wrap_coord(self.x + x),
            r.y as int == wrap_coord(self.y + y),
    {
        let nx: i16 = self.x as i16 + x as i16;
        let ny: i16 = self.y as i16 + y as i16;
        let rx: u8 = if nx < 0 { (nx + 256) as u8 } else { nx as u8 };
        let ry: u8 = if ny < 0 { (ny + 256) as u8 } else { ny as u8 };
        BoardPosition { x: rx, y: ry }
    }
}

fn file_letter(x: u8) -> (c: char)
    requires
        x < 8,
    ensures
        c == file_char(x as int),
{
    if x == 0 { 'a' }
    else if x == 1 { 'b' }
    else if x == 2 { 'c' }
    else if x == 3 { 'd' }
    else if x == 4 { 'e' }
    else if x == 5 { 'f' }
    else if x == 6 { 'g' }
    else { 'h' }
}

fn rank_digit(y: u8) -> (c: char)
    requires
        y < 8,
    ensures
        c == rank_char(y as int),
{
    if y == 0 { '1' }
    else if y == 1 { '2' }
    else if y == 2 { '3' }
    else if y == 3 { '4' }
    else if y == 4 { '5' }
    else if y == 5 { '6' }
    else if y == 6 { '7' }
    else { '8' }
}

#[derive(Copy, Clone, PartialEq, Eq, Structural, Debug)]
pub enum PieceColor {
    White,
    Black,
}

impl PieceColor {
    pub open spec fn opposite(self) -> PieceColor {
        match self {
            PieceColor::White => PieceColor::Black,
            PieceColor::Black => PieceColor::White,
        }
    }

    /// Direction in which this color's pawns advance along the ranks.
    pub open spec fn forward(self) -> int {
        match self {
            PieceColor::White => 1,
            PieceColor::Black => -1,
        }
    }

    /// Rank of this color's back row.
    pub open spec fn home_rank(self) -> int {
        match self {
            PieceColor::White => 0,
            PieceColor::Black => 7,
        }
    }

    pub fn opposite_color(&self) -> (r: PieceColor)
        ensures
            r == self.opposite(),
    {
        match self {
            PieceColor::White => PieceColor::Black,
            PieceColor::Black => PieceColor::White,
        }
    }
}

#[derive(Copy, Clone, PartialEq, Eq, Structural, Debug)]
pub enum PieceType {
    Pawn,
    Bishop,
    Knight,
    Rook,
    Queen,
    King,
}

#[derive(Copy, Clone, PartialEq, Eq, Structural, Debug)]
pub struct Piece {
    pub piece_type: PieceType,
    pub color: PieceColor,
}

/// Letter of a piece kind in board-encoding text, upper case.
pub open spec fn kind_letter(t: PieceType) -> char {
    match t {
        PieceType::Pawn => 'P',
        PieceType::Knight => 'N',
        PieceType::Bishop => 'B',
        PieceType::Rook => 'R',
        PieceType::Queen => 'Q',
        PieceType::King => 'K',
    }
}

/// The board-encoding letter of a piece: upper case for White, lower case for Black.
pub open spec fn fen_char_of(p: Piece) -> char {
    match p.color {
        PieceColor::White => kind_letter(p.piece_type),
        PieceColor::Black => ((kind_letter(p.piece_type) as u32) + 32) as char,
    }
}

/// The piece that a board-encoding letter stands for, if any.
pub open spec fn piece_of_char(c: char) -> Option<Piece> {
    if c == 'p' { Some(Piece { color: PieceColor::Black, piece_type: PieceType::Pawn }) }
    else if c == 'n' { Some(Piece { color: PieceColor::Black, piece_type: PieceType::Knight }) }
    else if c == 'b' { Some(Piece { color: PieceColor::Black, piece_type: PieceType::Bishop }) }
    else if c == 'r' { Some(Piece { color: PieceColor::Black, piece_type: PieceType::Rook }) }
    else if c == 'q' { Some(Piece { color: PieceColor::Black, piece_type: PieceType::Queen }) }
    else if c == 'k' { Some(Piece { color: PieceColor::Black, piece_type: PieceType::King }) }
    else if c == 'P' { Some(Piece { color: PieceColor::White, piece_type: PieceType::Pawn }) }
    else if c == 'N' { Some(Piece { color: PieceColor::White, piece_type: PieceType::Knight }) }
    else if c == 'B' { Some(Piece { color: PieceColor::White, piece_type: PieceType::Bishop }) }
    else if c == 'R' { Some(Piece { color: PieceColor::White, piece_type: PieceType::Rook }) }
    else if c == 'Q' { Some(Piece { color: PieceColor::White, piece_type: PieceType::Queen }) }
    else if c == 'K' { Some(Piece { color: PieceColor::White, piece_type: PieceType::King }) }
    else { None }
}

/// The chess symbol of a piece (the Unicode "white"/"black" chess piece glyphs).
pub open spec fn unicode_char_of(p: Piece) -> char {
    match p.color {
        PieceColor::White => match p.piece_type {
            PieceType::King => '\u{2654}',
            PieceType::Queen => '\u{2655}',
            PieceType::Rook => '\u{2656}',
            PieceType::Bishop => '\u{2657}',
            PieceType::Knight => '\u{2658}',
            PieceType::Pawn => '\u{2659}',
        },
        PieceColor::Black => match p.piece_type {
            PieceType::King => '\u{265A}',
            PieceType::Queen => '\u{265B}',
            PieceType::Rook => '\u{265C}',
            PieceType::Bishop => '\u{265D}',
            PieceType::Knight => '\u{265E}',
            PieceType::Pawn => '\u{265F}',
        },
    }
}

/// Every piece letter reads back as the piece it was written from.
pub proof fn lemma_fen_char_round_trip(p: Piece)
    ensures
        piece_of_char(fen_char_of(p)) == Some(p),
        fen_char_of(p) != ' ',
        fen_char_of(p) != '/',
        !('1' <= fen_char_of(p) && fen_char_of(p) <= '8'),
{
}

impl Piece {
    pub fn new(color: PieceColor, piece_type: PieceType) -> (r: Piece)
        ensures
            r == (Piece { color, piece_type }),
    {
        Piece { color, piece_type }
    }

    pub fn from_fen_char(c: char) -> (r: Piece)
        requires
            piece_of_char(c) is Some,
        ensures
            r == piece_of_char(c).unwrap(),
    {
        match c {
            'p' => Piece::new(PieceColor::Black, PieceType::Pawn),
            'n' => Piece::new(PieceColor::Black, PieceType::Knight),
            'b' => Piece::new(PieceColor::Black, PieceType::Bishop),
            'r' => Piece::new(PieceColor::Black, PieceType::Rook),
            'q' => Piece::new(PieceColor::Black, PieceType::Queen),
            'k' => Piece::new(PieceColor::Black, PieceType::King),
            'P' => Piece::new(PieceColor::White, PieceType::Pawn),
            'N' => Piece::new(PieceColor::White, PieceType::Knight),
            'B' => Piece::new(PieceColor::White, PieceType::Bishop),
            'R' => Piece::new(PieceColor::White, PieceType::Rook),
            'Q' => Piece::new(PieceColor::White, PieceType::Queen),
            _ => Piece::new(PieceColor::White, PieceType::King),
        }
    }

    pub fn to_unicode_char(&self) -> (r: char)
        ensures
            r == unicode_char_of(*self),
    {
        match self.color {
            PieceColor::White => match self.piece_type {
                PieceType::Pawn => '\u{2659}',
                PieceType::Knight => '\u{2658}',
                PieceType::Bishop => '\u{2657}',
                PieceType::Rook => '\u{2656}',
                PieceType::Queen => '\u{2655}',
                PieceType::King => '\u{2654}',
            },
            PieceColor::Black => match self.piece_type {
                PieceType::Pawn => '\u{265F}',
                PieceType::Knight => '\u{265E}',
                PieceType::Bishop => '\u{265D}',
                PieceType::Rook => '\u{265C}',
                PieceType::Queen => '\u{265B}',
                PieceType::King => '\u{265A}',
            },
        }
    }

    pub fn to_fen_char(&self) -> (r: char)
        ensures
            r == fen_char_of(*self),
            piece_of_char(r) == Some(*self),
    {
        match self.color {
            PieceColor::White => match self.piece_type {
                PieceType::Pawn => 'P',
                PieceType::Knight => 'N',
                PieceType::Bishop => 'B',
                PieceType::Rook => 'R',
                PieceType::Queen => 'Q',
                PieceType::King => 'K',
            },
            PieceColor::Black => match self.piece_type {
                PieceType::Pawn => 'p',
                PieceType::Knight => 'n',
                PieceType::Bishop => 'b',
                PieceType::Rook => 'r',
                PieceType::Queen => 'q',
                PieceType::King => 'k',
            },
        }
    }
}


/// The mathematical model of a position: the 64 cells in rank-major order,
/// the four castling rights, the en-passant file (if any) and the side to move.
#[verifier::ext_equal]
pub struct BoardView {
    pub cells: Seq<Option<Piece>>,
    pub white_king_castle: bool,
    pub white_queen_castle: bool,
    pub black_king_castle: bool,
    pub black_queen_castle: bool,
    pub en_passant: Option<int>,
    pub turn: PieceColor,
}

impl BoardView {
    pub open spec fn cell(self, x: int, y: int) -> Option<Piece> {
        self.cells[square_index(x, y)]
    }

    pub open spec fn at(self, p: BoardPosition) -> Option<Piece> {
        self.cell(p.x as int, p.y as int)
    }

    pub open spec fn set(self, x: int, y: int, p: Option<Piece>) -> BoardView {
        BoardView { cells: self.cells.update(square_index(x, y), p), ..self }
    }

    pub open spec fn with_turn(self, c: PieceColor) -> BoardView {
        BoardView { turn: c, ..self }
    }

    /// Whether `color` may still castle on the given side.
    pub open spec fn castle_right(self, color: PieceColor, kings_side: bool) -> bool {
        match color {
            PieceColor::White => if kings_side { self.white_king_castle } else { self.white_queen_castle },
            PieceColor::Black => if kings_side { self.black_king_castle } else { self.black_queen_castle },
        }
    }

    /// True when a king of `color` stands somewhere on the board.
    pub open spec fn has_king(self, color: PieceColor) -> bool {
        exists|x: int, y: int|
            in_bounds(x, y) && #[trigger] self.cell(x, y) == Some(Piece { piece_type: PieceType::King, color })
    }
}

/// A position: the grid of optional pieces, castling rights, en-passant file and
/// side to move. An en-passant column of 8 or more means that there is none.
#[derive(Copy, Clone, Debug)]
pub struct BoardState {
    pub pieces: [Option<Piece>; 64],
    pub white_king_castle: bool,
    pub white_queen_castle: bool,
    pub black_king_castle: bool,
    pub black_queen_castle: bool,
    pub en_passant_colunm: u8,
    pub color_turn: PieceColor,
}

impl View for BoardState {
    type V = BoardView;

    open spec fn view(&self) -> BoardView {
        BoardView {
            cells: self.pieces@,
            white_king_castle: self.white_king_castle,
            white_queen_castle: self.white_queen_castle,
            black_king_castle: self.black_king_castle,
            black_queen_castle: self.black_queen_castle,
            en_passant: if self.en_passant_colunm < 8 { Some(self.en_passant_colunm as int) } else { None },
            turn: self.color_turn,
        }
    }
}

/// The board with no pieces, White to move, no castling rights and no en-passant file.
pub open spec fn empty_view() -> BoardView {
    BoardView {
        cells: Seq::new(64, |i: int| None),
        white_king_castle: false,
        white_queen_castle: false,
        black_king_castle: false,
        black_queen_castle: false,
        en_passant: None,
        turn: PieceColor::White,
    }
}

/// The value that marks "no en-passant file".
pub const NO_EN_PASSANT: u8 = 55;

impl BoardState {
    /// A board with no pieces, White to move, no castling rights and no en-passant file.
    pub fn empty() -> (r: BoardState)
        ensures
            r@ == empty_view(),
    {
        let r = BoardState {
            pieces: [None; 64],
            white_king_castle: false,
            white_queen_castle: false,
            black_king_castle: false,
            black_queen_castle: false,
            en_passant_colunm: NO_EN_PASSANT,
            color_turn: PieceColor::White,
        };
        assert(r@.cells =~= empty_view().cells);
        r
    }

    pub fn get(&self, pos: BoardPosition) -> (r: Option<Piece>)
        requires
            pos.valid(),
        ensures
            r == self@.at(pos),
    {
        self.pieces[pos.y as usize * 8 + pos.x as usize]
    }

    /// Puts `piece` (or nothing) on the square `pos`.
    pub fn set(&mut self, pos: BoardPosition, piece: Option<Piece>)
        requires
            pos.valid(),
        ensures
            final(self)@ == old(self)@.set(pos.x as int, pos.y as int, piece),
    {
        let i = pos.y as usize * 8 + pos.x as usize;
        self.pieces[i] = piece;
        assert(self@.cells =~= old(self)@.cells.update(i as int, piece));
    }

    pub fn get_mut(&mut self, pos: BoardPosition) -> (r: &mut Option<Piece>)
        requires
            pos.valid(),
        ensures
            *r == old(self)@.at(pos),
            final(self)@ == old(self)@.set(pos.x as int, pos.y as int, *final(r)),
    {
        &mut self.pieces[pos.y as usize * 8 + pos.x as usize]
    }

    /// True when Black, the maximising side of the search, is to move.
    pub fn alpha_to_move(&self) -> (r: bool)
        ensures
            r == (self.color_turn == PieceColor::Black),
    {
        match self.color_turn {
            PieceColor::White => false,
            PieceColor::Black => true,
        }
    }

    /// True when the two boards are the same position: same pieces on the same
    /// squares, same castling rights, same en-passant file and same side to move.
    pub fn same_position(&self, other: &BoardState) -> (r: bool)
        ensures
            r == (self@ == other@),
    {
        if self.white_king_castle != other.white_king_castle
            || self.white_queen_castle != other.white_queen_castle
            || self.black_king_castle != other.black_king_castle
            || self.black_queen_castle != other.black_queen_castle
            || self.color_turn != other.color_turn
        {
            return false;
        }
        let ep_a = self.en_passant_colunm < 8;
        let ep_b = other.en_passant_colunm < 8;
        if ep_a != ep_b || (ep_a && self.en_passant_colunm != other.en_passant_colunm) {
            return false;
        }
        let mut i: usize = 0;
        while i < 64
            invariant
                0 <= i <= 64,
                forall|j: int| 0 <= j < i ==> self.pieces@[j] == other.pieces@[j],
            decreases 64 - i,
        {
            if !same_cell(self.pieces[i], other.pieces[i]) {
                return false;
            }
            i += 1;
        }
        assert(self.pieces@ =~= other.pieces@);
        true
    }
}

/// Something that may hold a piece capturable by a side.
pub trait Capturable {
    spec fn capturable_by(&self, color: PieceColor) -> bool;

    fn can_take(&self, color: PieceColor) -> (r: bool)
        ensures
            r == self.capturable_by(color),
    ;
}

impl Capturable for Option<Piece> {
    /// The cell holds a piece of the other color.
    open spec fn capturable_by(&self, color: PieceColor) -> bool {
        match self {
            Some(p) => p.color != color,
            None => false,
        }
    }

    fn can_take(&self, color: PieceColor) -> (r: bool) {
        match self {
            Some(p) => p.color != color,
            None => false,
        }
    }
}

impl PartialEq for BoardState {
    /// The same position: same pieces on the same squares, castling rights,
    /// en-passant file and side to move.
    fn eq(&self, other: &BoardState) -> (r: bool) {
        self.same_position(other)
    }
}

impl vstd::std_specs::cmp::PartialEqSpecImpl for BoardState {
    open spec fn obeys_eq_spec() -> bool {
        true
    }

    open spec fn eq_spec(&self, other: &BoardState) -> bool {
        self@ == other@
    }
}

/// The piece kind standing on file `x` of a back rank at the start of a game.
pub open spec fn back_rank_kind(x: int) -> PieceType {
    if x == 0 || x == 7 {
        PieceType::Rook
    } else if x == 1 || x == 6 {
        PieceType::Knight
    } else if x == 2 || x == 5 {
        PieceType::Bishop
    } else if x == 3 {
        PieceType::Queen
    } else {
        PieceType::King
    }
}

/// What stands on (x, y) at the start of a game.
pub open spec fn start_cell(x: int, y: int) -> Option<Piece> {
    if y == 0 {
        Some(Piece { piece_type: back_rank_kind(x), color: PieceColor::White })
    } else if y == 1 {
        Some(Piece { piece_type: PieceType::Pawn, color: PieceColor::White })
    } else if y == 6 {
        Some(Piece { piece_type: PieceType::Pawn, color: PieceColor::Black })
    } else if y == 7 {
        Some(Piece { piece_type: back_rank_kind(x), color: PieceColor::Black })
    } else {
        None
    }
}

/// The initial position: White to move, all castling rights, no en-passant file.
pub open spec fn start_view() -> BoardView {
    BoardView {
        cells: Seq::new(64, |k: int| start_cell(k % 8, k / 8)),
        white_king_castle: true,
        white_queen_castle: true,
        black_king_castle: true,
        black_queen_castle: true,
        en_passant: None,
        turn: PieceColor::White,
    }
}

fn back_rank_kind_of(x: u8) -> (r: PieceType)
    ensures
        r == back_rank_kind(x as int),
{
    if x == 0 || x == 7 {
        PieceType::Rook
    } else if x == 1 || x == 6 {
        PieceType::Knight
    } else if x == 2 || x == 5 {
        PieceType::Bishop
    } else if x == 3 {
        PieceType::Queen
    } else {
        PieceType::King
    }
}

impl Default for BoardState {
    /// The initial position.
    fn default() -> (r: BoardState)
        ensures
            r@ == start_view(),
    {
        let mut board = BoardState::empty();
        board.white_king_castle = true;
        board.white_queen_castle = true;
        board.black_king_castle = true;
        board.black_queen_castle = true;
        let mut x: u8 = 0;
        while x < 8
            invariant
                0 <= x <= 8,
                board.white_king_castle && board.white_queen_castle,
                board.black_king_castle && board.black_queen_castle,
                board.en_passant_colunm >= 8,
                board.color_turn == PieceColor::White,
                forall|k: int| 0 <= k < 64 ==> #[trigger] board.pieces@[k] == (if k % 8 < x { start_cell(k % 8, k / 8) } else { None }),
            decreases 8 - x,
        {
            let kind = back_rank_kind_of(x);
            board.set(BoardPosition::new(x, 0), Some(Piece::new(PieceColor::White, kind)));
            board.set(BoardPosition::new(x, 1), Some(Piece::new(PieceColor::White, PieceType::Pawn)));
            board.set(BoardPosition::new(x, 6), Some(Piece::new(PieceColor::Black, PieceType::Pawn)));
            board.set(BoardPosition::new(x, 7), Some(Piece::new(PieceColor::Black, kind)));
            x += 1;
        }
        assert(board@.cells =~= start_view().cells);
        board
    }
}

/// Compares two cells.
pub fn same_cell(a: Option<Piece>, b: Option<Piece>) -> (r: bool)
    ensures
        r == (a == b),
{
    match (a, b) {
        (None, None) => true,
        (Some(p), Some(q)) => p == q,
        _ => false,
    }
}

} // verus!
