use vstd::prelude::*;

use crate::board_state::{
    lemma_fen_char_round_trip, square_index, empty_view, file_char, file_of_char, fen_char_of, piece_of_char, rank_of_char, BoardPosition,
    BoardState, BoardView, PieceColor,
};

verus! {

/// The digit that counts `n` empty squares (1 to 8).
pub open spec fn digit_char(n: int) -> char {
    if n == 1 { '1' }
    else if n == 2 { '2' }
    else if n == 3 { '3' }
    else if n == 4 { '4' }
    else if n == 5 { '5' }
    else if n == 6 { '6' }
    else if n == 7 { '7' }
    else { '8' }
}

/// The count of empty squares that a digit '1' to '8' stands for.
pub open spec fn digit_value(c: char) -> Option<int> {
    if c == '1' { Some(1) }
    else if c == '2' { Some(2) }
    else if c == '3' { Some(3) }
    else if c == '4' { Some(4) }
    else if c == '5' { Some(5) }
    else if c == '6' { Some(6) }
    else if c == '7' { Some(7) }
    else if c == '8' { Some(8) }
    else { None }
}

/// The digit for `empties` empty squares, or nothing when there are none.
pub open spec fn run_text(empties: int) -> Seq<char> {
    if empties > 0 {
        seq![digit_char(empties)]
    } else {
        Seq::empty()
    }
}

/// Text of rank `y` from file `x` on, `empties` empty squares being pending.
pub open spec fn rank_text(b: BoardView, y: int, x: int, empties: int) -> Seq<char>
    decreases 8 - x,
{
    if x >= 8 {
        run_text(empties)
    } else if b.cell(x, y) is None {
        rank_text(b, y, x + 1, empties + 1)
    } else {
        run_text(empties).push(fen_char_of(b.cell(x, y).unwrap())) + rank_text(b, y, x + 1, 0)
    }
}

/// Text of ranks `y` down to 1, separated by '/'.
pub open spec fn placement_text(b: BoardView, y: int) -> Seq<char>
    decreases y,
{
    if y <= 0 {
        rank_text(b, 0, 0, 0)
    } else {
        rank_text(b, y, 0, 0).push('/') + placement_text(b, y - 1)
    }
}

pub open spec fn side_text(b: BoardView) -> Seq<char> {
    match b.turn {
        PieceColor::White => seq!['w'],
        PieceColor::Black => seq!['b'],
    }
}

/// The castling field: the letters of the rights held, in the order KQkq, or '-'.
pub open spec fn castling_text(b: BoardView) -> Seq<char> {
    if !b.white_king_castle && !b.white_queen_castle && !b.black_king_castle && !b.black_queen_castle {
        seq!['-']
    } else {
        (if b.white_king_castle { seq!['K'] } else { Seq::empty() })
            + (if b.white_queen_castle { seq!['Q'] } else { Seq::empty() })
            + (if b.black_king_castle { seq!['k'] } else { Seq::empty() })
            + (if b.black_queen_castle { seq!['q'] } else { Seq::empty() })
    }
}

/// The en-passant field: the square passed over by the last double push, or '-'.
pub open spec fn en_passant_text(b: BoardView) -> Seq<char> {
    match b.en_passant {
        None => seq!['-'],
        Some(e) => seq![file_char(e), if b.turn == PieceColor::White { '6' } else { '3' }],
    }
}

/// The board encoding of a position; the move counters are written as "0 1".
pub open spec fn fen_text(b: BoardView) -> Seq<char> {
    placement_text(b, 7) + seq![' '] + side_text(b) + seq![' '] + castling_text(b) + seq![' ']
        + en_passant_text(b) + seq![' ', '0', ' ', '1']
}

/// Reads the piece placement from index `i`, at file `x` of rank `y`, into `b`.
/// Gives the position and the index of the space that ends the field.
pub open spec fn parse_placement(s: Seq<char>, i: int, x: int, y: int, b: BoardView) -> Option<(BoardView, int)>
    decreases s.len() - i,
{
    if i < 0 || i >= s.len() {
        None
    } else if s[i] == ' ' {
        if y == 0 && x == 8 { Some((b, i)) } else { None }
    } else if s[i] == '/' {
        if x == 8 && y > 0 { parse_placement(s, i + 1, 0, y - 1, b) } else { None }
    } else if digit_value(s[i]) is Some {
        if x + digit_value(s[i]).unwrap() <= 8 {
            parse_placement(s, i + 1, x + digit_value(s[i]).unwrap(), y, b)
        } else {
            None
        }
    } else if piece_of_char(s[i]) is Some {
        if 0 <= x < 8 && 0 <= y < 8 {
            parse_placement(s, i + 1, x + 1, y, b.set(x, y, piece_of_char(s[i])))
        } else {
            None
        }
    } else {
        None
    }
}

/// Reads castling letters from index `i` up to the next space; `any` tells
/// whether one was read already.
pub open spec fn parse_rights(s: Seq<char>, i: int, b: BoardView, any: bool) -> Option<(BoardView, int)>
    decreases s.len() - i,
{
    if i < 0 || i >= s.len() {
        None
    } else if s[i] == ' ' {
        if any { Some((b, i)) } else { None }
    } else if s[i] == 'K' {
        parse_rights(s, i + 1, BoardView { white_king_castle: true, ..b }, true)
    } else if s[i] == 'Q' {
        parse_rights(s, i + 1, BoardView { white_queen_castle: true, ..b }, true)
    } else if s[i] == 'k' {
        parse_rights(s, i + 1, BoardView { black_king_castle: true, ..b }, true)
    } else if s[i] == 'q' {
        parse_rights(s, i + 1, BoardView { black_queen_castle: true, ..b }, true)
    } else {
        None
    }
}

/// Reads the castling field at `i`: '-' or letters of KQkq.
pub open spec fn parse_castling(s: Seq<char>, i: int, b: BoardView) -> Option<(BoardView, int)> {
    if 0 <= i < s.len() && s[i] == '-' {
        if i + 1 < s.len() && s[i + 1] == ' ' { Some((b, i + 1)) } else { None }
    } else {
        parse_rights(s, i, b, false)
    }
}

/// The field starting at `j` is over: the text ends or a space follows.
pub open spec fn field_ends(s: Seq<char>, j: int) -> bool {
    j == s.len() || (0 <= j < s.len() && s[j] == ' ')
}

/// Reads the en-passant field at `i`: '-' or a square, whose file is kept.
/// What follows it (the move counters) is not read.
pub open spec fn parse_en_passant(s: Seq<char>, i: int, b: BoardView) -> Option<BoardView> {
    if 0 <= i < s.len() && s[i] == '-' && field_ends(s, i + 1) {
        Some(BoardView { en_passant: None, ..b })
    } else if 0 <= i && i + 1 < s.len() && file_of_char(s[i]) is Some && rank_of_char(s[i + 1]) is Some
        && field_ends(s, i + 2) {
        Some(BoardView { en_passant: file_of_char(s[i]), ..b })
    } else {
        None
    }
}

/// The position that a board encoding describes, if it is well formed.
pub open spec fn parse_fen(s: Seq<char>) -> Option<BoardView> {
    match parse_placement(s, 0, 0, 7, empty_view()) {
        None => None,
        Some((b, i)) => {
            if i + 3 <= s.len() && (s[i + 1] == 'w' || s[i + 1] == 'b') && s[i + 2] == ' ' {
                let b1 = b.with_turn(if s[i + 1] == 'w' { PieceColor::White } else { PieceColor::Black });
                match parse_castling(s, i + 3, b1) {
                    None => None,
                    Some((b2, j)) => parse_en_passant(s, j + 1, b2),
                }
            } else {
                None
            }
        },
    }
}


fn digit(n: u8) -> (c: char)
    requires
        1 <= n <= 8,
    ensures
        c == digit_char(n as int),
        digit_value(c) == Some(n as int),
{
    if n == 1 { '1' }
    else if n == 2 { '2' }
    else if n == 3 { '3' }
    else if n == 4 { '4' }
    else if n == 5 { '5' }
    else if n == 6 { '6' }
    else if n == 7 { '7' }
    else { '8' }
}

fn digit_of(c: char) -> (r: Option<u8>)
    ensures
        r is Some <==> digit_value(c) is Some,
        r is Some ==> r.unwrap() as int == digit_value(c).unwrap(),
{
    if c == '1' { Some(1) }
    else if c == '2' { Some(2) }
    else if c == '3' { Some(3) }
    else if c == '4' { Some(4) }
    else if c == '5' { Some(5) }
    else if c == '6' { Some(6) }
    else if c == '7' { Some(7) }
    else if c == '8' { Some(8) }
    else { None }
}

fn is_piece_char(c: char) -> (r: bool)
    ensures
        r == piece_of_char(c) is Some,
{
    c == 'p' || c == 'n' || c == 'b' || c == 'r' || c == 'q' || c == 'k'
        || c == 'P' || c == 'N' || c == 'B' || c == 'R' || c == 'Q' || c == 'K'
}

impl BoardState {
    /// Appends the text of rank `y` to `out`.
    fn push_rank_text(&self, out: &mut String, y: u8)
        requires
            y < 8,
        ensures
            final(out)@ == old(out)@ + rank_text(self@, y as int, 0, 0),
    {
        let ghost b = self@;
        let mut x: u8 = 0;
        let mut empties: u8 = 0;
        while x < 8
            invariant
                b == self@,
                y < 8,
                0 <= x <= 8,
                empties <= x,
                out@ + rank_text(b, y as int, x as int, empties as int) == old(out)@ + rank_text(b, y as int, 0, 0),
            decreases 8 - x,
        {
            let ghost before = out@;
            match self.get(BoardPosition::new(x, y)) {
                None => {
                    empties += 1;
                },
                Some(p) => {
                    if empties > 0 {
                        out.push(digit(empties));
                    }
                    out.push(p.to_fen_char());
                    assert(out@ =~= before + run_text(empties as int).push(fen_char_of(p)));
                    assert(out@ + rank_text(b, y as int, x + 1, 0) =~= before + (run_text(empties as int).push(fen_char_of(p))
                        + rank_text(b, y as int, x + 1, 0)));
                    empties = 0;
                },
            }
            x += 1;
        }
        let ghost before = out@;
        if empties > 0 {
            out.push(digit(empties));
        }
        assert(out@ =~= before + run_text(empties as int));
    }

    /// Appends the piece placement, rank 8 first.
    fn push_placement_text(&self, out: &mut String)
        ensures
            final(out)@ == old(out)@ + placement_text(self@, 7),
    {
        let ghost b = self@;
        let ghost start = out@;
        self.push_rank_text(out, 7);
        let mut y: u8 = 7;
        while y > 0
            invariant
                b == self@,
                0 <= y <= 7,
                out@ + (if y == 0 { Seq::empty() } else { seq!['/'] + placement_text(b, y - 1) }) =~= start
                    + placement_text(b, 7),
            decreases y,
        {
            let ghost before = out@;
            out.push('/');
            self.push_rank_text(out, y - 1);
            assert(out@ =~= before + seq!['/'] + rank_text(b, y - 1, 0, 0));
            y -= 1;
        }
        assert(out@ =~= start + placement_text(b, 7));
    }

    /// Appends the castling field.
    fn push_castling_text(&self, out: &mut String)
        ensures
            final(out)@ == old(out)@ + castling_text(self@),
    {
        let ghost start = out@;
        if !self.white_king_castle && !self.white_queen_castle && !self.black_king_castle && !self.black_queen_castle {
            out.push('-');
        } else {
            if self.white_king_castle {
                out.push('K');
            }
            if self.white_queen_castle {
                out.push('Q');
            }
            if self.black_king_castle {
                out.push('k');
            }
            if self.black_queen_castle {
                out.push('q');
            }
        }
        assert(out@ =~= start + castling_text(self@));
    }

    /// Appends the en-passant field.
    fn push_en_passant_text(&self, out: &mut String)
        ensures
            final(out)@ == old(out)@ + en_passant_text(self@),
    {
        let ghost start = out@;
        if self.en_passant_colunm < 8 {
            let rank: u8 = match self.color_turn {
                PieceColor::White => 5,
                PieceColor::Black => 2,
            };
            let square = BoardPosition::new(self.en_passant_colunm, rank).to_text();
            out.append(square.as_str());
        } else {
            out.push('-');
        }
        assert(out@ =~= start + en_passant_text(self@));
    }

    /// The board encoding of this position: piece placement, side to move,
    /// castling rights and en-passant square, then "0 1" for the move counters.
    pub fn to_fen(&self) -> (r: String)
        ensures
            r@ == fen_text(self@),
    {
        let ghost b = self@;
        let mut out = String::new();
        self.push_placement_text(&mut out);
        let ghost a1 = out@;
        out.push(' ');
        match self.color_turn {
            PieceColor::White => out.push('w'),
            PieceColor::Black => out.push('b'),
        }
        out.push(' ');
        let ghost a2 = out@;
        assert(a2 =~= a1 + seq![' '] + side_text(b) + seq![' ']);
        self.push_castling_text(&mut out);
        out.push(' ');
        self.push_en_passant_text(&mut out);
        let ghost a4 = out@;
        out.push(' ');
        out.push('0');
        out.push(' ');
        out.push('1');
        assert(out@ =~= a4 + seq![' ', '0', ' ', '1']);
        assert(out@ =~= fen_text(b));
        out
    }
}


impl BoardState {
    /// Reads the piece placement of `fen` into `board`, which starts empty.
    /// Gives the index of the space that ends the field.
    fn read_placement(fen: &str, board: &mut BoardState) -> (r: Option<usize>)
        requires
            old(board)@ == empty_view(),
        ensures
            match r {
                Some(i) => i < fen@.len() && parse_placement(fen@, 0, 0, 7, empty_view()) == Some((final(board)@, i as int)),
                None => parse_placement(fen@, 0, 0, 7, empty_view()) is None,
            },
    {
        let n = fen.unicode_len();
        let mut i: usize = 0;
        let mut x: u8 = 0;
        let mut y: u8 = 7;
        loop
            invariant
                n == fen@.len(),
                i <= n,
                x <= 8,
                y <= 7,
                parse_placement(fen@, 0, 0, 7, empty_view()) == parse_placement(fen@, i as int, x as int, y as int, board@),
            decreases n - i,
        {
            if i >= n {
                return None;
            }
            let c = fen.get_char(i);
            if c == ' ' {
                if y == 0 && x == 8 {
                    return Some(i);
                }
                return None;
            } else if c == '/' {
                if x == 8 && y > 0 {
                    x = 0;
                    y -= 1;
                } else {
                    return None;
                }
            } else {
                match digit_of(c) {
                    Some(d) => {
                        if x + d <= 8 {
                            x += d;
                        } else {
                            return None;
                        }
                    },
                    None => {
                        if is_piece_char(c) && x < 8 {
                            board.set(BoardPosition::new(x, y), Some(crate::board_state::Piece::from_fen_char(c)));
                            x += 1;
                        } else {
                            return None;
                        }
                    },
                }
            }
            i += 1;
        }
    }

    /// Reads the castling field of `fen` at `i` into `board`. Gives the index of
    /// the space that ends the field.
    fn read_castling(fen: &str, i: usize, board: &mut BoardState) -> (r: Option<usize>)
        requires
            i <= fen@.len(),
        ensures
            match r {
                Some(j) => j < fen@.len() && parse_castling(fen@, i as int, old(board)@) == Some((final(board)@, j as int)),
                None => parse_castling(fen@, i as int, old(board)@) is None,
            },
    {
        let n = fen.unicode_len();
        if i < n && fen.get_char(i) == '-' {
            if i + 1 < n && fen.get_char(i + 1) == ' ' {
                return Some(i + 1);
            }
            return None;
        }
        let mut j: usize = i;
        let mut any = false;
        loop
            invariant
                n == fen@.len(),
                i <= j,
                parse_castling(fen@, i as int, old(board)@) == parse_rights(fen@, j as int, board@, any),
            decreases n - j,
        {
            if j >= n {
                return None;
            }
            let c = fen.get_char(j);
            if c == ' ' {
                if any {
                    return Some(j);
                }
                return None;
            } else if c == 'K' {
                board.white_king_castle = true;
            } else if c == 'Q' {
                board.white_queen_castle = true;
            } else if c == 'k' {
                board.black_king_castle = true;
            } else if c == 'q' {
                board.black_queen_castle = true;
            } else {
                return None;
            }
            any = true;
            j += 1;
        }
    }

    /// Reads the en-passant field of `fen` at `i` into `board`.
    fn read_en_passant(fen: &str, i: usize, board: &mut BoardState) -> (ok: bool)
        requires
            i <= fen@.len(),
        ensures
            ok ==> parse_en_passant(fen@, i as int, old(board)@) == Some(final(board)@),
            !ok ==> parse_en_passant(fen@, i as int, old(board)@) is None,
    {
        let n = fen.unicode_len();
        if i < n && fen.get_char(i) == '-' && (i + 1 == n || fen.get_char(i + 1) == ' ') {
            board.en_passant_colunm = crate::board_state::NO_EN_PASSANT;
            return true;
        }
        if n > 0 && i < n - 1 {
            let f = fen.get_char(i);
            let k = fen.get_char(i + 1);
            if 'a' <= f && f <= 'h' && '1' <= k && k <= '8' && (i + 2 == n || (i + 2 < n && fen.get_char(i + 2) == ' ')) {
                board.en_passant_colunm = (f as u32 - 'a' as u32) as u8;
                return true;
            }
        }
        false
    }

    /// Parses a board encoding; gives `None` when it is malformed.
    pub fn try_from_fen(fen: &str) -> (r: Option<BoardState>)
        ensures
            match r {
                Some(b) => parse_fen(fen@) == Some(b@),
                None => parse_fen(fen@) is None,
            },
    {
        let mut board = BoardState::empty();
        let i = match Self::read_placement(fen, &mut board) {
            Some(i) => i,
            None => return None,
        };
        let n = fen.unicode_len();
        if !(n >= 3 && i <= n - 3) {
            return None;
        }
        let side = fen.get_char(i + 1);
        if !((side == 'w' || side == 'b') && fen.get_char(i + 2) == ' ') {
            return None;
        }
        board.color_turn = if side == 'w' { PieceColor::White } else { PieceColor::Black };
        let j = match Self::read_castling(fen, i + 3, &mut board) {
            Some(j) => j,
            None => return None,
        };
        if Self::read_en_passant(fen, j + 1, &mut board) {
            Some(board)
        } else {
            None
        }
    }

    /// Parses a well-formed board encoding.
    pub fn from_fen(fen: &str) -> (r: BoardState)
        requires
            parse_fen(fen@) is Some,
        ensures
            parse_fen(fen@) == Some(r@),
    {
        match Self::try_from_fen(fen) {
            Some(b) => b,
            None => BoardState::empty(),
        }
    }
}


/// `b`'s squares that the placement parser has read before it reaches file
/// `x` of rank `y` (ranks are read from 8 down, files from a); the others empty.
pub open spec fn parsed_before(b: BoardView, y: int, x: int) -> BoardView {
    BoardView {
        cells: Seq::new(64, |k: int| if k >= square_index(0, y + 1) || (square_index(0, y) <= k && k < square_index(x, y)) {
            b.cells[k]
        } else {
            None
        }),
        ..empty_view()
    }
}

proof fn lemma_parse_rank(b: BoardView, s: Seq<char>, i: int, y: int, x: int, e: int)
    requires
        b.cells.len() == 64,
        0 <= y < 8,
        0 <= e <= x <= 8,
        forall|j: int| x - e <= j < x ==> #[trigger] b.cell(j, y) is None,
        0 <= i,
        i + rank_text(b, y, x, e).len() <= s.len(),
        s.subrange(i, i + rank_text(b, y, x, e).len()) == rank_text(b, y, x, e),
    ensures
        parse_placement(s, i, x - e, y, parsed_before(b, y, x - e))
            == parse_placement(s, i + rank_text(b, y, x, e).len(), 8, y, parsed_before(b, y, 8)),
    decreases 8 - x,
{
    let rt = rank_text(b, y, x, e);
    if e > 0 {
        assert(parsed_before(b, y, x - e) =~= parsed_before(b, y, x)) by {
            assert forall|k: int| 0 <= k < 64 implies parsed_before(b, y, x - e).cells[k] == parsed_before(b, y, x).cells[k] by {
                if square_index(x - e, y) <= k && k < square_index(x, y) {
                    assert(b.cell(k - square_index(0, y), y) is None);
                }
            }
        }
    }
    if x >= 8 {
        if e > 0 {
            assert(s[i] == rt[0]);
            assert(digit_value(s[i]) == Some(e));
        }
    } else if b.cell(x, y) is None {
        lemma_parse_rank(b, s, i, y, x + 1, e + 1);
    } else {
        let p = b.cell(x, y).unwrap();
        let c = fen_char_of(p);
        lemma_fen_char_round_trip(p);
        let lead = run_text(e).len() as int;
        let tail = rank_text(b, y, x + 1, 0);
        assert(rt == run_text(e).push(c) + tail);
        if e > 0 {
            assert(s[i] == rt[0]);
            assert(digit_value(s[i]) == Some(e));
        }
        assert(s[i + lead] == rt[lead]);
        assert(s[i + lead] == c);
        assert(digit_value(c) is None);
        assert(parsed_before(b, y, x).set(x, y, piece_of_char(c)) =~= parsed_before(b, y, x + 1));
        assert(s.subrange(i + lead + 1, i + lead + 1 + tail.len()) =~= tail) by {
            assert forall|k: int| 0 <= k < tail.len() implies s.subrange(i + lead + 1, i + lead + 1 + tail.len())[k] == tail[k] by {
                assert(s[i + lead + 1 + k] == rt[lead + 1 + k]);
            }
        }
        lemma_parse_rank(b, s, i + lead + 1, y, x + 1, 0);
        assert(parse_placement(s, i + lead, x, y, parsed_before(b, y, x))
            == parse_placement(s, i + lead + 1, x + 1, y, parsed_before(b, y, x + 1)));
        if e > 0 {
            assert(parse_placement(s, i, x - e, y, parsed_before(b, y, x - e))
                == parse_placement(s, i + 1, x, y, parsed_before(b, y, x - e)));
        }
        assert(rt.len() == lead + 1 + tail.len());
    }
}

proof fn lemma_parse_ranks(b: BoardView, s: Seq<char>, i: int, y: int)
    requires
        b.cells.len() == 64,
        0 <= y < 8,
        0 <= i,
        i + placement_text(b, y).len() < s.len(),
        s.subrange(i, i + placement_text(b, y).len()) == placement_text(b, y),
        s[i + placement_text(b, y).len()] == ' ',
    ensures
        parse_placement(s, i, 0, y, parsed_before(b, y, 0))
            == Some((parsed_before(b, 0, 8), i + placement_text(b, y).len())),
    decreases y,
{
    let rt = rank_text(b, y, 0, 0);
    let pt = placement_text(b, y);
    assert(s.subrange(i, i + rt.len()) =~= rt) by {
        assert forall|k: int| 0 <= k < rt.len() implies s.subrange(i, i + rt.len())[k] == rt[k] by {
            assert(s[i + k] == pt[k]);
        }
    }
    lemma_parse_rank(b, s, i, y, 0, 0);
    if y > 0 {
        let rest = placement_text(b, y - 1);
        assert(pt == rt.push('/') + rest);
        assert(s[i + rt.len()] == pt[rt.len() as int]);
        assert(parsed_before(b, y, 8) =~= parsed_before(b, y - 1, 0));
        assert(s.subrange(i + rt.len() + 1, i + rt.len() + 1 + rest.len()) =~= rest) by {
            assert forall|k: int| 0 <= k < rest.len() implies s.subrange(i + rt.len() + 1, i + rt.len() + 1 + rest.len())[k] == rest[k] by {
                assert(s[i + rt.len() + 1 + k] == pt[rt.len() + 1 + k]);
            }
        }
        lemma_parse_ranks(b, s, i + rt.len() + 1, y - 1);
    }
}


proof fn lemma_parse_castling(b: BoardView, v: BoardView, s: Seq<char>, j: int)
    requires
        !v.white_king_castle && !v.white_queen_castle && !v.black_king_castle && !v.black_queen_castle,
        0 <= j,
        j + castling_text(b).len() < s.len(),
        s.subrange(j, j + castling_text(b).len()) == castling_text(b),
        s[j + castling_text(b).len()] == ' ',
    ensures
        parse_castling(s, j, v) == Some((BoardView {
            white_king_castle: b.white_king_castle,
            white_queen_castle: b.white_queen_castle,
            black_king_castle: b.black_king_castle,
            black_queen_castle: b.black_queen_castle,
            ..v
        }, j + castling_text(b).len())),
{
    let ct = castling_text(b);
    assert forall|k: int| j <= k < j + ct.len() implies #[trigger] s[k] == ct[k - j] by {
        assert(s.subrange(j, j + ct.len())[k - j] == ct[k - j]);
    }
    if !b.white_king_castle && !b.white_queen_castle && !b.black_king_castle && !b.black_queen_castle {
        assert(s[j] == '-');
        assert(s[j + 1] == ' ');
    } else {
        let t1: Seq<char> = if b.white_king_castle { seq!['K'] } else { Seq::empty() };
        let t2: Seq<char> = if b.white_queen_castle { seq!['Q'] } else { Seq::empty() };
        let t3: Seq<char> = if b.black_king_castle { seq!['k'] } else { Seq::empty() };
        let t4: Seq<char> = if b.black_queen_castle { seq!['q'] } else { Seq::empty() };
        assert(ct == t1 + t2 + t3 + t4);
        assert(s[j] != '-') by {
            assert(s[j] == ct[0]);
        }
        let w1 = if b.white_king_castle { BoardView { white_king_castle: true, ..v } } else { v };
        let k1 = j + t1.len();
        if b.white_king_castle {
            assert(s[j] == 'K');
        }
        assert(parse_rights(s, j, v, false) == parse_rights(s, k1, w1, b.white_king_castle));
        let w2 = if b.white_queen_castle { BoardView { white_queen_castle: true, ..w1 } } else { w1 };
        let k2 = k1 + t2.len();
        let a2 = b.white_king_castle || b.white_queen_castle;
        if b.white_queen_castle {
            assert(s[k1] == ct[t1.len() as int]);
        }
        assert(parse_rights(s, k1, w1, b.white_king_castle) == parse_rights(s, k2, w2, a2));
        let w3 = if b.black_king_castle { BoardView { black_king_castle: true, ..w2 } } else { w2 };
        let k3 = k2 + t3.len();
        let a3 = a2 || b.black_king_castle;
        if b.black_king_castle {
            assert(s[k2] == ct[(t1.len() + t2.len()) as int]);
        }
        assert(parse_rights(s, k2, w2, a2) == parse_rights(s, k3, w3, a3));
        let w4 = if b.black_queen_castle { BoardView { black_queen_castle: true, ..w3 } } else { w3 };
        let k4 = k3 + t4.len();
        if b.black_queen_castle {
            assert(s[k3] == ct[(t1.len() + t2.len() + t3.len()) as int]);
        }
        assert(parse_rights(s, k3, w3, a3) == parse_rights(s, k4, w4, true));
        assert(k4 == j + ct.len());
        assert(parse_rights(s, k4, w4, true) == Some((w4, k4)));
        assert(w4 == BoardView {
            white_king_castle: b.white_king_castle,
            white_queen_castle: b.white_queen_castle,
            black_king_castle: b.black_king_castle,
            black_queen_castle: b.black_queen_castle,
            ..v
        });
    }
}

/// Decoding the encoding of a position gives the position back, so encoding
/// the decoded text gives the same text: piece placement, side to move,
/// castling rights and en-passant square all survive the round trip.
pub proof fn lemma_fen_round_trip(board_state: BoardState)
    ensures
        parse_fen(fen_text(board_state@)) == Some(board_state@),
        fen_text(parse_fen(fen_text(board_state@)).unwrap()) == fen_text(board_state@),
{
    lemma_view_round_trip(board_state@);
}

/// A model with 64 cells and an en-passant file on the board, as every
/// position and every decoded text has.
pub open spec fn view_wf(b: BoardView) -> bool {
    b.cells.len() == 64 && (b.en_passant matches Some(e) ==> 0 <= e < 8)
}

proof fn lemma_view_round_trip(b: BoardView)
    requires
        view_wf(b),
    ensures
        parse_fen(fen_text(b)) == Some(b),
{
    let s = fen_text(b);
    let pt = placement_text(b, 7);
    let ct = castling_text(b);
    let et = en_passant_text(b);
    let p = pt.len() as int;
    assert(s == pt + seq![' '] + side_text(b) + seq![' '] + ct + seq![' '] + et + seq![' ', '0', ' ', '1']);
    assert(s.subrange(0, p) =~= pt);
    assert(s[p] == ' ');
    lemma_parse_ranks(b, s, 0, 7);
    assert(parsed_before(b, 7, 0) =~= empty_view());
    let b0 = parsed_before(b, 0, 8);
    assert(b0.cells =~= b.cells);
    assert(s[p + 1] == side_text(b)[0]);
    assert(s[p + 2] == ' ');
    let b1 = b0.with_turn(b.turn);
    let c = p + 3;
    assert(s.subrange(c, c + ct.len()) =~= ct);
    assert(s[c + ct.len()] == ' ');
    lemma_parse_castling(b, b1, s, c);
    let b2 = BoardView {
        white_king_castle: b.white_king_castle,
        white_queen_castle: b.white_queen_castle,
        black_king_castle: b.black_king_castle,
        black_queen_castle: b.black_queen_castle,
        ..b1
    };
    let q = c + ct.len() + 1;
    assert(s[q] == et[0]);
    if b.en_passant is Some {
        assert(s[q + 1] == et[1]);
        assert(s[q + 2] == ' ');
    } else {
        assert(s[q + 1] == ' ');
    }
    assert(parse_en_passant(s, q, b2) == Some(b));
}


proof fn lemma_parse_placement_wf(s: Seq<char>, i: int, x: int, y: int, b: BoardView)
    requires
        b.cells.len() == 64,
        b.en_passant is None,
    ensures
        parse_placement(s, i, x, y, b) matches Some((v, j)) ==> v.cells.len() == 64 && v.en_passant is None,
    decreases s.len() - i,
{
    if 0 <= i < s.len() {
        if s[i] == '/' {
            lemma_parse_placement_wf(s, i + 1, 0, y - 1, b);
        } else if s[i] != ' ' && digit_value(s[i]) is Some {
            lemma_parse_placement_wf(s, i + 1, x + digit_value(s[i]).unwrap(), y, b);
        } else if s[i] != ' ' && piece_of_char(s[i]) is Some && 0 <= x < 8 && 0 <= y < 8 {
            lemma_parse_placement_wf(s, i + 1, x + 1, y, b.set(x, y, piece_of_char(s[i])));
        }
    }
}

proof fn lemma_parse_rights_cells(s: Seq<char>, i: int, b: BoardView, any: bool)
    ensures
        parse_rights(s, i, b, any) matches Some((v, j)) ==> v.cells == b.cells && v.en_passant == b.en_passant,
    decreases s.len() - i,
{
    if 0 <= i < s.len() && s[i] != ' ' {
        lemma_parse_rights_cells(s, i + 1, BoardView { white_king_castle: true, ..b }, true);
        lemma_parse_rights_cells(s, i + 1, BoardView { white_queen_castle: true, ..b }, true);
        lemma_parse_rights_cells(s, i + 1, BoardView { black_king_castle: true, ..b }, true);
        lemma_parse_rights_cells(s, i + 1, BoardView { black_queen_castle: true, ..b }, true);
    }
}

/// Every text that decodes gives a well-formed position.
pub proof fn lemma_parsed_view_wf(s: Seq<char>)
    ensures
        parse_fen(s) matches Some(v) ==> view_wf(v),
{
    lemma_parse_placement_wf(s, 0, 0, 7, empty_view());
    match parse_placement(s, 0, 0, 7, empty_view()) {
        Some((b, i)) => {
            if i + 3 <= s.len() && (s[i + 1] == 'w' || s[i + 1] == 'b') && s[i + 2] == ' ' {
                let b1 = b.with_turn(if s[i + 1] == 'w' { PieceColor::White } else { PieceColor::Black });
                lemma_parse_rights_cells(s, i + 3, b1, false);
            }
        },
        None => {},
    }
}

/// Re-encoding any valid board-encoding text gives a text that decodes to the
/// same position: the piece placement, side to move, castling rights and
/// en-passant file all survive. (The text itself comes back letter for letter
/// when it was written in the canonical form the encoder uses.)
pub proof fn lemma_reencoding_keeps_position(s: Seq<char>)
    requires
        parse_fen(s) is Some,
    ensures
        parse_fen(fen_text(parse_fen(s).unwrap())) == parse_fen(s),
{
    lemma_parsed_view_wf(s);
    lemma_view_round_trip(parse_fen(s).unwrap());
}

} // verus!
