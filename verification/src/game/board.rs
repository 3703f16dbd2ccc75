//! The chess position, backed by the `chess` crate.
//!
//! Every rule of chess (move generation, legality, check, mate, SAN
//! lookup, repetition) is computed by the `chess` crate. A position is
//! identified by its FEN text as the crate writes it, which is what the
//! contracts speak of.
use vstd::prelude::*;

verus! {

#[verifier::external_type_specification]
#[verifier::external_body]
pub struct ExBoard(chess::Board);

/// A side (color) in the game.
#[derive(Clone, Copy, PartialEq, Eq, Debug, Structural)]
pub enum Side {
    White,
    Black,
}

impl Side {
    pub open spec fn opp(self) -> Side {
        match self {
            Side::White => Side::Black,
            Side::Black => Side::White,
        }
    }

    /// The other side.
    pub fn other(self) -> (r: Side)
        ensures
            r == self.opp(),
    {
        match self {
            Side::White => Side::Black,
            Side::Black => Side::White,
        }
    }
}

/// A kind of chess piece.
#[derive(Clone, Copy, PartialEq, Eq, Debug, Structural)]
pub enum PieceKind {
    Pawn,
    Knight,
    Bishop,
    Rook,
    Queen,
    King,
}

impl PieceKind {
    /// Index in the order pawn, knight, bishop, rook, queen, king.
    pub open spec fn spec_index(self) -> nat {
        match self {
            PieceKind::Pawn => 0,
            PieceKind::Knight => 1,
            PieceKind::Bishop => 2,
            PieceKind::Rook => 3,
            PieceKind::Queen => 4,
            PieceKind::King => 5,
        }
    }

    pub fn index(self) -> (r: usize)
        ensures
            r == self.spec_index(),
    {
        match self {
            PieceKind::Pawn => 0,
            PieceKind::Knight => 1,
            PieceKind::Bishop => 2,
            PieceKind::Rook => 3,
            PieceKind::Queen => 4,
            PieceKind::King => 5,
        }
    }

    /// The piece with the given index; indexes past the king give the king.
    pub fn from_index(i: usize) -> (r: PieceKind)
        ensures
            i < 6 ==> r.spec_index() == i,
            i >= 6 ==> r == PieceKind::King,
    {
        if i == 0 {
            PieceKind::Pawn
        } else if i == 1 {
            PieceKind::Knight
        } else if i == 2 {
            PieceKind::Bishop
        } else if i == 3 {
            PieceKind::Rook
        } else if i == 4 {
            PieceKind::Queen
        } else {
            PieceKind::King
        }
    }
}

/// A move from one square to another, with an optional promotion piece.
/// Squares are numbered `rank * 8 + file`, from a1 = 0 to h8 = 63.
#[derive(Clone, Copy, PartialEq, Eq, Debug, Structural)]
pub struct Mv {
    pub from: u8,
    pub to: u8,
    pub promo: Option<PieceKind>,
}

impl Mv {
    /// Both squares are on the board.
    pub open spec fn on_board(self) -> bool {
        self.from < 64 && self.to < 64
    }
}

/// Whether a position is still being played, or has no legal move.
#[derive(Clone, Copy, PartialEq, Eq, Debug, Structural)]
pub enum BoardStatus {
    Ongoing,
    Stalemate,
    Checkmate,
}

/// The FEN of the standard starting position, as the `chess` crate writes it.
pub open spec fn start_fen() -> Seq<char> {
    "rnbqkbnr/pppppppp/8/8/8/8/PPPPPPPP/RNBQKBNR w KQkq - 0 1"@
}

/// The legal moves of the position with this FEN, in the order of the
/// `chess` crate's move generator.
pub uninterp spec fn spec_legal_moves(fen: Seq<char>) -> Seq<Mv>;

/// The FEN of the position after a legal move.
pub uninterp spec fn spec_after(fen: Seq<char>, m: Mv) -> Seq<char>;

/// The piece kind standing on a square.
pub uninterp spec fn spec_piece_on(fen: Seq<char>, sq: u8) -> Option<PieceKind>;

/// The color of the piece standing on a square.
pub uninterp spec fn spec_color_on(fen: Seq<char>, sq: u8) -> Option<Side>;

/// The side to move.
pub uninterp spec fn spec_side_to_move(fen: Seq<char>) -> Side;

/// How many pieces give check to the side to move.
pub uninterp spec fn spec_checker_count(fen: Seq<char>) -> u32;

/// The square of the king of a side (`chess::Board::king_square`).
pub uninterp spec fn spec_king_square(fen: Seq<char>, side: Side) -> u8;

/// The move that a SAN text denotes in a position, if exactly one legal move fits it.
pub uninterp spec fn spec_from_san(fen: Seq<char>, text: Seq<char>) -> Option<Mv>;

/// The canonical FEN of the position a FEN text describes, if the text is accepted.
pub uninterp spec fn spec_parse_fen(text: Seq<char>) -> Option<Seq<char>>;

/// Whether a game of these moves from the start may be declared drawn
/// (threefold repetition or the fifty-move rule).
pub uninterp spec fn spec_can_declare_draw(history: Seq<Mv>) -> bool;

/// Whether `m` is one of the legal moves of `fen`.
pub open spec fn is_legal(fen: Seq<char>, m: Mv) -> bool {
    spec_legal_moves(fen).contains(m)
}

/// Whether the side to move is in check.
pub open spec fn in_check_spec(fen: Seq<char>) -> bool {
    spec_checker_count(fen) > 0
}

/// The status of a position: no legal move means mate when in check, stalemate otherwise.
pub open spec fn status_spec(fen: Seq<char>) -> BoardStatus {
    if spec_legal_moves(fen).len() == 0 {
        if spec_checker_count(fen) > 0 {
            BoardStatus::Checkmate
        } else {
            BoardStatus::Stalemate
        }
    } else {
        BoardStatus::Ongoing
    }
}

/// The piece-placement field of a FEN text: everything before the first space.
pub open spec fn fen_placement_field(text: Seq<char>) -> Seq<char>
    decreases text.len(),
{
    if text.len() == 0 {
        text
    } else if text[0] == ' ' {
        seq![]
    } else {
        seq![text[0]] + fen_placement_field(text.drop_first())
    }
}

/// Whether `c` is one of the piece letters of a FEN placement.
pub open spec fn is_piece_letter(c: char) -> bool {
    c == 'p' || c == 'n' || c == 'b' || c == 'r' || c == 'q' || c == 'k' || c == 'P' || c == 'N'
        || c == 'B' || c == 'R' || c == 'Q' || c == 'K'
}

/// One character of a placement field read as the `chess` crate reads it:
/// rank and file wrap around within 0..8, a digit skips files, a piece
/// letter is put on the current square (`'.'` marks an empty square).
pub open spec fn placement_step(st: (int, int, Seq<char>), c: char) -> (int, int, Seq<char>) {
    let (rank, file, squares) = st;
    if c == '/' {
        ((rank + 7) % 8, 0, squares)
    } else if '1' <= c <= '8' {
        (rank, (file + (c as int - '0' as int)) % 8, squares)
    } else if is_piece_letter(c) {
        (rank, (file + 1) % 8, squares.update(rank * 8 + file, c))
    } else {
        st
    }
}

/// The squares after reading a placement field, from rank 8, file a.
pub open spec fn placement_of(cs: Seq<char>) -> (int, int, Seq<char>)
    decreases cs.len(),
{
    if cs.len() == 0 {
        (7, 0, Seq::new(64, |i: int| '.'))
    } else {
        placement_step(placement_of(cs.drop_last()), cs.last())
    }
}

/// Whether the placement field of a FEN text puts a white and a black king
/// on the board.
pub open spec fn fen_has_both_kings(text: Seq<char>) -> bool {
    let squares = placement_of(fen_placement_field(text)).2;
    squares.contains('K') && squares.contains('k')
}

proof fn lemma_placement_bounds(cs: Seq<char>)
    ensures
        0 <= placement_of(cs).0 < 8,
        0 <= placement_of(cs).1 < 8,
        placement_of(cs).2.len() == 64,
    decreases cs.len(),
{
    if cs.len() > 0 {
        lemma_placement_bounds(cs.drop_last());
    }
}

proof fn lemma_placement_field_prefix(text: Seq<char>, i: int)
    requires
        0 <= i <= text.len(),
        forall|j: int| 0 <= j < i ==> text[j] != ' ',
    ensures
        i < text.len() && text[i] == ' ' ==> fen_placement_field(text) == text.take(i),
        i == text.len() ==> fen_placement_field(text) == text,
    decreases i,
{
    if i > 0 {
        lemma_placement_field_prefix(text.drop_first(), i - 1);
        assert(text.drop_first().take(i - 1) =~= text.take(i).drop_first());
        assert(text.take(i) =~= seq![text[0]] + text.take(i).drop_first());
        assert(text.drop_first() =~= seq![text[0]].add(text.drop_first()).drop_first());
        if i == text.len() {
            assert(text =~= seq![text[0]] + text.drop_first());
        }
    } else {
        if text.len() > 0 && text[0] == ' ' {
            assert(text.take(0) =~= seq![]);
        }
    }
}

proof fn lemma_contains_push(s: Seq<char>, x: char, c: char)
    ensures
        s.push(x).contains(c) == (s.contains(c) || x == c),
{
    if s.contains(c) {
        let w = choose|w: int| 0 <= w < s.len() && s[w] == c;
        assert(s.push(x)[w] == c);
    }
    if x == c {
        assert(s.push(x)[s.len() as int] == c);
    }
    if s.push(x).contains(c) && x != c {
        let w = choose|w: int| 0 <= w < s.len() + 1 && s.push(x)[w] == c;
        assert(w < s.len());
        assert(s[w] == c);
    }
}

/// Whether the placement field of `text` puts both kings on the board.
fn has_both_kings(text: &str) -> (r: bool)
    ensures
        r == fen_has_both_kings(text@),
{
    let cs = crate::text::chars_of(text);
    let mut squares: Vec<char> = Vec::new();
    let mut k: usize = 0;
    while k < 64
        invariant
            k <= 64,
            squares@ == Seq::new(k as nat, |i: int| '.'),
        decreases 64 - k,
    {
        squares.push('.');
        k = k + 1;
        assert(squares@ =~= Seq::new(k as nat, |i: int| '.'));
    }
    let mut rank: usize = 7;
    let mut file: usize = 0;
    let mut i: usize = 0;
    while i < cs.len() && cs[i] != ' '
        invariant
            cs@ == text@,
            i <= cs@.len(),
            forall|j: int| 0 <= j < i ==> cs@[j] != ' ',
            (rank as int, file as int, squares@) == placement_of(cs@.take(i as int)),
            rank < 8,
            file < 8,
            squares@.len() == 64,
        decreases cs@.len() - i,
    {
        let c = cs[i];
        proof {
            assert(cs@.take(i as int + 1).drop_last() =~= cs@.take(i as int));
        }
        if c == '/' {
            rank = (rank + 7) % 8;
            file = 0;
        } else if '1' <= c && c <= '8' {
            let d = (c as u32 - '0' as u32) as usize;
            file = (file + d) % 8;
        } else if c == 'p' || c == 'n' || c == 'b' || c == 'r' || c == 'q' || c == 'k' || c == 'P'
            || c == 'N' || c == 'B' || c == 'R' || c == 'Q' || c == 'K' {
            squares.set(rank * 8 + file, c);
            file = (file + 1) % 8;
        }
        i = i + 1;
    }
    proof {
        lemma_placement_field_prefix(cs@, i as int);
        if i == cs@.len() {
            assert(cs@.take(i as int) =~= cs@);
        }
    }
    let mut white = false;
    let mut black = false;
    let mut j: usize = 0;
    while j < 64
        invariant
            j <= 64,
            squares@.len() == 64,
            white == squares@.take(j as int).contains('K'),
            black == squares@.take(j as int).contains('k'),
        decreases 64 - j,
    {
        proof {
            assert(squares@.take(j as int + 1) =~= squares@.take(j as int).push(squares@[j as int]));
            lemma_contains_push(squares@.take(j as int), squares@[j as int], 'K');
            lemma_contains_push(squares@.take(j as int), squares@[j as int], 'k');
        }
        if squares[j] == 'K' {
            white = true;
        }
        if squares[j] == 'k' {
            black = true;
        }
        j = j + 1;
    }
    assert(squares@.take(64) =~= squares@);
    white && black
}

/// A chess position. Its view is its FEN text.
pub struct Position {
    fen: String,
    board: chess::Board,
}

impl View for Position {
    type V = Seq<char>;

    closed spec fn view(&self) -> Seq<char> {
        self.fen@
    }
}

impl Position {
    /// The standard starting position (`chess::Board::default`).
    #[verifier::external_body]
    pub fn start() -> (p: Position)
        ensures
            p@ == start_fen(),
    {
        let board = chess::Board::default();
        Position { fen: board.to_string(), board }
    }

    /// Parse a FEN text (`chess::Board::from_str`). The crate looks up the
    /// king of the side to move before it checks the board, so the call is
    /// made only when the placement field holds both kings.
    #[verifier::external_body]
    fn parse_fen(text: &str) -> (r: Option<Position>)
        requires
            fen_has_both_kings(text@),
        ensures
            r is None <==> spec_parse_fen(text@) is None,
            r matches Some(p) ==> spec_parse_fen(text@) == Some(p@),
    {
        match <chess::Board as std::str::FromStr>::from_str(text) {
            Ok(board) => Some(Position { fen: board.to_string(), board }),
            Err(_) => None,
        }
    }

    /// Parse a FEN text. A text whose piece placement lacks a king of
    /// either color is refused (the `chess` crate accepts a board only with
    /// exactly one king per side).
    pub fn from_fen(text: &str) -> (r: Option<Position>)
        ensures
            !fen_has_both_kings(text@) ==> r is None,
            fen_has_both_kings(text@) ==> (r is None <==> spec_parse_fen(text@) is None),
            r matches Some(p) ==> spec_parse_fen(text@) == Some(p@),
    {
        if has_both_kings(text) {
            Position::parse_fen(text)
        } else {
            None
        }
    }

    /// The FEN text of this position.
    pub fn fen(&self) -> (r: String)
        ensures
            r@ == self@,
    {
        self.fen.clone()
    }

    /// The legal moves (`chess::MoveGen::new_legal`), in generator order.
    #[verifier::external_body]
    pub fn legal_moves(&self) -> (r: Vec<Mv>)
        ensures
            r@ == spec_legal_moves(self@),
            forall|i: int| 0 <= i < r@.len() ==> (#[trigger] r@[i]).on_board(),
    {
        chess::MoveGen::new_legal(&self.board).map(|m| Mv {
            from: m.get_source().to_int(),
            to: m.get_dest().to_int(),
            promo: m.get_promotion().map(|p| PieceKind::from_index(p.to_index())),
        }).collect()
    }

    /// The kind of piece on `sq` (`chess::Board::piece_on`).
    #[verifier::external_body]
    pub fn piece_on(&self, sq: u8) -> (r: Option<PieceKind>)
        requires
            sq < 64,
        ensures
            r == spec_piece_on(self@, sq),
    {
        self.board.piece_on(chess::ALL_SQUARES[sq as usize]).map(|p| PieceKind::from_index(p.to_index()))
    }

    /// The color of the piece on `sq` (`chess::Board::color_on`).
    #[verifier::external_body]
    pub fn color_on(&self, sq: u8) -> (r: Option<Side>)
        requires
            sq < 64,
        ensures
            r == spec_color_on(self@, sq),
    {
        match self.board.color_on(chess::ALL_SQUARES[sq as usize]) {
            Some(chess::Color::White) => Some(Side::White),
            Some(chess::Color::Black) => Some(Side::Black),
            None => None,
        }
    }

    /// The side to move (`chess::Board::side_to_move`).
    #[verifier::external_body]
    pub fn side_to_move(&self) -> (r: Side)
        ensures
            r == spec_side_to_move(self@),
    {
        match self.board.side_to_move() {
            chess::Color::White => Side::White,
            chess::Color::Black => Side::Black,
        }
    }

    /// Number of pieces giving check (`chess::Board::checkers`).
    #[verifier::external_body]
    pub fn checker_count(&self) -> (r: u32)
        ensures
            r == spec_checker_count(self@),
    {
        self.board.checkers().popcnt()
    }

    /// The square of the king of `side` (`chess::Board::king_square`); a
    /// square index is always below 64.
    #[verifier::external_body]
    pub fn king_square(&self, side: Side) -> (r: u8)
        ensures
            r == spec_king_square(self@, side),
            r < 64,
    {
        let c = match side {
            Side::White => chess::Color::White,
            Side::Black => chess::Color::Black,
        };
        self.board.king_square(c).to_int()
    }

    /// The status of the position (`chess::Board::status`): no legal move
    /// means checkmate when in check and stalemate otherwise.
    #[verifier::external_body]
    pub fn status(&self) -> (r: BoardStatus)
        ensures
            r == status_spec(self@),
    {
        match self.board.status() {
            chess::BoardStatus::Ongoing => BoardStatus::Ongoing,
            chess::BoardStatus::Stalemate => BoardStatus::Stalemate,
            chess::BoardStatus::Checkmate => BoardStatus::Checkmate,
        }
    }

    /// The position after a legal move (`chess::Board::make_move_new`);
    /// the turn passes to the other side.
    #[verifier::external_body]
    pub fn after(&self, m: Mv) -> (r: Position)
        requires
            is_legal(self@, m),
            m.on_board(),
        ensures
            r@ == spec_after(self@, m),
            spec_side_to_move(r@) == spec_side_to_move(self@).opp(),
    {
        let cm = chess::ChessMove::new(
            chess::ALL_SQUARES[m.from as usize],
            chess::ALL_SQUARES[m.to as usize],
            m.promo.map(|p| chess::ALL_PIECES[p.index()]),
        );
        let board = self.board.make_move_new(cm);
        Position { fen: board.to_string(), board }
    }

    /// The legal move a SAN text denotes (`chess::ChessMove::from_san`).
    #[verifier::external_body]
    pub fn move_from_san(&self, text: &str) -> (r: Option<Mv>)
        ensures
            r == spec_from_san(self@, text@),
            r matches Some(m) ==> is_legal(self@, m) && m.on_board(),
    {
        chess::ChessMove::from_san(&self.board, text).ok().map(|m| Mv {
            from: m.get_source().to_int(),
            to: m.get_dest().to_int(),
            promo: m.get_promotion().map(|p| PieceKind::from_index(p.to_index())),
        })
    }
}

/// Whether a game of `history` from the start may be declared drawn
/// (`chess::Game::can_declare_draw` after replaying the moves).
#[verifier::external_body]
pub fn can_declare_draw(history: &Vec<Mv>) -> (r: bool)
    requires
        forall|i: int| 0 <= i < history@.len() ==> (#[trigger] history@[i]).on_board(),
    ensures
        r == spec_can_declare_draw(history@),
{
    let mut game = chess::Game::new();
    for m in history.iter() {
        game.make_move(chess::ChessMove::new(
            chess::ALL_SQUARES[m.from as usize],
            chess::ALL_SQUARES[m.to as usize],
            m.promo.map(|p| chess::ALL_PIECES[p.index()]),
        ));
    }
    game.can_declare_draw()
}

} // verus!
