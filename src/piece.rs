use vstd::prelude::*;

use crate::game::Vec2;

verus! {

/// Mass is fixed point: `MASS_ONE` units make one whole piece.
pub const MASS_ONE: u64 = 1048576;

/// Masses saturate here, far above the 32 whole pieces of a game: a move
/// never adds mass, so a game never comes near it.
pub const MASS_CAP: u64 = 4294967296;

#[derive(Clone, Copy, Debug, PartialEq, Eq, Structural)]
pub enum PieceType {
    Pawn { first_move: bool },
    King,
    Queen,
    Knight,
    Bishop,
    Rook,
}

#[derive(Clone, Copy, Debug, PartialEq, Eq, Structural)]
pub enum Team {
    White,
    Black,
}

/// Values derived from the board by the last recompute pass.
#[derive(Clone, Debug)]
pub struct CalculatedValues {
    pub moves: Vec<Vec2>,
    /// This piece's share of its square, in `MASS_ONE` units.
    pub relative_percent: u64,
}

#[derive(Clone, Debug)]
pub struct Piece {
    pub type_: PieceType,
    pub percent: u64,
    pub team: Team,
    pub calculated_values: CalculatedValues,
}

/// What a piece is, for contracts: its derived values by their views.
pub struct PieceView {
    pub type_: PieceType,
    pub percent: int,
    pub team: Team,
    pub moves: Seq<Vec2>,
    pub relative: int,
}

impl View for Piece {
    type V = PieceView;

    open spec fn view(&self) -> PieceView {
        PieceView {
            type_: self.type_,
            percent: self.percent as int,
            team: self.team,
            moves: self.calculated_values.moves@,
            relative: self.calculated_values.relative_percent as int,
        }
    }
}

/// A piece as it is created, before any recompute pass.
pub open spec fn fresh_view(team: Team, type_: PieceType, percent: int) -> PieceView {
    PieceView { type_, percent, team, moves: seq![], relative: MASS_ONE as int }
}

/// `a + b`, held at `MASS_CAP`.
pub open spec fn sat_add(a: int, b: int) -> int {
    if a + b > MASS_CAP { MASS_CAP as int } else { a + b }
}

/// Pieces of one kind, whatever their kind-local state.
pub open spec fn same_kind(a: PieceType, b: PieceType) -> bool {
    match (a, b) {
        (PieceType::Pawn { .. }, PieceType::Pawn { .. }) => true,
        _ => a == b,
    }
}

/// The kind with its kind-local state back at the start of a game.
pub open spec fn reset_kind(k: PieceType) -> PieceType {
    match k {
        PieceType::Pawn { .. } => PieceType::Pawn { first_move: true },
        _ => k,
    }
}

/// Display share of a piece of mass `m` on a square of total mass `total`.
pub open spec fn relative_spec(m: int, total: int) -> int {
    if total <= MASS_ONE { m } else { m * MASS_ONE / total }
}

/// Is `o` a square that move generation may use?
pub open spec fn open_square(free: Seq<Seq<bool>>, o: Option<Vec2>) -> bool {
    match o {
        Some(n) => n.in_bounds() && free[n.y as int][n.x as int],
        None => false,
    }
}

/// The open squares among `pos + offs[i]`, in the order of `offs`.
pub open spec fn open_targets(pos: Vec2, free: Seq<Seq<bool>>, offs: Seq<(i32, i32)>) -> Seq<Vec2>
    decreases offs.len(),
{
    if offs.len() == 0 {
        seq![]
    } else {
        let rest = open_targets(pos, free, offs.drop_last());
        let o = pos.add_spec(offs.last());
        if open_square(free, o) { rest.push(o.unwrap()) } else { rest }
    }
}

pub open spec fn king_offsets() -> Seq<(i32, i32)> {
    seq![(-1i32, 0i32), (1i32, 0i32), (0i32, 1i32), (0i32, -1i32), (1i32, -1i32), (-1i32, -1i32), (-1i32, 1i32), (1i32, 1i32)]
}

pub open spec fn knight_offsets() -> Seq<(i32, i32)> {
    seq![(1i32, -2i32), (-1i32, -2i32), (1i32, 2i32), (-1i32, 2i32), (2i32, -1i32), (-2i32, -1i32), (2i32, 1i32), (-2i32, 1i32)]
}

/// Forward step of a pawn of `team`, `dist` squares.
pub open spec fn pawn_step(team: Team, dist: i32) -> (i32, i32) {
    if team == Team::Black { (0i32, dist) } else { (0i32, (-dist) as i32) }
}

/// Destinations of a piece of kind `k` and team `team` at `pos`.
pub open spec fn moves_spec(k: PieceType, pos: Vec2, free: Seq<Seq<bool>>, team: Team) -> Seq<Vec2> {
    match k {
        PieceType::Pawn { first_move } => {
            let one = pos.add_spec(pawn_step(team, 1));
            let two = pos.add_spec(pawn_step(team, 2));
            if !open_square(free, one) {
                seq![]
            } else if first_move && open_square(free, two) {
                seq![one.unwrap(), two.unwrap()]
            } else {
                seq![one.unwrap()]
            }
        },
        PieceType::King => open_targets(pos, free, king_offsets()),
        PieceType::Knight => open_targets(pos, free, knight_offsets()),
        _ => seq![],
    }
}

pub open spec fn view_mask(free: [[bool; 8]; 8]) -> Seq<Seq<bool>> {
    Seq::new(8, |y: int| free@[y]@)
}

/// Team and kind of the piece that starts a game on `(x, y)`.
pub open spec fn setup_spec(x: int, y: int) -> Option<(Team, PieceType)> {
    let team = if y == 0 || y == 1 { Team::Black } else { Team::White };
    if !(y == 0 || y == 1 || y == 6 || y == 7) || !(0 <= x < 8) {
        None
    } else if y == 1 || y == 6 {
        Some((team, PieceType::Pawn { first_move: true }))
    } else if x == 0 || x == 7 {
        Some((team, PieceType::Rook))
    } else if x == 1 || x == 6 {
        Some((team, PieceType::Knight))
    } else if x == 2 || x == 5 {
        Some((team, PieceType::Bishop))
    } else if x == 3 {
        Some((team, PieceType::Queen))
    } else {
        Some((team, PieceType::King))
    }
}

impl Default for CalculatedValues {
    fn default() -> (r: Self)
        ensures
            r.moves@ == Seq::<Vec2>::empty(),
            r.relative_percent == MASS_ONE,
    {
        CalculatedValues { moves: Vec::new(), relative_percent: MASS_ONE }
    }
}

pub fn same_kind_exec(a: PieceType, b: PieceType) -> (r: bool)
    ensures
        r == same_kind(a, b),
{
    match (a, b) {
        (PieceType::Pawn { .. }, PieceType::Pawn { .. }) => true,
        (PieceType::King, PieceType::King) => true,
        (PieceType::Queen, PieceType::Queen) => true,
        (PieceType::Knight, PieceType::Knight) => true,
        (PieceType::Bishop, PieceType::Bishop) => true,
        (PieceType::Rook, PieceType::Rook) => true,
        _ => false,
    }
}

fn reset_kind_exec(k: PieceType) -> (r: PieceType)
    ensures
        r == reset_kind(k),
{
    match k {
        PieceType::Pawn { .. } => PieceType::Pawn { first_move: true },
        _ => k,
    }
}

impl Piece {
    pub fn from_type(type_: PieceType, team: Team) -> (r: Piece)
        ensures
            r.type_ == type_,
            r.team == team,
            r.percent == MASS_ONE,
            r@ == fresh_view(team, type_, MASS_ONE as int),
    {
        Piece { type_, percent: MASS_ONE, team, calculated_values: CalculatedValues::default() }
    }

    /// An equal piece with its own storage.
    pub fn copy(&self) -> (r: Piece)
        ensures
            r@ == self@,
    {
        let mut moves: Vec<Vec2> = Vec::new();
        let mut i: usize = 0;
        while i < self.calculated_values.moves.len()
            invariant
                i <= self.calculated_values.moves@.len(),
                moves@ == self.calculated_values.moves@.subrange(0, i as int),
            decreases self.calculated_values.moves@.len() - i,
        {
            moves.push(self.calculated_values.moves[i]);
            i = i + 1;
            assert(moves@ =~= self.calculated_values.moves@.subrange(0, i as int));
        }
        assert(moves@ =~= self.calculated_values.moves@);
        Piece {
            type_: self.type_,
            percent: self.percent,
            team: self.team,
            calculated_values: CalculatedValues {
                moves,
                relative_percent: self.calculated_values.relative_percent,
            },
        }
    }

    /// A fresh piece of this team and kind, holding `percent`: kind-local
    /// state and derived values start over.
    pub fn with_percent(&self, percent: u64) -> (r: Piece)
        ensures
            r.team == self.team,
            r.type_ == reset_kind(self.type_),
            r.percent == percent,
            r@ == fresh_view(self.team, reset_kind(self.type_), percent as int),
    {
        Piece {
            type_: reset_kind_exec(self.type_),
            percent,
            team: self.team,
            calculated_values: CalculatedValues::default(),
        }
    }

    /// The piece that starts a game on `position`, if any.
    pub fn from_setup_pos(position: &Vec2) -> (r: Option<Piece>)
        ensures
            match setup_spec(position.x as int, position.y as int) {
                None => r.is_none(),
                Some((t, k)) => r.is_some() && r.unwrap()@ == fresh_view(t, k, MASS_ONE as int),
            },
    {
        let team = if position.y == 0 || position.y == 1 {
            Team::Black
        } else if position.y == 6 || position.y == 7 {
            Team::White
        } else {
            return None;
        };
        if position.x < 0 || position.x >= 8 {
            return None;
        }
        let type_ = if position.y == 1 || position.y == 6 {
            PieceType::Pawn { first_move: true }
        } else if position.x == 0 || position.x == 7 {
            PieceType::Rook
        } else if position.x == 1 || position.x == 6 {
            PieceType::Knight
        } else if position.x == 2 || position.x == 5 {
            PieceType::Bishop
        } else if position.x == 3 {
            PieceType::Queen
        } else {
            PieceType::King
        };
        Some(Piece::from_type(type_, team))
    }

    pub fn valid_moves(&self, position: &Vec2, free_squares: [[bool; 8]; 8]) -> (r: Vec<Vec2>)
        ensures
            r@ == moves_spec(self.type_, *position, view_mask(free_squares), self.team),
    {
        self.type_.valid_moves(position, free_squares, self.team)
    }

    /// Recomputes the destinations and the display share of this piece,
    /// which stands on `position` on a square of total mass `total`.
    pub fn update_calculated_values(&mut self, position: &Vec2, free_squares: [[bool; 8]; 8], total: u64)
        requires
            old(self).percent <= MASS_CAP,
        ensures
            final(self).type_ == old(self).type_,
            final(self).team == old(self).team,
            final(self).percent == old(self).percent,
            final(self).calculated_values.moves@
                == moves_spec(old(self).type_, *position, view_mask(free_squares), old(self).team),
            final(self).calculated_values.relative_percent
                == relative_spec(old(self).percent as int, total as int),
    {
        let rel: u64 = if total <= MASS_ONE {
            self.percent
        } else {
            assert(self.percent * MASS_ONE <= MASS_CAP * MASS_ONE) by (nonlinear_arith)
                requires self.percent <= MASS_CAP;
            self.percent * MASS_ONE / total
        };
        let moves = self.valid_moves(position, free_squares);
        self.calculated_values = CalculatedValues { moves, relative_percent: rel };
    }
}

fn is_open(free_squares: &[[bool; 8]; 8], o: Option<Vec2>) -> (r: bool)
    ensures
        r == open_square(view_mask(*free_squares), o),
{
    match o {
        Some(n) => {
            if 0 <= n.y && n.y < 8 && 0 <= n.x && n.x < 8 {
                free_squares[n.y as usize][n.x as usize]
            } else {
                false
            }
        },
        None => false,
    }
}

fn collect_open(position: &Vec2, free_squares: &[[bool; 8]; 8], offs: &[(i32, i32); 8]) -> (r: Vec<Vec2>)
    ensures
        r@ == open_targets(*position, view_mask(*free_squares), offs@),
{
    let mut out: Vec<Vec2> = Vec::new();
    let mut i: usize = 0;
    while i < 8
        invariant
            0 <= i <= 8,
            offs@.len() == 8,
            out@ == open_targets(*position, view_mask(*free_squares), offs@.subrange(0, i as int)),
        decreases 8 - i,
    {
        let o = position.add(offs[i]);
        assert(offs@.subrange(0, i + 1).drop_last() =~= offs@.subrange(0, i as int));
        if is_open(free_squares, o) {
            out.push(o.unwrap());
        }
        i = i + 1;
    }
    assert(offs@.subrange(0, 8) =~= offs@);
    out
}

impl PieceType {
    pub fn valid_moves(&self, position: &Vec2, free_squares: [[bool; 8]; 8], team: Team) -> (r: Vec<Vec2>)
        ensures
            r@ == moves_spec(*self, *position, view_mask(free_squares), team),
    {
        match self {
            PieceType::Pawn { first_move } => {
                let mut moves: Vec<Vec2> = Vec::new();
                let dir = if team == Team::Black { Vec2::new((0, 1)) } else { Vec2::new((0, -1)) };
                let one = position.add((dir.x, dir.y));
                if is_open(&free_squares, one) {
                    moves.push(one.unwrap());
                    let dir2 = if team == Team::Black { Vec2::new((0, 2)) } else { Vec2::new((0, -2)) };
                    let two = position.add((dir2.x, dir2.y));
                    if *first_move && is_open(&free_squares, two) {
                        moves.push(two.unwrap());
                    }
                }
                assert(moves@ =~= moves_spec(*self, *position, view_mask(free_squares), team));
                moves
            },
            PieceType::King => {
                let offs: [(i32, i32); 8] = [(-1, 0), (1, 0), (0, 1), (0, -1), (1, -1), (-1, -1), (-1, 1), (1, 1)];
                assert(offs@ =~= king_offsets());
                collect_open(position, &free_squares, &offs)
            },
            PieceType::Knight => {
                let offs: [(i32, i32); 8] = [(1, -2), (-1, -2), (1, 2), (-1, 2), (2, -1), (-2, -1), (2, 1), (-2, 1)];
                assert(offs@ =~= knight_offsets());
                collect_open(position, &free_squares, &offs)
            },
            _ => Vec::new(),
        }
    }
}

} // verus!
