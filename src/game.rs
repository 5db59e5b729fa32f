use vstd::prelude::*;

use crate::piece::{
    fresh_view, moves_spec, relative_spec, reset_kind, same_kind, same_kind_exec, sat_add, setup_spec,
    view_mask, Piece, PieceView, Team, MASS_CAP, MASS_ONE,
};

verus! {

/// A square of the 8x8 board, or an offset between two squares.
#[derive(Clone, Copy, Debug, PartialEq, Eq, Structural)]
pub struct Vec2 {
    pub x: i32,
    pub y: i32,
}

impl Vec2 {
    pub open spec fn in_bounds(self) -> bool {
        0 <= self.x < 8 && 0 <= self.y < 8
    }

    /// Row-major index of a square.
    pub open spec fn index_spec(self) -> int {
        self.x + self.y * 8
    }

    /// The square with the given row-major index.
    pub open spec fn from_index_spec(i: int) -> Vec2 {
        Vec2 { x: (i % 8) as i32, y: (i / 8) as i32 }
    }

    /// The square `self + (dx, dy)` when it lies on the board.
    pub open spec fn add_spec(self, d: (i32, i32)) -> Option<Vec2> {
        let nx = self.x + d.0;
        let ny = self.y + d.1;
        if 0 <= nx < 8 && 0 <= ny < 8 {
            Some(Vec2 { x: nx as i32, y: ny as i32 })
        } else {
            None
        }
    }

    pub fn from_index(index: usize) -> (r: Vec2)
        requires
            index < 64,
        ensures
            r == Vec2::from_index_spec(index as int),
            r.in_bounds(),
    {
        Vec2 { x: (index % 8) as i32, y: (index / 8) as i32 }
    }

    pub fn to_index(&self) -> (r: usize)
        requires
            self.in_bounds(),
        ensures
            r as int == self.index_spec(),
            r < 64,
    {
        (self.x + self.y * 8) as usize
    }

    pub fn new(a: (i32, i32)) -> (r: Vec2)
        ensures
            r.x == a.0,
            r.y == a.1,
    {
        Vec2 { x: a.0, y: a.1 }
    }

    /// Translation by `a`; `None` when the result leaves the board.
    pub fn add(&self, a: (i32, i32)) -> (r: Option<Vec2>)
        ensures
            r == self.add_spec(a),
    {
        let nx: i64 = self.x as i64 + a.0 as i64;
        let ny: i64 = self.y as i64 + a.1 as i64;
        if 0 <= nx && nx < 8 && 0 <= ny && ny < 8 {
            Some(Vec2 { x: nx as i32, y: ny as i32 })
        } else {
            None
        }
    }
}

impl From<(i32, i32)> for Vec2 {
    fn from(a: (i32, i32)) -> (r: Vec2) {
        Vec2 { x: a.0, y: a.1 }
    }
}

impl vstd::std_specs::convert::FromSpecImpl<(i32, i32)> for Vec2 {
    open spec fn obeys_from_spec() -> bool {
        true
    }

    open spec fn from_spec(a: (i32, i32)) -> Vec2 {
        Vec2 { x: a.0, y: a.1 }
    }
}

/// The board: 64 squares in row-major order, each an ordered stack of
/// pieces, and the team to play.
#[derive(Clone, Debug)]
pub struct Board {
    grid: Vec<Vec<Piece>>,
    current_player: Team,
}

pub open spec fn pieces_view(s: Seq<Piece>) -> Seq<PieceView> {
    Seq::new(s.len(), |i: int| s[i]@)
}

/// Does `b` merge into `a` when they meet?
pub open spec fn merges_with(a: PieceView, b: PieceView) -> bool {
    a.team == b.team && same_kind(a.type_, b.type_)
}

/// Index of the first piece of `sq`, from `i` on, that `p` merges into;
/// `sq.len()` when there is none.
pub open spec fn first_match_from(sq: Seq<PieceView>, p: PieceView, i: int) -> int
    decreases sq.len() - i,
{
    if i < 0 || i >= sq.len() {
        sq.len() as int
    } else if merges_with(sq[i], p) {
        i
    } else {
        first_match_from(sq, p, i + 1)
    }
}

/// `q` with the mass of `p` added.
pub open spec fn merged(q: PieceView, p: PieceView) -> PieceView {
    PieceView { percent: sat_add(q.percent, p.percent), ..q }
}

/// `sq` after `p` arrives: merged into the first piece of its team and
/// kind, or else placed on top.
pub open spec fn merge_one(sq: Seq<PieceView>, p: PieceView) -> Seq<PieceView> {
    let j = first_match_from(sq, p, 0);
    if j < sq.len() {
        sq.update(j, merged(sq[j], p))
    } else {
        sq.push(p)
    }
}

/// `sq` after each of `ps` arrives, in order.
pub open spec fn merge_all(sq: Seq<PieceView>, ps: Seq<PieceView>) -> Seq<PieceView>
    decreases ps.len(),
{
    if ps.len() == 0 {
        sq
    } else {
        merge_one(merge_all(sq, ps.drop_last()), ps.last())
    }
}

/// A lone piece met by a lone piece of the other team is captured.
pub open spec fn is_capture(sq: Seq<PieceView>, ps: Seq<PieceView>) -> bool {
    sq.len() == 1 && ps.len() == 1 && sq[0].team != ps[0].team
}

/// `sq` after the pieces `ps` are deposited on it.
pub open spec fn deposit_spec(sq: Seq<PieceView>, ps: Seq<PieceView>) -> Seq<PieceView> {
    if is_capture(sq, ps) {
        ps
    } else {
        merge_all(sq, ps)
    }
}

pub open spec fn masses_bounded(s: Seq<Piece>) -> bool {
    forall|j: int| 0 <= j < s.len() ==> #[trigger] s[j].percent <= MASS_CAP
}

/// The square at row-major index `s` at the start of a game.
pub open spec fn setup_square(s: int) -> Seq<PieceView> {
    match setup_spec(s % 8, s / 8) {
        Some((t, k)) => seq![fresh_view(t, k, MASS_ONE as int)],
        None => seq![],
    }
}

pub open spec fn other(t: Team) -> Team {
    if t == Team::White { Team::Black } else { Team::White }
}

/// Does `p` list `t` among its destinations?
pub open spec fn is_mover(p: PieceView, t: Vec2) -> bool {
    p.moves.contains(t)
}

/// Number of pieces of `sq` that can reach `t`.
pub open spec fn movers_in(sq: Seq<PieceView>, t: Vec2) -> nat
    decreases sq.len(),
{
    if sq.len() == 0 {
        0
    } else {
        movers_in(sq.drop_last(), t) + if is_mover(sq.last(), t) { 1nat } else { 0nat }
    }
}

/// Number of pieces on the first `k` squares of `g` that can reach `t`.
pub open spec fn movers_upto(g: Seq<Seq<PieceView>>, t: Vec2, k: int) -> nat
    decreases k,
{
    if k <= 0 {
        0
    } else {
        movers_upto(g, t, k - 1) + movers_in(g[k - 1], t)
    }
}

/// Number of pieces on the board that can reach `t`.
pub open spec fn mover_count(g: Seq<Seq<PieceView>>, t: Vec2) -> nat {
    movers_upto(g, t, 64)
}

/// Mass that a piece of mass `m` sends when `n` pieces move.
pub open spec fn donated_mass(m: int, n: int) -> int {
    m / n
}

/// Mass that a piece of mass `m` keeps when `n` pieces move.
pub open spec fn retained_mass(m: int, n: int) -> int {
    m - m / n
}

/// `sq` after its movers toward `t` give up their share: each is replaced
/// by a fresh piece holding what it keeps, or leaves if it keeps nothing.
pub open spec fn retained_square(sq: Seq<PieceView>, t: Vec2, n: int) -> Seq<PieceView>
    decreases sq.len(),
{
    if sq.len() == 0 {
        seq![]
    } else {
        let rest = retained_square(sq.drop_last(), t, n);
        let p = sq.last();
        if !is_mover(p, t) {
            rest.push(p)
        } else if retained_mass(p.percent, n) > 0 {
            rest.push(fresh_view(p.team, reset_kind(p.type_), retained_mass(p.percent, n)))
        } else {
            rest
        }
    }
}

/// The shares that the movers of `sq` send toward `t`, in order; a share
/// of no mass is not sent.
pub open spec fn donations_in(sq: Seq<PieceView>, t: Vec2, n: int) -> Seq<PieceView>
    decreases sq.len(),
{
    if sq.len() == 0 {
        seq![]
    } else {
        let rest = donations_in(sq.drop_last(), t, n);
        let p = sq.last();
        if is_mover(p, t) && donated_mass(p.percent, n) > 0 {
            rest.push(fresh_view(p.team, reset_kind(p.type_), donated_mass(p.percent, n)))
        } else {
            rest
        }
    }
}

/// The shares sent from the first `k` squares of `g`.
pub open spec fn donations_upto(g: Seq<Seq<PieceView>>, t: Vec2, n: int, k: int) -> Seq<PieceView>
    decreases k,
{
    if k <= 0 {
        seq![]
    } else {
        donations_upto(g, t, n, k - 1) + donations_in(g[k - 1], t, n)
    }
}

/// The board's squares once every mover toward `t` has kept its share.
pub open spec fn split_squares(g: Seq<Seq<PieceView>>, t: Vec2, n: int) -> Seq<Seq<PieceView>> {
    Seq::new(g.len(), |s: int| retained_square(g[s], t, n))
}

/// The pieces that arrive on `t`: all shares, merged with one another.
pub open spec fn arrivals(g: Seq<Seq<PieceView>>, t: Vec2) -> Seq<PieceView> {
    merge_all(seq![], donations_upto(g, t, mover_count(g, t) as int, 64))
}

/// The squares after a move toward `t` that at least one piece can reach.
pub open spec fn moved_squares(g: Seq<Seq<PieceView>>, t: Vec2) -> Seq<Seq<PieceView>> {
    let split = split_squares(g, t, mover_count(g, t) as int);
    split.update(t.index_spec(), deposit_spec(split[t.index_spec()], arrivals(g, t)))
}

/// Is `sq` a lone piece that held all of its square at the last pass?
pub open spec fn blocked(sq: Seq<PieceView>) -> bool {
    sq.len() == 1 && sq[0].relative == MASS_ONE
}

/// The occupancy mask, by row then column: false on blocked squares.
pub open spec fn mask_spec(g: Seq<Seq<PieceView>>) -> Seq<Seq<bool>> {
    Seq::new(8, |y: int| Seq::new(8, |x: int| !blocked(g[x + y * 8])))
}

/// Total mass of `sq`, held at `MASS_CAP`.
pub open spec fn sat_total(sq: Seq<PieceView>) -> int
    decreases sq.len(),
{
    if sq.len() == 0 {
        0
    } else {
        sat_add(sat_total(sq.drop_last()), sq.last().percent)
    }
}

/// `p`, standing on square `s`, with its derived values recomputed.
pub open spec fn recomputed(p: PieceView, s: int, mask: Seq<Seq<bool>>, total: int) -> PieceView {
    PieceView {
        moves: moves_spec(p.type_, Vec2::from_index_spec(s), mask, p.team),
        relative: relative_spec(p.percent, total),
        ..p
    }
}

/// The squares after a recompute pass over `g`.
pub open spec fn recomputed_squares(g: Seq<Seq<PieceView>>) -> Seq<Seq<PieceView>> {
    Seq::new(
        g.len(),
        |s: int| Seq::new(g[s].len(), |j: int| recomputed(g[s][j], s, mask_spec(g), sat_total(g[s]))),
    )
}

fn contains_target(moves: &Vec<Vec2>, t: Vec2) -> (r: bool)
    ensures
        r == moves@.contains(t),
{
    let mut i: usize = 0;
    while i < moves.len()
        invariant
            i <= moves@.len(),
            forall|k: int| 0 <= k < i ==> moves@[k] != t,
        decreases moves@.len() - i,
    {
        if moves[i] == t {
            return true;
        }
        i = i + 1;
    }
    false
}

fn sat_add_exec(a: u64, b: u64) -> (r: u64)
    requires
        a <= MASS_CAP,
        b <= MASS_CAP,
    ensures
        r == sat_add(a as int, b as int),
        r <= MASS_CAP,
{
    if a + b > MASS_CAP { MASS_CAP } else { a + b }
}

/// Lets `p` arrive on `sq` by the merge rule.
fn merge_piece(sq: &mut Vec<Piece>, p: Piece)
    requires
        masses_bounded(old(sq)@),
        p.percent <= MASS_CAP,
    ensures
        masses_bounded(final(sq)@),
        pieces_view(final(sq)@) == merge_one(pieces_view(old(sq)@), p@),
{
    let ghost v0 = pieces_view(sq@);
    let mut j: usize = 0;
    while j < sq.len()
        invariant
            sq@ == old(sq)@,
            masses_bounded(sq@),
            p.percent <= MASS_CAP,
            v0 == pieces_view(sq@),
            j <= sq@.len(),
            first_match_from(v0, p@, 0) == first_match_from(v0, p@, j as int),
        decreases sq@.len() - j,
    {
        if sq[j].team == p.team && same_kind_exec(sq[j].type_, p.type_) {
            let mut q = sq[j].copy();
            q.percent = sat_add_exec(q.percent, p.percent);
            let ghost s0 = sq@;
            sq.set(j, q);
            assert(pieces_view(sq@) =~= v0.update(j as int, merged(v0[j as int], p@)));
            assert forall|k: int| 0 <= k < sq@.len() implies #[trigger] sq@[k].percent <= MASS_CAP by {
                if k != j {
                    assert(sq@[k] == s0[k]);
                }
            }
            return;
        }
        j = j + 1;
    }
    sq.push(p);
    assert(pieces_view(sq@) =~= v0.push(p@));
}

fn copy_pieces(sq: &Vec<Piece>) -> (r: Vec<Piece>)
    ensures
        pieces_view(r@) == pieces_view(sq@),
        masses_bounded(sq@) ==> masses_bounded(r@),
{
    let mut out: Vec<Piece> = Vec::new();
    let mut j: usize = 0;
    while j < sq.len()
        invariant
            j <= sq@.len(),
            out@.len() == j,
            forall|k: int| 0 <= k < j ==> #[trigger] out@[k]@ == sq@[k]@,
        decreases sq@.len() - j,
    {
        out.push(sq[j].copy());
        j = j + 1;
    }
    assert(pieces_view(out@) =~= pieces_view(sq@));
    assert(masses_bounded(sq@) ==> masses_bounded(out@)) by {
        if masses_bounded(sq@) {
            assert forall|k: int| 0 <= k < out@.len() implies #[trigger] out@[k].percent <= MASS_CAP by {
                assert(pieces_view(out@)[k] == pieces_view(sq@)[k]);
            }
        }
    }
    out
}

impl Board {
    /// The squares, by row-major index.
    pub closed spec fn squares(self) -> Seq<Seq<PieceView>> {
        Seq::new(self.grid@.len(), |s: int| pieces_view(self.grid@[s]@))
    }

    pub closed spec fn player(self) -> Team {
        self.current_player
    }

    pub closed spec fn wf(self) -> bool {
        &&& self.grid@.len() == 64
        &&& forall|s: int| 0 <= s < 64 ==> #[trigger] masses_bounded(self.grid@[s]@)
    }

    /// The team to play.
    pub fn current_player(&self) -> (r: Team)
        ensures
            r == self.player(),
    {
        self.current_player
    }

    /// A copy of the pieces on `position`.
    pub fn get_square(&self, position: Vec2) -> (r: Vec<Piece>)
        requires
            self.wf(),
            position.in_bounds(),
        ensures
            pieces_view(r@) == self.squares()[position.index_spec()],
    {
        copy_pieces(&self.grid[position.to_index()])
    }

    /// The 64 squares in row-major order.
    pub fn square_positions() -> (r: [Vec2; 64])
        ensures
            forall|i: int| 0 <= i < 64 ==> #[trigger] r@[i] == Vec2::from_index_spec(i),
    {
        let mut pos: [Vec2; 64] = [Vec2 { x: 0, y: 0 }; 64];
        let mut i: usize = 0;
        while i < 64
            invariant
                i <= 64,
                forall|k: int| 0 <= k < i ==> #[trigger] pos@[k] == Vec2::from_index_spec(k),
            decreases 64 - i,
        {
            pos[i] = Vec2::from_index(i);
            i = i + 1;
        }
        pos
    }

    /// Deposits `pieces` on `position`: a lone piece met by a lone piece of
    /// the other team is replaced by it; otherwise each piece merges into the
    /// first piece there of its team and kind, or is placed on top.
    pub fn add_pieces_to_square(&mut self, pieces: Vec<Piece>, position: Vec2)
        requires
            old(self).wf(),
            position.in_bounds(),
            masses_bounded(pieces@),
        ensures
            final(self).wf(),
            final(self).player() == old(self).player(),
            final(self).squares() == old(self).squares().update(
                position.index_spec(),
                deposit_spec(old(self).squares()[position.index_spec()], pieces_view(pieces@)),
            ),
            is_capture(old(self).squares()[position.index_spec()], pieces_view(pieces@))
                ==> final(self).squares()[position.index_spec()] == pieces_view(pieces@),
    {
        let s = position.to_index();
        let ghost g0 = self.squares();
        let ghost v0 = g0[s as int];
        let ghost ps = pieces_view(pieces@);
        if self.grid[s].len() == 1 && pieces.len() == 1 && self.grid[s][0].team != pieces[0].team {
            self.grid.set(s, pieces);
            assert(self.squares() =~= g0.update(s as int, ps));
            return;
        }
        let mut sq = copy_pieces(&self.grid[s]);
        let mut i: usize = 0;
        while i < pieces.len()
            invariant
                i <= pieces@.len(),
                ps == pieces_view(pieces@),
                masses_bounded(pieces@),
                masses_bounded(sq@),
                pieces_view(sq@) == merge_all(v0, ps.subrange(0, i as int)),
            decreases pieces@.len() - i,
        {
            assert(ps.subrange(0, i + 1).drop_last() =~= ps.subrange(0, i as int));
            merge_piece(&mut sq, pieces[i].copy());
            i = i + 1;
        }
        assert(ps.subrange(0, i as int) =~= ps);
        self.grid.set(s, sq);
        assert(self.squares() =~= g0.update(s as int, deposit_spec(v0, ps)));
    }

    /// Empties the board and sets up the pieces of a new game.
    pub fn reset(&mut self)
        requires
            old(self).wf(),
        ensures
            final(self).wf(),
            final(self).player() == old(self).player(),
            final(self).squares() == Seq::new(64, |s: int| setup_square(s)),
    {
        let blank = Board::new_blank();
        let ghost bs = blank.squares();
        self.grid = blank.grid;
        assert(self.squares() =~= bs);
        let mut s: usize = 0;
        while s < 64
            invariant
                self.wf(),
                s <= 64,
                self.player() == old(self).player(),
                forall|k: int| 0 <= k < s ==> #[trigger] self.squares()[k] == setup_square(k),
                forall|k: int| s <= k < 64 ==> #[trigger] self.squares()[k].len() == 0,
            decreases 64 - s,
        {
            let p = Vec2::from_index(s);
            let ghost g = self.squares();
            match Piece::from_setup_pos(&p) {
                Some(piece) => {
                    let mut v: Vec<Piece> = Vec::new();
                    v.push(piece);
                    let ghost ps = pieces_view(v@);
                    assert(ps.drop_last() =~= Seq::<PieceView>::empty());
                    assert(g[s as int] =~= Seq::<PieceView>::empty());
                    assert(merge_all(g[s as int], ps.drop_last()) == g[s as int]);
                    assert(deposit_spec(g[s as int], ps) =~= setup_square(s as int));
                    self.add_pieces_to_square(v, p);
                },
                None => {
                    assert(g[s as int] =~= setup_square(s as int));
                },
            }
            s = s + 1;
        }
        assert(self.squares() =~= Seq::new(64, |s: int| setup_square(s)));
    }

    /// A board set up for a new game, White to play.
    pub fn new_setup() -> (r: Board)
        ensures
            r.wf(),
            r.player() == Team::White,
            r.squares() == Seq::new(64, |s: int| setup_square(s)),
    {
        let mut b = Board::new_blank();
        b.reset();
        b
    }

    /// The recompute pass: builds the occupancy mask from the derived values
    /// of the last pass, then gives every piece its destinations under that
    /// mask and its share of its square's total mass.
    pub fn update_piece_data(&mut self)
        requires
            old(self).wf(),
        ensures
            final(self).wf(),
            final(self).player() == old(self).player(),
            final(self).squares() == recomputed_squares(old(self).squares()),
    {
        let ghost g = self.squares();
        let mut mask: [[bool; 8]; 8] = [[true; 8]; 8];
        let mut y: usize = 0;
        while y < 8
            invariant
                self.wf(),
                g == self.squares(),
                y <= 8,
                forall|yy: int| 0 <= yy < y ==> #[trigger] mask@[yy]@ == mask_spec(g)[yy],
            decreases 8 - y,
        {
            let mut row: [bool; 8] = [true; 8];
            let mut x: usize = 0;
            while x < 8
                invariant
                    self.wf(),
                    g == self.squares(),
                    x <= 8,
                    y < 8,
                    forall|xx: int| 0 <= xx < x ==> #[trigger] row@[xx] == !blocked(g[xx + y * 8]),
                decreases 8 - x,
            {
                let s = x + y * 8;
                let sq = &self.grid[s];
                assert(g[s as int] == pieces_view(sq@));
                let b = sq.len() == 1 && sq[0].calculated_values.relative_percent == MASS_ONE;
                row[x] = !b;
                x = x + 1;
            }
            assert(row@ =~= mask_spec(g)[y as int]);
            mask[y] = row;
            y = y + 1;
        }
        assert forall|yy: int| 0 <= yy < 8 implies #[trigger] view_mask(mask)[yy] == mask_spec(g)[yy] by {}
        assert(view_mask(mask) =~= mask_spec(g));
        let ghost m = mask_spec(g);
        let ghost rg = recomputed_squares(g);
        let mut s: usize = 0;
        while s < 64
            invariant
                self.wf(),
                s <= 64,
                g.len() == 64,
                view_mask(mask) == m,
                m == mask_spec(g),
                rg == recomputed_squares(g),
                self.player() == old(self).player(),
                forall|k: int| s <= k < 64 ==> #[trigger] self.squares()[k] == g[k],
                forall|k: int| 0 <= k < s ==> #[trigger] self.squares()[k] == rg[k],
            decreases 64 - s,
        {
            let pos = Vec2::from_index(s);
            let sq = copy_pieces(&self.grid[s]);
            let ghost v = g[s as int];
            assert(self.squares()[s as int] == g[s as int]);
            assert(v == pieces_view(sq@));
            let mut total: u64 = 0;
            let mut j: usize = 0;
            while j < sq.len()
                invariant
                    j <= sq@.len(),
                    v == pieces_view(sq@),
                    masses_bounded(sq@),
                    total <= MASS_CAP,
                    total == sat_total(v.subrange(0, j as int)),
                decreases sq@.len() - j,
            {
                assert(v.subrange(0, j + 1).drop_last() =~= v.subrange(0, j as int));
                total = sat_add_exec(total, sq[j].percent);
                j = j + 1;
            }
            assert(v.subrange(0, j as int) =~= v);
            let mut out: Vec<Piece> = Vec::new();
            let mut j: usize = 0;
            while j < sq.len()
                invariant
                    j <= sq@.len(),
                    s < 64,
                    pos == Vec2::from_index_spec(s as int),
                    v == pieces_view(sq@),
                    masses_bounded(sq@),
                    view_mask(mask) == m,
                    total == sat_total(v),
                    out@.len() == j,
                    forall|k: int| 0 <= k < j ==> #[trigger] out@[k]@ == recomputed(v[k], s as int, m, total as int),
                    forall|k: int| 0 <= k < j ==> #[trigger] out@[k].percent <= MASS_CAP,
                decreases sq@.len() - j,
            {
                let mut q = sq[j].copy();
                q.update_calculated_values(&pos, mask, total);
                out.push(q);
                j = j + 1;
            }
            assert(pieces_view(out@) =~= rg[s as int]);
            let ghost pre = self.squares();
            self.grid.set(s, out);
            assert(self.squares() =~= pre.update(s as int, rg[s as int]));
            s = s + 1;
        }
        assert(self.squares() =~= rg);
    }

    /// Counts the pieces that can reach `position`.
    fn count_movers(&self, position: Vec2) -> (r: u128)
        requires
            self.wf(),
        ensures
            r == mover_count(self.squares(), position),
    {
        let ghost g = self.squares();
        let mut n: u128 = 0;
        let mut s: usize = 0;
        while s < 64
            invariant
                self.wf(),
                g == self.squares(),
                s <= 64,
                n == movers_upto(g, position, s as int),
                n <= s * 0x1_0000_0000_0000_0000,
            decreases 64 - s,
        {
            let sq = &self.grid[s];
            let ghost v = g[s as int];
            assert(v == pieces_view(sq@));
            let mut c: u128 = 0;
            let mut j: usize = 0;
            while j < sq.len()
                invariant
                    j <= sq@.len(),
                    v == pieces_view(sq@),
                    c == movers_in(v.subrange(0, j as int), position),
                    c <= j,
                decreases sq@.len() - j,
            {
                assert(v.subrange(0, j + 1).drop_last() =~= v.subrange(0, j as int));
                if contains_target(&sq[j].calculated_values.moves, position) {
                    c = c + 1;
                }
                j = j + 1;
            }
            assert(v.subrange(0, j as int) =~= v);
            n = n + c;
            s = s + 1;
        }
        n
    }

    /// Moves every piece that can reach `position` toward it. With `n` such
    /// pieces, each sends a fresh piece holding its mass divided by `n` and
    /// keeps the rest in its place; the shares are merged with one another
    /// and deposited on `position`, and the other team is to play. When no
    /// piece can reach `position` nothing changes.
    pub fn move_piece(&mut self, position: Vec2)
        requires
            old(self).wf(),
            position.in_bounds(),
        ensures
            final(self).wf(),
            mover_count(old(self).squares(), position) == 0 ==> *final(self) == *old(self),
            mover_count(old(self).squares(), position) > 0 ==> final(self).player() == other(old(self).player())
                && final(self).squares() == moved_squares(old(self).squares(), position),
    {
        let n = self.count_movers(position);
        if n == 0 {
            return;
        }
        let ghost g = self.squares();
        let ghost ni = n as int;
        let mut pool: Vec<Piece> = Vec::new();
        let mut s: usize = 0;
        while s < 64
            invariant
                self.wf(),
                n > 0,
                ni == n as int,
                s <= 64,
                g.len() == 64,
                self.player() == old(self).player(),
                masses_bounded(pool@),
                forall|k: int| s <= k < 64 ==> #[trigger] self.squares()[k] == g[k],
                forall|k: int| 0 <= k < s ==> #[trigger] self.squares()[k] == retained_square(g[k], position, ni),
                pieces_view(pool@) == merge_all(seq![], donations_upto(g, position, ni, s as int)),
            decreases 64 - s,
        {
            let sq = copy_pieces(&self.grid[s]);
            let ghost v = g[s as int];
            assert(self.squares()[s as int] == g[s as int]);
            assert(v == pieces_view(sq@));
            let ghost before = donations_upto(g, position, ni, s as int);
            let mut kept: Vec<Piece> = Vec::new();
            let mut j: usize = 0;
            while j < sq.len()
                invariant
                    n > 0,
                    ni == n as int,
                    j <= sq@.len(),
                    v == pieces_view(sq@),
                    masses_bounded(sq@),
                    masses_bounded(kept@),
                    masses_bounded(pool@),
                    pieces_view(kept@) == retained_square(v.subrange(0, j as int), position, ni),
                    pieces_view(pool@) == merge_all(seq![], before + donations_in(v.subrange(0, j as int), position, ni)),
                decreases sq@.len() - j,
            {
                let ghost sub = v.subrange(0, j + 1);
                assert(sub.drop_last() =~= v.subrange(0, j as int));
                let ghost dbefore = before + donations_in(v.subrange(0, j as int), position, ni);
                let p = &sq[j];
                assert(p@ == v[j as int]);
                if contains_target(&p.calculated_values.moves, position) {
                    let d = (p.percent as u128 / n) as u64;
                    let r = p.percent - d;
                    if r > 0 {
                        kept.push(p.with_percent(r));
                    }
                    assert(pieces_view(kept@) =~= retained_square(sub, position, ni));
                    if d > 0 {
                        merge_piece(&mut pool, p.with_percent(d));
                        assert(dbefore.push(fresh_view(p.team, reset_kind(p.type_), d as int))
                            =~= before + donations_in(sub, position, ni));
                        assert((before + donations_in(sub, position, ni)).drop_last() =~= dbefore);
                    } else {
                        assert(dbefore =~= before + donations_in(sub, position, ni));
                    }
                } else {
                    kept.push(p.copy());
                    assert(pieces_view(kept@) =~= retained_square(sub, position, ni));
                    assert(dbefore =~= before + donations_in(sub, position, ni));
                }
                j = j + 1;
            }
            assert(v.subrange(0, j as int) =~= v);
            let ghost pre = self.squares();
            self.grid.set(s, kept);
            assert(self.squares() =~= pre.update(s as int, pieces_view(kept@)));
            s = s + 1;
        }
        assert(self.squares() =~= split_squares(g, position, ni));
        assert(pieces_view(pool@) == arrivals(g, position));
        self.add_pieces_to_square(pool, position);
        assert(self.squares() == moved_squares(g, position));
        self.current_player = match self.current_player {
            Team::White => Team::Black,
            Team::Black => Team::White,
        };
    }

    /// A board with no pieces, White to play.
    pub fn new_blank() -> (r: Board)
        ensures
            r.wf(),
            r.player() == Team::White,
            forall|s: int| 0 <= s < 64 ==> #[trigger] r.squares()[s].len() == 0,
    {
        let mut grid: Vec<Vec<Piece>> = Vec::new();
        let mut i: usize = 0;
        while i < 64
            invariant
                i <= 64,
                grid@.len() == i,
                forall|s: int| 0 <= s < i ==> #[trigger] grid@[s]@.len() == 0,
            decreases 64 - i,
        {
            grid.push(Vec::new());
            i = i + 1;
        }
        let r = Board { grid, current_player: Team::White };
        assert(r.wf());
        r
    }
}

/// Sum of the masses of `sq`.
pub open spec fn mass_sum(sq: Seq<PieceView>) -> int
    decreases sq.len(),
{
    if sq.len() == 0 {
        0
    } else {
        mass_sum(sq.drop_last()) + sq.last().percent
    }
}

/// What a moving piece keeps and what it sends add up to its mass.
pub proof fn lemma_split_conserves(m: int, n: int)
    requires
        n >= 1,
    ensures
        retained_mass(m, n) + donated_mass(m, n) == m,
{
}

/// Splitting conserves mass on every square: what the square held is what
/// it keeps plus the shares it sends.
pub proof fn lemma_square_mass_conserved(sq: Seq<PieceView>, t: Vec2, n: int)
    requires
        n >= 1,
        forall|j: int| 0 <= j < sq.len() ==> #[trigger] sq[j].percent >= 0,
    ensures
        mass_sum(sq) == mass_sum(retained_square(sq, t, n)) + mass_sum(donations_in(sq, t, n)),
    decreases sq.len(),
{
    if sq.len() > 0 {
        let rest = sq.drop_last();
        assert forall|j: int| 0 <= j < rest.len() implies #[trigger] rest[j].percent >= 0 by {
            assert(rest[j] == sq[j]);
        }
        lemma_square_mass_conserved(rest, t, n);
        let p = sq.last();
        let r = retained_square(rest, t, n);
        let d = donations_in(rest, t, n);
        assert(p.percent >= 0);
        assert(0 <= p.percent / n <= p.percent) by (nonlinear_arith)
            requires p.percent >= 0, n >= 1;
        if is_mover(p, t) && retained_mass(p.percent, n) > 0 {
            let x = fresh_view(p.team, reset_kind(p.type_), retained_mass(p.percent, n));
            assert(r.push(x).drop_last() =~= r);
        }
        if is_mover(p, t) && donated_mass(p.percent, n) > 0 {
            let x = fresh_view(p.team, reset_kind(p.type_), donated_mass(p.percent, n));
            assert(d.push(x).drop_last() =~= d);
        }
        if !is_mover(p, t) {
            assert(r.push(p).drop_last() =~= r);
        }
    }
}

/// The two squares hold pieces of the same masses, teams and kinds, in the
/// same order.
pub open spec fn same_masses(x: Seq<PieceView>, y: Seq<PieceView>) -> bool {
    &&& x.len() == y.len()
    &&& forall|i: int|
        0 <= i < x.len() ==> #[trigger] x[i].percent == y[i].percent && x[i].team == y[i].team
            && same_kind(x[i].type_, y[i].type_)
}

proof fn lemma_first_match_range(sq: Seq<PieceView>, p: PieceView, i: int)
    requires
        0 <= i,
    ensures
        0 <= first_match_from(sq, p, i) <= sq.len(),
    decreases sq.len() - i,
{
    if i < sq.len() {
        lemma_first_match_range(sq, p, i + 1);
    }
}

proof fn lemma_first_match_agrees(s1: Seq<PieceView>, s2: Seq<PieceView>, p1: PieceView, p2: PieceView, i: int)
    requires
        s1.len() == s2.len(),
        forall|k: int| 0 <= k < s1.len() ==> merges_with(#[trigger] s1[k], p1) == merges_with(s2[k], p2),
    ensures
        first_match_from(s1, p1, i) == first_match_from(s2, p2, i),
    decreases s1.len() - i,
{
    if 0 <= i < s1.len() {
        lemma_first_match_agrees(s1, s2, p1, p2, i + 1);
    }
}

proof fn lemma_first_match_on_top(sq: Seq<PieceView>, x: PieceView, p: PieceView, i: int)
    requires
        0 <= i <= sq.len(),
        first_match_from(sq, p, i) == sq.len(),
        merges_with(x, p),
    ensures
        first_match_from(sq.push(x), p, i) == sq.len(),
    decreases sq.len() - i,
{
    if i < sq.len() {
        assert(sq.push(x)[i] == sq[i]);
        lemma_first_match_on_top(sq, x, p, i + 1);
    }
}

/// Two pieces of one team and kind deposited in either order leave the same
/// masses, teams and kinds on the square.
pub proof fn lemma_merge_commutes(sq: Seq<PieceView>, a: PieceView, b: PieceView)
    requires
        a.team == b.team,
        same_kind(a.type_, b.type_),
        a.percent >= 0,
        b.percent >= 0,
        forall|j: int| 0 <= j < sq.len() ==> #[trigger] sq[j].percent >= 0,
    ensures
        same_masses(deposit_spec(sq, seq![a, b]), deposit_spec(sq, seq![b, a])),
{
    let ab = seq![a, b];
    let ba = seq![b, a];
    assert(ab.drop_last() =~= seq![a]);
    assert(ba.drop_last() =~= seq![b]);
    assert(seq![a].drop_last() =~= Seq::<PieceView>::empty());
    assert(seq![b].drop_last() =~= Seq::<PieceView>::empty());
    assert(merge_all(sq, Seq::<PieceView>::empty()) == sq);
    assert(merge_all(sq, seq![a]) == merge_one(sq, a));
    assert(merge_all(sq, seq![b]) == merge_one(sq, b));
    lemma_first_match_agrees(sq, sq, a, b, 0);
    lemma_first_match_range(sq, a, 0);
    let j = first_match_from(sq, a, 0);
    let n = sq.len() as int;
    if j < n {
        let sa = sq.update(j, merged(sq[j], a));
        let sb = sq.update(j, merged(sq[j], b));
        lemma_first_match_agrees(sa, sq, b, b, 0);
        lemma_first_match_agrees(sb, sq, a, a, 0);
        let q = sq[j];
        assert(sat_add(sat_add(q.percent, a.percent), b.percent) == sat_add(sat_add(q.percent, b.percent), a.percent));
        assert(merge_all(sq, ab) =~= merge_all(sq, ba).update(j, merge_all(sq, ab)[j]));
    } else {
        lemma_first_match_on_top(sq, a, b, 0);
        lemma_first_match_on_top(sq, b, a, 0);
    }
}

/// The row-major index and the square it names determine each other.
pub proof fn lemma_index_round_trip(c: Vec2, i: int)
    ensures
        c.in_bounds() ==> Vec2::from_index_spec(c.index_spec()) == c,
        0 <= i < 64 ==> Vec2::from_index_spec(i).in_bounds(),
        0 <= i < 64 ==> Vec2::from_index_spec(i).index_spec() == i,
{
}

} // verus!
