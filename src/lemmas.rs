use vstd::prelude::*;

use crate::direction::{neighbor, Direction};
use crate::model::{
    apply_request, apply_requests, breaks, broken_requests, cell, cell_at, count_grid, count_row,
    counts_agree, crush_requests, grid_fits, in_grid, mark, one_player, player_of, player_phase,
    player_requests, points_of, pushes, request_fits, requests_fit, rock_phase, rock_requests,
    rock_step, row_pass, row_points, same_shape, set_cell, step, tick_model, walks, LevelModel,
};
use crate::objects::{is_player, is_rock, Object};
use crate::request::{Request, State};
use crate::Point;

verus! {

pub(crate) open spec fn ind(b: bool) -> nat {
    if b {
        1
    } else {
        0
    }
}

pub(crate) proof fn lemma_apply_push(m: LevelModel, rs: Seq<Request>, r: Request)
    ensures
        apply_requests(m, rs.push(r)) == apply_request(apply_requests(m, rs), r),
{
    assert(rs.push(r).drop_last() =~= rs);
}

pub(crate) proof fn lemma_apply_concat(m: LevelModel, a: Seq<Request>, b: Seq<Request>)
    ensures
        apply_requests(m, a + b) == apply_requests(apply_requests(m, a), b),
    decreases b.len(),
{
    if b.len() == 0 {
        assert(a + b =~= a);
    } else {
        lemma_apply_concat(m, a, b.drop_last());
        assert((a + b).drop_last() =~= a + b.drop_last());
    }
}

pub(crate) proof fn lemma_fit_push(m: LevelModel, rs: Seq<Request>, r: Request)
    ensures
        requests_fit(m, rs.push(r)) == (requests_fit(m, rs) && request_fits(
            apply_requests(m, rs),
            r,
        )),
{
    assert(rs.push(r).drop_last() =~= rs);
}

pub(crate) proof fn lemma_count_row_update(row: Seq<Object>, i: int, v: Object, o: Object)
    requires
        0 <= i < row.len(),
    ensures
        count_row(row.update(i, v), o) + ind(row[i] == o) == count_row(row, o) + ind(v == o),
    decreases row.len(),
{
    let u = row.update(i, v);
    if i == row.len() - 1 {
        assert(u.drop_last() =~= row.drop_last());
    } else {
        lemma_count_row_update(row.drop_last(), i, v, o);
        assert(u.drop_last() =~= row.drop_last().update(i, v));
    }
}

pub(crate) proof fn lemma_count_grid_set(g: Seq<Seq<Object>>, p: Point, v: Object, o: Object)
    requires
        in_grid(g, p),
    ensures
        count_grid(set_cell(g, p, v), o) + ind(cell(g, p) == o) == count_grid(g, o) + ind(v == o),
    decreases g.len(),
{
    let u = set_cell(g, p, v);
    let y = p.1 as int;
    if y == g.len() - 1 {
        assert(u.drop_last() =~= g.drop_last());
        lemma_count_row_update(g[y], p.0 as int, v, o);
    } else {
        lemma_count_grid_set(g.drop_last(), p, v, o);
        assert(u.drop_last() =~= set_cell(g.drop_last(), p, v));
    }
}

pub(crate) proof fn lemma_count_positive(g: Seq<Seq<Object>>, p: Point)
    requires
        in_grid(g, p),
    ensures
        count_grid(g, cell(g, p)) >= 1,
{
    let o = cell(g, p);
    let v = if o == Object::Void {
        Object::Wall
    } else {
        Object::Void
    };
    lemma_count_grid_set(g, p, v, o);
}

/// What a move does: the destination's old object is gone, a void appears,
/// and only the two cells change.
pub(crate) proof fn lemma_move(m: LevelModel, from: Point, to: Point)
    requires
        in_grid(m.grid, from),
        in_grid(m.grid, to),
        from != to,
    ensures
        ({
            let n = apply_request(m, Request::MoveObj(from, to));
            &&& same_shape(n.grid, m.grid)
            &&& forall|o: Object|
                count_grid(n.grid, o) + ind(cell(m.grid, to) == o) == count_grid(m.grid, o) + ind(
                    o == Object::Void,
                )
            &&& forall|q: Point|
                #[trigger] cell(n.grid, q) == if q == to {
                    cell(m.grid, from)
                } else if q == from {
                    Object::Void
                } else {
                    cell(m.grid, q)
                }
        }),
{
    let g1 = set_cell(m.grid, from, Object::Void);
    let o = cell(m.grid, from);
    let g2 = set_cell(g1, to, o);
    assert(in_grid(g1, to));
    assert forall|k: Object|
        count_grid(g2, k) + ind(cell(m.grid, to) == k) == count_grid(m.grid, k) + ind(
            k == Object::Void,
        ) by {
        lemma_count_grid_set(m.grid, from, Object::Void, k);
        lemma_count_grid_set(g1, to, o, k);
        assert(cell(g1, to) == cell(m.grid, to));
    }
    assert forall|q: Point|
        #[trigger] cell(g2, q) == if q == to {
            cell(m.grid, from)
        } else if q == from {
            Object::Void
        } else {
            cell(m.grid, q)
        } by {
        assert(in_grid(g2, q) == in_grid(m.grid, q));
    }
}

} // verus!

verus! {

/// What the rock phase leaves alone.
pub(crate) open spec fn rock_frame(a: LevelModel, b: LevelModel) -> bool {
    &&& same_shape(a.grid, b.grid)
    &&& a.score == b.score
    &&& a.max_score == b.max_score
    &&& a.state == b.state
    &&& a.player == b.player
    &&& forall|o: Object| o != Object::Void ==> count_grid(b.grid, o) == count_grid(a.grid, o)
    &&& (cell(a.grid, a.player) != Object::Rock && cell(a.grid, a.player) != Object::Void)
        ==> cell(b.grid, b.player) == cell(a.grid, a.player)
}

pub(crate) proof fn lemma_single(m: LevelModel, r: Request)
    ensures
        apply_requests(m, seq![r]) == apply_request(m, r),
        requests_fit(m, seq![r]) == request_fits(m, r),
{
    lemma_apply_push(m, Seq::empty(), r);
    lemma_fit_push(m, Seq::empty(), r);
    assert(Seq::<Request>::empty().push(r) =~= seq![r]);
}

pub(crate) proof fn lemma_rock_step_frame(m: LevelModel, p: Point)
    ensures
        rock_frame(m, rock_step(m, p)),
        requests_fit(m, rock_requests(m, p)),
{
    let rs = rock_requests(m, p);
    if rs.len() == 1 {
        let r = rs[0];
        assert(rs =~= seq![r]);
        lemma_single(m, r);
    } else {
        assert(rs =~= Seq::<Request>::empty());
    }
    if is_rock(cell(m.grid, p)) && rs.len() == 1 {
        let to = rs[0]->MoveObj_1;
        assert(rs[0] == Request::MoveObj(p, to));
        assert(cell(m.grid, to) == Object::Void);
        lemma_move(m, p, to);
    }
}

pub(crate) proof fn lemma_row_pass_frame(m: LevelModel, y: nat, n: nat)
    ensures
        rock_frame(m, row_pass(m, y, n)),
    decreases n,
{
    if n > 0 {
        let prev = row_pass(m, y, (n - 1) as nat);
        lemma_row_pass_frame(m, y, (n - 1) as nat);
        lemma_rock_step_frame(prev, ((n - 1) as usize, y as usize));
    }
}

pub(crate) proof fn lemma_rock_phase_frame(m: LevelModel, k: nat)
    ensures
        rock_frame(m, rock_phase(m, k)),
    decreases k,
{
    if k > 0 && k <= m.grid.len() {
        let y = (m.grid.len() - k) as nat;
        let prev = rock_phase(m, (k - 1) as nat);
        lemma_rock_phase_frame(m, (k - 1) as nat);
        lemma_row_pass_frame(prev, y, m.grid[y as int].len());
    }
}

} // verus!

verus! {

/// What the player's turn keeps, and what it may change.
pub(crate) open spec fn player_frame(m: LevelModel, n: LevelModel) -> bool {
    &&& same_shape(m.grid, n.grid)
    &&& counts_agree(n)
    &&& n.max_score == m.max_score
    &&& one_player(m) ==> if n.state == Some(State::Lose) {
        count_grid(n.grid, Object::Player) == 0
    } else {
        one_player(n)
    }
}

/// The crush check applied after the player has settled in `cur`.
proof fn lemma_crush(g: Seq<Seq<Object>>, m: LevelModel, cur: Point)
    requires
        same_shape(m.grid, g),
        cell(m.grid, cur) == Object::Player,
        m.state is None,
        counts_agree(m),
    ensures
        ({
            let rs = crush_requests(g, cur, false);
            let n = apply_requests(m, rs);
            &&& requests_fit(m, rs)
            &&& same_shape(n.grid, g)
            &&& counts_agree(n)
            &&& n.max_score == m.max_score
            &&& if rs.len() == 0 {
                n == m
            } else {
                n.state == Some(State::Lose) && count_grid(n.grid, Object::Player) + 1
                    == count_grid(m.grid, Object::Player)
            }
        }),
{
    let rs = crush_requests(g, cur, false);
    if rs.len() > 0 {
        let above = neighbor(cur, Direction::Up).unwrap();
        let a = Request::UpdateState(State::Lose);
        let b = Request::MoveObj(above, cur);
        assert(rs =~= seq![a].push(b));
        lemma_single(m, a);
        lemma_apply_push(m, seq![a], b);
        lemma_fit_push(m, seq![a], b);
        let m1 = apply_request(m, a);
        assert(in_grid(g, above));
        assert(in_grid(m.grid, above));
        lemma_move(m1, above, cur);
    } else {
        assert(rs =~= Seq::<Request>::empty());
    }
}

/// The player's turn keeps the counters in step, stays within `usize`, and
/// removes the player only by a crush, which loses the level.
pub(crate) proof fn lemma_player_phase(m: LevelModel, dir: Option<Direction>)
    requires
        counts_agree(m),
        m.state is None,
    ensures
        player_frame(m, player_phase(m, dir)),
        is_player(cell(m.grid, m.player)) && m.max_score <= usize::MAX ==> requests_fit(
            m,
            player_requests(m, dir),
        ),
{
    let p = m.player;
    if !is_player(cell(m.grid, p)) {
        assert(!one_player(m));
        return;
    }
    let rs = player_requests(m, dir);
    match dir {
        None => {
            lemma_crush(m.grid, m, p);
        },
        Some(d) => {
            if !walks(m, d) {
                assert(rs =~= crush_requests(m.grid, p, false));
                lemma_crush(m.grid, m, p);
            } else if breaks(m, d) {
                lemma_break(m, d);
            } else if pushes(m, d) {
                lemma_push(m, d);
            } else {
                lemma_step(m, d);
            }
        },
    }
}

proof fn lemma_break(m: LevelModel, d: Direction)
    requires
        counts_agree(m),
        m.state is None,
        is_player(cell(m.grid, m.player)),
        breaks(m, d),
    ensures
        player_frame(m, apply_requests(m, player_requests(m, Some(d)))),
        m.max_score <= usize::MAX ==> requests_fit(m, player_requests(m, Some(d))),
{
    let p = m.player;
    let next = neighbor(p, d);
    let obj = cell_at(m.grid, next);
    let rs = player_requests(m, Some(d));
    let to = next.unwrap();
    let mv = Request::MoveObj(p, to);
    assert(in_grid(m.grid, to));
    let first = broken_requests(obj, m.score, m.max_score);
    assert(crush_requests(m.grid, to, true) =~= Seq::<Request>::empty());
    assert(rs =~= first.push(mv));
    lemma_apply_push(m, first, mv);
    lemma_fit_push(m, first, mv);
    let m1 = apply_requests(m, first);
    if obj == Object::Gem {
        lemma_count_positive(m.grid, to);
        let s = Request::AddScore;
        if m.score + 1 == m.max_score {
            let w = Request::UpdateState(State::Win);
            assert(first =~= seq![s].push(w));
            lemma_single(m, s);
            lemma_apply_push(m, seq![s], w);
            lemma_fit_push(m, seq![s], w);
        } else {
            assert(first =~= seq![s]);
            lemma_single(m, s);
        }
    } else {
        assert(first =~= Seq::<Request>::empty());
    }
    assert(m1.grid == m.grid);
    lemma_move(m1, p, to);
}

proof fn lemma_push(m: LevelModel, d: Direction)
    requires
        counts_agree(m),
        m.state is None,
        is_player(cell(m.grid, m.player)),
        pushes(m, d),
    ensures
        player_frame(m, apply_requests(m, player_requests(m, Some(d)))),
        requests_fit(m, player_requests(m, Some(d))),
{
    let p = m.player;
    let next = neighbor(p, d);
    let rs = player_requests(m, Some(d));
    let to = next.unwrap();
    let mv = Request::MoveObj(p, to);
    let beyond = step(next, d).unwrap();
    let push = Request::MoveObj(to, beyond);
    let walk = seq![push].push(mv);
    let tail = crush_requests(m.grid, to, false);
    assert(rs =~= walk + tail);
    lemma_single(m, push);
    lemma_apply_push(m, seq![push], mv);
    lemma_fit_push(m, seq![push], mv);
    let m1 = apply_request(m, push);
    assert(in_grid(m.grid, beyond));
    assert(in_grid(m.grid, to));
    lemma_move(m, to, beyond);
    lemma_move(m1, p, to);
    let m2 = apply_request(m1, mv);
    lemma_crush(m.grid, m2, to);
    lemma_apply_concat(m, walk, tail);
    lemma_fit_concat(m, walk, tail);
}

proof fn lemma_step(m: LevelModel, d: Direction)
    requires
        counts_agree(m),
        m.state is None,
        is_player(cell(m.grid, m.player)),
        walks(m, d),
        !breaks(m, d),
        !pushes(m, d),
    ensures
        player_frame(m, apply_requests(m, player_requests(m, Some(d)))),
        requests_fit(m, player_requests(m, Some(d))),
{
    let p = m.player;
    let next = neighbor(p, d);
    let rs = player_requests(m, Some(d));
    let to = next.unwrap();
    let mv = Request::MoveObj(p, to);
    let walk = seq![mv];
    let tail = crush_requests(m.grid, to, false);
    assert(rs =~= walk + tail);
    assert(in_grid(m.grid, to));
    lemma_single(m, mv);
    lemma_move(m, p, to);
    let m2 = apply_request(m, mv);
    lemma_crush(m.grid, m2, to);
    lemma_apply_concat(m, walk, tail);
    lemma_fit_concat(m, walk, tail);
}

pub(crate) proof fn lemma_fit_concat(m: LevelModel, a: Seq<Request>, b: Seq<Request>)
    ensures
        requests_fit(m, a + b) == (requests_fit(m, a) && requests_fit(apply_requests(m, a), b)),
    decreases b.len(),
{
    if b.len() == 0 {
        assert(a + b =~= a);
    } else {
        lemma_fit_concat(m, a, b.drop_last());
        lemma_apply_concat(m, a, b.drop_last());
        assert((a + b).drop_last() =~= a + b.drop_last());
    }
}

} // verus!

verus! {

/// Reading one more object into the last row of a level being read.
pub(crate) proof fn lemma_read_cell(g: Seq<Seq<Object>>, row: Seq<Object>, o: Object)
    ensures
        count_grid(g.push(row.push(o)), Object::Gem) == count_grid(g.push(row), Object::Gem)
            + ind(o == Object::Gem),
        player_of(g.push(row.push(o))) == if o == Object::Player {
            (row.len() as usize, g.len() as usize)
        } else {
            player_of(g.push(row))
        },
        points_of(g.push(row.push(o))) == points_of(g.push(row)).push(
            (row.len() as usize, g.len() as usize),
        ),
{
    assert(g.push(row.push(o)).drop_last() =~= g);
    assert(g.push(row).drop_last() =~= g);
    assert(row.push(o).drop_last() =~= row);
    assert(row_points(row.len() + 1, g.len()) =~= row_points(row.len(), g.len()).push(
        (row.len() as usize, g.len() as usize),
    ));
    assert(points_of(g) + row_points(row.len() + 1, g.len()) =~= (points_of(g) + row_points(
        row.len(),
        g.len(),
    )).push((row.len() as usize, g.len() as usize)));
}

/// Starting a new, empty row changes nothing about a level being read.
pub(crate) proof fn lemma_read_new_row(g: Seq<Seq<Object>>)
    ensures
        count_grid(g.push(Seq::empty()), Object::Gem) == count_grid(g, Object::Gem),
        player_of(g.push(Seq::empty())) == player_of(g),
        points_of(g.push(Seq::empty())) == points_of(g),
{
    let e = Seq::<Object>::empty();
    assert(g.push(e).drop_last() =~= g);
    assert(points_of(g) + row_points(0, g.len()) =~= points_of(g));
}

} // verus!

verus! {

pub(crate) proof fn lemma_mark_distinct(s: Seq<Point>, p: Point)
    requires
        s.no_duplicates(),
    ensures
        mark(s, p).no_duplicates(),
{
    if !s.contains(p) {
        assert forall|i: int, j: int|
            0 <= i < s.len() + 1 && 0 <= j < s.len() + 1 && i != j implies #[trigger] s.push(p)[i]
            != #[trigger] s.push(p)[j] by {
            if i == s.len() {
                assert(s[j] != p);
            } else if j == s.len() {
                assert(s[i] != p);
            }
        }
    }
}

pub(crate) proof fn lemma_apply_distinct(m: LevelModel, rs: Seq<Request>)
    requires
        m.damaged.no_duplicates(),
    ensures
        apply_requests(m, rs).damaged.no_duplicates(),
    decreases rs.len(),
{
    if rs.len() > 0 {
        let prev = apply_requests(m, rs.drop_last());
        lemma_apply_distinct(m, rs.drop_last());
        if let Request::MoveObj(from, to) = rs.last() {
            lemma_mark_distinct(prev.damaged, from);
            lemma_mark_distinct(mark(prev.damaged, from), to);
        }
    }
}

pub(crate) proof fn lemma_row_pass_distinct(m: LevelModel, y: nat, n: nat)
    requires
        m.damaged.no_duplicates(),
    ensures
        row_pass(m, y, n).damaged.no_duplicates(),
    decreases n,
{
    if n > 0 {
        let prev = row_pass(m, y, (n - 1) as nat);
        lemma_row_pass_distinct(m, y, (n - 1) as nat);
        lemma_apply_distinct(prev, rock_requests(prev, ((n - 1) as usize, y as usize)));
    }
}

pub(crate) proof fn lemma_rock_phase_distinct(m: LevelModel, k: nat)
    requires
        m.damaged.no_duplicates(),
    ensures
        rock_phase(m, k).damaged.no_duplicates(),
    decreases k,
{
    if k > 0 && k <= m.grid.len() {
        let y = (m.grid.len() - k) as nat;
        lemma_rock_phase_distinct(m, (k - 1) as nat);
        lemma_row_pass_distinct(rock_phase(m, (k - 1) as nat), y, m.grid[y as int].len());
    }
}

/// Ticking keeps each changed cell listed once.
pub(crate) proof fn lemma_tick_distinct(m: LevelModel, dir: Option<Direction>)
    requires
        m.damaged.no_duplicates(),
    ensures
        tick_model(m, dir).damaged.no_duplicates(),
{
    if m.state is None {
        lemma_apply_distinct(m, player_requests(m, dir));
        let m1 = player_phase(m, dir);
        lemma_rock_phase_distinct(m1, m1.grid.len());
    }
}

/// A freshly read grid lists each of its cells once.
pub(crate) proof fn lemma_points_distinct(g: Seq<Seq<Object>>)
    requires
        grid_fits(g),
    ensures
        points_of(g).no_duplicates(),
        forall|i: int| 0 <= i < points_of(g).len() ==> (#[trigger] points_of(g)[i]).1 < g.len(),
    decreases g.len(),
{
    if g.len() > 0 {
        let init = g.drop_last();
        assert(grid_fits(init));
        lemma_points_distinct(init);
        let a = points_of(init);
        let b = row_points(g.last().len(), (g.len() - 1) as nat);
        let s = a + b;
        assert(s == points_of(g));
        assert forall|i: int| 0 <= i < s.len() implies (#[trigger] s[i]).1 < g.len() by {
            if i >= a.len() {
                assert(s[i] == b[i - a.len()]);
            }
        }
        assert forall|i: int, j: int|
            0 <= i < s.len() && 0 <= j < s.len() && i != j implies #[trigger] s[i] != #[trigger] s[j] by {
            if i < a.len() && j >= a.len() {
                assert(s[i] == a[i]);
                assert(s[j] == b[j - a.len()]);
            } else if i >= a.len() && j < a.len() {
                assert(s[j] == a[j]);
                assert(s[i] == b[i - a.len()]);
            } else if i >= a.len() && j >= a.len() {
                assert(s[i] == b[i - a.len()]);
                assert(s[j] == b[j - a.len()]);
            } else {
                assert(s[i] == a[i]);
                assert(s[j] == a[j]);
            }
        }
    }
}

} // verus!
