use vstd::prelude::*;

use crate::direction::Direction;
use crate::lemmas::{lemma_player_phase, lemma_rock_phase_frame, lemma_rock_step_frame, lemma_row_pass_frame};
use crate::lemmas::{
    lemma_points_distinct, lemma_read_cell, lemma_read_new_row, lemma_single, lemma_tick_distinct,
};
use crate::model::{
    all_known, apply_request, apply_requests, cell, count_grid, counts_agree, drained, level_wf, mark,
    first_unknown_at,
    fresh_level, grid_of, in_grid, init_requests, objects_of_row, player_of, points_of,
    request_fits, requests_fit, rock_phase, row_pass, same_shape, set_cell, tick_model, LevelModel,
};
use crate::objects::{object_of_char, unknown_char_message};
use crate::text::{lines, lines_view, split_lines};
use crate::objects::Object;
use crate::request::{Request, State};
use crate::Point;

verus! {

/// A level being played: its grid, counters, outcome and the cells changed
/// since the last drain.
pub struct Level {
    score: usize,
    max_score: usize,
    state: Option<State>,
    player: Point,
    damaged: Vec<Point>,
    matrix: Vec<Vec<Object>>,
}

pub open spec fn rows_view(matrix: Seq<Vec<Object>>) -> Seq<Seq<Object>> {
    matrix.map_values(|r: Vec<Object>| r@)
}

impl View for Level {
    type V = LevelModel;

    closed spec fn view(&self) -> LevelModel {
        LevelModel {
            score: self.score as nat,
            max_score: self.max_score as nat,
            state: self.state,
            player: self.player,
            damaged: self.damaged@,
            grid: rows_view(self.matrix@),
        }
    }
}

// Getters
impl Level {
    /// The level's invariant: the score and the gems left add up to the most
    /// there is to score, and each changed cell is listed once.
    pub open spec fn wf(&self) -> bool {
        level_wf(self@)
    }

    pub fn get_score(&self) -> (r: &usize)
        ensures
            *r as nat == self@.score,
    {
        &self.score
    }

    pub fn get_max_score(&self) -> (r: &usize)
        ensures
            *r as nat == self@.max_score,
    {
        &self.max_score
    }

    pub fn get_player_pos(&self) -> (r: &Point)
        ensures
            *r == self@.player,
    {
        &self.player
    }

    /// Hands out the cells changed since the last call, and forgets them.
    pub fn get_damaged(&mut self) -> (r: Vec<Point>)
        ensures
            r@ == old(self)@.damaged,
            final(self)@ == drained(old(self)@),
            old(self).wf() ==> r@.no_duplicates() && final(self).wf(),
    {
        let mut r: Vec<Point> = Vec::new();
        std::mem::swap(&mut r, &mut self.damaged);
        r
    }

    pub fn get_state(&self) -> (r: &Option<State>)
        ensures
            *r == self@.state,
    {
        &self.state
    }

    pub fn get_object(&self, point: Point) -> (r: &Object)
        requires
            in_grid(self@.grid, point),
        ensures
            *r == cell(self@.grid, point),
    {
        &self.matrix[point.1][point.0]
    }

    /// Gives up the level for its grid.
    pub(crate) fn into_objects(self) -> (r: Vec<Vec<Object>>)
        ensures
            rows_view(r@) == self@.grid,
    {
        self.matrix
    }

    pub fn get_objects(&self) -> (r: &Vec<Vec<Object>>)
        ensures
            rows_view(r@) == self@.grid,
    {
        &self.matrix
    }
}

impl Level {
    fn in_grid(&self, p: Point) -> (r: bool)
        ensures
            r == in_grid(self@.grid, p),
    {
        p.1 < self.matrix.len() && p.0 < self.matrix[p.1].len()
    }

    /// The object at a point; outside the grid, a wall.
    pub(crate) fn object_at(&self, p: Point) -> (r: Object)
        ensures
            r == cell(self@.grid, p),
    {
        if self.in_grid(p) {
            self.matrix[p.1][p.0]
        } else {
            Object::Wall
        }
    }

    fn set_object(&mut self, p: Point, o: Object)
        requires
            in_grid(old(self)@.grid, p),
        ensures
            final(self)@ == (LevelModel { grid: set_cell(old(self)@.grid, p, o), ..old(self)@ }),
    {
        self.matrix[p.1][p.0] = o;
        assert(rows_view(self.matrix@) =~= set_cell(old(self)@.grid, p, o));
    }

    fn move_obj(&mut self, from: Point, to: Point)
        requires
            in_grid(old(self)@.grid, from),
            in_grid(old(self)@.grid, to),
        ensures
            final(self)@ == (LevelModel {
                grid: set_cell(
                    set_cell(old(self)@.grid, from, Object::Void),
                    to,
                    cell(old(self)@.grid, from),
                ),
                ..old(self)@
            }),
    {
        let o = self.object_at(from);
        self.set_object(from, crate::objects::get_placeholder());
        self.set_object(to, o);
    }

    /// Adds `p` to the changed cells, unless it is among them already.
    fn mark_damaged(&mut self, p: Point)
        ensures
            final(self)@ == (LevelModel { damaged: mark(old(self)@.damaged, p), ..old(self)@ }),
    {
        let mut i: usize = 0;
        while i < self.damaged.len()
            invariant
                i <= self.damaged@.len(),
                forall|j: int| 0 <= j < i ==> self.damaged@[j] != p,
            decreases self.damaged@.len() - i,
        {
            let q = self.damaged[i];
            if q.0 == p.0 && q.1 == p.1 {
                assert(self.damaged@[i as int] == p);
                return;
            }
            i = i + 1;
        }
        self.damaged.push(p);
    }

    fn handle_request(&mut self, request: Request)
        requires
            request_fits(old(self)@, request),
        ensures
            final(self)@ == apply_request(old(self)@, request),
    {
        match request {
            Request::AddScore => self.score = self.score + 1,
            Request::AddMaxScore => self.max_score = self.max_score + 1,
            Request::UpdateState(s) => {
                if self.state.is_none() {
                    self.state = Some(s);
                }
            },
            Request::MoveObj(from, to) => {
                if self.in_grid(from) && self.in_grid(to) {
                    if self.object_at(from).player() {
                        self.player = to;
                    }
                    self.move_obj(from, to);
                    self.mark_damaged(from);
                    self.mark_damaged(to);
                }
            },
        }
    }

    pub(crate) fn handle_requests(&mut self, requests: Vec<Request>)
        requires
            requests_fit(old(self)@, requests@),
        ensures
            final(self)@ == apply_requests(old(self)@, requests@),
    {
        let ghost m0 = self@;
        let mut i: usize = 0;
        while i < requests.len()
            invariant
                i <= requests@.len(),
                requests_fit(m0, requests@),
                self@ == apply_requests(m0, requests@.take(i as int)),
            decreases requests@.len() - i,
        {
            proof {
                lemma_fit_prefix(m0, requests@, i as int + 1);
                assert(requests@.take(i as int + 1).drop_last() =~= requests@.take(i as int));
            }
            self.handle_request(requests[i]);
            i = i + 1;
        }
        assert(requests@.take(i as int) =~= requests@);
    }
}

impl Level {
    /// Reads a level from text, one row per line and one character per cell.
    /// A character that stands for no object is an error that names it.
    pub fn parse(string: &str) -> (r: Result<Level, String>)
        ensures
            r is Ok <==> all_known(lines(string@)),
            r matches Ok(level) ==> level@ == fresh_level(grid_of(lines(string@))) && level.wf(),
            r matches Err(e) ==> exists|y: int, x: int|
                first_unknown_at(lines(string@), y, x) && e@ == unknown_char_message(
                    lines(string@)[y][x],
                ),
    {
        let rows = split_lines(string);
        let ghost ls = lines(string@);
        let mut level = Level {
            score: 0,
            max_score: 0,
            state: None,
            player: (0, 0),
            damaged: Vec::new(),
            matrix: Vec::new(),
        };
        proof {
            assert(grid_of(ls.take(0)) =~= Seq::<Seq<Object>>::empty());
            assert(rows_view(level.matrix@) =~= Seq::<Seq<Object>>::empty());
            assert(level@ =~= fresh_level(grid_of(ls.take(0))));
        }
        let mut y: usize = 0;
        while y < rows.len()
            invariant
                ls == lines(string@),
                lines_view(rows@) == ls,
                y <= rows@.len(),
                level@ == fresh_level(grid_of(ls.take(y as int))),
                level.max_score <= level.damaged@.len(),
                forall|j: int, i: int|
                    0 <= j < y && 0 <= i < ls[j].len() ==> (#[trigger] object_of_char(ls[j][i])) is Some,
            decreases rows@.len() - y,
        {
            let ghost g = level@.grid;
            let line = &rows[y];
            assert(line@ == ls[y as int]);
            let mut row: Vec<Object> = Vec::new();
            proof {
                lemma_read_new_row(g);
                assert(row@ =~= objects_of_row(ls[y as int].take(0)));
            }
            let mut x: usize = 0;
            while x < line.len()
                invariant
                    ls == lines(string@),
                    lines_view(rows@) == ls,
                    y < rows@.len(),
                    line@ == ls[y as int],
                    x <= line@.len(),
                    g == grid_of(ls.take(y as int)),
                    level@.grid == g,
                    level@.score == 0,
                    level@.state is None,
                    level@.max_score == count_grid(g.push(row@), Object::Gem),
                    level@.player == player_of(g.push(row@)),
                    level@.damaged == points_of(g.push(row@)),
                    row@ == objects_of_row(ls[y as int].take(x as int)),
                    level.max_score <= level.damaged@.len(),
                    forall|j: int, i: int|
                        0 <= j < y && 0 <= i < ls[j].len() ==> (#[trigger] object_of_char(ls[j][i])) is Some,
                    forall|i: int| 0 <= i < x ==> (#[trigger] object_of_char(ls[y as int][i])) is Some,
                decreases line@.len() - x,
            {
                let chr = line[x];
                let obj = match crate::objects::parse(chr) {
                    Ok(o) => o,
                    Err(e) => {
                        proof {
                            assert(chr == ls[y as int][x as int]);
                            assert(first_unknown_at(ls, y as int, x as int));
                            assert(object_of_char(ls[y as int][x as int]) is None);
                            assert(!all_known(ls));
                        }
                        return Err(e);
                    },
                };
                proof {
                    lemma_read_cell(g, row@, obj);
                    assert(g.len() == y);
                }
                level.damaged.push((x, y));
                let requests = obj.init();
                proof {
                    assert(level.damaged@.len() == level.damaged.len());
                    if obj == Object::Gem {
                        assert(requests@ =~= seq![Request::AddMaxScore]);
                        lemma_single(level@, Request::AddMaxScore);
                    } else {
                        assert(requests@ =~= Seq::<Request>::empty());
                    }
                }
                level.handle_requests(requests);
                if obj.player() {
                    level.player = (x, y);
                }
                row.push(obj);
                proof {
                    assert(row@ =~= objects_of_row(ls[y as int].take(x + 1)));
                }
                x = x + 1;
            }
            proof {
                assert(ls[y as int].take(x as int) =~= ls[y as int]);
                assert(g.push(row@) =~= grid_of(ls.take(y + 1)));
            }
            level.matrix.push(row);
            proof {
                assert(rows_view(level.matrix@) =~= g.push(row@));
            }
            y = y + 1;
        }
        proof {
            assert(ls.take(y as int) =~= ls);
            assert forall|j: int| 0 <= j < level@.grid.len() implies #[trigger] level@.grid[j].len()
                <= usize::MAX by {
                assert(level@.grid[j] == level.matrix@[j]@);
                assert(level.matrix@[j]@.len() == level.matrix@[j].len());
            }
            lemma_points_distinct(level@.grid);
        }
        Ok(level)
    }

    /// Runs one step of the game: the player's move, then gravity on every
    /// rock, bottom row first. A level that has been won or lost stays as it is.
    pub fn tick(&mut self, direction: Option<Direction>)
        requires
            old(self).wf(),
        ensures
            final(self)@ == tick_model(old(self)@, direction),
            final(self).wf(),
    {
        if self.state.is_some() {
            return;
        }
        proof {
            lemma_player_phase(self@, direction);
        }
        let p = self.player;
        let here = self.object_at(p);
        if here.player() {
            let requests = here.tick(self, p, direction);
            self.handle_requests(requests);
        }
        let ghost m1 = self@;
        let rows = self.matrix.len();
        let mut k: usize = 0;
        while k < rows
            invariant
                k <= rows,
                rows == m1.grid.len(),
                counts_agree(m1),
                self@ == rock_phase(m1, k as nat),
            decreases rows - k,
        {
            proof {
                lemma_rock_phase_frame(m1, k as nat);
            }
            let y = rows - 1 - k;
            let n = self.matrix[y].len();
            let ghost start = self@;
            let mut x: usize = 0;
            while x < n
                invariant
                    x <= n,
                    y < rows,
                    rows == m1.grid.len(),
                    n == start.grid[y as int].len(),
                    same_shape(start.grid, m1.grid),
                    self@ == row_pass(start, y as nat, x as nat),
                decreases n - x,
            {
                proof {
                    lemma_row_pass_frame(start, y as nat, x as nat);
                }
                let here = self.object_at((x, y));
                if here.can_be_moved() {
                    let requests = here.tick(self, (x, y), None);
                    proof {
                        lemma_rock_step_frame(self@, (x, y));
                    }
                    self.handle_requests(requests);
                }
                x = x + 1;
            }
            k = k + 1;
        }
        proof {
            lemma_rock_phase_frame(m1, rows as nat);
            lemma_tick_distinct(old(self)@, direction);
        }
    }
}

proof fn lemma_fit_prefix(m: LevelModel, rs: Seq<Request>, k: int)
    requires
        requests_fit(m, rs),
        0 <= k <= rs.len(),
    ensures
        requests_fit(m, rs.take(k)),
    decreases rs.len(),
{
    if k < rs.len() {
        lemma_fit_prefix(m, rs.drop_last(), k);
        assert(rs.drop_last().take(k) =~= rs.take(k));
    } else {
        assert(rs.take(k) =~= rs);
    }
}

} // verus!
