use vstd::prelude::*;

use crate::direction::{is_horizontal, neighbor, Direction};
use crate::objects::{char_of, is_breakable, is_player, is_rock, is_void, object_of_char, Object};
use crate::request::{Request, State};
use crate::Point;

verus! {

/// What a level is, as a mathematical value.
pub ghost struct LevelModel {
    pub score: nat,
    pub max_score: nat,
    pub state: Option<State>,
    pub player: Point,
    /// Cells touched since the last drain, each once, in the order they were
    /// first touched.
    pub damaged: Seq<Point>,
    /// The rows of the level, top first; rows may differ in length.
    pub grid: Seq<Seq<Object>>,
}

pub open spec fn in_grid(g: Seq<Seq<Object>>, p: Point) -> bool {
    p.1 < g.len() && p.0 < g[p.1 as int].len()
}

/// The object at a point; everything outside the parsed cells reads as wall.
pub open spec fn cell(g: Seq<Seq<Object>>, p: Point) -> Object {
    if in_grid(g, p) {
        g[p.1 as int][p.0 as int]
    } else {
        Object::Wall
    }
}

/// The object at a point that may not exist; a missing point reads as wall.
pub open spec fn cell_at(g: Seq<Seq<Object>>, p: Option<Point>) -> Object {
    match p {
        Some(q) => cell(g, q),
        None => Object::Wall,
    }
}

pub open spec fn set_cell(g: Seq<Seq<Object>>, p: Point, o: Object) -> Seq<Seq<Object>> {
    g.update(p.1 as int, g[p.1 as int].update(p.0 as int, o))
}

pub open spec fn step(p: Option<Point>, d: Direction) -> Option<Point> {
    match p {
        Some(q) => neighbor(q, d),
        None => None,
    }
}

/// Two grids with the same number of rows and the same length in each row.
pub open spec fn same_shape(a: Seq<Seq<Object>>, b: Seq<Seq<Object>>) -> bool {
    a.len() == b.len() && forall|y: int| 0 <= y < a.len() ==> #[trigger] a[y].len() == b[y].len()
}

/// The changed cells with `p` among them.
pub open spec fn mark(damaged: Seq<Point>, p: Point) -> Seq<Point> {
    if damaged.contains(p) {
        damaged
    } else {
        damaged.push(p)
    }
}

/// The effect of one request on a level.
pub open spec fn apply_request(m: LevelModel, r: Request) -> LevelModel {
    match r {
        Request::AddScore => LevelModel { score: m.score + 1, ..m },
        Request::AddMaxScore => LevelModel { max_score: m.max_score + 1, ..m },
        Request::UpdateState(s) => if m.state is None {
            LevelModel { state: Some(s), ..m }
        } else {
            m
        },
        Request::MoveObj(from, to) => if in_grid(m.grid, from) && in_grid(m.grid, to) {
            let o = cell(m.grid, from);
            LevelModel {
                player: if is_player(o) {
                    to
                } else {
                    m.player
                },
                grid: set_cell(set_cell(m.grid, from, Object::Void), to, o),
                damaged: mark(mark(m.damaged, from), to),
                ..m
            }
        } else {
            m
        },
    }
}

/// The effect of a batch of requests, applied in order.
pub open spec fn apply_requests(m: LevelModel, rs: Seq<Request>) -> LevelModel
    decreases rs.len(),
{
    if rs.len() == 0 {
        m
    } else {
        apply_request(apply_requests(m, rs.drop_last()), rs.last())
    }
}

/// Whether a request keeps the counters within `usize`.
pub open spec fn request_fits(m: LevelModel, r: Request) -> bool {
    &&& r is AddScore ==> m.score < usize::MAX
    &&& r is AddMaxScore ==> m.max_score < usize::MAX
}

/// Whether every request of a batch keeps the counters within `usize`.
pub open spec fn requests_fit(m: LevelModel, rs: Seq<Request>) -> bool
    decreases rs.len(),
{
    if rs.len() == 0 {
        true
    } else {
        requests_fit(m, rs.drop_last()) && request_fits(apply_requests(m, rs.drop_last()), rs.last())
    }
}

/// What an object asks for when it is placed while a level is read.
pub open spec fn init_requests(o: Object) -> Seq<Request> {
    if o == Object::Gem {
        seq![Request::AddMaxScore]
    } else {
        seq![]
    }
}

/// What an object asks for when the player breaks it: a gem scores, and wins
/// the level when it is the last one.
pub open spec fn broken_requests(o: Object, score: nat, max_score: nat) -> Seq<Request> {
    if o == Object::Gem {
        if score + 1 == max_score {
            seq![Request::AddScore, Request::UpdateState(State::Win)]
        } else {
            seq![Request::AddScore]
        }
    } else {
        seq![]
    }
}

/// The crush check: a rock right above the player's cell falls onto it,
/// unless the player has just broken something.
pub open spec fn crush_requests(g: Seq<Seq<Object>>, cur: Point, broke: bool) -> Seq<Request> {
    let above = neighbor(cur, Direction::Up);
    if !broke && is_rock(cell_at(g, above)) {
        seq![Request::UpdateState(State::Lose), Request::MoveObj(above.unwrap(), cur)]
    } else {
        seq![]
    }
}

/// Whether the player, moving in `d`, breaks the object in front of it.
pub open spec fn breaks(m: LevelModel, d: Direction) -> bool {
    is_breakable(cell_at(m.grid, neighbor(m.player, d)))
}

/// Whether the player, moving in `d`, pushes a rock one cell further.
pub open spec fn pushes(m: LevelModel, d: Direction) -> bool {
    let next = neighbor(m.player, d);
    &&& !breaks(m, d)
    &&& is_horizontal(d)
    &&& is_rock(cell_at(m.grid, next))
    &&& is_void(cell_at(m.grid, step(next, d)))
}

/// Whether the player, moving in `d`, ends up one cell further.
pub open spec fn walks(m: LevelModel, d: Direction) -> bool {
    is_void(cell_at(m.grid, neighbor(m.player, d))) || breaks(m, d) || pushes(m, d)
}

/// The requests of the player's turn.
pub open spec fn player_requests(m: LevelModel, dir: Option<Direction>) -> Seq<Request> {
    match dir {
        None => crush_requests(m.grid, m.player, false),
        Some(d) => {
            let next = neighbor(m.player, d);
            let first = if breaks(m, d) {
                broken_requests(cell_at(m.grid, next), m.score, m.max_score)
            } else if pushes(m, d) {
                seq![Request::MoveObj(next.unwrap(), step(next, d).unwrap())]
            } else {
                seq![]
            };
            if walks(m, d) {
                first.push(Request::MoveObj(m.player, next.unwrap())) + crush_requests(
                    m.grid,
                    next.unwrap(),
                    breaks(m, d),
                )
            } else {
                first + crush_requests(m.grid, m.player, false)
            }
        },
    }
}

/// The requests of the rock at `p`: it falls straight down into a void, else
/// slides down to the left, else down to the right. The rock in the player's
/// cell and the one right above it stay.
pub open spec fn rock_requests(m: LevelModel, p: Point) -> Seq<Request> {
    let below = neighbor(p, Direction::Down);
    let left = neighbor(p, Direction::Left);
    let right = neighbor(p, Direction::Right);
    if p == m.player || Some(p) == neighbor(m.player, Direction::Up) {
        seq![]
    } else if is_void(cell_at(m.grid, below)) {
        seq![Request::MoveObj(p, below.unwrap())]
    } else if is_void(cell_at(m.grid, left)) && is_void(
        cell_at(m.grid, step(left, Direction::Down)),
    ) {
        seq![Request::MoveObj(p, step(left, Direction::Down).unwrap())]
    } else if is_void(cell_at(m.grid, right)) && is_void(
        cell_at(m.grid, step(right, Direction::Down)),
    ) {
        seq![Request::MoveObj(p, step(right, Direction::Down).unwrap())]
    } else {
        seq![]
    }
}

/// The level after the cell at `p` has had its turn in the rock phase.
pub open spec fn rock_step(m: LevelModel, p: Point) -> LevelModel {
    if is_rock(cell(m.grid, p)) {
        apply_requests(m, rock_requests(m, p))
    } else {
        m
    }
}

/// The level after the first `n` cells of row `y` have had their turn.
pub open spec fn row_pass(m: LevelModel, y: nat, n: nat) -> LevelModel
    decreases n,
{
    if n == 0 {
        m
    } else {
        rock_step(row_pass(m, y, (n - 1) as nat), ((n - 1) as usize, y as usize))
    }
}

/// The level after the bottom `k` rows of `m` have had their turn, bottom row
/// first, each row left to right.
pub open spec fn rock_phase(m: LevelModel, k: nat) -> LevelModel
    decreases k,
{
    if k == 0 || k > m.grid.len() {
        m
    } else {
        let y = (m.grid.len() - k) as nat;
        row_pass(rock_phase(m, (k - 1) as nat), y, m.grid[y as int].len())
    }
}

/// The level after the player's turn.
pub open spec fn player_phase(m: LevelModel, dir: Option<Direction>) -> LevelModel {
    if is_player(cell(m.grid, m.player)) {
        apply_requests(m, player_requests(m, dir))
    } else {
        m
    }
}

/// One tick: the player's turn, then every rock's; a level that has ended
/// stays as it is.
pub open spec fn tick_model(m: LevelModel, dir: Option<Direction>) -> LevelModel {
    if m.state is Some {
        m
    } else {
        let m1 = player_phase(m, dir);
        rock_phase(m1, m1.grid.len())
    }
}

} // verus!

verus! {

/// How many cells of a row hold `o`.
pub open spec fn count_row(row: Seq<Object>, o: Object) -> nat
    decreases row.len(),
{
    if row.len() == 0 {
        0
    } else {
        count_row(row.drop_last(), o) + if row.last() == o {
            1nat
        } else {
            0nat
        }
    }
}

/// How many cells of a grid hold `o`.
pub open spec fn count_grid(g: Seq<Seq<Object>>, o: Object) -> nat
    decreases g.len(),
{
    if g.len() == 0 {
        0
    } else {
        count_grid(g.drop_last(), o) + count_row(g.last(), o)
    }
}

/// The score and the gems still on the grid add up to the most there is to score.
pub open spec fn counts_agree(m: LevelModel) -> bool {
    m.score + count_grid(m.grid, Object::Gem) == m.max_score
}

/// A level's invariant: its counters in step, and each changed cell listed once.
pub open spec fn level_wf(m: LevelModel) -> bool {
    counts_agree(m) && m.damaged.no_duplicates()
}

/// Exactly one cell holds the player, and the player position names it.
pub open spec fn one_player(m: LevelModel) -> bool {
    count_grid(m.grid, Object::Player) == 1 && cell(m.grid, m.player) == Object::Player
}

} // verus!

verus! {

/// Every character of every line stands for an object.
pub open spec fn all_known(rows: Seq<Seq<char>>) -> bool {
    forall|y: int, x: int|
        0 <= y < rows.len() && 0 <= x < rows[y].len() ==> (#[trigger] object_of_char(
            rows[y][x],
        )) is Some
}

/// `(x, y)` holds the first character, in reading order, that stands for no object.
pub open spec fn first_unknown_at(rows: Seq<Seq<char>>, y: int, x: int) -> bool {
    &&& 0 <= y < rows.len()
    &&& 0 <= x < rows[y].len()
    &&& object_of_char(rows[y][x]) is None
    &&& forall|j: int, i: int|
        (0 <= j < y && 0 <= i < rows[j].len()) || (j == y && 0 <= i < x)
            ==> (#[trigger] object_of_char(rows[j][i])) is Some
}

pub open spec fn objects_of_row(row: Seq<char>) -> Seq<Object> {
    row.map_values(|c: char| object_of_char(c).unwrap())
}

pub open spec fn grid_of(rows: Seq<Seq<char>>) -> Seq<Seq<Object>> {
    rows.map_values(|row: Seq<char>| objects_of_row(row))
}

/// The index of the last cell of a row that holds `o`.
pub open spec fn last_index(row: Seq<Object>, o: Object) -> Option<nat>
    decreases row.len(),
{
    if row.len() == 0 {
        None
    } else if row.last() == o {
        Some((row.len() - 1) as nat)
    } else {
        last_index(row.drop_last(), o)
    }
}

/// Where a freshly read level puts its player: the last player cell in reading
/// order, or the origin when there is none.
pub open spec fn player_of(g: Seq<Seq<Object>>) -> Point
    decreases g.len(),
{
    if g.len() == 0 {
        (0, 0)
    } else {
        match last_index(g.last(), Object::Player) {
            Some(x) => (x as usize, (g.len() - 1) as usize),
            None => player_of(g.drop_last()),
        }
    }
}

pub open spec fn row_points(n: nat, y: nat) -> Seq<Point> {
    Seq::new(n, |x: int| (x as usize, y as usize))
}

/// Every cell of a grid, in reading order.
pub open spec fn points_of(g: Seq<Seq<Object>>) -> Seq<Point>
    decreases g.len(),
{
    if g.len() == 0 {
        Seq::empty()
    } else {
        points_of(g.drop_last()) + row_points(g.last().len(), (g.len() - 1) as nat)
    }
}

/// The level that a grid reads as: nothing scored, every gem to be won, every
/// cell freshly drawn.
pub open spec fn fresh_level(g: Seq<Seq<Object>>) -> LevelModel {
    LevelModel {
        score: 0,
        max_score: count_grid(g, Object::Gem),
        state: None,
        player: player_of(g),
        damaged: points_of(g),
        grid: g,
    }
}

} // verus!

verus! {

/// The level after one tick for each direction of `dirs`, in order.
pub open spec fn play(m: LevelModel, dirs: Seq<Option<Direction>>) -> LevelModel
    decreases dirs.len(),
{
    if dirs.len() == 0 {
        m
    } else {
        tick_model(play(m, dirs.drop_last()), dirs.last())
    }
}

/// The level once its changed cells have been handed out.
pub open spec fn drained(m: LevelModel) -> LevelModel {
    LevelModel { damaged: Seq::empty(), ..m }
}

/// The plain glyphs of a grid, row by row.
pub open spec fn glyphs(g: Seq<Seq<Object>>) -> Seq<Seq<char>> {
    g.map_values(|row: Seq<Object>| row.map_values(|o: Object| char_of(o)))
}

} // verus!

verus! {

/// The grid's rows and their cells can be counted in `usize`, as they are
/// for any grid held in memory.
pub open spec fn grid_fits(g: Seq<Seq<Object>>) -> bool {
    g.len() <= usize::MAX && forall|y: int| 0 <= y < g.len() ==> #[trigger] g[y].len() <= usize::MAX
}

} // verus!
