use vstd::prelude::*;

use crate::direction::Direction;
use crate::level::Level;
use crate::model::{
    broken_requests, cell_at, crush_requests, init_requests, player_requests, rock_requests,
    LevelModel,
};
use crate::objects::Object;
use crate::request::{Request, State};
use crate::Point;

verus! {

/// What an object asks for on its turn of a tick: the player and the rocks act,
/// everything else stays put.
pub open spec fn tick_requests(
    o: Object,
    m: LevelModel,
    at: Point,
    dir: Option<Direction>,
) -> Seq<Request> {
    match o {
        Object::Player => player_requests(m, dir),
        Object::Rock => rock_requests(m, at),
        _ => seq![],
    }
}

impl Level {
    /// The object at a point that may not exist; a missing point reads as wall.
    fn object_at_opt(&self, p: Option<Point>) -> (r: Object)
        ensures
            r == cell_at(self@.grid, p),
    {
        match p {
            Some(q) => self.object_at(q),
            None => Object::Wall,
        }
    }
}

fn step_from(p: Option<Point>, d: Direction) -> (r: Option<Point>)
    ensures
        r == crate::model::step(p, d),
{
    match p {
        Some(q) => d.next_from(q),
        None => None,
    }
}

fn crush(level: &Level, cur: Point, broke: bool) -> (r: Vec<Request>)
    ensures
        r@ == crush_requests(level@.grid, cur, broke),
{
    let above = Direction::Up.next_from(cur);
    if !broke && level.object_at_opt(above).can_be_moved() {
        vec![Request::UpdateState(State::Lose), Request::MoveObj(above.unwrap(), cur)]
    } else {
        vec![]
    }
}

fn player_tick(level: &Level, direction: Option<Direction>) -> (r: Vec<Request>)
    ensures
        r@ == player_requests(level@, direction),
{
    let p = *level.get_player_pos();
    match direction {
        None => crush(level, p, false),
        Some(d) => {
            let next = d.next_from(p);
            let obj = level.object_at_opt(next);
            let broke = obj.can_be_broken();
            let beyond = step_from(next, d);
            let push = !broke && (d == Direction::Left || d == Direction::Right)
                && obj.can_be_moved() && level.object_at_opt(beyond).placeholder();
            let mut requests = if broke {
                obj.on_broken(level)
            } else if push {
                vec![Request::MoveObj(next.unwrap(), beyond.unwrap())]
            } else {
                vec![]
            };
            if obj.placeholder() || broke || push {
                let to = next.unwrap();
                requests.push(Request::MoveObj(p, to));
                let mut rest = crush(level, to, broke);
                requests.append(&mut rest);
            } else {
                let mut rest = crush(level, p, false);
                requests.append(&mut rest);
            }
            requests
        },
    }
}

fn rock_tick(level: &Level, at: Point) -> (r: Vec<Request>)
    ensures
        r@ == rock_requests(level@, at),
{
    let player = *level.get_player_pos();
    let at_player = at.0 == player.0 && at.1 == player.1;
    let above_player = match Direction::Up.next_from(player) {
        Some(q) => at.0 == q.0 && at.1 == q.1,
        None => false,
    };
    if at_player || above_player {
        return vec![];
    }
    let below = Direction::Down.next_from(at);
    if level.object_at_opt(below).placeholder() {
        return vec![Request::MoveObj(at, below.unwrap())];
    }
    let left = Direction::Left.next_from(at);
    let left_down = step_from(left, Direction::Down);
    if level.object_at_opt(left).placeholder() && level.object_at_opt(left_down).placeholder() {
        return vec![Request::MoveObj(at, left_down.unwrap())];
    }
    let right = Direction::Right.next_from(at);
    let right_down = step_from(right, Direction::Down);
    if level.object_at_opt(right).placeholder() && level.object_at_opt(right_down).placeholder() {
        return vec![Request::MoveObj(at, right_down.unwrap())];
    }
    vec![]
}

impl Object {
    /// What the object asks for when it is placed while a level is read.
    pub fn init(&self) -> (r: Vec<Request>)
        ensures
            r@ == init_requests(*self),
    {
        match self {
            Object::Gem => vec![Request::AddMaxScore],
            _ => vec![],
        }
    }

    /// What the object asks for when the player breaks it, judged by the
    /// counters as they stand before any of it is applied.
    pub fn on_broken(&self, level: &Level) -> (r: Vec<Request>)
        ensures
            r@ == broken_requests(*self, level@.score, level@.max_score),
    {
        match self {
            Object::Gem => {
                let score = *level.get_score();
                let max_score = *level.get_max_score();
                if max_score > 0 && score == max_score - 1 {
                    vec![Request::AddScore, Request::UpdateState(State::Win)]
                } else {
                    vec![Request::AddScore]
                }
            },
            _ => vec![],
        }
    }

    /// What the object at `at` asks for on its turn of a tick.
    pub fn tick(&self, level: &Level, at: Point, direction: Option<Direction>) -> (r: Vec<
        Request,
    >)
        ensures
            r@ == tick_requests(*self, level@, at, direction),
    {
        match self {
            Object::Player => player_tick(level, direction),
            Object::Rock => rock_tick(level, at),
            _ => vec![],
        }
    }
}

} // verus!
