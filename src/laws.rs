use vstd::prelude::*;

use crate::direction::Direction;
use crate::lemmas::{
    lemma_player_phase, lemma_points_distinct, lemma_rock_phase_frame, lemma_tick_distinct,
};
use crate::model::{
    all_known, cell, count_grid, count_row, counts_agree, drained, fresh_level, glyphs, grid_of,
    grid_fits, last_index, one_player, play, player_of, tick_model, LevelModel,
};
use crate::objects::{char_of, lemma_char_round_trip, object_of_char, Object};
use crate::request::State;
use crate::text::lines;

verus! {

/// One tick keeps the score and the gems left adding up to the most there is
/// to score, and keeps exactly one player on the grid, at the player position,
/// unless a rock crushes it, which loses the level and leaves no player.
pub proof fn lemma_tick_keeps_invariants(m: LevelModel, dir: Option<Direction>)
    requires
        counts_agree(m),
        m.state != Some(State::Lose) ==> one_player(m),
    ensures
        counts_agree(tick_model(m, dir)),
        tick_model(m, dir).score <= tick_model(m, dir).max_score,
        tick_model(m, dir).state != Some(State::Lose) ==> one_player(tick_model(m, dir)),
        m.state is None && tick_model(m, dir).state == Some(State::Lose) ==> count_grid(
            tick_model(m, dir).grid,
            Object::Player,
        ) == 0,
{
    if m.state is None {
        let m1 = crate::model::player_phase(m, dir);
        lemma_player_phase(m, dir);
        lemma_rock_phase_frame(m1, m1.grid.len());
    }
}

proof fn lemma_last_index(row: Seq<Object>, o: Object)
    ensures
        last_index(row, o) matches Some(x) ==> x < row.len() && row[x as int] == o,
        last_index(row, o) is None ==> count_row(row, o) == 0,
    decreases row.len(),
{
    if row.len() > 0 {
        lemma_last_index(row.drop_last(), o);
    }
}

proof fn lemma_player_of(g: Seq<Seq<Object>>)
    requires
        count_grid(g, Object::Player) >= 1,
        grid_fits(g),
    ensures
        cell(g, player_of(g)) == Object::Player,
    decreases g.len(),
{
    assert(g.len() > 0);
    let last = g.last();
    lemma_last_index(last, Object::Player);
    if let Some(x) = last_index(last, Object::Player) {
        assert(g[g.len() - 1] == last);
        assert(player_of(g) == (x as usize, (g.len() - 1) as usize));
    } else {
        lemma_player_of(g.drop_last());
        assert(grid_fits(g.drop_last()));
        let p = player_of(g.drop_last());
        assert(g.drop_last()[p.1 as int] == g[p.1 as int]);
    }
}

/// A level read from text starts with its counters in step, and with its player
/// position on the player when the text holds exactly one.
pub proof fn lemma_fresh_level_invariants(g: Seq<Seq<Object>>)
    requires
        grid_fits(g),
    ensures
        counts_agree(fresh_level(g)),
        count_grid(g, Object::Player) == 1 ==> one_player(fresh_level(g)),
{
    if count_grid(g, Object::Player) == 1 {
        lemma_player_of(g);
    }
}

/// In every state that play reaches from a freshly read grid, the score is at
/// most the most there is to score; and when the grid holds exactly one player,
/// exactly one cell holds the player, at the player position, for as long as
/// the level is not lost.
pub proof fn lemma_reachable_states(g: Seq<Seq<Object>>, dirs: Seq<Option<Direction>>)
    requires
        grid_fits(g),
    ensures
        play(fresh_level(g), dirs).score <= play(fresh_level(g), dirs).max_score,
        count_grid(g, Object::Player) == 1 && play(fresh_level(g), dirs).state != Some(
            State::Lose,
        ) ==> one_player(play(fresh_level(g), dirs)),
{
    lemma_play_invariants(fresh_level(g), dirs);
    lemma_fresh_level_invariants(g);
}

proof fn lemma_play_invariants(m: LevelModel, dirs: Seq<Option<Direction>>)
    requires
        counts_agree(m),
    ensures
        counts_agree(play(m, dirs)),
        (m.state != Some(State::Lose) ==> one_player(m)) ==> (play(m, dirs).state != Some(
            State::Lose,
        ) ==> one_player(play(m, dirs))),
    decreases dirs.len(),
{
    if dirs.len() > 0 {
        let prev = play(m, dirs.drop_last());
        lemma_play_invariants(m, dirs.drop_last());
        if prev.state != Some(State::Lose) ==> one_player(prev) {
            lemma_tick_keeps_invariants(prev, dirs.last());
        } else {
            lemma_counts_only(prev, dirs.last());
        }
    }
}

proof fn lemma_counts_only(m: LevelModel, dir: Option<Direction>)
    requires
        counts_agree(m),
    ensures
        counts_agree(tick_model(m, dir)),
{
    if m.state is None {
        let m1 = crate::model::player_phase(m, dir);
        lemma_player_phase(m, dir);
        lemma_rock_phase_frame(m1, m1.grid.len());
    }
}

/// A level that has been won or lost no longer changes, whatever the input.
pub proof fn lemma_ended_level_stays(m: LevelModel, dirs: Seq<Option<Direction>>)
    requires
        m.state is Some,
    ensures
        play(m, dirs) == m,
    decreases dirs.len(),
{
    if dirs.len() > 0 {
        lemma_ended_level_stays(m, dirs.drop_last());
    }
}

/// Draining the changed cells hands them all out once; a second drain right
/// after hands out nothing and changes nothing.
pub proof fn lemma_drain_twice(m: LevelModel)
    ensures
        drained(m).damaged == Seq::<crate::Point>::empty(),
        drained(drained(m)) == drained(m),
{
}

/// In every state that play reaches from a freshly read grid, with drains at
/// any points in between, each changed cell is listed once.
pub proof fn lemma_changed_cells_distinct(m: LevelModel, dirs: Seq<Option<Direction>>)
    requires
        m.damaged.no_duplicates(),
    ensures
        play(m, dirs).damaged.no_duplicates(),
        play(drained(m), dirs).damaged.no_duplicates(),
    decreases dirs.len(),
{
    if dirs.len() > 0 {
        lemma_changed_cells_distinct(m, dirs.drop_last());
        lemma_tick_distinct(play(m, dirs.drop_last()), dirs.last());
        lemma_tick_distinct(play(drained(m), dirs.drop_last()), dirs.last());
    }
}

/// A freshly read grid lists each of its cells once among the changed cells.
pub proof fn lemma_fresh_cells_distinct(g: Seq<Seq<Object>>)
    requires
        grid_fits(g),
    ensures
        fresh_level(g).damaged.no_duplicates(),
{
    lemma_points_distinct(g);
}

/// A text made of recognised characters reads as a grid whose glyphs give the
/// text's lines back.
pub proof fn lemma_parse_round_trip(s: Seq<char>)
    requires
        all_known(lines(s)),
    ensures
        glyphs(grid_of(lines(s))) == lines(s),
{
    let ls = lines(s);
    let g = grid_of(ls);
    assert forall|y: int| 0 <= y < ls.len() implies #[trigger] glyphs(g)[y] == ls[y] by {
        assert forall|x: int| 0 <= x < ls[y].len() implies glyphs(g)[y][x] == ls[y][x] by {
            assert(object_of_char(ls[y][x]) is Some);
            lemma_char_round_trip(Object::Gem, ls[y][x]);
        }
        assert(glyphs(g)[y] =~= ls[y]);
    }
    assert(glyphs(g) =~= ls);
}

} // verus!
