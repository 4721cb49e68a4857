use vstd::prelude::*;

use crate::direction::{delta, direction_of_input, saturate, Direction};
use crate::input::Input;
use crate::level::rows_view;
use crate::level::Level;
use crate::model::{all_known, cell, first_unknown_at, grid_of, in_grid, points_of};
use crate::objects::{char_of, name_of, push_char, unknown_char_message, Object};
use crate::text::{decimal, decimal_text, lines, trim, trim_of};
use vstd::string::StringExecFns;
use crate::Point;

verus! {

/// What the caller of an editor does with a key, before the editor settles.
#[derive(Clone, Copy, Debug, PartialEq, Eq, Structural)]
pub enum EditorCommand {
    /// Save the level and leave.
    SaveAndQuit,
    /// Read the level file again.
    Reload,
    /// Save the level.
    Save,
    /// Ignore the key.
    Skip,
    /// Nothing besides the edit.
    Edit,
}

pub open spec fn editor_command_of(input: Input) -> EditorCommand {
    match input {
        Input::Quit | Input::Q => EditorCommand::SaveAndQuit,
        Input::R => EditorCommand::Reload,
        Input::Esc => EditorCommand::Save,
        Input::Unknown => EditorCommand::Skip,
        _ => EditorCommand::Edit,
    }
}

/// The part of a key that reaches outside the editor.
pub fn command_of(input: Input) -> (r: EditorCommand)
    ensures
        r == editor_command_of(input),
{
    match input {
        Input::Quit | Input::Q => EditorCommand::SaveAndQuit,
        Input::R => EditorCommand::Reload,
        Input::Esc => EditorCommand::Save,
        Input::Unknown => EditorCommand::Skip,
        _ => EditorCommand::Edit,
    }
}

/// A level being drawn by hand: a grid, a cursor, a pen and the object it draws.
pub struct Editor {
    file_name: String,
    cursor: Point,
    pen_down: bool,
    current_object: usize,
    damaged: Vec<Point>,
    matrix: Vec<Vec<Object>>,
}

/// An editor, as a mathematical value.
pub ghost struct EditorModel {
    pub file_name: Seq<char>,
    pub cursor: Point,
    pub pen_down: bool,
    /// Index of the object the pen draws, into `palette()`.
    pub current_object: nat,
    pub damaged: Seq<Point>,
    pub grid: Seq<Seq<Object>>,
}

/// The objects the pen can draw, in the order the editor cycles through them.
pub open spec fn palette() -> Seq<Object> {
    seq![Object::Gem, Object::Wall, Object::Dirt, Object::Rock, Object::Void, Object::Player]
}

/// What an editor does on its own with a key: it toggles the pen, picks the
/// previous or next object, or moves the cursor; then it settles.
pub open spec fn edit_model(m: EditorModel, input: Input) -> EditorModel {
    let n = palette().len();
    let m1 = match input {
        Input::Space => EditorModel { pen_down: !m.pen_down, ..m },
        Input::Comma => EditorModel {
            current_object: if m.current_object == 0 {
                (n - 1) as nat
            } else {
                (m.current_object - 1) as nat
            },
            ..m
        },
        Input::Period => EditorModel {
            current_object: if m.current_object + 1 >= n {
                0
            } else {
                m.current_object + 1
            },
            ..m
        },
        _ => m,
    };
    let m2 = match direction_of_input(input) {
        Some(d) => EditorModel {
            damaged: m1.damaged.push(m1.cursor),
            cursor: (
                saturate(m1.cursor.0 + delta(d).0),
                saturate(m1.cursor.1 + delta(d).1),
            ),
            ..m1
        },
        None => m1,
    };
    settle_model(m2)
}

pub open spec fn empty_rows(k: nat) -> Seq<Seq<Object>> {
    Seq::new(k, |i: int| Seq::<Object>::empty())
}

pub open spec fn voids(k: nat) -> Seq<Object> {
    Seq::new(k, |i: int| Object::Void)
}

/// The cells `(n0, y)`, `(n0 + 1, y)`, ... up to `(x, y)`.
pub open spec fn new_cells(n0: nat, x: nat, y: nat) -> Seq<Point> {
    Seq::new(
        if x + 1 > n0 {
            (x + 1 - n0) as nat
        } else {
            0
        },
        |i: int| ((n0 + i) as usize, y as usize),
    )
}

/// The grid grown, with empty rows and then voids, until the cursor is on a
/// cell; the pen, when down, then draws its object there.
pub open spec fn settle_model(m: EditorModel) -> EditorModel {
    let x = m.cursor.0 as nat;
    let y = m.cursor.1 as nat;
    let g1 = if m.grid.len() > y {
        m.grid
    } else {
        m.grid + empty_rows((y + 1 - m.grid.len()) as nat)
    };
    let row = g1[y as int];
    let grown = if row.len() > x {
        row
    } else {
        row + voids((x + 1 - row.len()) as nat)
    };
    let g2 = g1.update(y as int, grown);
    let d = m.damaged + new_cells(row.len(), x, y);
    if m.pen_down {
        EditorModel {
            grid: g2.update(y as int, grown.update(x as int, palette()[m.current_object as int])),
            damaged: d.push(m.cursor),
            ..m
        }
    } else {
        EditorModel { grid: g2, damaged: d, ..m }
    }
}

impl View for Editor {
    type V = EditorModel;

    closed spec fn view(&self) -> EditorModel {
        EditorModel {
            file_name: self.file_name@,
            cursor: self.cursor,
            pen_down: self.pen_down,
            current_object: self.current_object as nat,
            damaged: self.damaged@,
            grid: rows_view(self.matrix@),
        }
    }
}

impl Editor {
    /// The pen's object is one of the palette's.
    pub open spec fn wf(&self) -> bool {
        self@.current_object < palette().len()
    }

    pub fn get_cursor(&self) -> (r: &Point)
        ensures
            *r == self@.cursor,
    {
        &self.cursor
    }

    /// Hands out the cells changed since the last call, and forgets them.
    pub fn get_damaged(&mut self) -> (r: Vec<Point>)
        ensures
            r@ == old(self)@.damaged,
            final(self)@ == (EditorModel { damaged: Seq::empty(), ..old(self)@ }),
    {
        let mut r: Vec<Point> = Vec::new();
        std::mem::swap(&mut r, &mut self.damaged);
        r
    }

    pub fn get_object(&self, point: Point) -> (r: &Object)
        requires
            in_grid(self@.grid, point),
        ensures
            *r == cell(self@.grid, point),
    {
        &self.matrix[point.1][point.0]
    }

    pub fn get_objects(&self) -> (r: &Vec<Vec<Object>>)
        ensures
            rows_view(r@) == self@.grid,
    {
        &self.matrix
    }

    pub fn get_pen_down(&self) -> (r: bool)
        ensures
            r == self@.pen_down,
    {
        self.pen_down
    }

    pub fn get_current_object(&self) -> (r: usize)
        ensures
            r as nat == self@.current_object,
    {
        self.current_object
    }

    pub fn get_file_name(&self) -> (r: &String)
        ensures
            r@ == self@.file_name,
    {
        &self.file_name
    }

    /// Reacts to a key: see `edit_model`. Saving, reloading and quitting are
    /// left to the caller.
    pub fn edit(&mut self, input: Input)
        requires
            old(self).wf(),
        ensures
            final(self)@ == edit_model(old(self)@, input),
            final(self).wf(),
    {
        match input {
            Input::Space => self.pen_down = !self.pen_down,
            Input::Comma => {
                if self.current_object == 0 {
                    self.current_object = 6;
                }
                self.current_object = self.current_object - 1;
            },
            Input::Period => {
                self.current_object = self.current_object + 1;
                if self.current_object >= 6 {
                    self.current_object = 0;
                }
            },
            _ => {},
        }
        if let Some(dir) = Direction::from_input(&input) {
            self.damaged.push(self.cursor);
            self.cursor = dir.apply_to(&self.cursor);
        }
        self.settle();
    }

    fn settle(&mut self)
        requires
            old(self).wf(),
        ensures
            final(self)@ == settle_model(old(self)@),
            final(self).wf(),
    {
        let ghost m = self@;
        let (x, y) = self.cursor;
        let ghost start = self.matrix@.len();
        while self.matrix.len() <= y
            invariant
                self@ == (EditorModel {
                    grid: m.grid + empty_rows((self.matrix@.len() - start) as nat),
                    ..m
                }),
                m.cursor == (x, y),
                start == m.grid.len(),
                start <= self.matrix@.len(),
                self.matrix@.len() <= y + 1 || self.matrix@.len() == start,
                self.wf(),
            decreases y + 1 - self.matrix@.len(),
        {
            let ghost before = rows_view(self.matrix@);
            self.matrix.push(Vec::new());
            proof {
                assert(rows_view(self.matrix@) =~= before.push(Seq::empty()));
                assert(rows_view(self.matrix@) =~= m.grid + empty_rows(
                    (self.matrix@.len() - start) as nat,
                ));
            }
        }
        let ghost g1 = self@.grid;
        proof {
            if m.grid.len() > y {
                assert(g1 =~= m.grid);
            } else {
                assert(self.matrix@.len() == y + 1);
            }
        }
        let mut row: Vec<Object> = Vec::new();
        std::mem::swap(&mut row, &mut self.matrix[y]);
        let ghost mat1 = self.matrix@;
        let n0 = row.len();
        let ghost d0 = self.damaged@;
        while row.len() <= x
            invariant
                y < g1.len(),
                n0 == g1[y as int].len(),
                n0 <= row@.len(),
                row@.len() <= x + 1 || row@.len() == n0,
                row@ == g1[y as int] + voids((row@.len() - n0) as nat),
                self.damaged@ == d0 + Seq::new(
                    (row@.len() - n0) as nat,
                    |i: int| ((n0 + i) as usize, y),
                ),
                self.matrix@ == mat1,
                self.cursor == (x, y),
                self.pen_down == m.pen_down,
                self.current_object == m.current_object,
                self.file_name@ == m.file_name,
                self.wf(),
            decreases x + 1 - row@.len(),
        {
            row.push(Object::Void);
            self.damaged.push((row.len() - 1, y));
            proof {
                assert(row@ =~= g1[y as int] + voids((row@.len() - n0) as nat));
                assert(self.damaged@ =~= d0 + Seq::new(
                    (row@.len() - n0) as nat,
                    |i: int| ((n0 + i) as usize, y),
                ));
            }
        }
        proof {
            assert(self.damaged@ =~= d0 + new_cells(n0 as nat, x as nat, y as nat));
            if g1[y as int].len() > x {
                assert(row@ =~= g1[y as int]);
            }
        }
        if self.pen_down {
            let palette = Object::all_objects();
            row.set(x, palette[self.current_object]);
            self.damaged.push((x, y));
        }
        std::mem::swap(&mut row, &mut self.matrix[y]);
        proof {
            assert(rows_view(self.matrix@) =~= settle_model(m).grid);
        }
    }
}


/// The grid and the changed cells of an editor that has read `rows`: an empty
/// text gives one void cell.
pub open spec fn loaded_grid(rows: Seq<Seq<char>>) -> Seq<Seq<Object>> {
    if rows.len() == 0 {
        seq![seq![Object::Void]]
    } else {
        grid_of(rows)
    }
}

pub open spec fn loaded_cells(rows: Seq<Seq<char>>) -> Seq<Point> {
    if rows.len() == 0 {
        seq![(0usize, 0usize)]
    } else {
        points_of(grid_of(rows))
    }
}

/// The glyphs of a row, as a line of text.
pub open spec fn glyph_line(row: Seq<Object>) -> Seq<char> {
    row.map_values(|o: Object| char_of(o))
}

/// Each row's glyphs, trimmed, each followed by a newline.
pub open spec fn saved_lines(g: Seq<Seq<Object>>) -> Seq<char>
    decreases g.len(),
{
    if g.len() == 0 {
        Seq::empty()
    } else {
        saved_lines(g.drop_last()) + trim_of(glyph_line(g.last())) + seq!['\n']
    }
}

/// The palette's name at `i`, in brackets where it is the pen's object.
pub open spec fn palette_entry(i: int, current: nat) -> Seq<char> {
    if i == current {
        "["@ + name_of(palette()[i]) + "]"@
    } else {
        name_of(palette()[i])
    }
}

/// The first `k` entries of the palette, separated by spaces.
pub open spec fn palette_line(k: nat, current: nat) -> Seq<char>
    decreases k,
{
    if k == 0 {
        Seq::empty()
    } else if k == 1 {
        palette_entry(0, current)
    } else {
        palette_line((k - 1) as nat, current) + " "@ + palette_entry(k - 1, current)
    }
}

/// The status lines of an editor: the pen, the cursor and the palette.
pub open spec fn editor_status(m: EditorModel) -> Seq<char> {
    "Pen "@ + (if m.pen_down {
        "down"@
    } else {
        "up"@
    }) + "\nCursor pos: ("@ + decimal_text(m.cursor.0 as nat) + ", "@ + decimal_text(
        m.cursor.1 as nat,
    ) + ")\n"@ + palette_line(6, m.current_object)
}

impl Editor {
    pub fn get_status(&self) -> (r: String)
        ensures
            r@ == editor_status(self@),
    {
        let mut r = String::from_str("Pen ");
        r.append(if self.pen_down {
            "down"
        } else {
            "up"
        });
        r.append("\nCursor pos: (");
        r.append(decimal(self.cursor.0 as u64).as_str());
        r.append(", ");
        r.append(decimal(self.cursor.1 as u64).as_str());
        r.append(")\n");
        let objects = Object::all_objects();
        let mut i: usize = 0;
        while i < objects.len()
            invariant
                objects@ == palette(),
                i <= 6,
                r@ == "Pen "@ + (if self.pen_down {
                    "down"@
                } else {
                    "up"@
                }) + "\nCursor pos: ("@ + decimal_text(self.cursor.0 as nat) + ", "@
                    + decimal_text(self.cursor.1 as nat) + ")\n"@ + palette_line(
                    i as nat,
                    self.current_object as nat,
                ),
            decreases 6 - i,
        {
            if i > 0 {
                r.append(" ");
            }
            if i == self.current_object {
                r.append("[");
            }
            r.append(objects[i].name().as_str());
            if i == self.current_object {
                r.append("]");
            }
            i = i + 1;
        }
        r
    }

    /// An editor for `file_name` on the level text `contents`.
    pub fn new(file_name: &str, contents: &str) -> (r: Result<Editor, String>)
        ensures
            r is Ok <==> all_known(lines(trim_of(contents@))),
            r matches Ok(e) ==> e.wf() && e@ == (EditorModel {
                file_name: file_name@,
                cursor: (0, 0),
                pen_down: false,
                current_object: 0,
                damaged: loaded_cells(lines(trim_of(contents@))),
                grid: loaded_grid(lines(trim_of(contents@))),
            }),
            r matches Err(e) ==> exists|y: int, x: int|
                first_unknown_at(lines(trim_of(contents@)), y, x) && e@ == unknown_char_message(
                    lines(trim_of(contents@))[y][x],
                ),
    {
        let mut editor = Editor {
            file_name: String::from_str(file_name),
            cursor: (0, 0),
            pen_down: false,
            current_object: 0,
            damaged: Vec::new(),
            matrix: Vec::new(),
        };
        match editor.reload(contents) {
            Ok(()) => {
                assert(editor.damaged@ =~= loaded_cells(lines(trim_of(contents@))));
                Ok(editor)
            },
            Err(e) => Err(e),
        }
    }

    /// Reads the level text `contents` again, keeping the cursor and the pen.
    /// On an error nothing changes.
    pub fn reload(&mut self, contents: &str) -> (r: Result<(), String>)
        ensures
            r is Ok <==> all_known(lines(trim_of(contents@))),
            r is Ok ==> final(self)@ == (EditorModel {
                damaged: old(self)@.damaged + loaded_cells(lines(trim_of(contents@))),
                grid: loaded_grid(lines(trim_of(contents@))),
                ..old(self)@
            }),
            r matches Err(e) ==> *final(self) == *old(self) && exists|y: int, x: int|
                first_unknown_at(lines(trim_of(contents@)), y, x) && e@ == unknown_char_message(
                    lines(trim_of(contents@))[y][x],
                ),
    {
        let trimmed = trim(contents);
        self.reload_trimmed(trimmed)
    }

    /// Reads the level text `trimmed`, already trimmed, in place of the grid.
    pub fn reload_trimmed(&mut self, trimmed: &str) -> (r: Result<(), String>)
        ensures
            r is Ok <==> all_known(lines(trimmed@)),
            r is Ok ==> final(self)@ == (EditorModel {
                damaged: old(self)@.damaged + loaded_cells(lines(trimmed@)),
                grid: loaded_grid(lines(trimmed@)),
                ..old(self)@
            }),
            r matches Err(e) ==> *final(self) == *old(self) && exists|y: int, x: int|
                first_unknown_at(lines(trimmed@), y, x) && e@ == unknown_char_message(
                    lines(trimmed@)[y][x],
                ),
    {
        let mut level = match Level::parse(trimmed) {
            Ok(level) => level,
            Err(e) => return Err(e),
        };
        let mut cells = level.get_damaged();
        let mut matrix = level.into_objects();
        proof {
            assert(rows_view(matrix@).len() == matrix@.len());
            assert(grid_of(lines(trimmed@)).len() == lines(trimmed@).len());
        }
        if matrix.len() == 0 {
            let cell_row = vec![Object::Void];
            assert(cell_row@ =~= seq![Object::Void]);
            matrix.push(cell_row);
            cells.push((0, 0));
            proof {
                assert(rows_view(matrix@) =~= loaded_grid(lines(trimmed@)));
                assert(cells@ =~= loaded_cells(lines(trimmed@)));
            }
        } else {
            proof {
                assert(lines(trimmed@).len() > 0);
            }
        }
        self.matrix = matrix;
        self.damaged.append(&mut cells);
        Ok(())
    }

    /// The text that saves the grid: each row's glyphs trimmed, one row per
    /// line, and the whole trimmed.
    pub fn to_text(&self) -> (r: String)
        ensures
            r@ == trim_of(saved_lines(self@.grid)),
    {
        let mut contents = String::new();
        let mut y: usize = 0;
        while y < self.matrix.len()
            invariant
                y <= self.matrix@.len(),
                contents@ == saved_lines(self@.grid.take(y as int)),
            decreases self.matrix@.len() - y,
        {
            let row = &self.matrix[y];
            let mut line = String::new();
            let mut x: usize = 0;
            while x < row.len()
                invariant
                    x <= row@.len(),
                    line@ == glyph_line(row@.take(x as int)),
                decreases row@.len() - x,
            {
                push_char(&mut line, row[x].char());
                proof {
                    assert(line@ =~= glyph_line(row@.take(x + 1)));
                }
                x = x + 1;
            }
            proof {
                assert(row@.take(x as int) =~= row@);
                assert(self@.grid.take(y + 1).drop_last() =~= self@.grid.take(y as int));
                assert(self@.grid[y as int] == row@);
            }
            contents.append(trim(line.as_str()));
            push_char(&mut contents, '\n');
            y = y + 1;
        }
        proof {
            assert(self@.grid.take(y as int) =~= self@.grid);
        }
        String::from_str(trim(contents.as_str()))
    }
}

} // verus!
