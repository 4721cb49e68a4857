use vstd::prelude::*;
use vstd::string::StringExecFns;

verus! {

/// The kinds of cell that a level grid is made of.
#[derive(Clone, Copy, Debug, PartialEq, Eq, Structural)]
pub enum Object {
    Gem,
    Wall,
    Dirt,
    Rock,
    Void,
    Player,
}

/// The object that a level character stands for, if it stands for one.
pub open spec fn object_of_char(c: char) -> Option<Object> {
    if c == 'g' {
        Some(Object::Gem)
    } else if c == '#' {
        Some(Object::Wall)
    } else if c == 'd' {
        Some(Object::Dirt)
    } else if c == 'r' {
        Some(Object::Rock)
    } else if c == ' ' {
        Some(Object::Void)
    } else if c == 'p' {
        Some(Object::Player)
    } else {
        None
    }
}

/// The plain glyph of an object, as it is written in level text.
pub open spec fn char_of(o: Object) -> char {
    match o {
        Object::Gem => 'g',
        Object::Wall => '#',
        Object::Dirt => 'd',
        Object::Rock => 'r',
        Object::Void => ' ',
        Object::Player => 'p',
    }
}

/// The decorative glyph of an object.
pub open spec fn emoji_of(o: Object) -> char {
    match o {
        Object::Gem => '\u{1F48E}',
        Object::Wall => '\u{1F9F1}',
        Object::Dirt => '\u{1F7E8}',
        Object::Rock => '\u{1FAA8}',
        Object::Void => '\u{3000}',
        Object::Player => '\u{1F980}',
    }
}

/// The lower-case name of an object's kind.
pub open spec fn name_of(o: Object) -> Seq<char> {
    match o {
        Object::Gem => "gem"@,
        Object::Wall => "wall"@,
        Object::Dirt => "dirt"@,
        Object::Rock => "rock"@,
        Object::Void => "void"@,
        Object::Player => "player"@,
    }
}

/// Passable to movement and to falling.
pub open spec fn is_void(o: Object) -> bool {
    o == Object::Void
}

/// Subject to gravity and to pushing.
pub open spec fn is_rock(o: Object) -> bool {
    o == Object::Rock
}

pub open spec fn is_player(o: Object) -> bool {
    o == Object::Player
}

/// Destroyed when the player walks into it.
pub open spec fn is_breakable(o: Object) -> bool {
    o == Object::Dirt || o == Object::Gem
}

/// The message of a level that holds a character no object stands for.
pub open spec fn unknown_char_message(c: char) -> Seq<char> {
    "Can't parse char `"@ + seq![c] + "`"@
}

/// Reading a glyph back gives the object it came from, and a recognised
/// character is the glyph of the object it reads as.
pub proof fn lemma_char_round_trip(o: Object, c: char)
    ensures
        object_of_char(char_of(o)) == Some(o),
        object_of_char(c) matches Some(p) ==> char_of(p) == c,
{
}

/// Relies on String::push: the character is appended at the end.
#[verifier::external_body]
pub(crate) fn push_char(s: &mut String, c: char)
    ensures
        final(s)@ == old(s)@.push(c),
{
    s.push(c)
}

impl Object {
    pub fn char(&self) -> (r: char)
        ensures
            r == char_of(*self),
    {
        match self {
            Object::Gem => 'g',
            Object::Wall => '#',
            Object::Dirt => 'd',
            Object::Rock => 'r',
            Object::Void => ' ',
            Object::Player => 'p',
        }
    }

    pub fn emoji(&self) -> (r: char)
        ensures
            r == emoji_of(*self),
    {
        match self {
            Object::Gem => '\u{1F48E}',
            Object::Wall => '\u{1F9F1}',
            Object::Dirt => '\u{1F7E8}',
            Object::Rock => '\u{1FAA8}',
            Object::Void => '\u{3000}',
            Object::Player => '\u{1F980}',
        }
    }

    pub fn name(&self) -> (r: String)
        ensures
            r@ == name_of(*self),
    {
        match self {
            Object::Gem => String::from_str("gem"),
            Object::Wall => String::from_str("wall"),
            Object::Dirt => String::from_str("dirt"),
            Object::Rock => String::from_str("rock"),
            Object::Void => String::from_str("void"),
            Object::Player => String::from_str("player"),
        }
    }

    pub fn placeholder(&self) -> (r: bool)
        ensures
            r == is_void(*self),
    {
        matches!(self, Object::Void)
    }

    pub fn can_be_moved(&self) -> (r: bool)
        ensures
            r == is_rock(*self),
    {
        matches!(self, Object::Rock)
    }

    pub fn player(&self) -> (r: bool)
        ensures
            r == is_player(*self),
    {
        matches!(self, Object::Player)
    }

    pub fn can_be_broken(&self) -> (r: bool)
        ensures
            r == is_breakable(*self),
    {
        matches!(self, Object::Dirt | Object::Gem)
    }

    /// The object that a level character stands for, if any.
    pub fn new(chr: char) -> (r: Option<Object>)
        ensures
            r == object_of_char(chr),
    {
        if chr == 'g' {
            Some(Object::Gem)
        } else if chr == '#' {
            Some(Object::Wall)
        } else if chr == 'd' {
            Some(Object::Dirt)
        } else if chr == 'r' {
            Some(Object::Rock)
        } else if chr == ' ' {
            Some(Object::Void)
        } else if chr == 'p' {
            Some(Object::Player)
        } else {
            None
        }
    }

    pub fn get_void() -> (r: Object)
        ensures
            r == Object::Void,
    {
        Object::Void
    }

    /// Every kind of object, in the order an editor offers them.
    pub fn all_objects() -> (r: Vec<Object>)
        ensures
            r@ == seq![
                Object::Gem,
                Object::Wall,
                Object::Dirt,
                Object::Rock,
                Object::Void,
                Object::Player,
            ],
    {
        vec![Object::Gem, Object::Wall, Object::Dirt, Object::Rock, Object::Void, Object::Player]
    }
}

/// The object left behind in a cell that another object moved out of.
pub fn get_placeholder() -> (r: Object)
    ensures
        r == Object::Void,
{
    Object::Void
}

/// Reads one level character.
pub fn parse(chr: char) -> (r: Result<Object, String>)
    ensures
        r matches Ok(o) ==> object_of_char(chr) == Some(o),
        r matches Err(e) ==> object_of_char(chr) is None && e@ == unknown_char_message(chr),
        r is Ok <==> object_of_char(chr) is Some,
{
    match Object::new(chr) {
        Some(o) => Ok(o),
        None => Err(unknown_char_error(chr)),
    }
}

fn unknown_char_error(chr: char) -> (r: String)
    ensures
        r@ == unknown_char_message(chr),
{
    let mut s = String::from_str("Can't parse char `");
    push_char(&mut s, chr);
    s.append("`");
    s
}

} // verus!
