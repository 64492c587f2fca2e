use vstd::prelude::*;

verus! {

/// The background color that the settings choose.
#[derive(Debug, Clone, Copy, PartialEq, Eq)]
pub enum Background<'a> {
    /// The user's favorite color.
    Favorite(&'a str),
    /// Green, for Tuesdays.
    Green,
    /// Purple, for ages over 30.
    Purple,
    /// Orange, for ages up to 30.
    Orange,
    /// Blue, when nothing else decides.
    Blue,
}

/// The background: the favorite color if there is one, else green on a
/// Tuesday, else by a known age purple above 30 and orange up to 30, else blue.
pub fn background_color<'a>(favorite_color: Option<&'a str>, is_tuesday: bool, age: Option<u8>) -> (r: Background<'a>)
    ensures
        r == (match favorite_color {
            Some(color) => Background::Favorite(color),
            None => if is_tuesday {
                Background::Green
            } else {
                match age {
                    Some(a) => if a > 30 { Background::Purple } else { Background::Orange },
                    None => Background::Blue,
                }
            },
        }),
{
    if let Some(color) = favorite_color {
        Background::Favorite(color)
    } else if is_tuesday {
        Background::Green
    } else if let Some(age) = age {
        if age > 30 {
            Background::Purple
        } else {
            Background::Orange
        }
    } else {
        Background::Blue
    }
}

/// Which arm a character falls in.
#[derive(Debug, Clone, Copy, PartialEq, Eq, Structural)]
pub enum CharRange {
    /// `'a'` to `'j'`.
    AToJ,
    /// `'k'` to `'z'`.
    KToZ,
    /// Anything else.
    Other,
}

/// The range that `c` falls in.
pub fn char_range(c: char) -> (r: CharRange)
    ensures
        r == (if 'a' <= c <= 'j' {
            CharRange::AToJ
        } else if 'k' <= c <= 'z' {
            CharRange::KToZ
        } else {
            CharRange::Other
        }),
{
    match c {
        'a'..='j' => CharRange::AToJ,
        'k'..='z' => CharRange::KToZ,
        _ => CharRange::Other,
    }
}

/// A point on an integer grid.
#[derive(Debug, Clone, Copy, PartialEq, Eq, Structural)]
pub struct Point {
    pub x: i32,
    pub y: i32,
}

/// Where a point lies.
#[derive(Debug, Clone, Copy, PartialEq, Eq, Structural)]
pub enum Place {
    /// On the x axis, at that x.
    OnXAxis(i32),
    /// On the y axis, at that y.
    OnYAxis(i32),
    /// On neither axis.
    Neither(i32, i32),
}

/// Where `p` lies; the origin counts as on the x axis.
pub fn place(p: Point) -> (r: Place)
    ensures
        r == (if p.y == 0 {
            Place::OnXAxis(p.x)
        } else if p.x == 0 {
            Place::OnYAxis(p.y)
        } else {
            Place::Neither(p.x, p.y)
        }),
{
    match p {
        Point { x, y: 0 } => Place::OnXAxis(x),
        Point { x: 0, y } => Place::OnYAxis(y),
        Point { x, y } => Place::Neither(x, y),
    }
}

/// Which range a greeting id falls in.
#[derive(Debug, Clone, Copy, PartialEq, Eq, Structural)]
pub enum IdRange {
    /// From 3 to 7, with the id.
    Found(i32),
    /// From 10 to 12.
    Another,
    /// Any other id.
    Other(i32),
}

/// The range that `id` falls in.
pub fn id_range(id: i32) -> (r: IdRange)
    ensures
        r == (if 3 <= id <= 7 {
            IdRange::Found(id)
        } else if 10 <= id <= 12 {
            IdRange::Another
        } else {
            IdRange::Other(id)
        }),
{
    match id {
        id_variable @ 3..=7 => IdRange::Found(id_variable),
        10..=12 => IdRange::Another,
        id => IdRange::Other(id),
    }
}

/// A message of the pattern-matching exercise.
#[derive(Debug)]
pub enum Message {
    Quit,
    Move { x: i32, y: i32 },
    Write(String),
    ChangeColor(i32, i32, i32),
}

/// The message that the destructuring example matches: a change of color to
/// red 0, green 160 and blue 255.
pub fn color_change() -> (m: Message)
    ensures
        m matches Message::ChangeColor(r, g, b) && r == 0 && g == 160 && b == 255,
{
    Message::ChangeColor(0, 160, 255)
}

} // verus!
