use vstd::prelude::*;

verus! {

/// A point on a byte grid.
#[derive(Debug, Clone, Copy, PartialEq, Eq, Structural)]
pub struct Point {
    pub x: u8,
    pub y: u8,
}

/// A message that a [`State`] can process.
#[derive(Debug)]
pub enum Message {
    Move { x: u8, y: u8 },
    Echo(String),
    ChangeColor((u8, u8, u8)),
    Quit,
}

/// The state that messages act on.
pub struct State {
    pub color: (u8, u8, u8),
    pub position: Point,
    pub quit: bool,
}

/// The state that results from processing `message` in state `s`.
pub open spec fn spec_process(s: State, message: Message) -> State {
    match message {
        Message::Quit => State { quit: true, ..s },
        Message::Echo(_) => s,
        Message::Move { x, y } => State { position: Point { x, y }, ..s },
        Message::ChangeColor(c) => State { color: c, ..s },
    }
}

/// A move changes the position to the target and nothing else; in
/// particular it never quits and never recolors.
pub proof fn lemma_move_changes_only_position(s: State, x: u8, y: u8)
    ensures
        spec_process(s, Message::Move { x, y }).position == (Point { x, y }),
        spec_process(s, Message::Move { x, y }).color == s.color,
        spec_process(s, Message::Move { x, y }).quit == s.quit,
{
}

/// Only a `Quit` message sets the quit flag: any other message leaves it as
/// it was, and a quit state stays quit.
pub proof fn lemma_only_quit_quits(s: State, m: Message)
    ensures
        !(m is Quit) ==> spec_process(s, m).quit == s.quit,
        m is Quit ==> spec_process(s, m).quit,
        s.quit ==> spec_process(s, m).quit,
{
}

/// Only a move alters the position.
pub proof fn lemma_only_move_moves(s: State, m: Message)
    ensures
        !(m is Move) ==> spec_process(s, m).position == s.position,
{
}

/// Only a color change alters the color, and it sets exactly the given one.
pub proof fn lemma_only_change_color_recolors(s: State, m: Message)
    ensures
        m matches Message::ChangeColor(c) ==> spec_process(s, m).color == c,
        !(m is ChangeColor) ==> spec_process(s, m).color == s.color,
{
}

impl State {
    /// Replaces the color.
    pub fn change_color(&mut self, color: (u8, u8, u8))
        ensures
            final(self).color == color,
            final(self).position == old(self).position,
            final(self).quit == old(self).quit,
    {
        self.color = color;
    }

    /// Marks the state as quit.
    pub fn quit(&mut self)
        ensures
            final(self).quit,
            final(self).color == old(self).color,
            final(self).position == old(self).position,
    {
        self.quit = true;
    }

    /// Replaces the position.
    pub fn move_position(&mut self, p: Point)
        ensures
            final(self).position == p,
            final(self).color == old(self).color,
            final(self).quit == old(self).quit,
    {
        self.position = p;
    }

    /// Applies one message to the state; an `Echo` leaves the state as it
    /// is and hands back the text to be echoed.
    pub fn process(&mut self, message: Message) -> (echo: Option<String>)
        ensures
            *final(self) == spec_process(*old(self), message),
            message matches Message::Move { x, y } ==> final(self).position == (Point { x, y })
                && final(self).color == old(self).color && final(self).quit == old(self).quit,
            message matches Message::ChangeColor(c) ==> final(self).color == c
                && final(self).position == old(self).position && final(self).quit == old(self).quit,
            message is Quit ==> final(self).quit && final(self).color == old(self).color
                && final(self).position == old(self).position,
            message is Echo ==> final(self).quit == old(self).quit && final(self).color == old(self).color
                && final(self).position == old(self).position,
            match message {
                Message::Echo(s) => echo matches Some(e) && e@ == s@,
                _ => echo is None,
            },
    {
        match message {
            Message::Quit => {
                self.quit();
                None
            },
            Message::Echo(s) => Some(s),
            Message::Move { x, y } => {
                self.move_position(Point { x, y });
                None
            },
            Message::ChangeColor((x, y, z)) => {
                self.change_color((x, y, z));
                None
            },
        }
    }
}

} // verus!
