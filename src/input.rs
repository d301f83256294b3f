use vstd::prelude::*;

verus! {

/// A primitive key press sent to the game.
#[derive(Debug, Clone, Copy, PartialEq, Eq, Structural)]
pub enum Input {
    Up,
    Down,
    Left,
    Right,
    Enter,
    /// Opens and closes the inventory menu.
    Backslash,
}

/// The name of an input as it appears in text output.
pub open spec fn input_name(i: Input) -> Seq<char> {
    match i {
        Input::Up => seq!['U', 'p'],
        Input::Down => seq!['D', 'o', 'w', 'n'],
        Input::Left => seq!['L', 'e', 'f', 't'],
        Input::Right => seq!['R', 'i', 'g', 'h', 't'],
        Input::Enter => seq!['E', 'n', 't', 'e', 'r'],
        Input::Backslash => seq!['B', 'a', 'c', 'k', 's', 'l', 'a', 's', 'h'],
    }
}

impl Input {
    /// The name of this input.
    pub fn name(self) -> (r: &'static str)
        ensures
            r@ == input_name(self),
    {
        match self {
            Input::Up => {
                proof { reveal_strlit("Up"); }
                assert("Up"@ =~= input_name(self));
                "Up"
            },
            Input::Down => {
                proof { reveal_strlit("Down"); }
                assert("Down"@ =~= input_name(self));
                "Down"
            },
            Input::Left => {
                proof { reveal_strlit("Left"); }
                assert("Left"@ =~= input_name(self));
                "Left"
            },
            Input::Right => {
                proof { reveal_strlit("Right"); }
                assert("Right"@ =~= input_name(self));
                "Right"
            },
            Input::Enter => {
                proof { reveal_strlit("Enter"); }
                assert("Enter"@ =~= input_name(self));
                "Enter"
            },
            Input::Backslash => {
                proof { reveal_strlit("Backslash"); }
                assert("Backslash"@ =~= input_name(self));
                "Backslash"
            },
        }
    }
}

} // verus!
