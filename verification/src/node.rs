use vstd::prelude::*;
use vstd::string::StringExecFns;

verus! {

/// Row and column of a cell, in that order.
pub type Position = (usize, usize);

/// Glyph of a dead cell.
pub const DEFAULT_SYMBOL: char = ' ';

/// Glyph of a living cell.
pub const ALIVE_SYMBOL: char = '@';

/// One cell of the board.
#[derive(Debug, Clone, Copy, PartialEq, Eq)]
pub struct Node {
    pub future_status: Option<bool>,
    pub is_alive: bool,
    pub position: Position,
}

impl Node {
    pub fn new(is_alive: bool, position: Position) -> (node: Node)
        ensures
            node == (Node { future_status: None, is_alive, position }),
    {
        Node { future_status: None, is_alive, position }
    }

    pub open spec fn glyph(&self) -> char {
        if self.is_alive {
            ALIVE_SYMBOL
        } else {
            DEFAULT_SYMBOL
        }
    }

    pub fn char(&self) -> (s: String)
        ensures
            s@ == seq![self.glyph()],
    {
        proof {
            reveal_strlit("@");
            reveal_strlit(" ");
        }
        let s = if self.is_alive {
            String::from_str("@")
        } else {
            String::from_str(" ")
        };
        assert(s@ =~= seq![self.glyph()]);
        s
    }
}

} // verus!
