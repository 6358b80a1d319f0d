//! Ready-made implementations of the two cell capabilities: a named content
//! item that caches its coordinate, and a background descriptor classified
//! by a kind string, where the kind `"Obstacle"` forbids content.

use vstd::prelude::*;
use crate::grid::{AllowContent, PositionAccessor};
use crate::pos::Position;

verus! {

/// A content item with a cached coordinate and a name.
#[derive(Debug)]
pub struct NamedItem {
    pub pos: Position,
    pub name: String,
}

/// A background descriptor classified by a kind string. The kind
/// `"Obstacle"` disallows content; every other kind allows it.
#[derive(Debug)]
pub struct NamedBg {
    pub kind: String,
}

impl PositionAccessor for NamedItem {
    open spec fn spec_position(&self) -> Position {
        self.pos
    }

    open spec fn with_position(self, new_position: Position) -> Self {
        NamedItem { pos: new_position, ..self }
    }

    proof fn lemma_with_position(self, new_position: Position) {
    }

    fn get_position(&self) -> (r: Position) {
        self.pos
    }

    fn set_position(&mut self, new_position: Position) {
        self.pos = new_position;
    }
}

impl AllowContent for NamedBg {
    open spec fn spec_content_allowed(&self) -> bool {
        self.kind@ != "Obstacle"@
    }

    fn is_content_allowed(&self) -> (r: bool) {
        let obstacle: String = "Obstacle".to_owned();
        !(self.kind == obstacle)
    }
}

impl Default for NamedBg {
    /// A background with the empty kind, which allows content.
    fn default() -> (r: NamedBg)
        ensures
            r.kind@ == Seq::<char>::empty(),
            r.spec_content_allowed(),
    {
        let r = NamedBg { kind: String::new() };
        proof {
            reveal_strlit("Obstacle");
            assert("Obstacle"@.len() == 8);
            assert(r.kind@ != "Obstacle"@);
        }
        r
    }
}

} // verus!

