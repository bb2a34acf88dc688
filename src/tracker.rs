//! Scope trackers: a construct that is open, with the bracket depth that was
//! current on the line that opened it. It closes when a closing bracket brings
//! the depth back to that value.
use vstd::prelude::*;

verus! {

/// The depth a tracker records while it is closed.
pub const CLOSED_DEPTH: i32 = -1;

/// A construct without a position of its own.
#[derive(Clone, Copy, Debug)]
pub struct InBasicNode {
    pub num_brackets_open: i32,
    pub in_use: bool,
}

/// A construct with a current position (the record it writes, or how many
/// values it has taken).
#[derive(Clone, Copy, Debug)]
pub struct InIndexedNode {
    pub num_brackets_open: i32,
    pub in_use: bool,
    pub position: usize,
}

/// A construct with a current position and a second one nested in it (a
/// texture within a material).
#[derive(Clone, Copy, Debug)]
pub struct InDoubleIndexedNode {
    pub num_brackets_open: i32,
    pub in_use: bool,
    pub position: usize,
    pub second_index: usize,
}

impl InBasicNode {
    pub fn new() -> (r: InBasicNode)
        ensures
            r == (InBasicNode { num_brackets_open: CLOSED_DEPTH, in_use: false }),
    {
        InBasicNode { num_brackets_open: CLOSED_DEPTH, in_use: false }
    }

    pub open spec fn opened(self, depth: i32) -> InBasicNode {
        InBasicNode { num_brackets_open: depth, in_use: true }
    }

    /// The tracker after a closing bracket that leaves the depth at `depth`.
    pub open spec fn after_close(self, depth: i32) -> InBasicNode {
        if self.in_use && self.num_brackets_open == depth {
            InBasicNode::spec_closed()
        } else {
            self
        }
    }

    pub open spec fn spec_closed() -> InBasicNode {
        InBasicNode { num_brackets_open: CLOSED_DEPTH, in_use: false }
    }

    pub fn open(&mut self, depth: i32)
        ensures
            *final(self) == old(self).opened(depth),
    {
        self.num_brackets_open = depth;
        self.in_use = true;
    }

    /// Closes the tracker where it was opened at `depth`.
    pub fn close_at(&mut self, depth: i32)
        ensures
            *final(self) == old(self).after_close(depth),
    {
        if self.in_use && self.num_brackets_open == depth {
            *self = InBasicNode::new();
        }
    }
}

impl InIndexedNode {
    pub fn new() -> (r: InIndexedNode)
        ensures
            r == InIndexedNode::spec_closed(),
    {
        InIndexedNode { num_brackets_open: CLOSED_DEPTH, in_use: false, position: 0 }
    }

    pub open spec fn spec_closed() -> InIndexedNode {
        InIndexedNode { num_brackets_open: CLOSED_DEPTH, in_use: false, position: 0 }
    }

    pub open spec fn opened(self, depth: i32, position: usize) -> InIndexedNode {
        InIndexedNode { num_brackets_open: depth, in_use: true, position }
    }

    pub open spec fn closes_at(self, depth: i32) -> bool {
        self.in_use && self.num_brackets_open == depth
    }

    pub fn open(&mut self, depth: i32, position: usize)
        ensures
            *final(self) == old(self).opened(depth, position),
    {
        self.num_brackets_open = depth;
        self.in_use = true;
        self.position = position;
    }

    /// The tracker after a closing bracket that leaves the depth at `depth`.
    pub open spec fn after_close(self, depth: i32) -> InIndexedNode {
        if self.closes_at(depth) {
            InIndexedNode::spec_closed()
        } else {
            self
        }
    }

    /// Closes the tracker, and clears its position, where it was opened at `depth`.
    pub fn close_at(&mut self, depth: i32)
        ensures
            *final(self) == old(self).after_close(depth),
    {
        if self.in_use && self.num_brackets_open == depth {
            *self = InIndexedNode::new();
        }
    }
}

impl InDoubleIndexedNode {
    pub fn new() -> (r: InDoubleIndexedNode)
        ensures
            r == InDoubleIndexedNode::spec_closed(),
    {
        InDoubleIndexedNode {
            num_brackets_open: CLOSED_DEPTH,
            in_use: false,
            position: 0,
            second_index: 0,
        }
    }

    pub open spec fn spec_closed() -> InDoubleIndexedNode {
        InDoubleIndexedNode {
            num_brackets_open: CLOSED_DEPTH,
            in_use: false,
            position: 0,
            second_index: 0,
        }
    }

    pub open spec fn after_close(self, depth: i32) -> InDoubleIndexedNode {
        if self.in_use && self.num_brackets_open == depth {
            InDoubleIndexedNode::spec_closed()
        } else {
            self
        }
    }

    pub fn open(&mut self, depth: i32, position: usize)
        ensures
            *final(self) == (InDoubleIndexedNode {
                num_brackets_open: depth,
                in_use: true,
                position,
                second_index: 0,
            }),
    {
        self.num_brackets_open = depth;
        self.in_use = true;
        self.position = position;
        self.second_index = 0;
    }

    /// Closes the tracker, and clears both positions, where it was opened at `depth`.
    pub fn close_at(&mut self, depth: i32)
        ensures
            *final(self) == old(self).after_close(depth),
    {
        if self.in_use && self.num_brackets_open == depth {
            *self = InDoubleIndexedNode::new();
        }
    }
}

} // verus!
