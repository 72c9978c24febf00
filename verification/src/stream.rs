use vstd::prelude::*;

use crate::chain::{Block, BlockV, Header};
use crate::fragment::{Fragment, FragmentV};

verus! {

/// A server-streamed response of headers.  The items were fixed when
/// the operation resolved; the consumer draws them one at a time, in
/// production order.  Dropping the stream emits nothing further and is
/// not an error.
#[derive(Debug)]
pub struct HeaderStream {
    pub items: Vec<Header>,
    pub pos: usize,
}

impl HeaderStream {
    /// The cursor never passes the end.
    pub open spec fn wf(self) -> bool {
        self.pos <= self.items@.len()
    }

    /// The items not yet drawn.
    pub open spec fn pending(self) -> Seq<Header> {
        self.items@.subrange(self.pos as int, self.items@.len() as int)
    }

    /// Wraps a resolved item list as a stream.
    pub fn new(items: Vec<Header>) -> (r: HeaderStream)
        ensures
            r.wf(),
            r.items@ == items@,
            r.pos == 0,
    {
        HeaderStream { items, pos: 0 }
    }

    /// Draws the next item, or reports the end of the stream.
    pub fn next(&mut self) -> (r: Option<Header>)
        requires
            old(self).wf(),
        ensures
            final(self).wf(),
            final(self).items@ == old(self).items@,
            match r {
                Some(h) => old(self).pos < old(self).items@.len() && h == old(self).items@[old(self).pos as int] && final(self).pos == old(self).pos + 1,
                None => old(self).pos == old(self).items@.len() && *final(self) == *old(self),
            },
    {
        if self.pos < self.items.len() {
            let h = self.items[self.pos];
            self.pos = self.pos + 1;
            Some(h)
        } else {
            None
        }
    }
}

/// A server-streamed response of full blocks, drawn in production order.
#[derive(Debug)]
pub struct BlockStream {
    pub items: Vec<Block>,
    pub pos: usize,
}

impl BlockStream {
    /// The cursor never passes the end.
    pub open spec fn wf(self) -> bool {
        self.pos <= self.items@.len()
    }

    /// The values of the items not yet drawn.
    pub open spec fn pending(self) -> Seq<BlockV> {
        self.items@.subrange(self.pos as int, self.items@.len() as int).map_values(
            |b: Block| b@,
        )
    }

    /// Wraps a resolved item list as a stream.
    pub fn new(items: Vec<Block>) -> (r: BlockStream)
        ensures
            r.wf(),
            r.items@ == items@,
            r.pos == 0,
    {
        BlockStream { items, pos: 0 }
    }

    /// Draws the next item, or reports the end of the stream.
    pub fn next(&mut self) -> (r: Option<Block>)
        requires
            old(self).wf(),
        ensures
            final(self).wf(),
            final(self).items@ == old(self).items@,
            match r {
                Some(b) => old(self).pos < old(self).items@.len() && b@ == old(self).items@[old(self).pos as int]@ && final(self).pos == old(self).pos + 1,
                None => old(self).pos == old(self).items@.len() && *final(self) == *old(self),
            },
    {
        if self.pos < self.items.len() {
            let b = self.items[self.pos].duplicate();
            self.pos = self.pos + 1;
            Some(b)
        } else {
            None
        }
    }
}

/// A server-streamed response of fragments, drawn in production order.
#[derive(Debug)]
pub struct FragmentStream {
    pub items: Vec<Fragment>,
    pub pos: usize,
}

impl FragmentStream {
    /// The cursor never passes the end.
    pub open spec fn wf(self) -> bool {
        self.pos <= self.items@.len()
    }

    /// The values of the items not yet drawn.
    pub open spec fn pending(self) -> Seq<FragmentV> {
        self.items@.subrange(self.pos as int, self.items@.len() as int).map_values(
            |f: Fragment| f@,
        )
    }

    /// Wraps a resolved item list as a stream.
    pub fn new(items: Vec<Fragment>) -> (r: FragmentStream)
        ensures
            r.wf(),
            r.items@ == items@,
            r.pos == 0,
    {
        FragmentStream { items, pos: 0 }
    }

    /// Draws the next item, or reports the end of the stream.
    pub fn next(&mut self) -> (r: Option<Fragment>)
        requires
            old(self).wf(),
        ensures
            final(self).wf(),
            final(self).items@ == old(self).items@,
            match r {
                Some(f) => old(self).pos < old(self).items@.len() && f@ == old(self).items@[old(self).pos as int]@ && final(self).pos == old(self).pos + 1,
                None => old(self).pos == old(self).items@.len() && *final(self) == *old(self),
            },
    {
        if self.pos < self.items.len() {
            let f = self.items[self.pos].duplicate();
            self.pos = self.pos + 1;
            Some(f)
        } else {
            None
        }
    }
}

} // verus!
