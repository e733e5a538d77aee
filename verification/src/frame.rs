//! Call frames: the variables of one call, and where to go back to.

use vstd::prelude::*;
use vstd::hash_map::StringHashMap;
use crate::binary32::ZERO;
use crate::stackobj::StackObj;

verus! {

/// What a frame holds, as mathematics.
pub struct FrameView {
    /// The variables that are bound, by name.
    pub vars: Map<Seq<char>, StackObj>,
    /// The address at which the caller goes on.
    pub return_address: int,
}

impl FrameView {
    /// A frame without variables.
    pub open spec fn empty(return_address: int) -> FrameView {
        FrameView { vars: Map::empty(), return_address }
    }

    /// The value of a variable: what was last bound to it, and zero for a
    /// name that was never bound.
    pub open spec fn lookup(self, key: Seq<char>) -> StackObj {
        if self.vars.contains_key(key) {
            self.vars[key]
        } else {
            StackObj::Num(ZERO)
        }
    }

    /// The frame after `value` was bound to `key`.
    pub open spec fn bind(self, key: Seq<char>, value: StackObj) -> FrameView {
        FrameView { vars: self.vars.insert(key, value), return_address: self.return_address }
    }
}

/// The variables of one call and the address at which the caller goes on.
pub struct Frame {
    pub vars: StringHashMap<StackObj>,
    pub return_address: i32,
}

impl View for Frame {
    type V = FrameView;

    open spec fn view(&self) -> FrameView {
        FrameView { vars: self.vars@, return_address: self.return_address as int }
    }
}

impl Frame {
    /// A frame without variables.
    pub fn new(return_address: i32) -> (frame: Frame)
        ensures
            frame@ == FrameView::empty(return_address as int),
    {
        Frame { vars: StringHashMap::new(), return_address }
    }

    /// Reads a variable. A name that was never bound reads as zero.
    pub fn get_var(&self, key: &str) -> (value: StackObj)
        ensures
            value == self@.lookup(key@),
    {
        match self.vars.get(key) {
            Some(value) => *value,
            None => StackObj::Num(ZERO),
        }
    }

    /// Binds `value` to `key`, in place of what was bound to it before.
    pub fn set_var(&mut self, key: &str, value: StackObj)
        ensures
            final(self)@ == old(self)@.bind(key@, value),
    {
        self.vars.insert(key.to_owned(), value);
    }
}

} // verus!
