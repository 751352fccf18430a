use vstd::prelude::*;

verus! {

/// Mathematical model of a channel: every value ever appended, in order,
/// together with the position of the consumer cursor.
#[verifier::ext_equal]
pub struct ChannelModel {
    pub data: Seq<i64>,
    pub read_pos: nat,
}

/// An ordered, append-only queue of integers with a single consumer cursor.
///
/// Values are appended at the tail by `write` and consumed from the head
/// forward by `read`; a consumed value is never re-read. Two independent
/// instances serve an execution as its input and output channels.
#[derive(Debug, Clone)]
pub struct Pipe {
    data: Vec<i64>,
    read_pos: usize,
}

impl View for Pipe {
    type V = ChannelModel;

    closed spec fn view(&self) -> ChannelModel {
        ChannelModel { data: self.data@, read_pos: self.read_pos as nat }
    }
}

impl Pipe {
    /// A fresh, empty channel with the cursor at the head.
    pub fn new() -> (r: Pipe)
        ensures
            r@ == (ChannelModel { data: Seq::<i64>::empty(), read_pos: 0 as nat }),
    {
        Pipe { data: Vec::new(), read_pos: 0 }
    }

    /// A fresh channel meant to be handed to an execution. The engine takes
    /// ownership of the channels bound to it, so a handle is the pipe itself.
    pub fn new_ref() -> (r: Pipe)
        ensures
            r@ == (ChannelModel { data: Seq::<i64>::empty(), read_pos: 0 as nat }),
    {
        Pipe::new()
    }

    /// Appends `val` at the tail. Always succeeds; the cursor does not move.
    pub fn write(&mut self, val: i64)
        ensures
            final(self)@.data == old(self)@.data.push(val),
            final(self)@.read_pos == old(self)@.read_pos,
    {
        self.data.push(val);
    }

    /// True iff at least one unconsumed value remains.
    pub fn can_read(&self) -> (r: bool)
        ensures
            r == (self@.read_pos < self@.data.len()),
    {
        if self.data.len() == 0 {
            return false;
        }
        self.read_pos <= self.data.len() - 1
    }

    /// Returns the value at the cursor and advances the cursor by one.
    ///
    /// Reading an exhausted channel is a caller-contract violation, not a
    /// recoverable condition: callers must check `can_read` first wherever
    /// exhaustion is plausible.
    pub fn read(&mut self) -> (r: i64)
        requires
            old(self)@.read_pos < old(self)@.data.len(),
        ensures
            r == old(self)@.data[old(self)@.read_pos as int],
            final(self)@.data == old(self)@.data,
            final(self)@.read_pos == old(self)@.read_pos + 1,
    {
        let val = self.data[self.read_pos];
        let len = self.data.len();
        assert(self.read_pos < len);
        self.read_pos += 1;
        val
    }
}

} // verus!
