//! The closed flag and the number of senders of a channel.

use vstd::prelude::*;

verus! {

/// Selects the behaviour of a channel that has not been split.
pub const UNCOUNTED: bool = false;

/// Selects the behaviour of a channel whose senders are counted.
pub const COUNTED: bool = true;

/// What a [`Mask`] stores.
pub struct MaskView {
    /// Whether the closed bit is set.
    pub closed: bool,
    /// The number of senders.
    pub senders: nat,
}

impl MaskView {
    /// The state after closing the channel.
    pub open spec fn close(self, counted: bool) -> MaskView {
        MaskView {
            closed: true,
            senders: if counted {
                self.senders
            } else {
                0
            },
        }
    }

    /// The state after resetting the number of senders.
    pub open spec fn reset(self, counted: bool) -> MaskView {
        MaskView {
            closed: self.closed,
            senders: if counted {
                self.senders + 1
            } else {
                0
            },
        }
    }

    /// The state after adding one sender.
    pub open spec fn add_sender(self) -> MaskView {
        MaskView { closed: self.closed, senders: self.senders + 1 }
    }

    /// Whether the number of one more sender can be stored.
    pub open spec fn has_room(self) -> bool {
        2 * self.senders + 3 <= usize::MAX
    }

    /// The state after removing one sender: without the last one the channel
    /// is closed.
    pub open spec fn remove_sender(self) -> MaskView {
        MaskView {
            closed: self.closed || self.senders == 1,
            senders: (self.senders - 1) as nat,
        }
    }
}

/// A bitmask storing whether a channel has been closed and the count of
/// current senders.
///
/// The lowest bit is the closed flag, all further bits are the count.
pub struct Mask(usize);

impl View for Mask {
    type V = MaskView;

    closed spec fn view(&self) -> MaskView {
        MaskView { closed: self.0 % 2 == 1, senders: (self.0 / 2) as nat }
    }
}

impl Mask {
    /// Returns the mask of an open channel without counted senders.
    pub fn new() -> (mask: Self)
        ensures
            mask@ == (MaskView { closed: false, senders: 0 }),
    {
        Self(0)
    }

    /// Counts one more sender (if counted) or forgets all senders; the closed
    /// bit is kept.
    pub fn reset<const COUNTED: bool>(&mut self)
        requires
            COUNTED ==> old(self)@.has_room(),
        ensures
            final(self)@ == old(self)@.reset(COUNTED),
    {
        if COUNTED {
            self.0 = self.0 + 2;
        } else {
            let bits: usize = self.0;
            assert(bits & 1 == bits % 2) by (bit_vector);
            self.0 = bits & 1;
        }
    }

    /// Returns `true` if the closed bit is set, whether or not the senders are
    /// counted.
    pub fn is_closed<const COUNTED: bool>(&self) -> (result: bool)
        ensures
            result == self@.closed,
    {
        let bits: usize = self.0;
        assert(bits & 1 == bits % 2) by (bit_vector);
        bits & 1 == 1
    }

    /// Sets the closed bit and, if not counted, forgets all senders.
    pub fn close<const COUNTED: bool>(&mut self)
        ensures
            final(self)@ == old(self)@.close(COUNTED),
    {
        if COUNTED {
            let bits: usize = self.0;
            assert((bits | 1) % 2 == 1 && (bits | 1) / 2 == bits / 2) by (bit_vector);
            self.0 = bits | 1;
        } else {
            self.0 = 1;
        }
    }

    /// Returns the number of senders.
    pub fn senders(&self) -> (senders: usize)
        ensures
            senders == self@.senders,
    {
        self.0 / 2
    }

    /// Returns `true` if one more sender can be counted.
    pub fn has_room(&self) -> (result: bool)
        ensures
            result == self@.has_room(),
    {
        self.0 / 2 <= (usize::MAX - 3) / 2
    }

    /// Increments the sender count by one.
    pub fn increase_sender_count(&mut self)
        requires
            old(self)@.has_room(),
        ensures
            final(self)@ == old(self)@.add_sender(),
    {
        self.0 = self.0 + 2;
    }

    /// Decrements the sender count by one and closes the channel if it reaches
    /// zero, in which case `true` is returned.
    #[must_use]
    pub fn decrease_sender_count(&mut self) -> (last: bool)
        requires
            old(self)@.senders >= 1,
        ensures
            last == (old(self)@.senders == 1),
            final(self)@ == old(self)@.remove_sender(),
    {
        self.0 = self.0 - 2;

        // the mask is 0 or 1: the sender was the last one
        if self.0 < 2 {
            return self.set_closed_bit();
        }
        false
    }

    /// Closes the mask of a channel without senders.
    fn set_closed_bit(&mut self) -> (closed: bool)
        ensures
            closed,
            final(self)@ == (MaskView { closed: true, senders: 0 }),
    {
        self.0 = 1;
        true
    }
}

} // verus!
