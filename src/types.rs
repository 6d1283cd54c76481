//! The channel mask: one bit per channel, bit `i` enabling channel `i`.
use vstd::prelude::*;

use crate::bits::{bit, lemma_all_ones, lemma_clear_bit, lemma_or_bit, lemma_test_bit};
use crate::maccommands::Error;

verus! {

/// Bit vector of `N * 8` channels, stored little-end first: channel `i` is bit
/// `i % 8` of byte `i / 8`.
#[derive(Debug, Clone, PartialEq, Eq)]
pub struct ChannelMask<const N: usize>(pub [u8; N]);

/// Whether channel `i` is enabled in the mask bytes `m`.
pub open spec fn channel_bit(m: Seq<u8>, i: int) -> bool {
    bit(m[i / 8], (i % 8) as u8)
}

impl<const N: usize> ChannelMask<N> {
    /// The mask bytes.
    pub open spec fn view(&self) -> Seq<u8> {
        self.0@
    }

    /// Whether channel `i` is enabled.
    pub open spec fn enabled(&self, i: int) -> bool {
        channel_bit(self.0@, i)
    }

    /// Builds a mask from the first `N` bytes of `data`.
    pub fn new(data: &[u8]) -> (r: Result<Self, Error>)
        ensures
            data@.len() < N <==> r is Err,
            r is Err ==> r->Err_0 == Error::BufferTooShort,
            r is Ok ==> r->Ok_0@ == data@.subrange(0, N as int),
    {
        if data.len() < N {
            return Err(Error::BufferTooShort);
        }
        Ok(Self::new_from_raw(data))
    }

    /// Overwrites byte `index` of the mask (channels `8 * index` to `8 * index + 7`).
    pub fn set_bank(&mut self, index: usize, value: u8)
        requires
            index < N,
        ensures
            final(self)@ == old(self)@.update(index as int, value),
    {
        self.0[index] = value;
    }

    /// Enables (`set`) or disables one channel; channel numbers start at zero.
    pub fn set_channel(&mut self, channel: usize, set: bool)
        requires
            channel / 8 < N,
        ensures
            final(self)@.len() == N,
            forall|i: int|
                0 <= i < N * 8 ==> #[trigger] final(self).enabled(i) == if i == channel {
                    set
                } else {
                    old(self).enabled(i)
                },
    {
        let index = channel / 8;
        let shift = (channel % 8) as u8;
        let flag: u8 = 1u8 << shift;
        let old_byte = self.0[index];
        if set {
            self.0[index] = old_byte | flag;
            proof {
                lemma_or_bit(old_byte, shift);
            }
        } else {
            self.0[index] = old_byte & !flag;
            proof {
                lemma_clear_bit(old_byte, shift);
            }
        }
        assert forall|i: int| 0 <= i < N * 8 implies #[trigger] self.enabled(i) == if i == channel {
            set
        } else {
            old(self).enabled(i)
        } by {
            if i / 8 == index as int {
                assert((i % 8) as u8 == shift <==> i == channel);
            }
        }
    }

    /// The mask bytes, in order.
    pub fn as_bytes(&self) -> (r: &[u8])
        ensures
            r@ == self@,
    {
        self.0.as_slice()
    }

    /// Byte `index` of the mask.
    pub fn get_index(&self, index: usize) -> (r: u8)
        requires
            index < N,
        ensures
            r == self@[index as int],
    {
        self.0[index]
    }

    /// Builds a mask from the first `N` bytes of `data`, which must hold at least `N` bytes.
    pub fn new_from_raw(data: &[u8]) -> (r: Self)
        requires
            data@.len() >= N,
        ensures
            r@ == data@.subrange(0, N as int),
    {
        let mut payload = [0u8; N];
        let mut i: usize = 0;
        while i < N
            invariant
                i <= N,
                data@.len() >= N,
                payload@.len() == N,
                forall|j: int| 0 <= j < i ==> payload@[j] == data@[j],
            decreases N - i,
        {
            payload[i] = data[i];
            i = i + 1;
        }
        assert(payload@ =~= data@.subrange(0, N as int));
        ChannelMask(payload)
    }

    fn channel_enabled(&self, index: usize) -> (r: bool)
        requires
            index / 8 < N,
        ensures
            r == self.enabled(index as int),
    {
        let shift = (index % 8) as u8;
        let byte = self.0[index / 8];
        proof {
            lemma_test_bit(byte, shift);
        }
        byte & (1u8 << shift) != 0
    }

    /// Whether a channel is enabled; a channel beyond the mask is an error.
    pub fn is_enabled(&self, index: usize) -> (r: Result<bool, Error>)
        ensures
            index >= N * 8 <==> r is Err,
            r is Err ==> r->Err_0 == Error::InvalidIndex,
            r is Ok ==> r->Ok_0 == self.enabled(index as int),
    {
        if index / 8 >= N {
            return Err(Error::InvalidIndex);
        }
        Ok(self.channel_enabled(index))
    }

    /// Whether each of the first `M` channels is enabled.
    pub fn statuses<const M: usize>(&self) -> (r: [bool; M])
        requires
            M <= N * 8,
        ensures
            forall|i: int| 0 <= i < M ==> #[trigger] r@[i] == self.enabled(i),
    {
        let mut res = [false; M];
        let mut i: usize = 0;
        while i < M
            invariant
                i <= M,
                M <= N * 8,
                res@.len() == M,
                forall|j: int| 0 <= j < i ==> #[trigger] res@[j] == self.enabled(j),
            decreases M - i,
        {
            res[i] = self.channel_enabled(i);
            i = i + 1;
        }
        res
    }
}

impl<const N: usize> From<[u8; N]> for ChannelMask<N> {
    fn from(v: [u8; N]) -> (r: Self)
        ensures
            r@ == v@,
    {
        ChannelMask(v)
    }
}

impl<const N: usize> vstd::std_specs::convert::FromSpecImpl<[u8; N]> for ChannelMask<N> {
    open spec fn obeys_from_spec() -> bool {
        true
    }

    open spec fn from_spec(v: [u8; N]) -> Self {
        ChannelMask(v)
    }
}

impl<const N: usize> Default for ChannelMask<N> {
    /// Every channel enabled.
    fn default() -> (r: Self)
        ensures
            forall|i: int| 0 <= i < N ==> #[trigger] r@[i] == 0xffu8,
            forall|i: int| 0 <= i < N * 8 ==> #[trigger] r.enabled(i),
    {
        let r = ChannelMask([0xffu8; N]);
        proof {
            lemma_all_ones();
            assert forall|i: int| 0 <= i < N * 8 implies #[trigger] r.enabled(i) by {
                assert(r@[i / 8] == 0xffu8);
                assert(bit(0xffu8, (i % 8) as u8));
            }
        }
        r
    }
}

} // verus!
