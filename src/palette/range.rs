//! Per-channel extents of a run of pixels.
use super::Pixel;
use vstd::prelude::*;

verus! {

/// The colour channel along which a run of pixels is widest.
#[derive(Debug, Clone, Copy, PartialEq, Eq, Structural)]
pub enum Channel {
    Red,
    Green,
    Blue,
}

impl Channel {
    pub open spec fn spec_index(self) -> int {
        match self {
            Channel::Red => 0,
            Channel::Green => 1,
            Channel::Blue => 2,
        }
    }

    /// Position of the channel within a pixel.
    pub fn index(self) -> (r: usize)
        ensures
            r == self.spec_index(),
    {
        match self {
            Channel::Red => 0,
            Channel::Green => 1,
            Channel::Blue => 2,
        }
    }
}

/// The widest channel of a run of pixels and its extent (`max - min`).
#[derive(Debug, Clone, Copy, PartialEq, Eq, Structural)]
pub struct GreatestRange {
    pub range: u8,
    pub channel: Channel,
}

/// Smallest value of channel `c` over the non-empty run `s`.
pub open spec fn channel_min(s: Seq<Pixel>, c: int) -> u8
    decreases s.len(),
{
    if s.len() <= 1 {
        s[0][c]
    } else {
        let m = channel_min(s.drop_last(), c);
        if s.last()[c] < m {
            s.last()[c]
        } else {
            m
        }
    }
}

/// Largest value of channel `c` over the non-empty run `s`.
pub open spec fn channel_max(s: Seq<Pixel>, c: int) -> u8
    decreases s.len(),
{
    if s.len() <= 1 {
        s[0][c]
    } else {
        let m = channel_max(s.drop_last(), c);
        if s.last()[c] > m {
            s.last()[c]
        } else {
            m
        }
    }
}

/// The greatest range made of three channel extents: the largest of them, the first
/// channel in red, green, blue order that reaches it.
pub open spec fn widest(er: int, eg: int, eb: int) -> GreatestRange {
    if er >= eg && er >= eb {
        GreatestRange { range: er as u8, channel: Channel::Red }
    } else if eg >= eb {
        GreatestRange { range: eg as u8, channel: Channel::Green }
    } else {
        GreatestRange { range: eb as u8, channel: Channel::Blue }
    }
}

/// The greatest range of a run of pixels; red with extent zero for an empty run.
pub open spec fn greatest_range_of(s: Seq<Pixel>) -> GreatestRange {
    if s.len() == 0 {
        GreatestRange { range: 0, channel: Channel::Red }
    } else {
        widest(
            channel_max(s, 0) - channel_min(s, 0),
            channel_max(s, 1) - channel_min(s, 1),
            channel_max(s, 2) - channel_min(s, 2),
        )
    }
}

/// Running per-channel minimum and maximum over the pixels seen so far.
#[derive(Debug)]
pub struct Ranges {
    pub min: Pixel,
    pub max: Pixel,
}

impl Ranges {
    /// The per-channel extents of `s` are what `self` holds.
    pub open spec fn covers(&self, s: Seq<Pixel>) -> bool {
        &&& s.len() > 0
        &&& forall|c: int|
            0 <= c < 3 ==> self.min[c] == #[trigger] channel_min(s, c) && self.max[c]
                == channel_max(s, c)
    }

    /// Extents of a single pixel: each channel spans just its value.
    pub fn new(pixel: Pixel) -> (r: Self)
        ensures
            r.min == pixel,
            r.max == pixel,
            r.covers(seq![pixel]),
    {
        Ranges { min: pixel, max: pixel }
    }

    /// Widens each channel's extent to take in `new`.
    pub fn update(&mut self, new: Pixel)
        ensures
            forall|c: int|
                0 <= c < 3 ==> final(self).min[c] == (if new[c] < old(self).min[c] {
                    new[c]
                } else {
                    old(self).min[c]
                }) && final(self).max[c] == (if new[c] > old(self).max[c] {
                    new[c]
                } else {
                    old(self).max[c]
                }),
    {
        let mut c: usize = 0;
        while c < 3
            invariant
                0 <= c <= 3,
                forall|k: int|
                    0 <= k < c ==> self.min[k] == (if new[k] < old(self).min[k] {
                        new[k]
                    } else {
                        old(self).min[k]
                    }) && self.max[k] == (if new[k] > old(self).max[k] {
                        new[k]
                    } else {
                        old(self).max[k]
                    }),
                forall|k: int| c <= k < 3 ==> self.min[k] == old(self).min[k] && self.max[k] == old(self).max[k],
            decreases 3 - c,
        {
            if new[c] < self.min[c] {
                self.min[c] = new[c];
            }
            if new[c] > self.max[c] {
                self.max[c] = new[c];
            }
            c = c + 1;
        }
    }

    /// The widest channel and its extent.
    pub fn greatest(&self) -> (r: GreatestRange)
        requires
            forall|c: int| 0 <= c < 3 ==> self.min[c] <= self.max[c],
        ensures
            r == widest(
                self.max[0] - self.min[0],
                self.max[1] - self.min[1],
                self.max[2] - self.min[2],
            ),
    {
        let r_range = self.max[0] - self.min[0];
        let g_range = self.max[1] - self.min[1];
        let b_range = self.max[2] - self.min[2];
        if r_range >= g_range && r_range >= b_range {
            GreatestRange { range: r_range, channel: Channel::Red }
        } else if g_range >= b_range {
            GreatestRange { range: g_range, channel: Channel::Green }
        } else {
            GreatestRange { range: b_range, channel: Channel::Blue }
        }
    }
}

} // verus!
