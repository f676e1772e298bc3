//! A bucket of median cut: a run of the pixel buffer, with its greatest range cached.
use super::range::{channel_max, channel_min, greatest_range_of, widest, Channel, GreatestRange, Ranges};
use super::Pixel;
use image::{Pixel as _, Rgb};
use vstd::prelude::*;

verus! {

/// The greatest range of `slice[start..end]`, computed in one pass.
pub fn max_range_from_slice(slice: &Vec<Pixel>, start: usize, end: usize) -> (r: GreatestRange)
    requires
        start <= end <= slice@.len(),
    ensures
        r == greatest_range_of(slice@.subrange(start as int, end as int)),
{
    if start == end {
        return GreatestRange { range: 0, channel: Channel::Red };
    }
    let mut ranges = Ranges::new(slice[start]);
    let mut i: usize = start + 1;
    proof {
        assert(slice@.subrange(start as int, i as int) =~= seq![slice@[start as int]]);
    }
    while i < end
        invariant
            start < i <= end <= slice@.len(),
            ranges.covers(slice@.subrange(start as int, i as int)),
        decreases end - i,
    {
        let ghost before = slice@.subrange(start as int, i as int);
        let ghost after = slice@.subrange(start as int, i as int + 1);
        ranges.update(slice[i]);
        proof {
            assert(after.drop_last() =~= before);
            assert(after.last() == slice@[i as int]);
            assert forall|c: int| 0 <= c < 3 implies ranges.min[c] == #[trigger] channel_min(
                after,
                c,
            ) && ranges.max[c] == channel_max(after, c) by {
                assert(channel_min(before, c) == channel_min(after.drop_last(), c));
            }
        }
        i = i + 1;
    }
    proof {
        lemma_min_le_max(slice@.subrange(start as int, end as int));
    }
    ranges.greatest()
}

/// Over a non-empty run, each channel's minimum is at most its maximum.
proof fn lemma_min_le_max(s: Seq<Pixel>)
    requires
        s.len() > 0,
    ensures
        forall|c: int| 0 <= c < 3 ==> #[trigger] channel_min(s, c) <= channel_max(s, c),
    decreases s.len(),
{
    if s.len() > 1 {
        lemma_min_le_max(s.drop_last());
    }
}

/// Relies on `slice::sort_unstable_by_key`: the run ends in ascending order of the key, as a
/// rearrangement of what it held; nothing outside the run moves.
#[verifier::external_body]
fn sort_run_by_channel(pixels: &mut Vec<Pixel>, start: usize, end: usize, c: usize)
    requires
        start <= end <= old(pixels)@.len(),
        c < 3,
    ensures
        final(pixels)@.len() == old(pixels)@.len(),
        forall|i: int|
            0 <= i < old(pixels)@.len() && !(start <= i < end) ==> final(pixels)@[i]
                == old(pixels)@[i],
        final(pixels)@.subrange(start as int, end as int).to_multiset() == old(
            pixels,
        )@.subrange(start as int, end as int).to_multiset(),
        forall|i: int, j: int|
            start <= i <= j < end ==> (#[trigger] final(pixels)@[i])[c as int]
                <= (#[trigger] final(pixels)@[j])[c as int],
{
    pixels[start..end].sort_unstable_by_key(|p| p[c])
}

/// Relies on `image::Pixel::blend` for `Rgb<u8>`: a pixel without alpha is replaced by the
/// one blended over it.
#[verifier::external_body]
fn blend(under: Pixel, over: Pixel) -> (r: Pixel)
    ensures
        r == over,
{
    let mut p = Rgb(under);
    p.blend(&Rgb(over));
    p.0
}

/// A half-open run `[start, end)` of the pixel buffer, with its greatest range once known.
#[derive(Debug, Clone, Copy, PartialEq, Eq, Structural)]
pub struct PixelBucket {
    pub start: usize,
    pub end: usize,
    pub max_range: Option<GreatestRange>,
}

impl PixelBucket {
    /// A bucket over `slice[start..end]`, its greatest range computed at once.
    pub fn new(start: usize, end: usize, slice: &Vec<Pixel>) -> (r: Self)
        requires
            start <= end <= slice@.len(),
        ensures
            r.start == start,
            r.end == end,
            r.max_range == Some(greatest_range_of(slice@.subrange(start as int, end as int))),
    {
        PixelBucket { start, end, max_range: Some(max_range_from_slice(slice, start, end)) }
    }

    /// The greatest range of the bucket's run: the cached one if there is one, else computed
    /// from `slice` and cached.
    pub fn max_range(&mut self, slice: &Vec<Pixel>) -> (r: GreatestRange)
        requires
            old(self).start <= old(self).end <= slice@.len(),
        ensures
            r == match old(self).max_range {
                Some(g) => g,
                None => greatest_range_of(slice@.subrange(old(self).start as int, old(self).end as int)),
            },
            *final(self) == (PixelBucket { max_range: Some(r), ..*old(self) }),
    {
        let g = match self.max_range {
            Some(g) => g,
            None => max_range_from_slice(slice, self.start, self.end),
        };
        self.max_range = Some(g);
        g
    }

    /// Sorts the bucket's run ascending along its widest channel.
    pub fn sort_by_greatest_range(&mut self, slice: &mut Vec<Pixel>)
        requires
            old(self).start <= old(self).end <= old(slice)@.len(),
        ensures
            final(self).start == old(self).start,
            final(self).end == old(self).end,
            final(self).max_range is Some,
            old(self).max_range is Some ==> final(self).max_range == old(self).max_range,
            old(self).max_range is None ==> final(self).max_range == Some(
                greatest_range_of(old(slice)@.subrange(old(self).start as int, old(self).end as int)),
            ),
            final(slice)@.len() == old(slice)@.len(),
            forall|i: int|
                0 <= i < old(slice)@.len() && !(old(self).start <= i < old(self).end)
                    ==> final(slice)@[i] == old(slice)@[i],
            final(slice)@.subrange(old(self).start as int, old(self).end as int).to_multiset()
                == old(slice)@.subrange(old(self).start as int, old(self).end as int).to_multiset(),
            forall|i: int, j: int|
                old(self).start <= i <= j < old(self).end ==> (#[trigger] final(slice)@[i])[
                final(self).max_range.unwrap().channel.spec_index()]
                    <= (#[trigger] final(slice)@[j])[final(self).max_range.unwrap().channel.spec_index()],
    {
        let c = self.max_range(slice).channel.index();
        sort_run_by_channel(slice, self.start, self.end, c);
    }

    /// Splits the bucket at the floor midpoint of its run; neither half has a cached range.
    pub fn split_at_median(self) -> (r: (Self, Self))
        requires
            self.start <= self.end,
        ensures
            r.0 == (PixelBucket {
                start: self.start,
                end: (self.start + (self.end - self.start) / 2) as usize,
                max_range: None,
            }),
            r.1 == (PixelBucket {
                start: (self.start + (self.end - self.start) / 2) as usize,
                end: self.end,
                max_range: None,
            }),
    {
        let midpoint = self.start + ((self.end - self.start) / 2);
        (
            PixelBucket { start: self.start, end: midpoint, max_range: None },
            PixelBucket { start: midpoint, end: self.end, max_range: None },
        )
    }

    /// The bucket's colour: its pixels blended in order over the first, black for an empty
    /// run. Blending replaces, so it is the run's last pixel.
    pub fn average_colors(&self, slice: &Vec<Pixel>) -> (r: Pixel)
        requires
            self.start <= self.end <= slice@.len(),
        ensures
            self.start == self.end ==> r == [0u8, 0u8, 0u8],
            self.start < self.end ==> r == slice@[self.end - 1],
    {
        if self.start == self.end {
            return [0u8, 0u8, 0u8];
        }
        let mut avg: Pixel = slice[self.start];
        let mut i: usize = self.start;
        while i < self.end
            invariant
                self.start <= i <= self.end <= slice@.len(),
                self.start < self.end,
                i > self.start ==> avg == slice@[i - 1],
                i == self.start ==> avg == slice@[self.start as int],
            decreases self.end - i,
        {
            avg = blend(avg, slice[i]);
            i = i + 1;
        }
        avg
    }
}

} // verus!
