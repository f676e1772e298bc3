//! Median-cut palette construction.
pub mod bucket;
pub mod dither;
pub mod range;

use crate::raster::RgbImage;
use bucket::PixelBucket;
use range::greatest_range_of;
use vstd::prelude::*;

verus! {

/// An 8-bit sRGB triple: red, green, blue.
pub type Pixel = [u8; 3];

/// The number of colours that median cut yields for `k` requested over `n` pixels.
pub open spec fn palette_len(k: int, n: int) -> int {
    if n < k {
        n
    } else {
        k
    }
}

/// Number of pixels in a bucket's run.
pub open spec fn run_len(b: PixelBucket) -> int {
    b.end - b.start
}

/// Total number of pixels over all `bs`.
pub open spec fn total_len(bs: Seq<PixelBucket>) -> int
    decreases bs.len(),
{
    if bs.len() == 0 {
        0
    } else {
        total_len(bs.drop_last()) + run_len(bs.last())
    }
}

/// Two runs share no position.
pub open spec fn disjoint(a: PixelBucket, b: PixelBucket) -> bool {
    a.end <= b.start || b.end <= a.start
}

/// The buckets median cut keeps over a buffer of `n` pixels: non-empty runs within the
/// buffer, pairwise disjoint, together `n` pixels long, each cached range true of `pixels`.
pub open spec fn buckets_wf(bs: Seq<PixelBucket>, pixels: Seq<Pixel>) -> bool {
    &&& forall|i: int|
        0 <= i < bs.len() ==> #[trigger] bs[i].start < bs[i].end && bs[i].end <= pixels.len()
    &&& forall|i: int, j: int|
        0 <= i < bs.len() && 0 <= j < bs.len() && i != j ==> disjoint(#[trigger] bs[i], #[trigger] bs[j])
    &&& total_len(bs) == pixels.len()
    &&& forall|i: int|
        0 <= i < bs.len() && (#[trigger] bs[i]).max_range is Some ==> bs[i].max_range == Some(
            greatest_range_of(pixels.subrange(bs[i].start as int, bs[i].end as int)),
        )
}

proof fn lemma_total_update(bs: Seq<PixelBucket>, i: int, x: PixelBucket)
    requires
        0 <= i < bs.len(),
    ensures
        total_len(bs.update(i, x)) == total_len(bs) - run_len(bs[i]) + run_len(x),
    decreases bs.len(),
{
    if i < bs.len() - 1 {
        assert(bs.update(i, x).drop_last() =~= bs.drop_last().update(i, x));
        lemma_total_update(bs.drop_last(), i, x);
    } else {
        assert(bs.update(i, x).drop_last() =~= bs.drop_last());
    }
}

/// Runs of at least one pixel each add up to at least one pixel per run; of exactly one
/// pixel each, to exactly one per run.
proof fn lemma_total_bounds(bs: Seq<PixelBucket>)
    ensures
        (forall|i: int| 0 <= i < bs.len() ==> run_len(#[trigger] bs[i]) >= 1) ==> total_len(bs)
            >= bs.len(),
        (forall|i: int| 0 <= i < bs.len() ==> run_len(#[trigger] bs[i]) == 1) ==> total_len(bs)
            == bs.len(),
    decreases bs.len(),
{
    if bs.len() > 0 {
        lemma_total_bounds(bs.drop_last());
        if forall|i: int| 0 <= i < bs.len() ==> run_len(#[trigger] bs[i]) >= 1 {
            assert forall|i: int|
                0 <= i < bs.drop_last().len() implies run_len(#[trigger] bs.drop_last()[i]) >= 1 by {
                assert(bs.drop_last()[i] == bs[i]);
            }
            assert(run_len(bs[bs.len() - 1]) >= 1);
        }
        if forall|i: int| 0 <= i < bs.len() ==> run_len(#[trigger] bs[i]) == 1 {
            assert forall|i: int|
                0 <= i < bs.drop_last().len() implies run_len(#[trigger] bs.drop_last()[i]) == 1 by {
                assert(bs.drop_last()[i] == bs[i]);
            }
            assert(run_len(bs[bs.len() - 1]) == 1);
        }
    }
}

/// Rearranging the run `[a, b)` of a sequence, and nothing else, keeps its multiset.
proof fn lemma_splice_multiset(before: Seq<Pixel>, after: Seq<Pixel>, a: int, b: int)
    requires
        0 <= a <= b <= before.len(),
        after.len() == before.len(),
        forall|i: int| 0 <= i < before.len() && !(a <= i < b) ==> after[i] == before[i],
        after.subrange(a, b).to_multiset() == before.subrange(a, b).to_multiset(),
    ensures
        after.to_multiset() == before.to_multiset(),
{
    let n = before.len() as int;
    assert(before =~= before.subrange(0, a) + before.subrange(a, b) + before.subrange(b, n));
    assert(after =~= after.subrange(0, a) + after.subrange(a, b) + after.subrange(b, n));
    assert(after.subrange(0, a) =~= before.subrange(0, a));
    assert(after.subrange(b, n) =~= before.subrange(b, n));
    vstd::seq_lib::lemma_multiset_commutative(before.subrange(0, a), before.subrange(a, b));
    vstd::seq_lib::lemma_multiset_commutative(
        before.subrange(0, a) + before.subrange(a, b),
        before.subrange(b, n),
    );
    vstd::seq_lib::lemma_multiset_commutative(after.subrange(0, a), after.subrange(a, b));
    vstd::seq_lib::lemma_multiset_commutative(
        after.subrange(0, a) + after.subrange(a, b),
        after.subrange(b, n),
    );
}

/// An image with at least `k` distinct pixels has at least `k` pixels, so median cut yields
/// exactly `k` colours for it.
pub proof fn lemma_palette_size(pixels: Seq<Pixel>, k: int)
    requires
        pixels.to_set().len() >= k,
    ensures
        palette_len(k, pixels.len() as int) == k,
{
    pixels.lemma_cardinality_of_set();
}

/// The greatest range of bucket `b`'s run.
pub open spec fn range_of(b: PixelBucket, pixels: Seq<Pixel>) -> int {
    greatest_range_of(pixels.subrange(b.start as int, b.end as int)).range as int
}

/// The bucket to split next: among those of at least two pixels, the one of greatest
/// range, the first on ties; `None` when every bucket is a single pixel. Fills in the
/// cached ranges on the way.
fn select_bucket(buckets: &mut Vec<PixelBucket>, pixels: &Vec<Pixel>) -> (r: Option<usize>)
    requires
        buckets_wf(old(buckets)@, pixels@),
    ensures
        buckets_wf(final(buckets)@, pixels@),
        final(buckets)@.len() == old(buckets)@.len(),
        forall|i: int|
            0 <= i < old(buckets)@.len() ==> (#[trigger] final(buckets)@[i]).start == old(
                buckets,
            )@[i].start && final(buckets)@[i].end == old(buckets)@[i].end,
        r is None <==> forall|j: int|
            0 <= j < old(buckets)@.len() ==> run_len(#[trigger] old(buckets)@[j]) < 2,
        r matches Some(i) ==> i < old(buckets)@.len() && run_len(old(buckets)@[i as int]) >= 2
            && (forall|j: int|
            0 <= j < old(buckets)@.len() && run_len(#[trigger] old(buckets)@[j]) >= 2 ==> range_of(
                old(buckets)@[j],
                pixels@,
            ) <= range_of(old(buckets)@[i as int], pixels@)) && (forall|j: int|
            0 <= j < i && run_len(#[trigger] old(buckets)@[j]) >= 2 ==> range_of(
                old(buckets)@[j],
                pixels@,
            ) < range_of(old(buckets)@[i as int], pixels@)),
{
    let ghost start = buckets@;
    let count = buckets.len();
    let mut biggest: usize = count;
    let mut best: u8 = 0;
    let mut k: usize = 0;
    while k < count
        invariant
            count == buckets@.len(),
            count == start.len(),
            k <= count,
            buckets_wf(buckets@, pixels@),
            forall|i: int|
                0 <= i < count ==> (#[trigger] buckets@[i]).start == start[i].start
                    && buckets@[i].end == start[i].end,
            biggest == count || (biggest < k && run_len(start[biggest as int]) >= 2 && best
                == range_of(start[biggest as int], pixels@)),
            biggest == count ==> forall|j: int| 0 <= j < k ==> run_len(#[trigger] start[j]) < 2,
            biggest < count ==> forall|j: int|
                0 <= j < k && run_len(#[trigger] start[j]) >= 2 ==> range_of(start[j], pixels@)
                    <= best,
            biggest < count ==> forall|j: int|
                0 <= j < biggest && run_len(#[trigger] start[j]) >= 2 ==> range_of(start[j], pixels@)
                    < best,
        decreases count - k,
    {
        let mut b = buckets[k];
        let g = b.max_range(pixels);
        let ghost before = buckets@;
        buckets.set(k, b);
        proof {
            lemma_total_update(before, k as int, b);
            assert forall|i: int, j: int|
                0 <= i < buckets@.len() && 0 <= j < buckets@.len() && i != j implies disjoint(
                #[trigger] buckets@[i],
                #[trigger] buckets@[j],
            ) by {
                assert(disjoint(before[i], before[j]));
            }
            assert(g.range == range_of(start[k as int], pixels@));
        }
        if b.end - b.start >= 2 && (biggest == count || g.range > best) {
            biggest = k;
            best = g.range;
        }
        k = k + 1;
    }
    if biggest == count {
        None
    } else {
        Some(biggest)
    }
}

/// An ordered list of colours; a pixel's index in it is what goes on the wire.
pub struct Palette {
    palette: Vec<Pixel>,
}

impl View for Palette {
    type V = Seq<Pixel>;

    closed spec fn view(&self) -> Seq<Pixel> {
        self.palette@
    }
}

impl Palette {
    /// The colours, in index order.
    pub fn palette(&self) -> (r: &Vec<Pixel>)
        ensures
            r@ == self@,
    {
        &self.palette
    }

    /// Number of colours.
    pub fn len(&self) -> (r: usize)
        ensures
            r == self@.len(),
    {
        self.palette.len()
    }

    /// Median cut: starting from one bucket of all the image's pixels, repeatedly sorts the
    /// widest splittable bucket along its widest channel and cuts it at the midpoint (the
    /// last bucket takes its place, the two halves go at the end), until there are `size`
    /// buckets or every bucket is a single pixel. Each bucket gives one colour, in bucket
    /// order.
    pub fn new(size: usize, image: &RgbImage) -> (r: Self)
        requires
            size >= 1,
            image.pixels@.len() >= 1,
        ensures
            r@.len() == palette_len(size as int, image.pixels@.len() as int),
            forall|q: int| 0 <= q < r@.len() ==> image.pixels@.contains(#[trigger] r@[q]),
    {
        let n = image.pixels.len();
        let mut pixels: Vec<Pixel> = Vec::with_capacity(n);
        let mut i: usize = 0;
        while i < n
            invariant
                n == image.pixels@.len(),
                i <= n,
                pixels@ == image.pixels@.subrange(0, i as int),
            decreases n - i,
        {
            pixels.push(image.pixels[i]);
            i = i + 1;
            proof {
                assert(pixels@ =~= image.pixels@.subrange(0, i as int));
            }
        }
        let mut buckets: Vec<PixelBucket> = Vec::new();
        buckets.push(PixelBucket::new(0, n, &pixels));
        proof {
            assert(total_len(buckets@.drop_last()) == 0);
            assert(pixels@ =~= image.pixels@);
        }
        while buckets.len() < size
            invariant
                1 <= buckets@.len() <= size,
                pixels@.len() == n,
                pixels@.to_multiset() == image.pixels@.to_multiset(),
                buckets_wf(buckets@, pixels@),
            ensures
                pixels@.to_multiset() == image.pixels@.to_multiset(),
                1 <= buckets@.len() <= size,
                pixels@.len() == n,
                buckets_wf(buckets@, pixels@),
                buckets@.len() == size || forall|j: int|
                    0 <= j < buckets@.len() ==> run_len(#[trigger] buckets@[j]) == 1,
            decreases size - buckets@.len(),
        {
            let biggest: usize = match select_bucket(&mut buckets, &pixels) {
                Some(i) => i,
                None => {
                    assert forall|j: int| 0 <= j < buckets@.len() implies run_len(
                        #[trigger] buckets@[j],
                    ) == 1 by {
                        assert(buckets@[j].start < buckets@[j].end);
                    }
                    break;
                },
            };
            let mut b = buckets[biggest];
            let ghost old_pixels = pixels@;
            let ghost old_buckets = buckets@;
            b.sort_by_greatest_range(&mut pixels);
            let (left, right) = b.split_at_median();
            buckets.swap_remove(biggest);
            buckets.push(left);
            buckets.push(right);
            proof {
                lemma_splice_multiset(old_pixels, pixels@, b.start as int, b.end as int);
                let bs = buckets@;
                let mid = old_buckets.update(biggest as int, old_buckets.last()).drop_last();
                assert(bs == mid.push(left).push(right));
                // Every bucket other than the two halves was a bucket before, other than
                // the one split.
                assert forall|i: int| 0 <= i < mid.len() implies exists|j: int|
                    0 <= j < old_buckets.len() && j != biggest && #[trigger] mid[i] == old_buckets[j] by {
                    if i == biggest {
                        assert(mid[i] == old_buckets[old_buckets.len() - 1]);
                    } else {
                        assert(mid[i] == old_buckets[i]);
                    }
                }
                let updated = old_buckets.update(biggest as int, old_buckets.last());
                lemma_total_update(old_buckets, biggest as int, old_buckets.last());
                assert(updated.last() == old_buckets.last());
                assert(total_len(mid) == n - run_len(old_buckets[biggest as int]));
                assert(mid.push(left).push(right).drop_last() =~= mid.push(left));
                assert(mid.push(left).drop_last() =~= mid);
                assert(total_len(mid.push(left)) == total_len(mid) + run_len(left));
                assert(total_len(mid.push(left).push(right)) == total_len(mid.push(left)) + run_len(right));
                assert(run_len(left) + run_len(right) == run_len(old_buckets[biggest as int]));
                assert(total_len(bs) == n);
                assert forall|i: int|
                    0 <= i < bs.len() && (#[trigger] bs[i]).max_range is Some implies bs[i].max_range
                    == Some(greatest_range_of(pixels@.subrange(bs[i].start as int, bs[i].end as int))) by {
                    let j = choose|j: int|
                        0 <= j < old_buckets.len() && j != biggest && #[trigger] mid[i] == old_buckets[j];
                    assert(disjoint(old_buckets[j], old_buckets[biggest as int]));
                    assert(pixels@.subrange(bs[i].start as int, bs[i].end as int) =~= old_pixels.subrange(
                        bs[i].start as int,
                        bs[i].end as int,
                    ));
                }
                assert forall|i: int, j: int|
                    0 <= i < bs.len() && 0 <= j < bs.len() && i != j implies disjoint(
                    #[trigger] bs[i],
                    #[trigger] bs[j],
                ) by {
                    if i < mid.len() && j < mid.len() {
                        let a = choose|a: int|
                            0 <= a < old_buckets.len() && a != biggest && #[trigger] mid[i] == old_buckets[a];
                        let c = choose|c: int|
                            0 <= c < old_buckets.len() && c != biggest && #[trigger] mid[j] == old_buckets[c];
                        assert(disjoint(old_buckets[a], old_buckets[c]));
                    } else if i < mid.len() {
                        let a = choose|a: int|
                            0 <= a < old_buckets.len() && a != biggest && #[trigger] mid[i] == old_buckets[a];
                        assert(disjoint(old_buckets[a], old_buckets[biggest as int]));
                    } else if j < mid.len() {
                        let c = choose|c: int|
                            0 <= c < old_buckets.len() && c != biggest && #[trigger] mid[j] == old_buckets[c];
                        assert(disjoint(old_buckets[c], old_buckets[biggest as int]));
                    }
                }
            }
        }
        proof {
            lemma_total_bounds(buckets@);
            assert(pixels@.len() == n);
        }
        let mut palette: Vec<Pixel> = Vec::with_capacity(size);
        let mut j: usize = 0;
        while j < buckets.len()
            invariant
                j <= buckets@.len(),
                palette@.len() == j,
                pixels@.len() == n,
                pixels@.to_multiset() == image.pixels@.to_multiset(),
                buckets_wf(buckets@, pixels@),
                forall|q: int| 0 <= q < j ==> image.pixels@.contains(#[trigger] palette@[q]),
            decreases buckets@.len() - j,
        {
            let colour = buckets[j].average_colors(&pixels);
            proof {
                let last = buckets@[j as int].end - 1;
                assert(colour == pixels@[last]);
                assert(pixels@.contains(colour));
                pixels@.to_multiset_ensures();
                image.pixels@.to_multiset_ensures();
                assert(pixels@.to_multiset().count(colour) > 0);
                assert(image.pixels@.contains(colour));
            }
            let ghost before = palette@;
            palette.push(colour);
            proof {
                assert forall|q: int| 0 <= q < j + 1 implies image.pixels@.contains(
                    #[trigger] palette@[q],
                ) by {
                    if q < j {
                        assert(palette@[q] == before[q]);
                    }
                }
            }
            j = j + 1;
        }
        Palette { palette }
    }
}

} // verus!
