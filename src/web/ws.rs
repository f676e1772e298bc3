//! Wire messages: one per decoded frame.
use crate::palette::{Palette, Pixel};
use vstd::prelude::*;

verus! {

/// The lowercase hexadecimal digit for `d < 16`.
pub open spec fn hex_char(d: int) -> char {
    if d < 10 {
        ('0' as int + d) as char
    } else {
        ('a' as int + d - 10) as char
    }
}

/// The value of a lowercase hexadecimal digit; `None` for any other character.
pub open spec fn hex_value(c: char) -> Option<int> {
    if '0' <= c <= '9' {
        Some(c as int - '0' as int)
    } else if 'a' <= c <= 'f' {
        Some(c as int - 'a' as int + 10)
    } else {
        None
    }
}

/// The row `y` of the index grid: one digit per column.
pub open spec fn row_of(indices: Seq<usize>, width: int, y: int) -> Seq<char> {
    Seq::new(width as nat, |x: int| hex_char(indices[y * width + x] as int))
}

/// Relies on `String::push`: appends the character after the others.
#[verifier::external_body]
fn push_char(s: &mut String, c: char)
    ensures
        final(s)@ == old(s)@.push(c),
{
    s.push(c)
}

/// The lowercase hexadecimal digit for `d`.
pub fn hex_digit(d: usize) -> (c: char)
    requires
        d < 16,
    ensures
        c == hex_char(d as int),
{
    if d < 10 {
        (('0' as u8) + d as u8) as char
    } else {
        (('a' as u8) + (d as u8 - 10)) as char
    }
}

/// A video frame on the wire: the colours, and one row of palette indices per image row.
#[derive(Debug)]
pub struct StreamVideoFrame {
    pub palette: Vec<Pixel>,
    pub rows: Vec<String>,
}

/// An audio frame on the wire: packed DFPWM bits.
#[derive(Debug)]
pub struct StreamAudioFrame {
    pub samples: Vec<u8>,
}

/// Writes the palette indices of a `width * height` image, row by row, one lowercase
/// hexadecimal digit per pixel.
pub fn index_rows(indices: &Vec<usize>, width: u32, height: u32) -> (rows: Vec<String>)
    requires
        indices@.len() == width * height,
        forall|i: int| 0 <= i < indices@.len() ==> #[trigger] indices@[i] < 16,
    ensures
        rows@.len() == height,
        forall|y: int| 0 <= y < height ==> (#[trigger] rows@[y])@ == row_of(indices@, width as int, y),
{
    let total: usize = indices.len();
    let mut rows: Vec<String> = Vec::new();
    let mut y: u32 = 0;
    while y < height
        invariant
            y <= height,
            indices@.len() == width * height,
            total == indices@.len(),
            forall|i: int| 0 <= i < indices@.len() ==> #[trigger] indices@[i] < 16,
            rows@.len() == y,
            forall|r: int| 0 <= r < y ==> (#[trigger] rows@[r])@ == row_of(indices@, width as int, r),
        decreases height - y,
    {
        let mut line = String::new();
        let mut x: u32 = 0;
        while x < width
            invariant
                x <= width,
                y < height,
                indices@.len() == width * height,
                total == indices@.len(),
                forall|i: int| 0 <= i < indices@.len() ==> #[trigger] indices@[i] < 16,
                line@ == row_of(indices@, width as int, y as int).subrange(0, x as int),
            decreases width - x,
        {
            assert(y * width + x < width * height) by (nonlinear_arith)
                requires
                    x < width,
                    y < height,
            ;
            assert(0 <= y * width) by (nonlinear_arith);
            let i: usize = y as usize * width as usize + x as usize;
            push_char(&mut line, hex_digit(indices[i]));
            x = x + 1;
            proof {
                assert(line@ =~= row_of(indices@, width as int, y as int).subrange(0, x as int));
            }
        }
        proof {
            assert(line@ =~= row_of(indices@, width as int, y as int));
        }
        rows.push(line);
        y = y + 1;
    }
    rows
}

impl StreamVideoFrame {
    /// The message for a `width * height` frame mapped to `palette`: its colours, and the
    /// rows of indices.
    pub fn new(palette: &Palette, indices: &Vec<usize>, width: u32, height: u32) -> (r: Self)
        requires
            indices@.len() == width * height,
            forall|i: int| 0 <= i < indices@.len() ==> #[trigger] indices@[i] < 16,
        ensures
            r.palette@ == palette@,
            r.rows@.len() == height,
            forall|y: int|
                0 <= y < height ==> (#[trigger] r.rows@[y])@ == row_of(indices@, width as int, y),
    {
        let colours = palette.palette();
        let mut copy: Vec<Pixel> = Vec::new();
        let mut i: usize = 0;
        while i < colours.len()
            invariant
                i <= colours@.len(),
                copy@ == colours@.subrange(0, i as int),
            decreases colours@.len() - i,
        {
            copy.push(colours[i]);
            i = i + 1;
            proof {
                assert(copy@ =~= colours@.subrange(0, i as int));
            }
        }
        proof {
            assert(copy@ =~= colours@);
        }
        StreamVideoFrame { palette: copy, rows: index_rows(indices, width, height) }
    }
}

/// Every character of a row is a lowercase hexadecimal digit, and reading it back gives the
/// index it was written for.
pub proof fn lemma_rows_round_trip(indices: Seq<usize>, width: int, y: int, x: int)
    requires
        0 <= x < width,
        0 <= y * width + x < indices.len(),
        indices[y * width + x] < 16,
    ensures
        ('0' <= row_of(indices, width, y)[x] <= '9') || ('a' <= row_of(indices, width, y)[x] <= 'f'),
        hex_value(row_of(indices, width, y)[x]) == Some(indices[y * width + x] as int),
{
}

} // verus!
