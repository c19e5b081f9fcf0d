//! Byte layout of one frame: a binary PPM header, the pixels in row-major
//! order, and a closing newline.

use vstd::prelude::*;
use vstd::string::{is_ascii, is_ascii_spec_bytes, StringSliceAdditionalSpecFns};
use crate::color::{color_of, color_escape};

verus! {

/// ASCII code of the digit `d`.
pub open spec fn digit_byte(d: nat) -> u8 {
    (0x30 + d) as u8
}

/// The decimal numeral of `n` as ASCII bytes, without sign or leading zeros.
pub open spec fn decimal(n: nat) -> Seq<u8>
    decreases n,
{
    if n < 10 {
        seq![digit_byte(n)]
    } else {
        decimal(n / 10).push(digit_byte(n % 10))
    }
}

/// The header of a frame: the magic number `P6`, the width and the height in
/// decimal, and the largest channel value, each followed by white space.
pub open spec fn header_bytes(width: nat, height: nat) -> Seq<u8> {
    seq![0x50u8, 0x36u8, 0x0au8] + decimal(width) + seq![0x20u8] + decimal(height)
        + seq![0x0au8, 0x32u8, 0x35u8, 0x35u8, 0x0au8]
}

/// One channel of a colour: 0 is red, 1 is green, anything else is blue.
pub open spec fn channel_at(rgb: (u8, u8, u8), k: int) -> u8 {
    if k == 0 {
        rgb.0
    } else if k == 1 {
        rgb.1
    } else {
        rgb.2
    }
}

/// The pixel data for a run of samples: three bytes for each sample, in the
/// order of the samples, red first.
pub open spec fn pixel_bytes(samples: Seq<Option<u32>>) -> Seq<u8> {
    Seq::new(3 * samples.len(), |i: int| channel_at(color_of(samples[i / 3]), i % 3))
}

/// A whole frame: header, pixel data, and one newline.
pub open spec fn frame_bytes(width: nat, height: nat, samples: Seq<Option<u32>>) -> Seq<u8> {
    header_bytes(width, height) + pixel_bytes(samples) + seq![0x0au8]
}

/// Appends the decimal numeral of `n` to `buffer`.
pub fn push_decimal(buffer: &mut Vec<u8>, n: u32)
    ensures
        final(buffer)@ == old(buffer)@ + decimal(n as nat),
    decreases n,
{
    if n >= 10 {
        push_decimal(buffer, n / 10);
    }
    let digit: u8 = (n % 10) as u8;
    buffer.push(0x30u8 + digit);
}

/// The header of a frame of the given size.
pub fn header(width: u32, height: u32) -> (bytes: Vec<u8>)
    ensures
        bytes@ == header_bytes(width as nat, height as nat),
{
    let mut bytes: Vec<u8> = Vec::new();
    bytes.push(0x50u8);
    bytes.push(0x36u8);
    bytes.push(0x0au8);
    push_decimal(&mut bytes, width);
    bytes.push(0x20u8);
    push_decimal(&mut bytes, height);
    bytes.push(0x0au8);
    bytes.push(0x32u8);
    bytes.push(0x35u8);
    bytes.push(0x35u8);
    bytes.push(0x0au8);
    bytes
}

/// Adding one sample adds its three channel bytes to the pixel data.
pub proof fn lemma_pixel_bytes_push(samples: Seq<Option<u32>>, next: Option<u32>)
    ensures
        pixel_bytes(samples.push(next)) == pixel_bytes(samples) + seq![
            color_of(next).0,
            color_of(next).1,
            color_of(next).2,
        ],
{
    let rgb = color_of(next);
    let longer = pixel_bytes(samples.push(next));
    let joined = pixel_bytes(samples) + seq![rgb.0, rgb.1, rgb.2];
    assert(longer.len() == joined.len());
    assert forall|i: int| 0 <= i < longer.len() implies longer[i] == joined[i] by {
        if i < 3 * samples.len() {
            assert(samples.push(next)[i / 3] == samples[i / 3]);
        } else {
            assert(i / 3 == samples.len());
            assert(samples.push(next)[i / 3] == next);
        }
    }
    assert(longer =~= joined);
}

/// Builds the frame for a `width` by `height` grid from the escape outcome
/// of each grid point, given row by row from the top and within a row from
/// the left.
pub fn gen_image(width: u32, height: u32, samples: &[Option<u32>]) -> (buffer: Vec<u8>)
    requires
        samples@.len() == width as nat * height as nat,
    ensures
        buffer@ == frame_bytes(width as nat, height as nat, samples@),
        buffer@.len() == header_bytes(width as nat, height as nat).len() + width as nat
            * height as nat * 3 + 1,
{
    let mut buffer: Vec<u8> = header(width, height);
    let mut at: usize = 0;
    let mut row: u32 = 0;
    while row < height
        invariant
            row <= height,
            samples@.len() == width as nat * height as nat,
            at as nat == row as nat * width as nat,
            buffer@ == header_bytes(width as nat, height as nat) + pixel_bytes(
                samples@.take(at as int),
            ),
        decreases height - row,
    {
        let mut col: u32 = 0;
        while col < width
            invariant
                row < height,
                col <= width,
                samples@.len() == width as nat * height as nat,
                at as nat == row as nat * width as nat + col as nat,
                buffer@ == header_bytes(width as nat, height as nat) + pixel_bytes(
                    samples@.take(at as int),
                ),
            decreases width - col,
        {
            proof {
                lemma_cell_in_grid(row as nat, col as nat, width as nat, height as nat);
                lemma_pixel_bytes_push(samples@.take(at as int), samples@[at as int]);
                assert(samples@.take(at as int).push(samples@[at as int]) =~= samples@.take(
                    at as int + 1,
                ));
            }
            let color: (u8, u8, u8) = color_escape(samples[at]);
            buffer.push(color.0);
            buffer.push(color.1);
            buffer.push(color.2);
            at = at + 1;
            col = col + 1;
        }
        proof {
            assert((row as nat + 1) * width as nat == row as nat * width as nat + width as nat)
                by (nonlinear_arith);
        }
        row = row + 1;
    }
    proof {
        assert(samples@.take(at as int) =~= samples@) by {
            assert(row == height);
            assert(at as nat == height as nat * width as nat);
            assert(height as nat * width as nat == width as nat * height as nat)
                by (nonlinear_arith);
        }
    }
    buffer.push(0x0au8);
    buffer
}

/// A cell of the grid has a place in the row-major run of its samples.
pub proof fn lemma_cell_in_grid(row: nat, col: nat, width: nat, height: nat)
    requires
        row < height,
        col < width,
    ensures
        row * width + col < width * height,
{
    assert(row * width + col < width * height) by (nonlinear_arith)
        requires
            row + 1 <= height,
            col < width,
    {
        assert((row + 1) * width <= height * width);
    }
}

/// The number that a run of ASCII digits denotes.
pub open spec fn numeral_value(digits: Seq<u8>) -> nat
    decreases digits.len(),
{
    if digits.len() == 0 {
        0
    } else {
        numeral_value(digits.drop_last()) * 10 + (digits.last() - 0x30) as nat
    }
}

/// A decimal numeral is made of digits only, has no leading zero unless it
/// is the single digit of zero, and denotes the number it was made from.
pub proof fn lemma_decimal_reads_back(n: nat)
    ensures
        decimal(n).len() >= 1,
        forall|i: int| 0 <= i < decimal(n).len() ==> 0x30 <= #[trigger] decimal(n)[i] <= 0x39,
        n > 0 ==> decimal(n)[0] != 0x30,
        numeral_value(decimal(n)) == n,
    decreases n,
{
    if n < 10 {
        assert(decimal(n).drop_last() =~= Seq::<u8>::empty());
        assert(numeral_value(decimal(n).drop_last()) == 0);
    } else {
        lemma_decimal_reads_back(n / 10);
        let head = decimal(n / 10);
        assert(decimal(n).drop_last() =~= head);
        assert(decimal(n).last() == digit_byte(n % 10));
        assert(decimal(n)[0] == head[0]);
        assert forall|i: int| 0 <= i < decimal(n).len() implies 0x30 <= #[trigger] decimal(n)[i]
            <= 0x39 by {
            if i < head.len() {
                assert(decimal(n)[i] == head[i]);
            }
        }
    }
}

/// The power of ten with `k` zeros.
pub open spec fn ten_to(k: nat) -> nat
    decreases k,
{
    if k == 0 {
        1
    } else {
        10 * ten_to((k - 1) as nat)
    }
}

/// The numeral of a number below the power of ten with `k` zeros, for `k`
/// of at least one, has at most `k` digits.
pub proof fn lemma_decimal_len(n: nat, k: nat)
    requires
        k >= 1,
        n < ten_to(k),
    ensures
        decimal(n).len() <= k,
    decreases k,
{
    if n >= 10 {
        if k == 1 {
            assert(ten_to(1) == 10) by {
                reveal_with_fuel(ten_to, 2);
            }
        } else {
            lemma_decimal_len(n / 10, (k - 1) as nat);
        }
    }
}

/// The header, read as text, is `P6`, a newline, the width, a space, the
/// height, a newline, `255` and a newline.
pub proof fn lemma_header_text(width: nat, height: nat)
    ensures
        header_bytes(width, height) == "P6\n".spec_bytes() + decimal(width) + " ".spec_bytes()
            + decimal(height) + "\n255\n".spec_bytes(),
{
    reveal_strlit("P6\n");
    reveal_strlit(" ");
    reveal_strlit("\n255\n");
    assert(is_ascii("P6\n") && is_ascii(" ") && is_ascii("\n255\n"));
    is_ascii_spec_bytes("P6\n");
    is_ascii_spec_bytes(" ");
    is_ascii_spec_bytes("\n255\n");
    assert("P6\n".spec_bytes() =~= seq![0x50u8, 0x36u8, 0x0au8]);
    assert(" ".spec_bytes() =~= seq![0x20u8]);
    assert("\n255\n".spec_bytes() =~= seq![0x0au8, 0x32u8, 0x35u8, 0x35u8, 0x0au8]);
}

/// The header of a frame whose sides fit in 32 bits takes between 11 and
/// 29 bytes.
pub proof fn lemma_header_len(width: nat, height: nat)
    requires
        width <= u32::MAX,
        height <= u32::MAX,
    ensures
        header_bytes(width, height).len() == 9 + decimal(width).len() + decimal(height).len(),
        11 <= header_bytes(width, height).len() <= 29,
{
    lemma_decimal_reads_back(width);
    lemma_decimal_reads_back(height);
    assert(ten_to(10) == 10_000_000_000nat) by {
        reveal_with_fuel(ten_to, 11);
    }
    lemma_decimal_len(width, 10);
    lemma_decimal_len(height, 10);
}

/// A frame is as long as its header, three bytes for each cell of the
/// grid, and the closing newline.
pub proof fn lemma_frame_len(width: nat, height: nat, samples: Seq<Option<u32>>)
    requires
        samples.len() == width * height,
    ensures
        frame_bytes(width, height, samples).len() == header_bytes(width, height).len() + width
            * height * 3 + 1,
{
}

/// The frame starts with its header, holds the three channels of the cell
/// in row `row` and column `col` at offset `3 * (row * width + col)` of
/// the pixel data, red first, and ends with a newline.
pub proof fn lemma_frame_layout(
    width: nat,
    height: nat,
    samples: Seq<Option<u32>>,
    row: nat,
    col: nat,
    k: nat,
)
    requires
        samples.len() == width * height,
        row < height,
        col < width,
        k < 3,
    ensures
        row * width + col < samples.len(),
        frame_bytes(width, height, samples).subrange(
            0,
            header_bytes(width, height).len() as int,
        ) == header_bytes(width, height),
        frame_bytes(width, height, samples)[(header_bytes(width, height).len() + 3 * (row
            * width + col) + k) as int] == channel_at(
            color_of(samples[(row * width + col) as int]),
            k as int,
        ),
        frame_bytes(width, height, samples).last() == 0x0au8,
{
    lemma_cell_in_grid(row, col, width, height);
    let header = header_bytes(width, height);
    let frame = frame_bytes(width, height, samples);
    let cell: int = (row * width + col) as int;
    let offset: int = 3 * cell + k;
    assert(frame.subrange(0, header.len() as int) =~= header);
    assert(frame[header.len() + offset] == pixel_bytes(samples)[offset]);
    assert(offset / 3 == cell);
    assert(offset % 3 == k);
}

} // verus!
