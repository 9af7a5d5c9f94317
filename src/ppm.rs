use vstd::prelude::*;

verus! {

/// A pixel quantized to eight bits per channel.
#[derive(Clone, Copy, Debug, PartialEq, Eq, Structural)]
pub struct Rgb8 {
    pub r: u8,
    pub g: u8,
    pub b: u8,
}

/// The ASCII byte of the decimal digit `d`.
pub open spec fn digit_byte(d: nat) -> u8 {
    (48 + d) as u8
}

/// The ASCII decimal form of `n`, without leading zeros.
pub open spec fn decimal(n: nat) -> Seq<u8>
    decreases n,
{
    if n < 10 {
        seq![digit_byte(n)]
    } else {
        decimal(n / 10).push(digit_byte(n % 10))
    }
}

/// `P3`, the width and height, and the largest channel value, each on a line.
pub open spec fn ppm_header(width: nat, height: nat) -> Seq<u8> {
    seq![80u8, 51, 10] + decimal(width) + seq![32u8] + decimal(height) + seq![10u8] + seq![
        50u8,
        53,
        53,
        10,
    ]
}

/// One pixel as a line `r g b`.
pub open spec fn pixel_line(p: Rgb8) -> Seq<u8> {
    decimal(p.r as nat) + seq![32u8] + decimal(p.g as nat) + seq![32u8] + decimal(p.b as nat)
        + seq![10u8]
}

/// The lines of the pixels of `row`, left to right.
pub open spec fn row_lines(row: Seq<Rgb8>) -> Seq<u8>
    decreases row.len(),
{
    if row.len() == 0 {
        Seq::empty()
    } else {
        row_lines(row.drop_last()) + pixel_line(row.last())
    }
}

/// The lines of the pixels of `rows`, top row first.
pub open spec fn rows_lines(rows: Seq<Seq<Rgb8>>) -> Seq<u8>
    decreases rows.len(),
{
    if rows.len() == 0 {
        Seq::empty()
    } else {
        rows_lines(rows.drop_last()) + row_lines(rows.last())
    }
}

/// The plain-text pixel map of an image.
pub open spec fn ppm_image(width: nat, height: nat, rows: Seq<Seq<Rgb8>>) -> Seq<u8> {
    ppm_header(width, height) + rows_lines(rows)
}

/// The pixels of each row.
pub open spec fn rows_view(rows: Seq<Vec<Rgb8>>) -> Seq<Seq<Rgb8>> {
    rows.map_values(|row: Vec<Rgb8>| row@)
}

/// Appends the decimal form of `n`.
pub fn push_decimal(out: &mut Vec<u8>, n: u32)
    ensures
        final(out)@ == old(out)@ + decimal(n as nat),
    decreases n,
{
    if n >= 10 {
        push_decimal(out, n / 10);
    }
    out.push((48 + n % 10) as u8);
    proof {
        if n < 10 {
            assert(n % 10 == n);
        }
        assert(final(out)@ =~= old(out)@ + decimal(n as nat));
    }
}

/// Appends the header of a pixel map of the given size.
pub fn push_header(out: &mut Vec<u8>, width: u32, height: u32)
    ensures
        final(out)@ == old(out)@ + ppm_header(width as nat, height as nat),
{
    out.push(80);
    out.push(51);
    out.push(10);
    push_decimal(out, width);
    out.push(32);
    push_decimal(out, height);
    out.push(10);
    out.push(50);
    out.push(53);
    out.push(53);
    out.push(10);
    assert(final(out)@ =~= old(out)@ + ppm_header(width as nat, height as nat));
}

/// Appends the line of one pixel.
pub fn push_pixel(out: &mut Vec<u8>, p: Rgb8)
    ensures
        final(out)@ == old(out)@ + pixel_line(p),
{
    push_decimal(out, p.r as u32);
    out.push(32);
    push_decimal(out, p.g as u32);
    out.push(32);
    push_decimal(out, p.b as u32);
    out.push(10);
    assert(final(out)@ =~= old(out)@ + pixel_line(p));
}

/// Encodes an image, given as rows of pixels from the top, as a plain-text
/// pixel map with one pixel per line.
pub fn encode_ppm(width: u32, height: u32, rows: &Vec<Vec<Rgb8>>) -> (r: Vec<u8>)
    ensures
        r@ == ppm_image(width as nat, height as nat, rows_view(rows@)),
{
    let mut out: Vec<u8> = Vec::new();
    push_header(&mut out, width, height);
    let mut j: usize = 0;
    proof {
        assert(rows_view(rows@).take(0) =~= Seq::<Seq<Rgb8>>::empty());
        assert(out@ =~= ppm_header(width as nat, height as nat) + rows_lines(Seq::empty()));
    }
    while j < rows.len()
        invariant
            j <= rows.len(),
            out@ == ppm_header(width as nat, height as nat) + rows_lines(
                rows_view(rows@).take(j as int),
            ),
        decreases rows.len() - j,
    {
        let row = &rows[j];
        let ghost start = out@;
        let mut i: usize = 0;
        proof {
            assert(row@.take(0) =~= Seq::<Rgb8>::empty());
            assert(out@ =~= start + row_lines(row@.take(0)));
        }
        while i < row.len()
            invariant
                i <= row.len(),
                out@ == start + row_lines(row@.take(i as int)),
            decreases row.len() - i,
        {
            push_pixel(&mut out, row[i]);
            proof {
                assert(row@.take(i + 1).drop_last() =~= row@.take(i as int));
                assert(out@ =~= start + row_lines(row@.take(i + 1)));
            }
            i = i + 1;
        }
        proof {
            let rv = rows_view(rows@);
            assert(rv[j as int] == row@);
            assert(row@.take(row.len() as int) =~= row@);
            assert(rv.take(j + 1).drop_last() =~= rv.take(j as int));
            assert(rv.take(j + 1).last() == row@);
            assert(out@ =~= ppm_header(width as nat, height as nat) + rows_lines(rv.take(j + 1)));
        }
        j = j + 1;
    }
    proof {
        assert(rows_view(rows@).take(rows.len() as int) =~= rows_view(rows@));
    }
    out
}

} // verus!
