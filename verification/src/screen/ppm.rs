//! Serialization of a screen as a binary portable pixmap.
//!
//! The stream starts with the header `P6\n<width> <height>\n<max>\n` in
//! ASCII. The pixels follow row by row from the bottom row of the screen to
//! the top one, each row from left to right, each pixel as red, green and
//! blue. A channel takes one byte when the largest channel value fits a
//! byte, and two bytes, low byte first, when it does not.
use crate::error::EncodingError;
use crate::screen::color::{Color, RGB8Color};
use crate::screen::raster::{Cell, Screen, ScreenView};
use vstd::prelude::*;

verus! {

/// The decimal digits of `n` in ASCII, most significant first.
pub open spec fn decimal(n: nat) -> Seq<u8>
    decreases n,
{
    if n < 10 {
        seq![(48 + n) as u8]
    } else {
        decimal(n / 10).push((48 + n % 10) as u8)
    }
}

/// The header of an image of the given size and largest channel value.
pub open spec fn header(width: nat, height: nat, max: nat) -> Seq<u8> {
    seq![80u8, 54u8, 10u8] + decimal(width) + seq![32u8] + decimal(height) + seq![10u8] + decimal(
        max,
    ) + seq![10u8]
}

/// The bytes of one channel.
pub open spec fn channel_bytes(value: u16, max: u16) -> Seq<u8> {
    if max <= 255 {
        seq![value as u8]
    } else {
        seq![(value % 256) as u8, (value / 256) as u8]
    }
}

/// The bytes of one pixel.
pub open spec fn pixel_bytes<T: Color>(color: T) -> Seq<u8> {
    channel_bytes(color.spec_red(), T::spec_max_val()) + channel_bytes(
        color.spec_green(),
        T::spec_max_val(),
    ) + channel_bytes(color.spec_blue(), T::spec_max_val())
}

/// The bytes of the first `n` pixels.
pub open spec fn body<T: Color>(cells: Seq<Cell<T>>, n: nat) -> Seq<u8>
    decreases n,
{
    if n == 0 {
        Seq::empty()
    } else {
        body(cells, (n - 1) as nat) + pixel_bytes(cells[n - 1].color)
    }
}

/// Whether no channel of the color exceeds the largest channel value.
pub open spec fn in_range<T: Color>(color: T) -> bool {
    &&& color.spec_red() <= T::spec_max_val()
    &&& color.spec_green() <= T::spec_max_val()
    &&& color.spec_blue() <= T::spec_max_val()
}

/// Whether every one of the first `n` pixels is in range.
pub open spec fn all_in_range<T: Color>(cells: Seq<Cell<T>>, n: int) -> bool {
    forall|i: int| 0 <= i < n ==> in_range(#[trigger] cells[i].color)
}

/// The whole stream for a screen.
pub open spec fn encoded<T: Color>(s: ScreenView<T>) -> Seq<u8> {
    header(s.width as nat, s.height as nat, T::spec_max_val() as nat) + body(
        s.cells,
        s.cells.len(),
    )
}

/// `n` zero bytes.
pub open spec fn zeros(n: nat) -> Seq<u8> {
    Seq::new(n, |i: int| 0u8)
}

/// Appends the decimal digits of `n`.
pub fn push_decimal(out: &mut Vec<u8>, n: usize)
    ensures
        final(out)@ == old(out)@ + decimal(n as nat),
    decreases n,
{
    if n >= 10 {
        push_decimal(out, n / 10);
    }
    let digit: u8 = 48 + (n % 10) as u8;
    out.push(digit);
    proof {
        if n >= 10 {
            assert(final(out)@ =~= old(out)@ + decimal((n / 10) as nat).push(digit));
        } else {
            assert(final(out)@ =~= old(out)@ + seq![digit]);
        }
    }
}

/// Appends the bytes of one channel.
fn push_channel(out: &mut Vec<u8>, value: u16, max: u16)
    requires
        value <= max,
    ensures
        final(out)@ == old(out)@ + channel_bytes(value, max),
{
    if max <= 255 {
        out.push(value as u8);
        assert(final(out)@ =~= old(out)@ + channel_bytes(value, max));
    } else {
        out.push((value % 256) as u8);
        out.push((value / 256) as u8);
        assert(final(out)@ =~= old(out)@ + channel_bytes(value, max));
    }
}

impl<T: Color> Screen<T> {
    /// The screen as a binary portable pixmap.
    ///
    /// Fails if a channel of some pixel exceeds the largest channel value,
    /// and then names the first such pixel in stream order.
    pub fn byte_vec(&self) -> (r: Result<Vec<u8>, EncodingError>)
        ensures
            r.is_ok() <==> all_in_range(self@.cells, self@.cells.len() as int),
            r matches Ok(bytes) ==> all_in_range(self@.cells, self@.cells.len() as int) && bytes@
                == encoded(self@),
            r matches Err(EncodingError::ChannelOutOfRange { index }) ==> index
                < self@.cells.len() && !in_range(self@.cells[index as int].color) && all_in_range(
                self@.cells,
                index as int,
            ),
    {
        let max: u16 = T::max_val();
        let count: usize = self.cell_count();
        let mut out: Vec<u8> = Vec::new();
        out.push(80u8);
        out.push(54u8);
        out.push(10u8);
        push_decimal(&mut out, self.width());
        out.push(32u8);
        push_decimal(&mut out, self.height());
        out.push(10u8);
        push_decimal(&mut out, max as usize);
        out.push(10u8);
        let ghost head = header(
            self@.width as nat,
            self@.height as nat,
            T::spec_max_val() as nat,
        );
        assert(out@ =~= head);
        let mut i: usize = 0;
        while i < count
            invariant
                i <= count,
                count == self@.cells.len(),
                max == T::spec_max_val(),
                all_in_range(self@.cells, i as int),
                out@ == head + body(self@.cells, i as nat),
            decreases count - i,
        {
            let c: T = self.color_at_index(i);
            let red: u16 = c.red();
            let green: u16 = c.green();
            let blue: u16 = c.blue();
            if max < red || max < green || max < blue {
                return Err(EncodingError::ChannelOutOfRange { index: i });
            }
            let ghost before = out@;
            push_channel(&mut out, red, max);
            push_channel(&mut out, green, max);
            push_channel(&mut out, blue, max);
            proof {
                assert(out@ =~= before + pixel_bytes(c));
                assert(body(self@.cells, (i + 1) as nat) == body(self@.cells, i as nat)
                    + pixel_bytes(c));
                assert(out@ =~= head + body(self@.cells, (i + 1) as nat));
            }
            i = i + 1;
        }
        Ok(out)
    }
}

/// The body of an image whose first `n` pixels are black is `3 * n` zero
/// bytes, where each channel takes one byte.
pub proof fn lemma_black_body(cells: Seq<Cell<RGB8Color>>, n: nat)
    requires
        n <= cells.len(),
        forall|i: int| 0 <= i < n ==> (#[trigger] cells[i]).color == RGB8Color::spec_black(),
    ensures
        body(cells, n) == zeros(3 * n),
    decreases n,
{
    if n == 0 {
        assert(body(cells, n) =~= zeros(3 * n));
    } else {
        lemma_black_body(cells, (n - 1) as nat);
        assert(cells[n - 1].color == RGB8Color::spec_black());
        assert(pixel_bytes(cells[n - 1].color) =~= seq![0u8, 0u8, 0u8]);
        assert(zeros((3 * (n - 1)) as nat) + seq![0u8, 0u8, 0u8] =~= zeros(3 * n));
    }
}

/// A cleared screen of 8-bit colors is encoded as its header followed by
/// `width * height * 3` zero bytes.
pub proof fn lemma_blank_encoding(width: nat, height: nat)
    ensures
        all_in_range(
            ScreenView::<RGB8Color>::blank(width as int, height as int).cells,
            (width * height) as int,
        ),
        encoded(ScreenView::<RGB8Color>::blank(width as int, height as int)) == header(
            width,
            height,
            255,
        ) + zeros(width * height * 3),
{
    let s = ScreenView::<RGB8Color>::blank(width as int, height as int);
    assert(width * height >= 0) by (nonlinear_arith)
        requires
            width >= 0,
            height >= 0,
    ;
    assert(s.cells.len() == width * height);
    lemma_black_body(s.cells, s.cells.len());
    assert(3 * (width * height) == width * height * 3) by (nonlinear_arith);
}

} // verus!
