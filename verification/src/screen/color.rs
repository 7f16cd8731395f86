//! Pixel colors: red, green and blue channels with saturating arithmetic.
use crate::scalar::{div_wide, lemma_product_bounds, mul_wide, trunc_div, Scalar, ONE_RAW};
use vstd::prelude::*;
use vstd::std_specs::convert::FromSpecImpl;
use vstd::std_specs::ops::{AddSpecImpl, SubSpecImpl};

verus! {

/// One channel `channel` scaled by the coefficient whose raw count is `k`:
/// the product, rounded toward zero and limited to `0 ..= max`.
pub open spec fn scaled_channel(channel: int, k: int, max: int) -> int {
    let scaled = trunc_div(k * channel, ONE_RAW as int);
    if scaled < 0 {
        0
    } else if scaled > max {
        max
    } else {
        scaled
    }
}

/// The sum of two channels, limited to `max`.
pub open spec fn channel_sum(a: int, b: int, max: int) -> int {
    if a + b > max {
        max
    } else {
        a + b
    }
}

/// The difference of two channels, limited to zero.
pub open spec fn channel_difference(a: int, b: int) -> int {
    if a - b < 0 {
        0
    } else {
        a - b
    }
}

/// What the renderer needs of a pixel color.
///
/// A color has three channels, each at most `max_val()`. Colors are added
/// and subtracted channel by channel with saturation, and scaled channel by
/// channel by three coefficients.
pub trait Color: Copy {
    spec fn spec_red(&self) -> u16;

    spec fn spec_green(&self) -> u16;

    spec fn spec_blue(&self) -> u16;

    /// The largest value a channel may hold.
    spec fn spec_max_val() -> u16;

    /// The color that a cleared screen holds.
    spec fn spec_black() -> Self;

    spec fn spec_mult(&self, k: (Scalar, Scalar, Scalar)) -> Self;

    spec fn spec_plus(&self, rhs: Self) -> Self;

    spec fn spec_minus(&self, rhs: Self) -> Self;

    fn red(&self) -> (r: u16)
        ensures
            r == self.spec_red(),
    ;

    fn green(&self) -> (r: u16)
        ensures
            r == self.spec_green(),
    ;

    fn blue(&self) -> (r: u16)
        ensures
            r == self.spec_blue(),
    ;

    /// A color chosen at random. Nothing is known of it.
    fn random_color() -> Self;

    /// The maximum value for any channel.
    fn max_val() -> (m: u16)
        ensures
            m == Self::spec_max_val(),
    ;

    /// The color with all channels zero.
    fn black() -> (c: Self)
        ensures
            c == Self::spec_black(),
            c.spec_red() == 0,
            c.spec_green() == 0,
            c.spec_blue() == 0,
    ;

    /// Scales the channels by the coefficients `k`, red, green and blue in
    /// turn. Larger coefficients give a brighter color.
    fn mult(&self, k: (Scalar, Scalar, Scalar)) -> (c: Self)
        ensures
            c == self.spec_mult(k),
            c.spec_red() == scaled_channel(
                self.spec_red() as int,
                k.0@,
                Self::spec_max_val() as int,
            ),
            c.spec_green() == scaled_channel(
                self.spec_green() as int,
                k.1@,
                Self::spec_max_val() as int,
            ),
            c.spec_blue() == scaled_channel(
                self.spec_blue() as int,
                k.2@,
                Self::spec_max_val() as int,
            ),
    ;

    /// The channel-wise sum, saturated at `max_val()`.
    fn plus(self, rhs: Self) -> (c: Self)
        ensures
            c == self.spec_plus(rhs),
            c.spec_red() == channel_sum(
                self.spec_red() as int,
                rhs.spec_red() as int,
                Self::spec_max_val() as int,
            ),
            c.spec_green() == channel_sum(
                self.spec_green() as int,
                rhs.spec_green() as int,
                Self::spec_max_val() as int,
            ),
            c.spec_blue() == channel_sum(
                self.spec_blue() as int,
                rhs.spec_blue() as int,
                Self::spec_max_val() as int,
            ),
    ;

    /// The channel-wise difference, saturated at zero.
    fn minus(self, rhs: Self) -> (c: Self)
        ensures
            c == self.spec_minus(rhs),
            c.spec_red() == channel_difference(self.spec_red() as int, rhs.spec_red() as int),
            c.spec_green() == channel_difference(
                self.spec_green() as int,
                rhs.spec_green() as int,
            ),
            c.spec_blue() == channel_difference(self.spec_blue() as int, rhs.spec_blue() as int),
    ;
}

/// Calls `rand::random::<u8>()`, which draws one byte from the generator of
/// the current thread. Any byte may come back, so nothing is promised of
/// it. The generator is seeded from the operating system when the thread
/// first uses it.
#[verifier::external_body]
fn random_byte() -> u8 {
    rand::random::<u8>()
}

/// One channel scaled by a coefficient and limited to `0 ..= max`.
fn scale_channel(channel: u16, k: Scalar, max: u16) -> (r: u16)
    ensures
        r as int == scaled_channel(channel as int, k@, max as int),
{
    let wide: i128 = mul_wide(k.raw, channel as i64);
    proof {
        lemma_product_bounds(k.raw as int, channel as int);
    }
    let scaled: i128 = div_wide(wide, ONE_RAW as i128);
    if scaled < 0 {
        0
    } else if scaled > max as i128 {
        max
    } else {
        scaled as u16
    }
}

/// A color in the common format of three 8-bit channels.
#[derive(Debug, Clone, Copy, PartialEq, Eq, Structural)]
pub struct RGB8Color {
    pub red: u8,
    pub green: u8,
    pub blue: u8,
}

impl RGB8Color {
    /// Adds `rhs` to this color in place, saturating each channel.
    pub fn add_assign(&mut self, rhs: Self)
        ensures
            *final(self) == old(self).spec_plus(rhs),
    {
        *self = rhs.plus(*self);
    }
}

impl Color for RGB8Color {
    open spec fn spec_red(&self) -> u16 {
        self.red as u16
    }

    open spec fn spec_green(&self) -> u16 {
        self.green as u16
    }

    open spec fn spec_blue(&self) -> u16 {
        self.blue as u16
    }

    open spec fn spec_max_val() -> u16 {
        255
    }

    open spec fn spec_black() -> Self {
        RGB8Color { red: 0, green: 0, blue: 0 }
    }

    open spec fn spec_mult(&self, k: (Scalar, Scalar, Scalar)) -> Self {
        RGB8Color {
            red: scaled_channel(self.red as int, k.0@, 255) as u8,
            green: scaled_channel(self.green as int, k.1@, 255) as u8,
            blue: scaled_channel(self.blue as int, k.2@, 255) as u8,
        }
    }

    open spec fn spec_plus(&self, rhs: Self) -> Self {
        RGB8Color {
            red: channel_sum(self.red as int, rhs.red as int, 255) as u8,
            green: channel_sum(self.green as int, rhs.green as int, 255) as u8,
            blue: channel_sum(self.blue as int, rhs.blue as int, 255) as u8,
        }
    }

    open spec fn spec_minus(&self, rhs: Self) -> Self {
        RGB8Color {
            red: channel_difference(self.red as int, rhs.red as int) as u8,
            green: channel_difference(self.green as int, rhs.green as int) as u8,
            blue: channel_difference(self.blue as int, rhs.blue as int) as u8,
        }
    }

    fn red(&self) -> (r: u16) {
        self.red as u16
    }

    fn green(&self) -> (r: u16) {
        self.green as u16
    }

    fn blue(&self) -> (r: u16) {
        self.blue as u16
    }

    fn random_color() -> Self {
        let red: u8 = random_byte();
        let green: u8 = random_byte();
        let blue: u8 = random_byte();
        RGB8Color::from((red, green, blue))
    }

    fn max_val() -> (m: u16) {
        255
    }

    fn black() -> (c: Self) {
        RGB8Color { red: 0, green: 0, blue: 0 }
    }

    fn mult(&self, k: (Scalar, Scalar, Scalar)) -> (c: Self) {
        let red: u16 = scale_channel(self.red as u16, k.0, 255);
        let green: u16 = scale_channel(self.green as u16, k.1, 255);
        let blue: u16 = scale_channel(self.blue as u16, k.2, 255);
        RGB8Color { red: red as u8, green: green as u8, blue: blue as u8 }
    }

    fn plus(self, rhs: Self) -> (c: Self) {
        RGB8Color {
            red: self.red.saturating_add(rhs.red),
            green: self.green.saturating_add(rhs.green),
            blue: self.blue.saturating_add(rhs.blue),
        }
    }

    fn minus(self, rhs: Self) -> (c: Self) {
        RGB8Color {
            red: self.red.saturating_sub(rhs.red),
            green: self.green.saturating_sub(rhs.green),
            blue: self.blue.saturating_sub(rhs.blue),
        }
    }
}

impl Default for RGB8Color {
    fn default() -> (c: Self)
        ensures
            c == Self::spec_black(),
    {
        RGB8Color { red: 0, green: 0, blue: 0 }
    }
}

impl From<(u8, u8, u8)> for RGB8Color {
    fn from(tup: (u8, u8, u8)) -> (c: Self) {
        RGB8Color { red: tup.0, green: tup.1, blue: tup.2 }
    }
}

impl FromSpecImpl<(u8, u8, u8)> for RGB8Color {
    open spec fn obeys_from_spec() -> bool {
        true
    }

    open spec fn from_spec(tup: (u8, u8, u8)) -> Self {
        RGB8Color { red: tup.0, green: tup.1, blue: tup.2 }
    }
}

impl core::ops::Add for RGB8Color {
    type Output = Self;

    fn add(self, rhs: Self) -> (c: Self) {
        self.plus(rhs)
    }
}

impl AddSpecImpl for RGB8Color {
    open spec fn obeys_add_spec() -> bool {
        true
    }

    open spec fn add_req(self, rhs: Self) -> bool {
        true
    }

    open spec fn add_spec(self, rhs: Self) -> Self {
        self.spec_plus(rhs)
    }
}

impl core::ops::Sub for RGB8Color {
    type Output = Self;

    fn sub(self, rhs: Self) -> (c: Self) {
        self.minus(rhs)
    }
}

impl SubSpecImpl for RGB8Color {
    open spec fn obeys_sub_spec() -> bool {
        true
    }

    open spec fn sub_req(self, rhs: Self) -> bool {
        true
    }

    open spec fn sub_spec(self, rhs: Self) -> Self {
        self.spec_minus(rhs)
    }
}

/// A color of three 16-bit channels.
#[derive(Debug, Clone, Copy, PartialEq, Eq, Structural)]
pub struct RGB16Color {
    pub red: u16,
    pub green: u16,
    pub blue: u16,
}

/// A channel chosen at random.
fn random_channel() -> u16 {
    let high: u8 = random_byte();
    let low: u8 = random_byte();
    channel_from_bytes(high, low)
}

impl Color for RGB16Color {
    open spec fn spec_red(&self) -> u16 {
        self.red
    }

    open spec fn spec_green(&self) -> u16 {
        self.green
    }

    open spec fn spec_blue(&self) -> u16 {
        self.blue
    }

    open spec fn spec_max_val() -> u16 {
        65535
    }

    open spec fn spec_black() -> Self {
        RGB16Color { red: 0, green: 0, blue: 0 }
    }

    open spec fn spec_mult(&self, k: (Scalar, Scalar, Scalar)) -> Self {
        RGB16Color {
            red: scaled_channel(self.red as int, k.0@, 65535) as u16,
            green: scaled_channel(self.green as int, k.1@, 65535) as u16,
            blue: scaled_channel(self.blue as int, k.2@, 65535) as u16,
        }
    }

    open spec fn spec_plus(&self, rhs: Self) -> Self {
        RGB16Color {
            red: channel_sum(self.red as int, rhs.red as int, 65535) as u16,
            green: channel_sum(self.green as int, rhs.green as int, 65535) as u16,
            blue: channel_sum(self.blue as int, rhs.blue as int, 65535) as u16,
        }
    }

    open spec fn spec_minus(&self, rhs: Self) -> Self {
        RGB16Color {
            red: channel_difference(self.red as int, rhs.red as int) as u16,
            green: channel_difference(self.green as int, rhs.green as int) as u16,
            blue: channel_difference(self.blue as int, rhs.blue as int) as u16,
        }
    }

    fn red(&self) -> (r: u16) {
        self.red
    }

    fn green(&self) -> (r: u16) {
        self.green
    }

    fn blue(&self) -> (r: u16) {
        self.blue
    }

    fn random_color() -> Self {
        let red: u16 = random_channel();
        let green: u16 = random_channel();
        let blue: u16 = random_channel();
        RGB16Color::from((red, green, blue))
    }

    fn max_val() -> (m: u16) {
        65535
    }

    fn black() -> (c: Self) {
        RGB16Color { red: 0, green: 0, blue: 0 }
    }

    fn mult(&self, k: (Scalar, Scalar, Scalar)) -> (c: Self) {
        RGB16Color {
            red: scale_channel(self.red, k.0, 65535),
            green: scale_channel(self.green, k.1, 65535),
            blue: scale_channel(self.blue, k.2, 65535),
        }
    }

    fn plus(self, rhs: Self) -> (c: Self) {
        RGB16Color {
            red: self.red.saturating_add(rhs.red),
            green: self.green.saturating_add(rhs.green),
            blue: self.blue.saturating_add(rhs.blue),
        }
    }

    fn minus(self, rhs: Self) -> (c: Self) {
        RGB16Color {
            red: self.red.saturating_sub(rhs.red),
            green: self.green.saturating_sub(rhs.green),
            blue: self.blue.saturating_sub(rhs.blue),
        }
    }
}

impl Default for RGB16Color {
    fn default() -> (c: Self)
        ensures
            c == Self::spec_black(),
    {
        RGB16Color { red: 0, green: 0, blue: 0 }
    }
}

impl From<(u16, u16, u16)> for RGB16Color {
    fn from(tup: (u16, u16, u16)) -> (c: Self) {
        RGB16Color { red: tup.0, green: tup.1, blue: tup.2 }
    }
}

impl FromSpecImpl<(u16, u16, u16)> for RGB16Color {
    open spec fn obeys_from_spec() -> bool {
        true
    }

    open spec fn from_spec(tup: (u16, u16, u16)) -> Self {
        RGB16Color { red: tup.0, green: tup.1, blue: tup.2 }
    }
}

/// The 16-bit channel whose high byte is `high` and whose low byte is
/// `low`.
pub open spec fn joined(high: u8, low: u8) -> u16 {
    (high * 256 + low) as u16
}

/// The 16-bit channel whose high byte is `high` and whose low byte is
/// `low`.
pub fn channel_from_bytes(high: u8, low: u8) -> (r: u16)
    ensures
        r == joined(high, low),
        r / 256 == high,
        r % 256 == low,
{
    high as u16 * 256 + low as u16
}

} // verus!
