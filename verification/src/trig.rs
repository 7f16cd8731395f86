//! Sines and cosines of angles given in degrees.
//!
//! The sine of a whole number of degrees between 0 and 90 is read from a
//! table. Between two whole degrees the sine runs linearly, and the other
//! three quadrants follow from the first by symmetry.
use crate::scalar::{Scalar, ONE_RAW};
use vstd::prelude::*;

verus! {

/// The raw count of a quarter turn: 90 degrees.
pub const QUARTER_RAW: i64 = 5898240;

/// The raw count of a full turn: 360 degrees.
pub const TURN_RAW: i64 = 23592960;

/// `SINE_TABLE[d]` is the sine of `d` degrees as a raw count, rounded to
/// the nearest.
pub const SINE_TABLE: [i64; 91] = [
    0, 1144, 2287, 3430, 4572, 5712, 6850, 7987, 9121, 10252,
    11380, 12505, 13626, 14742, 15855, 16962, 18064, 19161, 20252, 21336,
    22415, 23486, 24550, 25607, 26656, 27697, 28729, 29753, 30767, 31772,
    32768, 33754, 34729, 35693, 36647, 37590, 38521, 39441, 40348, 41243,
    42126, 42995, 43852, 44695, 45525, 46341, 47143, 47930, 48703, 49461,
    50203, 50931, 51643, 52339, 53020, 53684, 54332, 54963, 55578, 56175,
    56756, 57319, 57865, 58393, 58903, 59396, 59870, 60326, 60764, 61183,
    61584, 61966, 62328, 62672, 62997, 63303, 63589, 63856, 64104, 64332,
    64540, 64729, 64898, 65048, 65177, 65287, 65376, 65446, 65496, 65526,
    65536,
];

/// The angle, as a raw count of degrees, brought into one turn from zero.
pub open spec fn reduced(angle: int) -> int {
    angle % (TURN_RAW as int)
}

/// The sine, as a raw count, of an angle of the first quadrant given as a
/// raw count of degrees: the table's value at a whole degree, and between
/// two whole degrees the value that lies on the straight line between the
/// table's two, rounded down.
pub open spec fn quarter_sine(offset: int) -> int
    recommends
        0 <= offset <= QUARTER_RAW,
{
    let degree = offset / (ONE_RAW as int);
    let part = offset % (ONE_RAW as int);
    if degree >= 90 {
        SINE_TABLE[90] as int
    } else {
        SINE_TABLE[degree] + (SINE_TABLE[degree + 1] - SINE_TABLE[degree]) * part / (
        ONE_RAW as int)
    }
}

/// The sine of an angle given as a raw count of degrees, as a raw count.
pub open spec fn sine_raw(angle: int) -> int {
    let r = reduced(angle);
    let quadrant = r / (QUARTER_RAW as int);
    let offset = r % (QUARTER_RAW as int);
    if quadrant == 0 {
        quarter_sine(offset)
    } else if quadrant == 1 {
        quarter_sine(QUARTER_RAW - offset)
    } else if quadrant == 2 {
        -quarter_sine(offset)
    } else {
        -quarter_sine(QUARTER_RAW - offset)
    }
}

/// The cosine of an angle: the sine of the angle a quarter turn further.
pub open spec fn cosine_raw(angle: int) -> int {
    sine_raw(angle + QUARTER_RAW)
}

/// The table rises from zero to one.
pub proof fn lemma_table_rises(d: int)
    requires
        0 <= d < 90,
    ensures
        0 <= SINE_TABLE[d] < SINE_TABLE[d + 1] <= ONE_RAW,
        SINE_TABLE[d + 1] - SINE_TABLE[d] <= 1144,
{
    assert(SINE_TABLE[0] == 0 && SINE_TABLE[1] == 1144 && SINE_TABLE[2] == 2287 && SINE_TABLE[3]
        == 3430 && SINE_TABLE[4] == 4572 && SINE_TABLE[5] == 5712 && SINE_TABLE[6] == 6850
        && SINE_TABLE[7] == 7987 && SINE_TABLE[8] == 9121 && SINE_TABLE[9] == 10252);
    assert(SINE_TABLE[10] == 11380 && SINE_TABLE[11] == 12505 && SINE_TABLE[12] == 13626
        && SINE_TABLE[13] == 14742 && SINE_TABLE[14] == 15855 && SINE_TABLE[15] == 16962
        && SINE_TABLE[16] == 18064 && SINE_TABLE[17] == 19161 && SINE_TABLE[18] == 20252
        && SINE_TABLE[19] == 21336);
    assert(SINE_TABLE[20] == 22415 && SINE_TABLE[21] == 23486 && SINE_TABLE[22] == 24550
        && SINE_TABLE[23] == 25607 && SINE_TABLE[24] == 26656 && SINE_TABLE[25] == 27697
        && SINE_TABLE[26] == 28729 && SINE_TABLE[27] == 29753 && SINE_TABLE[28] == 30767
        && SINE_TABLE[29] == 31772);
    assert(SINE_TABLE[30] == 32768 && SINE_TABLE[31] == 33754 && SINE_TABLE[32] == 34729
        && SINE_TABLE[33] == 35693 && SINE_TABLE[34] == 36647 && SINE_TABLE[35] == 37590
        && SINE_TABLE[36] == 38521 && SINE_TABLE[37] == 39441 && SINE_TABLE[38] == 40348
        && SINE_TABLE[39] == 41243);
    assert(SINE_TABLE[40] == 42126 && SINE_TABLE[41] == 42995 && SINE_TABLE[42] == 43852
        && SINE_TABLE[43] == 44695 && SINE_TABLE[44] == 45525 && SINE_TABLE[45] == 46341
        && SINE_TABLE[46] == 47143 && SINE_TABLE[47] == 47930 && SINE_TABLE[48] == 48703
        && SINE_TABLE[49] == 49461);
    assert(SINE_TABLE[50] == 50203 && SINE_TABLE[51] == 50931 && SINE_TABLE[52] == 51643
        && SINE_TABLE[53] == 52339 && SINE_TABLE[54] == 53020 && SINE_TABLE[55] == 53684
        && SINE_TABLE[56] == 54332 && SINE_TABLE[57] == 54963 && SINE_TABLE[58] == 55578
        && SINE_TABLE[59] == 56175);
    assert(SINE_TABLE[60] == 56756 && SINE_TABLE[61] == 57319 && SINE_TABLE[62] == 57865
        && SINE_TABLE[63] == 58393 && SINE_TABLE[64] == 58903 && SINE_TABLE[65] == 59396
        && SINE_TABLE[66] == 59870 && SINE_TABLE[67] == 60326 && SINE_TABLE[68] == 60764
        && SINE_TABLE[69] == 61183);
    assert(SINE_TABLE[70] == 61584 && SINE_TABLE[71] == 61966 && SINE_TABLE[72] == 62328
        && SINE_TABLE[73] == 62672 && SINE_TABLE[74] == 62997 && SINE_TABLE[75] == 63303
        && SINE_TABLE[76] == 63589 && SINE_TABLE[77] == 63856 && SINE_TABLE[78] == 64104
        && SINE_TABLE[79] == 64332);
    assert(SINE_TABLE[80] == 64540 && SINE_TABLE[81] == 64729 && SINE_TABLE[82] == 64898
        && SINE_TABLE[83] == 65048 && SINE_TABLE[84] == 65177 && SINE_TABLE[85] == 65287
        && SINE_TABLE[86] == 65376 && SINE_TABLE[87] == 65446 && SINE_TABLE[88] == 65496
        && SINE_TABLE[89] == 65526 && SINE_TABLE[90] == 65536);
}

/// Whether `next` follows from `sin` and `cos` by a turn of one degree, to
/// within one raw count, and `sin` and `cos` lie on the unit circle, to
/// within two raw counts.
pub open spec fn turns_to(sin: int, cos: int, next: int) -> bool {
    &&& -ONE_RAW < ONE_RAW * next - (sin * SINE_TABLE[89] + cos * SINE_TABLE[1]) < ONE_RAW
    &&& -2 * ONE_RAW <= sin * sin + cos * cos - ONE_RAW * ONE_RAW <= 2 * ONE_RAW
}

/// One entry of the table, checked against the one after it.
proof fn lemma_entry_turns(d: int, sin: int, cos: int, next: int)
    requires
        0 <= d < 90,
        SINE_TABLE[d] == sin,
        SINE_TABLE[90 - d] == cos,
        SINE_TABLE[d + 1] == next,
        -65536 < 65536 * next - (sin * 65526 + cos * 1144) < 65536,
        -131072 <= sin * sin + cos * cos - 4294967296 <= 131072,
    ensures
        turns_to(SINE_TABLE[d] as int, SINE_TABLE[90 - d] as int, SINE_TABLE[d + 1] as int),
{
    assert(SINE_TABLE[1] == 1144 && SINE_TABLE[89] == 65526);
    assert(sin * SINE_TABLE[89] == sin * 65526) by (nonlinear_arith)
        requires
            SINE_TABLE[89] == 65526,
    ;
    assert(cos * SINE_TABLE[1] == cos * 1144) by (nonlinear_arith)
        requires
            SINE_TABLE[1] == 1144,
    ;
    assert(ONE_RAW * ONE_RAW == 4294967296) by (nonlinear_arith)
        requires
            ONE_RAW == 65536,
    ;
}

/// Each entry of the table follows from the one before by a turn of one
/// degree, to within one raw count: `sin(d + 1) = sin d cos 1 + cos d sin 1`,
/// the cosine of `d` degrees being the sine of `90 - d`. And sine and
/// cosine lie on the unit circle: `sin^2 d + cos^2 d = 1`, to within two
/// raw counts.
pub proof fn lemma_table_turns(d: int)
    requires
        0 <= d < 90,
    ensures
        turns_to(SINE_TABLE[d] as int, SINE_TABLE[90 - d] as int, SINE_TABLE[d + 1] as int),
{
    if d == 0 {
        lemma_entry_turns(0, 0, 65536, 1144);
    } else if d == 1 {
        lemma_entry_turns(1, 1144, 65526, 2287);
    } else if d == 2 {
        lemma_entry_turns(2, 2287, 65496, 3430);
    } else if d == 3 {
        lemma_entry_turns(3, 3430, 65446, 4572);
    } else if d == 4 {
        lemma_entry_turns(4, 4572, 65376, 5712);
    } else if d == 5 {
        lemma_entry_turns(5, 5712, 65287, 6850);
    } else if d == 6 {
        lemma_entry_turns(6, 6850, 65177, 7987);
    } else if d == 7 {
        lemma_entry_turns(7, 7987, 65048, 9121);
    } else if d == 8 {
        lemma_entry_turns(8, 9121, 64898, 10252);
    } else if d == 9 {
        lemma_entry_turns(9, 10252, 64729, 11380);
    } else if d == 10 {
        lemma_entry_turns(10, 11380, 64540, 12505);
    } else if d == 11 {
        lemma_entry_turns(11, 12505, 64332, 13626);
    } else if d == 12 {
        lemma_entry_turns(12, 13626, 64104, 14742);
    } else if d == 13 {
        lemma_entry_turns(13, 14742, 63856, 15855);
    } else if d == 14 {
        lemma_entry_turns(14, 15855, 63589, 16962);
    } else if d == 15 {
        lemma_entry_turns(15, 16962, 63303, 18064);
    } else if d == 16 {
        lemma_entry_turns(16, 18064, 62997, 19161);
    } else if d == 17 {
        lemma_entry_turns(17, 19161, 62672, 20252);
    } else if d == 18 {
        lemma_entry_turns(18, 20252, 62328, 21336);
    } else if d == 19 {
        lemma_entry_turns(19, 21336, 61966, 22415);
    } else if d == 20 {
        lemma_entry_turns(20, 22415, 61584, 23486);
    } else if d == 21 {
        lemma_entry_turns(21, 23486, 61183, 24550);
    } else if d == 22 {
        lemma_entry_turns(22, 24550, 60764, 25607);
    } else if d == 23 {
        lemma_entry_turns(23, 25607, 60326, 26656);
    } else if d == 24 {
        lemma_entry_turns(24, 26656, 59870, 27697);
    } else if d == 25 {
        lemma_entry_turns(25, 27697, 59396, 28729);
    } else if d == 26 {
        lemma_entry_turns(26, 28729, 58903, 29753);
    } else if d == 27 {
        lemma_entry_turns(27, 29753, 58393, 30767);
    } else if d == 28 {
        lemma_entry_turns(28, 30767, 57865, 31772);
    } else if d == 29 {
        lemma_entry_turns(29, 31772, 57319, 32768);
    } else if d == 30 {
        lemma_entry_turns(30, 32768, 56756, 33754);
    } else if d == 31 {
        lemma_entry_turns(31, 33754, 56175, 34729);
    } else if d == 32 {
        lemma_entry_turns(32, 34729, 55578, 35693);
    } else if d == 33 {
        lemma_entry_turns(33, 35693, 54963, 36647);
    } else if d == 34 {
        lemma_entry_turns(34, 36647, 54332, 37590);
    } else if d == 35 {
        lemma_entry_turns(35, 37590, 53684, 38521);
    } else if d == 36 {
        lemma_entry_turns(36, 38521, 53020, 39441);
    } else if d == 37 {
        lemma_entry_turns(37, 39441, 52339, 40348);
    } else if d == 38 {
        lemma_entry_turns(38, 40348, 51643, 41243);
    } else if d == 39 {
        lemma_entry_turns(39, 41243, 50931, 42126);
    } else if d == 40 {
        lemma_entry_turns(40, 42126, 50203, 42995);
    } else if d == 41 {
        lemma_entry_turns(41, 42995, 49461, 43852);
    } else if d == 42 {
        lemma_entry_turns(42, 43852, 48703, 44695);
    } else if d == 43 {
        lemma_entry_turns(43, 44695, 47930, 45525);
    } else if d == 44 {
        lemma_entry_turns(44, 45525, 47143, 46341);
    } else if d == 45 {
        lemma_entry_turns(45, 46341, 46341, 47143);
    } else if d == 46 {
        lemma_entry_turns(46, 47143, 45525, 47930);
    } else if d == 47 {
        lemma_entry_turns(47, 47930, 44695, 48703);
    } else if d == 48 {
        lemma_entry_turns(48, 48703, 43852, 49461);
    } else if d == 49 {
        lemma_entry_turns(49, 49461, 42995, 50203);
    } else if d == 50 {
        lemma_entry_turns(50, 50203, 42126, 50931);
    } else if d == 51 {
        lemma_entry_turns(51, 50931, 41243, 51643);
    } else if d == 52 {
        lemma_entry_turns(52, 51643, 40348, 52339);
    } else if d == 53 {
        lemma_entry_turns(53, 52339, 39441, 53020);
    } else if d == 54 {
        lemma_entry_turns(54, 53020, 38521, 53684);
    } else if d == 55 {
        lemma_entry_turns(55, 53684, 37590, 54332);
    } else if d == 56 {
        lemma_entry_turns(56, 54332, 36647, 54963);
    } else if d == 57 {
        lemma_entry_turns(57, 54963, 35693, 55578);
    } else if d == 58 {
        lemma_entry_turns(58, 55578, 34729, 56175);
    } else if d == 59 {
        lemma_entry_turns(59, 56175, 33754, 56756);
    } else if d == 60 {
        lemma_entry_turns(60, 56756, 32768, 57319);
    } else if d == 61 {
        lemma_entry_turns(61, 57319, 31772, 57865);
    } else if d == 62 {
        lemma_entry_turns(62, 57865, 30767, 58393);
    } else if d == 63 {
        lemma_entry_turns(63, 58393, 29753, 58903);
    } else if d == 64 {
        lemma_entry_turns(64, 58903, 28729, 59396);
    } else if d == 65 {
        lemma_entry_turns(65, 59396, 27697, 59870);
    } else if d == 66 {
        lemma_entry_turns(66, 59870, 26656, 60326);
    } else if d == 67 {
        lemma_entry_turns(67, 60326, 25607, 60764);
    } else if d == 68 {
        lemma_entry_turns(68, 60764, 24550, 61183);
    } else if d == 69 {
        lemma_entry_turns(69, 61183, 23486, 61584);
    } else if d == 70 {
        lemma_entry_turns(70, 61584, 22415, 61966);
    } else if d == 71 {
        lemma_entry_turns(71, 61966, 21336, 62328);
    } else if d == 72 {
        lemma_entry_turns(72, 62328, 20252, 62672);
    } else if d == 73 {
        lemma_entry_turns(73, 62672, 19161, 62997);
    } else if d == 74 {
        lemma_entry_turns(74, 62997, 18064, 63303);
    } else if d == 75 {
        lemma_entry_turns(75, 63303, 16962, 63589);
    } else if d == 76 {
        lemma_entry_turns(76, 63589, 15855, 63856);
    } else if d == 77 {
        lemma_entry_turns(77, 63856, 14742, 64104);
    } else if d == 78 {
        lemma_entry_turns(78, 64104, 13626, 64332);
    } else if d == 79 {
        lemma_entry_turns(79, 64332, 12505, 64540);
    } else if d == 80 {
        lemma_entry_turns(80, 64540, 11380, 64729);
    } else if d == 81 {
        lemma_entry_turns(81, 64729, 10252, 64898);
    } else if d == 82 {
        lemma_entry_turns(82, 64898, 9121, 65048);
    } else if d == 83 {
        lemma_entry_turns(83, 65048, 7987, 65177);
    } else if d == 84 {
        lemma_entry_turns(84, 65177, 6850, 65287);
    } else if d == 85 {
        lemma_entry_turns(85, 65287, 5712, 65376);
    } else if d == 86 {
        lemma_entry_turns(86, 65376, 4572, 65446);
    } else if d == 87 {
        lemma_entry_turns(87, 65446, 3430, 65496);
    } else if d == 88 {
        lemma_entry_turns(88, 65496, 2287, 65526);
    } else if d == 89 {
        lemma_entry_turns(89, 65526, 1144, 65536);
    }
}

/// The sine of an angle of the first quadrant lies between zero and one.
pub proof fn lemma_quarter_sine_bounds(offset: int)
    requires
        0 <= offset <= QUARTER_RAW,
    ensures
        0 <= quarter_sine(offset) <= ONE_RAW,
{
    let degree = offset / (ONE_RAW as int);
    let part = offset % (ONE_RAW as int);
    if degree < 90 {
        lemma_table_rises(degree);
        let rise = SINE_TABLE[degree + 1] - SINE_TABLE[degree];
        assert(0 <= rise * part <= rise * ONE_RAW) by (nonlinear_arith)
            requires
                0 <= rise,
                0 <= part <= ONE_RAW,
        ;
        vstd::arithmetic::div_mod::lemma_div_is_ordered(0, rise * part, ONE_RAW as int);
        vstd::arithmetic::div_mod::lemma_div_is_ordered(
            rise * part,
            rise * ONE_RAW,
            ONE_RAW as int,
        );
        vstd::arithmetic::div_mod::lemma_div_multiples_vanish(rise, ONE_RAW as int);
        assert(rise * ONE_RAW == ONE_RAW * rise) by (nonlinear_arith);
    } else {
        lemma_table_rises(89);
    }
}

/// A sine never exceeds one in magnitude.
pub proof fn lemma_sine_bounds(angle: int)
    ensures
        -ONE_RAW <= sine_raw(angle) <= ONE_RAW,
        -ONE_RAW <= cosine_raw(angle) <= ONE_RAW,
{
    let r = reduced(angle);
    lemma_quarter_sine_bounds(r % (QUARTER_RAW as int));
    lemma_quarter_sine_bounds(QUARTER_RAW - r % (QUARTER_RAW as int));
    let c = reduced(angle + QUARTER_RAW);
    lemma_quarter_sine_bounds(c % (QUARTER_RAW as int));
    lemma_quarter_sine_bounds(QUARTER_RAW - c % (QUARTER_RAW as int));
}

/// The sines and cosines of the four right angles are exact.
pub proof fn lemma_right_angles()
    ensures
        sine_raw(0) == 0,
        cosine_raw(0) == ONE_RAW,
        sine_raw(QUARTER_RAW as int) == ONE_RAW,
        cosine_raw(QUARTER_RAW as int) == 0,
        sine_raw(2 * QUARTER_RAW) == 0,
        cosine_raw(2 * QUARTER_RAW) == -ONE_RAW,
        sine_raw(3 * QUARTER_RAW) == -ONE_RAW,
        cosine_raw(3 * QUARTER_RAW) == 0,
{
    lemma_table_rises(0);
    lemma_table_rises(89);
    assert(quarter_sine(0) == 0);
    assert(quarter_sine(QUARTER_RAW as int) == ONE_RAW);
}

/// The sine of an angle of the first quadrant.
fn quarter_sine_exec(offset: i64) -> (r: i64)
    requires
        0 <= offset <= QUARTER_RAW,
    ensures
        r == quarter_sine(offset as int),
        0 <= r <= ONE_RAW,
{
    proof {
        lemma_quarter_sine_bounds(offset as int);
    }
    let degree: i64 = offset / ONE_RAW;
    let part: i64 = offset % ONE_RAW;
    if degree >= 90 {
        SINE_TABLE[90]
    } else {
        let low: i64 = SINE_TABLE[degree as usize];
        let high: i64 = SINE_TABLE[(degree + 1) as usize];
        proof {
            lemma_table_rises(degree as int);
            assert(0 <= (high - low) * part <= 1144 * 65536) by (nonlinear_arith)
                requires
                    0 <= high - low <= 1144,
                    0 <= part <= 65536,
            ;
        }
        low + (high - low) * part / ONE_RAW
    }
}

/// The angle brought into one turn from zero.
fn reduce(angle: i128) -> (r: i64)
    requires
        -0x1_0000_0000_0000_0000 <= angle <= 0x1_0000_0000_0000_0000,
    ensures
        r == reduced(angle as int),
        0 <= r < TURN_RAW,
{
    let turn: i128 = TURN_RAW as i128;
    if angle >= 0 {
        (angle % turn) as i64
    } else {
        let back: i128 = (-angle) % turn;
        proof {
            let q = (-angle) / (turn as int);
            vstd::arithmetic::div_mod::lemma_fundamental_div_mod(-angle as int, turn as int);
            if back == 0 {
                assert(angle == turn * (-q) + 0) by (nonlinear_arith)
                    requires
                        -angle == turn * q + back,
                        back == 0,
                ;
                vstd::arithmetic::div_mod::lemma_fundamental_div_mod_converse(
                    angle as int,
                    turn as int,
                    -q,
                    0,
                );
            } else {
                assert(angle == turn * (-q - 1) + (turn - back)) by (nonlinear_arith)
                    requires
                        -angle == turn * q + back,
                ;
                vstd::arithmetic::div_mod::lemma_fundamental_div_mod_converse(
                    angle as int,
                    turn as int,
                    -q - 1,
                    turn - back,
                );
            }
        }
        if back == 0 {
            0
        } else {
            (turn - back) as i64
        }
    }
}

/// The sine of an angle given as a wide raw count of degrees.
fn sine_wide(angle: i128) -> (r: Scalar)
    requires
        -0x1_0000_0000_0000_0000 <= angle <= 0x1_0000_0000_0000_0000,
    ensures
        r@ == sine_raw(angle as int),
{
    let r: i64 = reduce(angle);
    let quadrant: i64 = r / QUARTER_RAW;
    let offset: i64 = r % QUARTER_RAW;
    if quadrant == 0 {
        Scalar { raw: quarter_sine_exec(offset) }
    } else if quadrant == 1 {
        Scalar { raw: quarter_sine_exec(QUARTER_RAW - offset) }
    } else if quadrant == 2 {
        Scalar { raw: -quarter_sine_exec(offset) }
    } else {
        Scalar { raw: -quarter_sine_exec(QUARTER_RAW - offset) }
    }
}

/// The sine of `angle` degrees.
pub fn sine(angle: Scalar) -> (r: Scalar)
    ensures
        r@ == sine_raw(angle@),
{
    sine_wide(angle.raw as i128)
}

/// The cosine of `angle` degrees.
pub fn cosine(angle: Scalar) -> (r: Scalar)
    ensures
        r@ == cosine_raw(angle@),
{
    sine_wide(angle.raw as i128 + QUARTER_RAW as i128)
}

} // verus!
