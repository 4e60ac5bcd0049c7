//! The Lanczos filter table.

use vstd::prelude::*;

verus! {

/// Entries of the table.
pub const LUT_SIZE: usize = 128;

/// The two-lobed Lanczos filter at 128 positions from 0 to 2, in units of 1/32767.
///
/// Entry `i` is `sinc(pi x) sinc(pi x / 2)` for `x = 2 i / 127`, rounded to the nearest integer.
pub open spec fn lanczos2_table() -> Seq<i16> {
    seq![
        32767i16, 32750i16, 32700i16, 32617i16, 32500i16, 32351i16, 32169i16, 31956i16,
        31710i16, 31434i16, 31127i16, 30790i16, 30424i16, 30030i16, 29609i16, 29161i16,
        28688i16, 28190i16, 27669i16, 27125i16, 26561i16, 25976i16, 25373i16, 24752i16,
        24115i16, 23464i16, 22799i16, 22121i16, 21433i16, 20736i16, 20030i16, 19318i16,
        18601i16, 17880i16, 17156i16, 16431i16, 15707i16, 14984i16, 14263i16, 13547i16,
        12836i16, 12132i16, 11435i16, 10747i16, 10070i16, 9403i16, 8748i16, 8106i16,
        7478i16, 6864i16, 6266i16, 5685i16, 5120i16, 4573i16, 4044i16, 3534i16,
        3043i16, 2571i16, 2119i16, 1688i16, 1277i16, 886i16, 516i16, 167i16,
        -162i16, -470i16, -757i16, -1024i16, -1271i16, -1497i16, -1705i16, -1893i16,
        -2062i16, -2213i16, -2346i16, -2461i16, -2560i16, -2642i16, -2709i16, -2761i16,
        -2798i16, -2821i16, -2832i16, -2830i16, -2816i16, -2792i16, -2757i16, -2713i16,
        -2661i16, -2600i16, -2532i16, -2458i16, -2378i16, -2293i16, -2204i16, -2111i16,
        -2014i16, -1916i16, -1816i16, -1714i16, -1613i16, -1511i16, -1410i16, -1309i16,
        -1211i16, -1114i16, -1020i16, -928i16, -840i16, -755i16, -673i16, -596i16,
        -523i16, -454i16, -391i16, -331i16, -277i16, -227i16, -183i16, -143i16,
        -109i16, -79i16, -54i16, -34i16, -19i16, -8i16, -2i16, 0i16,
    ]
}

/// Generate the lanczos2 LUT
pub fn generate_lanczos2_lut() -> (result: [i16; 128])
    ensures
        result@ == lanczos2_table(),
{
    [
        32767, 32750, 32700, 32617, 32500, 32351, 32169, 31956,
        31710, 31434, 31127, 30790, 30424, 30030, 29609, 29161,
        28688, 28190, 27669, 27125, 26561, 25976, 25373, 24752,
        24115, 23464, 22799, 22121, 21433, 20736, 20030, 19318,
        18601, 17880, 17156, 16431, 15707, 14984, 14263, 13547,
        12836, 12132, 11435, 10747, 10070, 9403, 8748, 8106,
        7478, 6864, 6266, 5685, 5120, 4573, 4044, 3534,
        3043, 2571, 2119, 1688, 1277, 886, 516, 167,
        -162, -470, -757, -1024, -1271, -1497, -1705, -1893,
        -2062, -2213, -2346, -2461, -2560, -2642, -2709, -2761,
        -2798, -2821, -2832, -2830, -2816, -2792, -2757, -2713,
        -2661, -2600, -2532, -2458, -2378, -2293, -2204, -2111,
        -2014, -1916, -1816, -1714, -1613, -1511, -1410, -1309,
        -1211, -1114, -1020, -928, -840, -755, -673, -596,
        -523, -454, -391, -331, -277, -227, -183, -143,
        -109, -79, -54, -34, -19, -8, -2, 0,
    ]
}

/// The filter is 1 at its centre and 0 at its edge, positive up to distance 1 and negative
/// beyond.
pub proof fn law_lanczos2_lobes()
    ensures
        lanczos2_table().len() == LUT_SIZE,
        lanczos2_table()[0] == 32767,
        lanczos2_table()[127] == 0,
        forall|i: int| 0 <= i < 64 ==> #[trigger] lanczos2_table()[i] > 0,
        forall|i: int| 64 <= i < 127 ==> #[trigger] lanczos2_table()[i] < 0,
{
}

} // verus!
