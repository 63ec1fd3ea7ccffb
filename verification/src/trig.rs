//! Fixed-point trigonometry on whole degrees.
//!
//! The simulator's kinematics are defined over these tables: `cos_q_val(d)`
//! is the cosine of `d` degrees scaled by [`SCALE`] and rounded to the
//! nearest integer, for `d` in `0..=90`; the full circle is obtained by
//! quadrant symmetry.  `half_cos_val(k)` is the scaled cosine of `k + 1/2`
//! degrees, used to round an exact direction to its nearest whole degree.
//! Every entry is a constant, so every transition computed from them is
//! exactly reproducible.

use vstd::prelude::*;

verus! {

/// Fixed-point scale: all table entries are cosines multiplied by this.
pub const SCALE: i64 = 100_000_000;

/// Scaled cosine of `d` degrees for `d` in `0..=90`.
pub open spec fn cos_q_val(d: int) -> int {
    if d == 0 {
        100000000
    } else if d == 1 {
        99984770
    } else if d == 2 {
        99939083
    } else if d == 3 {
        99862953
    } else if d == 4 {
        99756405
    } else if d == 5 {
        99619470
    } else if d == 6 {
        99452190
    } else if d == 7 {
        99254615
    } else if d == 8 {
        99026807
    } else if d == 9 {
        98768834
    } else if d == 10 {
        98480775
    } else if d == 11 {
        98162718
    } else if d == 12 {
        97814760
    } else if d == 13 {
        97437006
    } else if d == 14 {
        97029573
    } else if d == 15 {
        96592583
    } else if d == 16 {
        96126170
    } else if d == 17 {
        95630476
    } else if d == 18 {
        95105652
    } else if d == 19 {
        94551858
    } else if d == 20 {
        93969262
    } else if d == 21 {
        93358043
    } else if d == 22 {
        92718385
    } else if d == 23 {
        92050485
    } else if d == 24 {
        91354546
    } else if d == 25 {
        90630779
    } else if d == 26 {
        89879405
    } else if d == 27 {
        89100652
    } else if d == 28 {
        88294759
    } else if d == 29 {
        87461971
    } else if d == 30 {
        86602540
    } else if d == 31 {
        85716730
    } else if d == 32 {
        84804810
    } else if d == 33 {
        83867057
    } else if d == 34 {
        82903757
    } else if d == 35 {
        81915204
    } else if d == 36 {
        80901699
    } else if d == 37 {
        79863551
    } else if d == 38 {
        78801075
    } else if d == 39 {
        77714596
    } else if d == 40 {
        76604444
    } else if d == 41 {
        75470958
    } else if d == 42 {
        74314483
    } else if d == 43 {
        73135370
    } else if d == 44 {
        71933980
    } else if d == 45 {
        70710678
    } else if d == 46 {
        69465837
    } else if d == 47 {
        68199836
    } else if d == 48 {
        66913061
    } else if d == 49 {
        65605903
    } else if d == 50 {
        64278761
    } else if d == 51 {
        62932039
    } else if d == 52 {
        61566148
    } else if d == 53 {
        60181502
    } else if d == 54 {
        58778525
    } else if d == 55 {
        57357644
    } else if d == 56 {
        55919290
    } else if d == 57 {
        54463904
    } else if d == 58 {
        52991926
    } else if d == 59 {
        51503807
    } else if d == 60 {
        50000000
    } else if d == 61 {
        48480962
    } else if d == 62 {
        46947156
    } else if d == 63 {
        45399050
    } else if d == 64 {
        43837115
    } else if d == 65 {
        42261826
    } else if d == 66 {
        40673664
    } else if d == 67 {
        39073113
    } else if d == 68 {
        37460659
    } else if d == 69 {
        35836795
    } else if d == 70 {
        34202014
    } else if d == 71 {
        32556815
    } else if d == 72 {
        30901699
    } else if d == 73 {
        29237170
    } else if d == 74 {
        27563736
    } else if d == 75 {
        25881905
    } else if d == 76 {
        24192190
    } else if d == 77 {
        22495105
    } else if d == 78 {
        20791169
    } else if d == 79 {
        19080900
    } else if d == 80 {
        17364818
    } else if d == 81 {
        15643447
    } else if d == 82 {
        13917310
    } else if d == 83 {
        12186934
    } else if d == 84 {
        10452846
    } else if d == 85 {
        8715574
    } else if d == 86 {
        6975647
    } else if d == 87 {
        5233596
    } else if d == 88 {
        3489950
    } else if d == 89 {
        1745241
    } else {
        0
    }}

/// Table lookup for [`cos_q_val`].
pub fn cos_q(d: u16) -> (c: i64)
    requires
        d <= 90,
    ensures
        c == cos_q_val(d as int),
{
    match d {
        0 => 100000000,
        1 => 99984770,
        2 => 99939083,
        3 => 99862953,
        4 => 99756405,
        5 => 99619470,
        6 => 99452190,
        7 => 99254615,
        8 => 99026807,
        9 => 98768834,
        10 => 98480775,
        11 => 98162718,
        12 => 97814760,
        13 => 97437006,
        14 => 97029573,
        15 => 96592583,
        16 => 96126170,
        17 => 95630476,
        18 => 95105652,
        19 => 94551858,
        20 => 93969262,
        21 => 93358043,
        22 => 92718385,
        23 => 92050485,
        24 => 91354546,
        25 => 90630779,
        26 => 89879405,
        27 => 89100652,
        28 => 88294759,
        29 => 87461971,
        30 => 86602540,
        31 => 85716730,
        32 => 84804810,
        33 => 83867057,
        34 => 82903757,
        35 => 81915204,
        36 => 80901699,
        37 => 79863551,
        38 => 78801075,
        39 => 77714596,
        40 => 76604444,
        41 => 75470958,
        42 => 74314483,
        43 => 73135370,
        44 => 71933980,
        45 => 70710678,
        46 => 69465837,
        47 => 68199836,
        48 => 66913061,
        49 => 65605903,
        50 => 64278761,
        51 => 62932039,
        52 => 61566148,
        53 => 60181502,
        54 => 58778525,
        55 => 57357644,
        56 => 55919290,
        57 => 54463904,
        58 => 52991926,
        59 => 51503807,
        60 => 50000000,
        61 => 48480962,
        62 => 46947156,
        63 => 45399050,
        64 => 43837115,
        65 => 42261826,
        66 => 40673664,
        67 => 39073113,
        68 => 37460659,
        69 => 35836795,
        70 => 34202014,
        71 => 32556815,
        72 => 30901699,
        73 => 29237170,
        74 => 27563736,
        75 => 25881905,
        76 => 24192190,
        77 => 22495105,
        78 => 20791169,
        79 => 19080900,
        80 => 17364818,
        81 => 15643447,
        82 => 13917310,
        83 => 12186934,
        84 => 10452846,
        85 => 8715574,
        86 => 6975647,
        87 => 5233596,
        88 => 3489950,
        89 => 1745241,
        _ => 0,    }
}

/// Every quarter-circle entry lies in `[0, SCALE]`.
pub proof fn lemma_cos_q_range(d: int)
    requires
        0 <= d <= 90,
    ensures
        0 <= cos_q_val(d) <= SCALE,
{
}

/// Scaled cosine of `d` degrees over the full circle `0..360`,
/// by quadrant symmetry from the quarter-circle table.
pub open spec fn cos_deg_val(d: int) -> int {
    if d <= 90 {
        cos_q_val(d)
    } else if d <= 180 {
        -cos_q_val(180 - d)
    } else if d <= 270 {
        -cos_q_val(d - 180)
    } else {
        cos_q_val(360 - d)
    }
}

/// Scaled sine of `d` degrees, as the cosine of the complementary heading.
pub open spec fn sin_deg_val(d: int) -> int {
    cos_deg_val(
        if d >= 90 {
            d - 90
        } else {
            d + 270
        },
    )
}

/// Every full-circle cosine lies in `[-SCALE, SCALE]`.
pub proof fn lemma_cos_deg_range(d: int)
    requires
        0 <= d < 360,
    ensures
        -SCALE <= cos_deg_val(d) <= SCALE,
{
    if d <= 90 {
        lemma_cos_q_range(d);
    } else if d <= 180 {
        lemma_cos_q_range(180 - d);
    } else if d <= 270 {
        lemma_cos_q_range(d - 180);
    } else {
        lemma_cos_q_range(360 - d);
    }
}

/// Every full-circle sine lies in `[-SCALE, SCALE]`.
pub proof fn lemma_sin_deg_range(d: int)
    requires
        0 <= d < 360,
    ensures
        -SCALE <= sin_deg_val(d) <= SCALE,
{
    if d >= 90 {
        lemma_cos_deg_range(d - 90);
    } else {
        lemma_cos_deg_range(d + 270);
    }
}

/// Full-circle cosine lookup.
pub fn cos_deg(d: u16) -> (c: i64)
    requires
        d < 360,
    ensures
        c == cos_deg_val(d as int),
{
    if d <= 90 {
        cos_q(d)
    } else if d <= 180 {
        -cos_q(180 - d)
    } else if d <= 270 {
        -cos_q(d - 180)
    } else {
        cos_q(360 - d)
    }
}

/// Full-circle sine lookup.
pub fn sin_deg(d: u16) -> (c: i64)
    requires
        d < 360,
    ensures
        c == sin_deg_val(d as int),
{
    if d >= 90 {
        cos_deg(d - 90)
    } else {
        cos_deg(d + 270)
    }
}

/// Scaled cosine of `k + 1/2` degrees for `k` in `0..=179`: the boundaries
/// between neighbouring whole degrees, used for nearest-degree rounding.
pub open spec fn half_cos_val(d: int) -> int {
    if d == 0 {
        99996192
    } else if d == 1 {
        99965732
    } else if d == 2 {
        99904822
    } else if d == 3 {
        99813480
    } else if d == 4 {
        99691733
    } else if d == 5 {
        99539620
    } else if d == 6 {
        99357186
    } else if d == 7 {
        99144486
    } else if d == 8 {
        98901586
    } else if d == 9 {
        98628560
    } else if d == 10 {
        98325491
    } else if d == 11 {
        97992470
    } else if d == 12 {
        97629601
    } else if d == 13 {
        97236992
    } else if d == 14 {
        96814764
    } else if d == 15 {
        96363045
    } else if d == 16 {
        95881973
    } else if d == 17 {
        95371695
    } else if d == 18 {
        94832366
    } else if d == 19 {
        94264149
    } else if d == 20 {
        93667219
    } else if d == 21 {
        93041757
    } else if d == 22 {
        92387953
    } else if d == 23 {
        91706007
    } else if d == 24 {
        90996127
    } else if d == 25 {
        90258528
    } else if d == 26 {
        89493436
    } else if d == 27 {
        88701083
    } else if d == 28 {
        87881711
    } else if d == 29 {
        87035570
    } else if d == 30 {
        86162916
    } else if d == 31 {
        85264016
    } else if d == 32 {
        84339145
    } else if d == 33 {
        83388582
    } else if d == 34 {
        82412619
    } else if d == 35 {
        81411552
    } else if d == 36 {
        80385686
    } else if d == 37 {
        79335334
    } else if d == 38 {
        78260816
    } else if d == 39 {
        77162458
    } else if d == 40 {
        76040597
    } else if d == 41 {
        74895572
    } else if d == 42 {
        73727734
    } else if d == 43 {
        72537437
    } else if d == 44 {
        71325045
    } else if d == 45 {
        70090926
    } else if d == 46 {
        68835458
    } else if d == 47 {
        67559021
    } else if d == 48 {
        66262005
    } else if d == 49 {
        64944805
    } else if d == 50 {
        63607822
    } else if d == 51 {
        62251464
    } else if d == 52 {
        60876143
    } else if d == 53 {
        59482279
    } else if d == 54 {
        58070296
    } else if d == 55 {
        56640624
    } else if d == 56 {
        55193699
    } else if d == 57 {
        53729961
    } else if d == 58 {
        52249856
    } else if d == 59 {
        50753836
    } else if d == 60 {
        49242356
    } else if d == 61 {
        47715876
    } else if d == 62 {
        46174861
    } else if d == 63 {
        44619781
    } else if d == 64 {
        43051110
    } else if d == 65 {
        41469324
    } else if d == 66 {
        39874907
    } else if d == 67 {
        38268343
    } else if d == 68 {
        36650123
    } else if d == 69 {
        35020738
    } else if d == 70 {
        33380686
    } else if d == 71 {
        31730466
    } else if d == 72 {
        30070580
    } else if d == 73 {
        28401534
    } else if d == 74 {
        26723838
    } else if d == 75 {
        25038000
    } else if d == 76 {
        23344536
    } else if d == 77 {
        21643961
    } else if d == 78 {
        19936793
    } else if d == 79 {
        18223553
    } else if d == 80 {
        16504761
    } else if d == 81 {
        14780941
    } else if d == 82 {
        13052619
    } else if d == 83 {
        11320321
    } else if d == 84 {
        9584575
    } else if d == 85 {
        7845910
    } else if d == 86 {
        6104854
    } else if d == 87 {
        4361939
    } else if d == 88 {
        2617695
    } else if d == 89 {
        872654
    } else if d == 90 {
        -872654
    } else if d == 91 {
        -2617695
    } else if d == 92 {
        -4361939
    } else if d == 93 {
        -6104854
    } else if d == 94 {
        -7845910
    } else if d == 95 {
        -9584575
    } else if d == 96 {
        -11320321
    } else if d == 97 {
        -13052619
    } else if d == 98 {
        -14780941
    } else if d == 99 {
        -16504761
    } else if d == 100 {
        -18223553
    } else if d == 101 {
        -19936793
    } else if d == 102 {
        -21643961
    } else if d == 103 {
        -23344536
    } else if d == 104 {
        -25038000
    } else if d == 105 {
        -26723838
    } else if d == 106 {
        -28401534
    } else if d == 107 {
        -30070580
    } else if d == 108 {
        -31730466
    } else if d == 109 {
        -33380686
    } else if d == 110 {
        -35020738
    } else if d == 111 {
        -36650123
    } else if d == 112 {
        -38268343
    } else if d == 113 {
        -39874907
    } else if d == 114 {
        -41469324
    } else if d == 115 {
        -43051110
    } else if d == 116 {
        -44619781
    } else if d == 117 {
        -46174861
    } else if d == 118 {
        -47715876
    } else if d == 119 {
        -49242356
    } else if d == 120 {
        -50753836
    } else if d == 121 {
        -52249856
    } else if d == 122 {
        -53729961
    } else if d == 123 {
        -55193699
    } else if d == 124 {
        -56640624
    } else if d == 125 {
        -58070296
    } else if d == 126 {
        -59482279
    } else if d == 127 {
        -60876143
    } else if d == 128 {
        -62251464
    } else if d == 129 {
        -63607822
    } else if d == 130 {
        -64944805
    } else if d == 131 {
        -66262005
    } else if d == 132 {
        -67559021
    } else if d == 133 {
        -68835458
    } else if d == 134 {
        -70090926
    } else if d == 135 {
        -71325045
    } else if d == 136 {
        -72537437
    } else if d == 137 {
        -73727734
    } else if d == 138 {
        -74895572
    } else if d == 139 {
        -76040597
    } else if d == 140 {
        -77162458
    } else if d == 141 {
        -78260816
    } else if d == 142 {
        -79335334
    } else if d == 143 {
        -80385686
    } else if d == 144 {
        -81411552
    } else if d == 145 {
        -82412619
    } else if d == 146 {
        -83388582
    } else if d == 147 {
        -84339145
    } else if d == 148 {
        -85264016
    } else if d == 149 {
        -86162916
    } else if d == 150 {
        -87035570
    } else if d == 151 {
        -87881711
    } else if d == 152 {
        -88701083
    } else if d == 153 {
        -89493436
    } else if d == 154 {
        -90258528
    } else if d == 155 {
        -90996127
    } else if d == 156 {
        -91706007
    } else if d == 157 {
        -92387953
    } else if d == 158 {
        -93041757
    } else if d == 159 {
        -93667219
    } else if d == 160 {
        -94264149
    } else if d == 161 {
        -94832366
    } else if d == 162 {
        -95371695
    } else if d == 163 {
        -95881973
    } else if d == 164 {
        -96363045
    } else if d == 165 {
        -96814764
    } else if d == 166 {
        -97236992
    } else if d == 167 {
        -97629601
    } else if d == 168 {
        -97992470
    } else if d == 169 {
        -98325491
    } else if d == 170 {
        -98628560
    } else if d == 171 {
        -98901586
    } else if d == 172 {
        -99144486
    } else if d == 173 {
        -99357186
    } else if d == 174 {
        -99539620
    } else if d == 175 {
        -99691733
    } else if d == 176 {
        -99813480
    } else if d == 177 {
        -99904822
    } else if d == 178 {
        -99965732
    } else {
        -99996192
    }}

/// Table lookup for [`half_cos_val`].
pub fn half_cos(d: u16) -> (c: i64)
    requires
        d <= 179,
    ensures
        c == half_cos_val(d as int),
{
    match d {
        0 => 99996192,
        1 => 99965732,
        2 => 99904822,
        3 => 99813480,
        4 => 99691733,
        5 => 99539620,
        6 => 99357186,
        7 => 99144486,
        8 => 98901586,
        9 => 98628560,
        10 => 98325491,
        11 => 97992470,
        12 => 97629601,
        13 => 97236992,
        14 => 96814764,
        15 => 96363045,
        16 => 95881973,
        17 => 95371695,
        18 => 94832366,
        19 => 94264149,
        20 => 93667219,
        21 => 93041757,
        22 => 92387953,
        23 => 91706007,
        24 => 90996127,
        25 => 90258528,
        26 => 89493436,
        27 => 88701083,
        28 => 87881711,
        29 => 87035570,
        30 => 86162916,
        31 => 85264016,
        32 => 84339145,
        33 => 83388582,
        34 => 82412619,
        35 => 81411552,
        36 => 80385686,
        37 => 79335334,
        38 => 78260816,
        39 => 77162458,
        40 => 76040597,
        41 => 74895572,
        42 => 73727734,
        43 => 72537437,
        44 => 71325045,
        45 => 70090926,
        46 => 68835458,
        47 => 67559021,
        48 => 66262005,
        49 => 64944805,
        50 => 63607822,
        51 => 62251464,
        52 => 60876143,
        53 => 59482279,
        54 => 58070296,
        55 => 56640624,
        56 => 55193699,
        57 => 53729961,
        58 => 52249856,
        59 => 50753836,
        60 => 49242356,
        61 => 47715876,
        62 => 46174861,
        63 => 44619781,
        64 => 43051110,
        65 => 41469324,
        66 => 39874907,
        67 => 38268343,
        68 => 36650123,
        69 => 35020738,
        70 => 33380686,
        71 => 31730466,
        72 => 30070580,
        73 => 28401534,
        74 => 26723838,
        75 => 25038000,
        76 => 23344536,
        77 => 21643961,
        78 => 19936793,
        79 => 18223553,
        80 => 16504761,
        81 => 14780941,
        82 => 13052619,
        83 => 11320321,
        84 => 9584575,
        85 => 7845910,
        86 => 6104854,
        87 => 4361939,
        88 => 2617695,
        89 => 872654,
        90 => -872654,
        91 => -2617695,
        92 => -4361939,
        93 => -6104854,
        94 => -7845910,
        95 => -9584575,
        96 => -11320321,
        97 => -13052619,
        98 => -14780941,
        99 => -16504761,
        100 => -18223553,
        101 => -19936793,
        102 => -21643961,
        103 => -23344536,
        104 => -25038000,
        105 => -26723838,
        106 => -28401534,
        107 => -30070580,
        108 => -31730466,
        109 => -33380686,
        110 => -35020738,
        111 => -36650123,
        112 => -38268343,
        113 => -39874907,
        114 => -41469324,
        115 => -43051110,
        116 => -44619781,
        117 => -46174861,
        118 => -47715876,
        119 => -49242356,
        120 => -50753836,
        121 => -52249856,
        122 => -53729961,
        123 => -55193699,
        124 => -56640624,
        125 => -58070296,
        126 => -59482279,
        127 => -60876143,
        128 => -62251464,
        129 => -63607822,
        130 => -64944805,
        131 => -66262005,
        132 => -67559021,
        133 => -68835458,
        134 => -70090926,
        135 => -71325045,
        136 => -72537437,
        137 => -73727734,
        138 => -74895572,
        139 => -76040597,
        140 => -77162458,
        141 => -78260816,
        142 => -79335334,
        143 => -80385686,
        144 => -81411552,
        145 => -82412619,
        146 => -83388582,
        147 => -84339145,
        148 => -85264016,
        149 => -86162916,
        150 => -87035570,
        151 => -87881711,
        152 => -88701083,
        153 => -89493436,
        154 => -90258528,
        155 => -90996127,
        156 => -91706007,
        157 => -92387953,
        158 => -93041757,
        159 => -93667219,
        160 => -94264149,
        161 => -94832366,
        162 => -95371695,
        163 => -95881973,
        164 => -96363045,
        165 => -96814764,
        166 => -97236992,
        167 => -97629601,
        168 => -97992470,
        169 => -98325491,
        170 => -98628560,
        171 => -98901586,
        172 => -99144486,
        173 => -99357186,
        174 => -99539620,
        175 => -99691733,
        176 => -99813480,
        177 => -99904822,
        178 => -99965732,
        _ => -99996192,    }
}

/// Every half-degree boundary entry lies strictly inside `(-SCALE, SCALE)`.
pub proof fn lemma_half_cos_range(d: int)
    requires
        0 <= d <= 179,
    ensures
        -SCALE < half_cos_val(d) < SCALE,
{
}

/// Whether `a > c * sqrt(q)` for `q > 0`, decided exactly by sign analysis
/// and squaring.
pub open spec fn gt_mul_sqrt(a: int, c: int, q: int) -> bool {
    if c >= 0 {
        a >= 0 && a * a > c * c * q
    } else {
        a >= 0 || a * a < c * c * q
    }
}

/// Executable form of [`gt_mul_sqrt`], with bounds that keep every product
/// inside `i128`.
pub fn gt_mul_sqrt_exec(a: i128, c: i64, q: i128) -> (r: bool)
    requires
        -0x8000_0000_0000_0000i128 <= a <= 0x8000_0000_0000_0000i128,
        -SCALE <= c <= SCALE,
        0 < q <= 0x8000_0000_0000_0000i128,
    ensures
        r == gt_mul_sqrt(a as int, c as int, q as int),
{
    proof {
        assert(0 <= a * a <= 0x8000_0000_0000_0000i128 * 0x8000_0000_0000_0000i128) by (nonlinear_arith)
            requires
                -0x8000_0000_0000_0000i128 <= a <= 0x8000_0000_0000_0000i128,
        ;
        assert(0 <= (c as int) * (c as int) <= SCALE * SCALE) by (nonlinear_arith)
            requires
                -SCALE <= c <= SCALE,
        ;
        assert((c as int) * (c as int) * q <= 100_000_000_000_000_000int
            * 0x8000_0000_0000_0000i128 && (c as int) * (c as int) * q >= 0) by (nonlinear_arith)
            requires
                0 <= (c as int) * (c as int) <= 100_000_000_000_000_000int,
                0 < q <= 0x8000_0000_0000_0000i128,
        ;
    }
    let sq = (c as i128) * (c as i128) * q;
    if c >= 0 {
        a >= 0 && a * a > sq
    } else {
        a >= 0 || a * a < sq
    }
}

/// The first whole degree `k` whose lower half-degree boundary the
/// direction cosine clears, searching upward from `k`.
pub open spec fn nearest_degree_search(a: int, q: int, k: int) -> int
    decreases 180 - k,
{
    if k >= 180 {
        180
    } else if gt_mul_sqrt(a, half_cos_val(k), q) {
        k
    } else {
        nearest_degree_search(a, q, k + 1)
    }
}

/// The whole degree in `0..=180` nearest to the direction angle of the
/// vector `(dx, dy)` measured from the positive x axis, i.e. the rounding
/// of `acos(dx / sqrt(dx^2 + dy^2))` to whole degrees: degree `k` is chosen
/// exactly when the direction cosine lies between the `k - 1/2` and
/// `k + 1/2` boundaries.
pub open spec fn nearest_degree(dx: int, dy: int) -> int {
    nearest_degree_search(dx * SCALE, dx * dx + dy * dy, 0)
}

/// Computes [`nearest_degree`] by a linear scan over the 180 half-degree
/// boundaries.
pub fn nearest_degree_exec(dx: i64, dy: i64) -> (m: u16)
    requires
        -20_000_000 <= dx <= 20_000_000,
        -20_000_000 <= dy <= 20_000_000,
        dx != 0 || dy != 0,
    ensures
        m == nearest_degree(dx as int, dy as int),
        m <= 180,
{
    proof {
        assert(dx as int * SCALE <= 0x8000_0000_0000_0000i128 && dx as int * SCALE
            >= -0x8000_0000_0000_0000i128) by (nonlinear_arith)
            requires
                -20_000_000 <= dx <= 20_000_000,
        ;
        assert(0 <= dx as int * (dx as int) && 0 <= dy as int * (dy as int) && 0 < dx as int * (
        dx as int) + dy as int * (dy as int) <= 0x8000_0000_0000_0000i128) by (nonlinear_arith)
            requires
                -20_000_000 <= dx <= 20_000_000,
                -20_000_000 <= dy <= 20_000_000,
                dx != 0 || dy != 0,
        ;
    }
    let a: i128 = (dx as i128) * (SCALE as i128);
    let q: i128 = (dx as i128) * (dx as i128) + (dy as i128) * (dy as i128);
    let mut k: u16 = 0;
    while k < 180
        invariant
            k <= 180,
            a == dx as int * SCALE,
            q == dx as int * dx + dy as int * dy,
            -0x8000_0000_0000_0000i128 <= a <= 0x8000_0000_0000_0000i128,
            0 < q <= 0x8000_0000_0000_0000i128,
            nearest_degree(dx as int, dy as int) == nearest_degree_search(
                a as int,
                q as int,
                k as int,
            ),
        decreases 180 - k,
    {
        proof {
            lemma_half_cos_range(k as int);
        }
        let c = half_cos(k);
        if gt_mul_sqrt_exec(a, c, q) {
            return k;
        }
        k = k + 1;
    }
    180
}

} // verus!
