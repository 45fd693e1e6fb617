use crate::code_ecc::{spec_ordinal, CodeEcc};
use crate::version::Version;
use vstd::prelude::*;

verus! {

/// The number of error correction codewords per block, by error correction
/// ordinal and version, as the standard's table gives them.
pub open spec fn spec_ecc_codewords_per_block(ecl: int, ver: int) -> int {

    if ecl == 0 {
        if ver == 1 {
            7
        } else if ver == 2 {
            10
        } else if ver == 3 {
            15
        } else if ver == 4 {
            20
        } else if ver == 5 {
            26
        } else if ver == 6 {
            18
        } else if ver == 7 {
            20
        } else if ver == 8 {
            24
        } else if ver == 9 {
            30
        } else if ver == 10 {
            18
        } else if ver == 11 {
            20
        } else if ver == 12 {
            24
        } else if ver == 13 {
            26
        } else if ver == 14 {
            30
        } else if ver == 15 {
            22
        } else if ver == 16 {
            24
        } else if ver == 17 {
            28
        } else if ver == 18 {
            30
        } else if ver == 19 {
            28
        } else if ver == 20 {
            28
        } else if ver == 21 {
            28
        } else if ver == 22 {
            28
        } else if ver == 23 {
            30
        } else if ver == 24 {
            30
        } else if ver == 25 {
            26
        } else if ver == 26 {
            28
        } else if ver == 27 {
            30
        } else if ver == 28 {
            30
        } else if ver == 29 {
            30
        } else if ver == 30 {
            30
        } else if ver == 31 {
            30
        } else if ver == 32 {
            30
        } else if ver == 33 {
            30
        } else if ver == 34 {
            30
        } else if ver == 35 {
            30
        } else if ver == 36 {
            30
        } else if ver == 37 {
            30
        } else if ver == 38 {
            30
        } else if ver == 39 {
            30
        } else {
            30
        }
    } else if ecl == 1 {
        if ver == 1 {
            10
        } else if ver == 2 {
            16
        } else if ver == 3 {
            26
        } else if ver == 4 {
            18
        } else if ver == 5 {
            24
        } else if ver == 6 {
            16
        } else if ver == 7 {
            18
        } else if ver == 8 {
            22
        } else if ver == 9 {
            22
        } else if ver == 10 {
            26
        } else if ver == 11 {
            30
        } else if ver == 12 {
            22
        } else if ver == 13 {
            22
        } else if ver == 14 {
            24
        } else if ver == 15 {
            24
        } else if ver == 16 {
            28
        } else if ver == 17 {
            28
        } else if ver == 18 {
            26
        } else if ver == 19 {
            26
        } else if ver == 20 {
            26
        } else if ver == 21 {
            26
        } else if ver == 22 {
            28
        } else if ver == 23 {
            28
        } else if ver == 24 {
            28
        } else if ver == 25 {
            28
        } else if ver == 26 {
            28
        } else if ver == 27 {
            28
        } else if ver == 28 {
            28
        } else if ver == 29 {
            28
        } else if ver == 30 {
            28
        } else if ver == 31 {
            28
        } else if ver == 32 {
            28
        } else if ver == 33 {
            28
        } else if ver == 34 {
            28
        } else if ver == 35 {
            28
        } else if ver == 36 {
            28
        } else if ver == 37 {
            28
        } else if ver == 38 {
            28
        } else if ver == 39 {
            28
        } else {
            28
        }
    } else if ecl == 2 {
        if ver == 1 {
            13
        } else if ver == 2 {
            22
        } else if ver == 3 {
            18
        } else if ver == 4 {
            26
        } else if ver == 5 {
            18
        } else if ver == 6 {
            24
        } else if ver == 7 {
            18
        } else if ver == 8 {
            22
        } else if ver == 9 {
            20
        } else if ver == 10 {
            24
        } else if ver == 11 {
            28
        } else if ver == 12 {
            26
        } else if ver == 13 {
            24
        } else if ver == 14 {
            20
        } else if ver == 15 {
            30
        } else if ver == 16 {
            24
        } else if ver == 17 {
            28
        } else if ver == 18 {
            28
        } else if ver == 19 {
            26
        } else if ver == 20 {
            30
        } else if ver == 21 {
            28
        } else if ver == 22 {
            30
        } else if ver == 23 {
            30
        } else if ver == 24 {
            30
        } else if ver == 25 {
            30
        } else if ver == 26 {
            28
        } else if ver == 27 {
            30
        } else if ver == 28 {
            30
        } else if ver == 29 {
            30
        } else if ver == 30 {
            30
        } else if ver == 31 {
            30
        } else if ver == 32 {
            30
        } else if ver == 33 {
            30
        } else if ver == 34 {
            30
        } else if ver == 35 {
            30
        } else if ver == 36 {
            30
        } else if ver == 37 {
            30
        } else if ver == 38 {
            30
        } else if ver == 39 {
            30
        } else {
            30
        }
    } else {
        if ver == 1 {
            17
        } else if ver == 2 {
            28
        } else if ver == 3 {
            22
        } else if ver == 4 {
            16
        } else if ver == 5 {
            22
        } else if ver == 6 {
            28
        } else if ver == 7 {
            26
        } else if ver == 8 {
            26
        } else if ver == 9 {
            24
        } else if ver == 10 {
            28
        } else if ver == 11 {
            24
        } else if ver == 12 {
            28
        } else if ver == 13 {
            22
        } else if ver == 14 {
            24
        } else if ver == 15 {
            24
        } else if ver == 16 {
            30
        } else if ver == 17 {
            28
        } else if ver == 18 {
            28
        } else if ver == 19 {
            26
        } else if ver == 20 {
            28
        } else if ver == 21 {
            30
        } else if ver == 22 {
            24
        } else if ver == 23 {
            30
        } else if ver == 24 {
            30
        } else if ver == 25 {
            30
        } else if ver == 26 {
            30
        } else if ver == 27 {
            30
        } else if ver == 28 {
            30
        } else if ver == 29 {
            30
        } else if ver == 30 {
            30
        } else if ver == 31 {
            30
        } else if ver == 32 {
            30
        } else if ver == 33 {
            30
        } else if ver == 34 {
            30
        } else if ver == 35 {
            30
        } else if ver == 36 {
            30
        } else if ver == 37 {
            30
        } else if ver == 38 {
            30
        } else if ver == 39 {
            30
        } else {
            30
        }
    }
}

/// The number of error correction blocks, by error correction ordinal and
/// version, as the standard's table gives them.
pub open spec fn spec_num_ecc_blocks(ecl: int, ver: int) -> int {
    if ecl == 0 {
        if ver == 1 {
            1
        } else if ver == 2 {
            1
        } else if ver == 3 {
            1
        } else if ver == 4 {
            1
        } else if ver == 5 {
            1
        } else if ver == 6 {
            2
        } else if ver == 7 {
            2
        } else if ver == 8 {
            2
        } else if ver == 9 {
            2
        } else if ver == 10 {
            4
        } else if ver == 11 {
            4
        } else if ver == 12 {
            4
        } else if ver == 13 {
            4
        } else if ver == 14 {
            4
        } else if ver == 15 {
            6
        } else if ver == 16 {
            6
        } else if ver == 17 {
            6
        } else if ver == 18 {
            6
        } else if ver == 19 {
            7
        } else if ver == 20 {
            8
        } else if ver == 21 {
            8
        } else if ver == 22 {
            9
        } else if ver == 23 {
            9
        } else if ver == 24 {
            10
        } else if ver == 25 {
            12
        } else if ver == 26 {
            12
        } else if ver == 27 {
            12
        } else if ver == 28 {
            13
        } else if ver == 29 {
            14
        } else if ver == 30 {
            15
        } else if ver == 31 {
            16
        } else if ver == 32 {
            17
        } else if ver == 33 {
            18
        } else if ver == 34 {
            19
        } else if ver == 35 {
            19
        } else if ver == 36 {
            20
        } else if ver == 37 {
            21
        } else if ver == 38 {
            22
        } else if ver == 39 {
            24
        } else {
            25
        }
    } else if ecl == 1 {
        if ver == 1 {
            1
        } else if ver == 2 {
            1
        } else if ver == 3 {
            1
        } else if ver == 4 {
            2
        } else if ver == 5 {
            2
        } else if ver == 6 {
            4
        } else if ver == 7 {
            4
        } else if ver == 8 {
            4
        } else if ver == 9 {
            5
        } else if ver == 10 {
            5
        } else if ver == 11 {
            5
        } else if ver == 12 {
            8
        } else if ver == 13 {
            9
        } else if ver == 14 {
            9
        } else if ver == 15 {
            10
        } else if ver == 16 {
            10
        } else if ver == 17 {
            11
        } else if ver == 18 {
            13
        } else if ver == 19 {
            14
        } else if ver == 20 {
            16
        } else if ver == 21 {
            17
        } else if ver == 22 {
            17
        } else if ver == 23 {
            18
        } else if ver == 24 {
            20
        } else if ver == 25 {
            21
        } else if ver == 26 {
            23
        } else if ver == 27 {
            25
        } else if ver == 28 {
            26
        } else if ver == 29 {
            28
        } else if ver == 30 {
            29
        } else if ver == 31 {
            31
        } else if ver == 32 {
            33
        } else if ver == 33 {
            35
        } else if ver == 34 {
            37
        } else if ver == 35 {
            38
        } else if ver == 36 {
            40
        } else if ver == 37 {
            43
        } else if ver == 38 {
            45
        } else if ver == 39 {
            47
        } else {
            49
        }
    } else if ecl == 2 {
        if ver == 1 {
            1
        } else if ver == 2 {
            1
        } else if ver == 3 {
            2
        } else if ver == 4 {
            2
        } else if ver == 5 {
            4
        } else if ver == 6 {
            4
        } else if ver == 7 {
            6
        } else if ver == 8 {
            6
        } else if ver == 9 {
            8
        } else if ver == 10 {
            8
        } else if ver == 11 {
            8
        } else if ver == 12 {
            10
        } else if ver == 13 {
            12
        } else if ver == 14 {
            16
        } else if ver == 15 {
            12
        } else if ver == 16 {
            17
        } else if ver == 17 {
            16
        } else if ver == 18 {
            18
        } else if ver == 19 {
            21
        } else if ver == 20 {
            20
        } else if ver == 21 {
            23
        } else if ver == 22 {
            23
        } else if ver == 23 {
            25
        } else if ver == 24 {
            27
        } else if ver == 25 {
            29
        } else if ver == 26 {
            34
        } else if ver == 27 {
            34
        } else if ver == 28 {
            35
        } else if ver == 29 {
            38
        } else if ver == 30 {
            40
        } else if ver == 31 {
            43
        } else if ver == 32 {
            45
        } else if ver == 33 {
            48
        } else if ver == 34 {
            51
        } else if ver == 35 {
            53
        } else if ver == 36 {
            56
        } else if ver == 37 {
            59
        } else if ver == 38 {
            62
        } else if ver == 39 {
            65
        } else {
            68
        }
    } else {
        if ver == 1 {
            1
        } else if ver == 2 {
            1
        } else if ver == 3 {
            2
        } else if ver == 4 {
            4
        } else if ver == 5 {
            4
        } else if ver == 6 {
            4
        } else if ver == 7 {
            5
        } else if ver == 8 {
            6
        } else if ver == 9 {
            8
        } else if ver == 10 {
            8
        } else if ver == 11 {
            11
        } else if ver == 12 {
            11
        } else if ver == 13 {
            16
        } else if ver == 14 {
            16
        } else if ver == 15 {
            18
        } else if ver == 16 {
            16
        } else if ver == 17 {
            19
        } else if ver == 18 {
            21
        } else if ver == 19 {
            25
        } else if ver == 20 {
            25
        } else if ver == 21 {
            25
        } else if ver == 22 {
            34
        } else if ver == 23 {
            30
        } else if ver == 24 {
            32
        } else if ver == 25 {
            35
        } else if ver == 26 {
            37
        } else if ver == 27 {
            40
        } else if ver == 28 {
            42
        } else if ver == 29 {
            45
        } else if ver == 30 {
            48
        } else if ver == 31 {
            51
        } else if ver == 32 {
            54
        } else if ver == 33 {
            57
        } else if ver == 34 {
            60
        } else if ver == 35 {
            63
        } else if ver == 36 {
            66
        } else if ver == 37 {
            70
        } else if ver == 38 {
            74
        } else if ver == 39 {
            77
        } else {
            81
        }
    }
}

/// The number of data bits that can be stored in a QR Code of the given
/// version, after all function modules are excluded: the full module count
/// minus the finder, timing, alignment, format and version modules.
pub open spec fn spec_raw_data_modules(ver: int) -> int {
    let base = (16 * ver + 128) * ver + 64;
    if ver >= 2 {
        let numalign = ver / 7 + 2;
        let reduced = base - ((25 * numalign - 10) * numalign - 55);
        if ver >= 7 {
            reduced - 36
        } else {
            reduced
        }
    } else {
        base
    }
}

/// The number of 8-bit data codewords (excluding error correction) in a
/// QR Code of the given version and error correction level.
pub open spec fn spec_data_codewords(ecl: int, ver: int) -> int {
    spec_raw_data_modules(ver) / 8 - spec_ecc_codewords_per_block(ecl, ver) * spec_num_ecc_blocks(
        ecl,
        ver,
    )
}

/// Everything the codeword pipeline needs to know about one table column:
/// the counts are small and positive, every block holds at least one data
/// codeword, and the data codewords exactly fill the non-ECC capacity.
pub open spec fn spec_table_facts_at(ecl: int, ver: int) -> bool {
    let ecc = spec_ecc_codewords_per_block(ecl, ver);
    let blocks = spec_num_ecc_blocks(ecl, ver);
    let raw = spec_raw_data_modules(ver);
    let shortlen = raw / 8 / blocks;
    &&& 7 <= ecc <= 30
    &&& 1 <= blocks <= 81
    &&& 208 <= raw <= 29648
    &&& 0 < spec_data_codewords(ecl, ver) <= 2956
    &&& shortlen >= ecc + 1
    &&& shortlen <= 153
    &&& raw / 8 == spec_data_codewords(ecl, ver) + ecc * blocks
}

proof fn lemma_column_facts_v1()
    ensures
        spec_raw_data_modules(1) == 208,
        spec_table_facts_at(0, 1),
        spec_table_facts_at(1, 1),
        spec_table_facts_at(2, 1),
        spec_table_facts_at(3, 1),
{
    let numalign = 1int / 7 + 2;
    assert(numalign == 2);
    assert((25 * numalign - 10) * numalign - 55 == 25) by (nonlinear_arith)
        requires
            numalign == 2,
    ;
    assert((16 * 1 + 128) * 1 + 64 == 208) by (nonlinear_arith);
    assert(spec_raw_data_modules(1) == 208);
}

proof fn lemma_column_facts_v2()
    ensures
        spec_raw_data_modules(2) == 359,
        spec_table_facts_at(0, 2),
        spec_table_facts_at(1, 2),
        spec_table_facts_at(2, 2),
        spec_table_facts_at(3, 2),
{
    let numalign = 2int / 7 + 2;
    assert(numalign == 2);
    assert((25 * numalign - 10) * numalign - 55 == 25) by (nonlinear_arith)
        requires
            numalign == 2,
    ;
    assert((16 * 2 + 128) * 2 + 64 == 384) by (nonlinear_arith);
    assert(spec_raw_data_modules(2) == 359);
}

proof fn lemma_column_facts_v3()
    ensures
        spec_raw_data_modules(3) == 567,
        spec_table_facts_at(0, 3),
        spec_table_facts_at(1, 3),
        spec_table_facts_at(2, 3),
        spec_table_facts_at(3, 3),
{
    let numalign = 3int / 7 + 2;
    assert(numalign == 2);
    assert((25 * numalign - 10) * numalign - 55 == 25) by (nonlinear_arith)
        requires
            numalign == 2,
    ;
    assert((16 * 3 + 128) * 3 + 64 == 592) by (nonlinear_arith);
    assert(spec_raw_data_modules(3) == 567);
}

proof fn lemma_column_facts_v4()
    ensures
        spec_raw_data_modules(4) == 807,
        spec_table_facts_at(0, 4),
        spec_table_facts_at(1, 4),
        spec_table_facts_at(2, 4),
        spec_table_facts_at(3, 4),
{
    let numalign = 4int / 7 + 2;
    assert(numalign == 2);
    assert((25 * numalign - 10) * numalign - 55 == 25) by (nonlinear_arith)
        requires
            numalign == 2,
    ;
    assert((16 * 4 + 128) * 4 + 64 == 832) by (nonlinear_arith);
    assert(spec_raw_data_modules(4) == 807);
}

proof fn lemma_column_facts_v5()
    ensures
        spec_raw_data_modules(5) == 1079,
        spec_table_facts_at(0, 5),
        spec_table_facts_at(1, 5),
        spec_table_facts_at(2, 5),
        spec_table_facts_at(3, 5),
{
    let numalign = 5int / 7 + 2;
    assert(numalign == 2);
    assert((25 * numalign - 10) * numalign - 55 == 25) by (nonlinear_arith)
        requires
            numalign == 2,
    ;
    assert((16 * 5 + 128) * 5 + 64 == 1104) by (nonlinear_arith);
    assert(spec_raw_data_modules(5) == 1079);
}

proof fn lemma_column_facts_v6()
    ensures
        spec_raw_data_modules(6) == 1383,
        spec_table_facts_at(0, 6),
        spec_table_facts_at(1, 6),
        spec_table_facts_at(2, 6),
        spec_table_facts_at(3, 6),
{
    let numalign = 6int / 7 + 2;
    assert(numalign == 2);
    assert((25 * numalign - 10) * numalign - 55 == 25) by (nonlinear_arith)
        requires
            numalign == 2,
    ;
    assert((16 * 6 + 128) * 6 + 64 == 1408) by (nonlinear_arith);
    assert(spec_raw_data_modules(6) == 1383);
}

proof fn lemma_column_facts_v7()
    ensures
        spec_raw_data_modules(7) == 1568,
        spec_table_facts_at(0, 7),
        spec_table_facts_at(1, 7),
        spec_table_facts_at(2, 7),
        spec_table_facts_at(3, 7),
{
    let numalign = 7int / 7 + 2;
    assert(numalign == 3);
    assert((25 * numalign - 10) * numalign - 55 == 140) by (nonlinear_arith)
        requires
            numalign == 3,
    ;
    assert((16 * 7 + 128) * 7 + 64 == 1744) by (nonlinear_arith);
    assert(spec_raw_data_modules(7) == 1568);
}

proof fn lemma_column_facts_v8()
    ensures
        spec_raw_data_modules(8) == 1936,
        spec_table_facts_at(0, 8),
        spec_table_facts_at(1, 8),
        spec_table_facts_at(2, 8),
        spec_table_facts_at(3, 8),
{
    let numalign = 8int / 7 + 2;
    assert(numalign == 3);
    assert((25 * numalign - 10) * numalign - 55 == 140) by (nonlinear_arith)
        requires
            numalign == 3,
    ;
    assert((16 * 8 + 128) * 8 + 64 == 2112) by (nonlinear_arith);
    assert(spec_raw_data_modules(8) == 1936);
}

proof fn lemma_column_facts_v9()
    ensures
        spec_raw_data_modules(9) == 2336,
        spec_table_facts_at(0, 9),
        spec_table_facts_at(1, 9),
        spec_table_facts_at(2, 9),
        spec_table_facts_at(3, 9),
{
    let numalign = 9int / 7 + 2;
    assert(numalign == 3);
    assert((25 * numalign - 10) * numalign - 55 == 140) by (nonlinear_arith)
        requires
            numalign == 3,
    ;
    assert((16 * 9 + 128) * 9 + 64 == 2512) by (nonlinear_arith);
    assert(spec_raw_data_modules(9) == 2336);
}

proof fn lemma_column_facts_v10()
    ensures
        spec_raw_data_modules(10) == 2768,
        spec_table_facts_at(0, 10),
        spec_table_facts_at(1, 10),
        spec_table_facts_at(2, 10),
        spec_table_facts_at(3, 10),
{
    let numalign = 10int / 7 + 2;
    assert(numalign == 3);
    assert((25 * numalign - 10) * numalign - 55 == 140) by (nonlinear_arith)
        requires
            numalign == 3,
    ;
    assert((16 * 10 + 128) * 10 + 64 == 2944) by (nonlinear_arith);
    assert(spec_raw_data_modules(10) == 2768);
}

proof fn lemma_column_facts_v11()
    ensures
        spec_raw_data_modules(11) == 3232,
        spec_table_facts_at(0, 11),
        spec_table_facts_at(1, 11),
        spec_table_facts_at(2, 11),
        spec_table_facts_at(3, 11),
{
    let numalign = 11int / 7 + 2;
    assert(numalign == 3);
    assert((25 * numalign - 10) * numalign - 55 == 140) by (nonlinear_arith)
        requires
            numalign == 3,
    ;
    assert((16 * 11 + 128) * 11 + 64 == 3408) by (nonlinear_arith);
    assert(spec_raw_data_modules(11) == 3232);
}

proof fn lemma_column_facts_v12()
    ensures
        spec_raw_data_modules(12) == 3728,
        spec_table_facts_at(0, 12),
        spec_table_facts_at(1, 12),
        spec_table_facts_at(2, 12),
        spec_table_facts_at(3, 12),
{
    let numalign = 12int / 7 + 2;
    assert(numalign == 3);
    assert((25 * numalign - 10) * numalign - 55 == 140) by (nonlinear_arith)
        requires
            numalign == 3,
    ;
    assert((16 * 12 + 128) * 12 + 64 == 3904) by (nonlinear_arith);
    assert(spec_raw_data_modules(12) == 3728);
}

proof fn lemma_column_facts_v13()
    ensures
        spec_raw_data_modules(13) == 4256,
        spec_table_facts_at(0, 13),
        spec_table_facts_at(1, 13),
        spec_table_facts_at(2, 13),
        spec_table_facts_at(3, 13),
{
    let numalign = 13int / 7 + 2;
    assert(numalign == 3);
    assert((25 * numalign - 10) * numalign - 55 == 140) by (nonlinear_arith)
        requires
            numalign == 3,
    ;
    assert((16 * 13 + 128) * 13 + 64 == 4432) by (nonlinear_arith);
    assert(spec_raw_data_modules(13) == 4256);
}

proof fn lemma_column_facts_v14()
    ensures
        spec_raw_data_modules(14) == 4651,
        spec_table_facts_at(0, 14),
        spec_table_facts_at(1, 14),
        spec_table_facts_at(2, 14),
        spec_table_facts_at(3, 14),
{
    let numalign = 14int / 7 + 2;
    assert(numalign == 4);
    assert((25 * numalign - 10) * numalign - 55 == 305) by (nonlinear_arith)
        requires
            numalign == 4,
    ;
    assert((16 * 14 + 128) * 14 + 64 == 4992) by (nonlinear_arith);
    assert(spec_raw_data_modules(14) == 4651);
}

proof fn lemma_column_facts_v15()
    ensures
        spec_raw_data_modules(15) == 5243,
        spec_table_facts_at(0, 15),
        spec_table_facts_at(1, 15),
        spec_table_facts_at(2, 15),
        spec_table_facts_at(3, 15),
{
    let numalign = 15int / 7 + 2;
    assert(numalign == 4);
    assert((25 * numalign - 10) * numalign - 55 == 305) by (nonlinear_arith)
        requires
            numalign == 4,
    ;
    assert((16 * 15 + 128) * 15 + 64 == 5584) by (nonlinear_arith);
    assert(spec_raw_data_modules(15) == 5243);
}

proof fn lemma_column_facts_v16()
    ensures
        spec_raw_data_modules(16) == 5867,
        spec_table_facts_at(0, 16),
        spec_table_facts_at(1, 16),
        spec_table_facts_at(2, 16),
        spec_table_facts_at(3, 16),
{
    let numalign = 16int / 7 + 2;
    assert(numalign == 4);
    assert((25 * numalign - 10) * numalign - 55 == 305) by (nonlinear_arith)
        requires
            numalign == 4,
    ;
    assert((16 * 16 + 128) * 16 + 64 == 6208) by (nonlinear_arith);
    assert(spec_raw_data_modules(16) == 5867);
}

proof fn lemma_column_facts_v17()
    ensures
        spec_raw_data_modules(17) == 6523,
        spec_table_facts_at(0, 17),
        spec_table_facts_at(1, 17),
        spec_table_facts_at(2, 17),
        spec_table_facts_at(3, 17),
{
    let numalign = 17int / 7 + 2;
    assert(numalign == 4);
    assert((25 * numalign - 10) * numalign - 55 == 305) by (nonlinear_arith)
        requires
            numalign == 4,
    ;
    assert((16 * 17 + 128) * 17 + 64 == 6864) by (nonlinear_arith);
    assert(spec_raw_data_modules(17) == 6523);
}

proof fn lemma_column_facts_v18()
    ensures
        spec_raw_data_modules(18) == 7211,
        spec_table_facts_at(0, 18),
        spec_table_facts_at(1, 18),
        spec_table_facts_at(2, 18),
        spec_table_facts_at(3, 18),
{
    let numalign = 18int / 7 + 2;
    assert(numalign == 4);
    assert((25 * numalign - 10) * numalign - 55 == 305) by (nonlinear_arith)
        requires
            numalign == 4,
    ;
    assert((16 * 18 + 128) * 18 + 64 == 7552) by (nonlinear_arith);
    assert(spec_raw_data_modules(18) == 7211);
}

proof fn lemma_column_facts_v19()
    ensures
        spec_raw_data_modules(19) == 7931,
        spec_table_facts_at(0, 19),
        spec_table_facts_at(1, 19),
        spec_table_facts_at(2, 19),
        spec_table_facts_at(3, 19),
{
    let numalign = 19int / 7 + 2;
    assert(numalign == 4);
    assert((25 * numalign - 10) * numalign - 55 == 305) by (nonlinear_arith)
        requires
            numalign == 4,
    ;
    assert((16 * 19 + 128) * 19 + 64 == 8272) by (nonlinear_arith);
    assert(spec_raw_data_modules(19) == 7931);
}

proof fn lemma_column_facts_v20()
    ensures
        spec_raw_data_modules(20) == 8683,
        spec_table_facts_at(0, 20),
        spec_table_facts_at(1, 20),
        spec_table_facts_at(2, 20),
        spec_table_facts_at(3, 20),
{
    let numalign = 20int / 7 + 2;
    assert(numalign == 4);
    assert((25 * numalign - 10) * numalign - 55 == 305) by (nonlinear_arith)
        requires
            numalign == 4,
    ;
    assert((16 * 20 + 128) * 20 + 64 == 9024) by (nonlinear_arith);
    assert(spec_raw_data_modules(20) == 8683);
}

proof fn lemma_column_facts_v21()
    ensures
        spec_raw_data_modules(21) == 9252,
        spec_table_facts_at(0, 21),
        spec_table_facts_at(1, 21),
        spec_table_facts_at(2, 21),
        spec_table_facts_at(3, 21),
{
    let numalign = 21int / 7 + 2;
    assert(numalign == 5);
    assert((25 * numalign - 10) * numalign - 55 == 520) by (nonlinear_arith)
        requires
            numalign == 5,
    ;
    assert((16 * 21 + 128) * 21 + 64 == 9808) by (nonlinear_arith);
    assert(spec_raw_data_modules(21) == 9252);
}

proof fn lemma_column_facts_v22()
    ensures
        spec_raw_data_modules(22) == 10068,
        spec_table_facts_at(0, 22),
        spec_table_facts_at(1, 22),
        spec_table_facts_at(2, 22),
        spec_table_facts_at(3, 22),
{
    let numalign = 22int / 7 + 2;
    assert(numalign == 5);
    assert((25 * numalign - 10) * numalign - 55 == 520) by (nonlinear_arith)
        requires
            numalign == 5,
    ;
    assert((16 * 22 + 128) * 22 + 64 == 10624) by (nonlinear_arith);
    assert(spec_raw_data_modules(22) == 10068);
}

proof fn lemma_column_facts_v23()
    ensures
        spec_raw_data_modules(23) == 10916,
        spec_table_facts_at(0, 23),
        spec_table_facts_at(1, 23),
        spec_table_facts_at(2, 23),
        spec_table_facts_at(3, 23),
{
    let numalign = 23int / 7 + 2;
    assert(numalign == 5);
    assert((25 * numalign - 10) * numalign - 55 == 520) by (nonlinear_arith)
        requires
            numalign == 5,
    ;
    assert((16 * 23 + 128) * 23 + 64 == 11472) by (nonlinear_arith);
    assert(spec_raw_data_modules(23) == 10916);
}

proof fn lemma_column_facts_v24()
    ensures
        spec_raw_data_modules(24) == 11796,
        spec_table_facts_at(0, 24),
        spec_table_facts_at(1, 24),
        spec_table_facts_at(2, 24),
        spec_table_facts_at(3, 24),
{
    let numalign = 24int / 7 + 2;
    assert(numalign == 5);
    assert((25 * numalign - 10) * numalign - 55 == 520) by (nonlinear_arith)
        requires
            numalign == 5,
    ;
    assert((16 * 24 + 128) * 24 + 64 == 12352) by (nonlinear_arith);
    assert(spec_raw_data_modules(24) == 11796);
}

proof fn lemma_column_facts_v25()
    ensures
        spec_raw_data_modules(25) == 12708,
        spec_table_facts_at(0, 25),
        spec_table_facts_at(1, 25),
        spec_table_facts_at(2, 25),
        spec_table_facts_at(3, 25),
{
    let numalign = 25int / 7 + 2;
    assert(numalign == 5);
    assert((25 * numalign - 10) * numalign - 55 == 520) by (nonlinear_arith)
        requires
            numalign == 5,
    ;
    assert((16 * 25 + 128) * 25 + 64 == 13264) by (nonlinear_arith);
    assert(spec_raw_data_modules(25) == 12708);
}

proof fn lemma_column_facts_v26()
    ensures
        spec_raw_data_modules(26) == 13652,
        spec_table_facts_at(0, 26),
        spec_table_facts_at(1, 26),
        spec_table_facts_at(2, 26),
        spec_table_facts_at(3, 26),
{
    let numalign = 26int / 7 + 2;
    assert(numalign == 5);
    assert((25 * numalign - 10) * numalign - 55 == 520) by (nonlinear_arith)
        requires
            numalign == 5,
    ;
    assert((16 * 26 + 128) * 26 + 64 == 14208) by (nonlinear_arith);
    assert(spec_raw_data_modules(26) == 13652);
}

proof fn lemma_column_facts_v27()
    ensures
        spec_raw_data_modules(27) == 14628,
        spec_table_facts_at(0, 27),
        spec_table_facts_at(1, 27),
        spec_table_facts_at(2, 27),
        spec_table_facts_at(3, 27),
{
    let numalign = 27int / 7 + 2;
    assert(numalign == 5);
    assert((25 * numalign - 10) * numalign - 55 == 520) by (nonlinear_arith)
        requires
            numalign == 5,
    ;
    assert((16 * 27 + 128) * 27 + 64 == 15184) by (nonlinear_arith);
    assert(spec_raw_data_modules(27) == 14628);
}

proof fn lemma_column_facts_v28()
    ensures
        spec_raw_data_modules(28) == 15371,
        spec_table_facts_at(0, 28),
        spec_table_facts_at(1, 28),
        spec_table_facts_at(2, 28),
        spec_table_facts_at(3, 28),
{
    let numalign = 28int / 7 + 2;
    assert(numalign == 6);
    assert((25 * numalign - 10) * numalign - 55 == 785) by (nonlinear_arith)
        requires
            numalign == 6,
    ;
    assert((16 * 28 + 128) * 28 + 64 == 16192) by (nonlinear_arith);
    assert(spec_raw_data_modules(28) == 15371);
}

proof fn lemma_column_facts_v29()
    ensures
        spec_raw_data_modules(29) == 16411,
        spec_table_facts_at(0, 29),
        spec_table_facts_at(1, 29),
        spec_table_facts_at(2, 29),
        spec_table_facts_at(3, 29),
{
    let numalign = 29int / 7 + 2;
    assert(numalign == 6);
    assert((25 * numalign - 10) * numalign - 55 == 785) by (nonlinear_arith)
        requires
            numalign == 6,
    ;
    assert((16 * 29 + 128) * 29 + 64 == 17232) by (nonlinear_arith);
    assert(spec_raw_data_modules(29) == 16411);
}

proof fn lemma_column_facts_v30()
    ensures
        spec_raw_data_modules(30) == 17483,
        spec_table_facts_at(0, 30),
        spec_table_facts_at(1, 30),
        spec_table_facts_at(2, 30),
        spec_table_facts_at(3, 30),
{
    let numalign = 30int / 7 + 2;
    assert(numalign == 6);
    assert((25 * numalign - 10) * numalign - 55 == 785) by (nonlinear_arith)
        requires
            numalign == 6,
    ;
    assert((16 * 30 + 128) * 30 + 64 == 18304) by (nonlinear_arith);
    assert(spec_raw_data_modules(30) == 17483);
}

proof fn lemma_column_facts_v31()
    ensures
        spec_raw_data_modules(31) == 18587,
        spec_table_facts_at(0, 31),
        spec_table_facts_at(1, 31),
        spec_table_facts_at(2, 31),
        spec_table_facts_at(3, 31),
{
    let numalign = 31int / 7 + 2;
    assert(numalign == 6);
    assert((25 * numalign - 10) * numalign - 55 == 785) by (nonlinear_arith)
        requires
            numalign == 6,
    ;
    assert((16 * 31 + 128) * 31 + 64 == 19408) by (nonlinear_arith);
    assert(spec_raw_data_modules(31) == 18587);
}

proof fn lemma_column_facts_v32()
    ensures
        spec_raw_data_modules(32) == 19723,
        spec_table_facts_at(0, 32),
        spec_table_facts_at(1, 32),
        spec_table_facts_at(2, 32),
        spec_table_facts_at(3, 32),
{
    let numalign = 32int / 7 + 2;
    assert(numalign == 6);
    assert((25 * numalign - 10) * numalign - 55 == 785) by (nonlinear_arith)
        requires
            numalign == 6,
    ;
    assert((16 * 32 + 128) * 32 + 64 == 20544) by (nonlinear_arith);
    assert(spec_raw_data_modules(32) == 19723);
}

proof fn lemma_column_facts_v33()
    ensures
        spec_raw_data_modules(33) == 20891,
        spec_table_facts_at(0, 33),
        spec_table_facts_at(1, 33),
        spec_table_facts_at(2, 33),
        spec_table_facts_at(3, 33),
{
    let numalign = 33int / 7 + 2;
    assert(numalign == 6);
    assert((25 * numalign - 10) * numalign - 55 == 785) by (nonlinear_arith)
        requires
            numalign == 6,
    ;
    assert((16 * 33 + 128) * 33 + 64 == 21712) by (nonlinear_arith);
    assert(spec_raw_data_modules(33) == 20891);
}

proof fn lemma_column_facts_v34()
    ensures
        spec_raw_data_modules(34) == 22091,
        spec_table_facts_at(0, 34),
        spec_table_facts_at(1, 34),
        spec_table_facts_at(2, 34),
        spec_table_facts_at(3, 34),
{
    let numalign = 34int / 7 + 2;
    assert(numalign == 6);
    assert((25 * numalign - 10) * numalign - 55 == 785) by (nonlinear_arith)
        requires
            numalign == 6,
    ;
    assert((16 * 34 + 128) * 34 + 64 == 22912) by (nonlinear_arith);
    assert(spec_raw_data_modules(34) == 22091);
}

proof fn lemma_column_facts_v35()
    ensures
        spec_raw_data_modules(35) == 23008,
        spec_table_facts_at(0, 35),
        spec_table_facts_at(1, 35),
        spec_table_facts_at(2, 35),
        spec_table_facts_at(3, 35),
{
    let numalign = 35int / 7 + 2;
    assert(numalign == 7);
    assert((25 * numalign - 10) * numalign - 55 == 1100) by (nonlinear_arith)
        requires
            numalign == 7,
    ;
    assert((16 * 35 + 128) * 35 + 64 == 24144) by (nonlinear_arith);
    assert(spec_raw_data_modules(35) == 23008);
}

proof fn lemma_column_facts_v36()
    ensures
        spec_raw_data_modules(36) == 24272,
        spec_table_facts_at(0, 36),
        spec_table_facts_at(1, 36),
        spec_table_facts_at(2, 36),
        spec_table_facts_at(3, 36),
{
    let numalign = 36int / 7 + 2;
    assert(numalign == 7);
    assert((25 * numalign - 10) * numalign - 55 == 1100) by (nonlinear_arith)
        requires
            numalign == 7,
    ;
    assert((16 * 36 + 128) * 36 + 64 == 25408) by (nonlinear_arith);
    assert(spec_raw_data_modules(36) == 24272);
}

proof fn lemma_column_facts_v37()
    ensures
        spec_raw_data_modules(37) == 25568,
        spec_table_facts_at(0, 37),
        spec_table_facts_at(1, 37),
        spec_table_facts_at(2, 37),
        spec_table_facts_at(3, 37),
{
    let numalign = 37int / 7 + 2;
    assert(numalign == 7);
    assert((25 * numalign - 10) * numalign - 55 == 1100) by (nonlinear_arith)
        requires
            numalign == 7,
    ;
    assert((16 * 37 + 128) * 37 + 64 == 26704) by (nonlinear_arith);
    assert(spec_raw_data_modules(37) == 25568);
}

proof fn lemma_column_facts_v38()
    ensures
        spec_raw_data_modules(38) == 26896,
        spec_table_facts_at(0, 38),
        spec_table_facts_at(1, 38),
        spec_table_facts_at(2, 38),
        spec_table_facts_at(3, 38),
{
    let numalign = 38int / 7 + 2;
    assert(numalign == 7);
    assert((25 * numalign - 10) * numalign - 55 == 1100) by (nonlinear_arith)
        requires
            numalign == 7,
    ;
    assert((16 * 38 + 128) * 38 + 64 == 28032) by (nonlinear_arith);
    assert(spec_raw_data_modules(38) == 26896);
}

proof fn lemma_column_facts_v39()
    ensures
        spec_raw_data_modules(39) == 28256,
        spec_table_facts_at(0, 39),
        spec_table_facts_at(1, 39),
        spec_table_facts_at(2, 39),
        spec_table_facts_at(3, 39),
{
    let numalign = 39int / 7 + 2;
    assert(numalign == 7);
    assert((25 * numalign - 10) * numalign - 55 == 1100) by (nonlinear_arith)
        requires
            numalign == 7,
    ;
    assert((16 * 39 + 128) * 39 + 64 == 29392) by (nonlinear_arith);
    assert(spec_raw_data_modules(39) == 28256);
}

proof fn lemma_column_facts_v40()
    ensures
        spec_raw_data_modules(40) == 29648,
        spec_table_facts_at(0, 40),
        spec_table_facts_at(1, 40),
        spec_table_facts_at(2, 40),
        spec_table_facts_at(3, 40),
{
    let numalign = 40int / 7 + 2;
    assert(numalign == 7);
    assert((25 * numalign - 10) * numalign - 55 == 1100) by (nonlinear_arith)
        requires
            numalign == 7,
    ;
    assert((16 * 40 + 128) * 40 + 64 == 30784) by (nonlinear_arith);
    assert(spec_raw_data_modules(40) == 29648);
}

/// Bounds on the raw data module count: for every version in [1, 40] the
/// count lies in [208, 29648], and version 1 yields exactly 208.
#[verifier::rlimit(100)]
#[verifier::spinoff_prover]
pub proof fn lemma_raw_data_modules_range(ver: int)
    requires
        1 <= ver <= 40,
    ensures
        208 <= spec_raw_data_modules(ver) <= 29648,
        spec_raw_data_modules(1) == 208,
{
    if ver == 1 {
        lemma_column_facts_v1();
    } else if ver == 2 {
        lemma_column_facts_v2();
    } else if ver == 3 {
        lemma_column_facts_v3();
    } else if ver == 4 {
        lemma_column_facts_v4();
    } else if ver == 5 {
        lemma_column_facts_v5();
    } else if ver == 6 {
        lemma_column_facts_v6();
    } else if ver == 7 {
        lemma_column_facts_v7();
    } else if ver == 8 {
        lemma_column_facts_v8();
    } else if ver == 9 {
        lemma_column_facts_v9();
    } else if ver == 10 {
        lemma_column_facts_v10();
    } else if ver == 11 {
        lemma_column_facts_v11();
    } else if ver == 12 {
        lemma_column_facts_v12();
    } else if ver == 13 {
        lemma_column_facts_v13();
    } else if ver == 14 {
        lemma_column_facts_v14();
    } else if ver == 15 {
        lemma_column_facts_v15();
    } else if ver == 16 {
        lemma_column_facts_v16();
    } else if ver == 17 {
        lemma_column_facts_v17();
    } else if ver == 18 {
        lemma_column_facts_v18();
    } else if ver == 19 {
        lemma_column_facts_v19();
    } else if ver == 20 {
        lemma_column_facts_v20();
    } else if ver == 21 {
        lemma_column_facts_v21();
    } else if ver == 22 {
        lemma_column_facts_v22();
    } else if ver == 23 {
        lemma_column_facts_v23();
    } else if ver == 24 {
        lemma_column_facts_v24();
    } else if ver == 25 {
        lemma_column_facts_v25();
    } else if ver == 26 {
        lemma_column_facts_v26();
    } else if ver == 27 {
        lemma_column_facts_v27();
    } else if ver == 28 {
        lemma_column_facts_v28();
    } else if ver == 29 {
        lemma_column_facts_v29();
    } else if ver == 30 {
        lemma_column_facts_v30();
    } else if ver == 31 {
        lemma_column_facts_v31();
    } else if ver == 32 {
        lemma_column_facts_v32();
    } else if ver == 33 {
        lemma_column_facts_v33();
    } else if ver == 34 {
        lemma_column_facts_v34();
    } else if ver == 35 {
        lemma_column_facts_v35();
    } else if ver == 36 {
        lemma_column_facts_v36();
    } else if ver == 37 {
        lemma_column_facts_v37();
    } else if ver == 38 {
        lemma_column_facts_v38();
    } else if ver == 39 {
        lemma_column_facts_v39();
    } else {
        assert(ver == 40);
        lemma_column_facts_v40();
    }
    lemma_column_facts_v1();
}

/// The data codeword count equals the raw codeword capacity minus the error
/// correction codewords and is positive, for every version and level; the
/// block shape facts used by the interleaving step hold as well.
#[verifier::rlimit(100)]
#[verifier::spinoff_prover]
pub proof fn lemma_table_facts(ecl: int, ver: int)
    requires
        0 <= ecl <= 3,
        1 <= ver <= 40,
    ensures
        spec_table_facts_at(ecl, ver),
{
    if ver == 1 {
        lemma_column_facts_v1();
    } else if ver == 2 {
        lemma_column_facts_v2();
    } else if ver == 3 {
        lemma_column_facts_v3();
    } else if ver == 4 {
        lemma_column_facts_v4();
    } else if ver == 5 {
        lemma_column_facts_v5();
    } else if ver == 6 {
        lemma_column_facts_v6();
    } else if ver == 7 {
        lemma_column_facts_v7();
    } else if ver == 8 {
        lemma_column_facts_v8();
    } else if ver == 9 {
        lemma_column_facts_v9();
    } else if ver == 10 {
        lemma_column_facts_v10();
    } else if ver == 11 {
        lemma_column_facts_v11();
    } else if ver == 12 {
        lemma_column_facts_v12();
    } else if ver == 13 {
        lemma_column_facts_v13();
    } else if ver == 14 {
        lemma_column_facts_v14();
    } else if ver == 15 {
        lemma_column_facts_v15();
    } else if ver == 16 {
        lemma_column_facts_v16();
    } else if ver == 17 {
        lemma_column_facts_v17();
    } else if ver == 18 {
        lemma_column_facts_v18();
    } else if ver == 19 {
        lemma_column_facts_v19();
    } else if ver == 20 {
        lemma_column_facts_v20();
    } else if ver == 21 {
        lemma_column_facts_v21();
    } else if ver == 22 {
        lemma_column_facts_v22();
    } else if ver == 23 {
        lemma_column_facts_v23();
    } else if ver == 24 {
        lemma_column_facts_v24();
    } else if ver == 25 {
        lemma_column_facts_v25();
    } else if ver == 26 {
        lemma_column_facts_v26();
    } else if ver == 27 {
        lemma_column_facts_v27();
    } else if ver == 28 {
        lemma_column_facts_v28();
    } else if ver == 29 {
        lemma_column_facts_v29();
    } else if ver == 30 {
        lemma_column_facts_v30();
    } else if ver == 31 {
        lemma_column_facts_v31();
    } else if ver == 32 {
        lemma_column_facts_v32();
    } else if ver == 33 {
        lemma_column_facts_v33();
    } else if ver == 34 {
        lemma_column_facts_v34();
    } else if ver == 35 {
        lemma_column_facts_v35();
    } else if ver == 36 {
        lemma_column_facts_v36();
    } else if ver == 37 {
        lemma_column_facts_v37();
    } else if ver == 38 {
        lemma_column_facts_v38();
    } else if ver == 39 {
        lemma_column_facts_v39();
    } else {
        assert(ver == 40);
        lemma_column_facts_v40();
    }
}

/// The exact data codeword capacity of the largest symbol at the lowest
/// redundancy: the capacity behind the documented size guarantees.
pub proof fn lemma_low_capacity()
    ensures
        spec_data_codewords(0, 40) == 2956,
{
    lemma_column_facts_v40();
}

/// Returns the number of data bits that can be stored in a QR Code of the
/// given version number, after all function modules are excluded. This
/// includes remainder bits, so it might not be a multiple of 8.
/// The result is in the range [208, 29648].
pub fn get_num_raw_data_modules(ver: Version) -> (r: usize)
    requires
        ver.valid(),
    ensures
        r == spec_raw_data_modules(ver.spec_value()),
        208 <= r <= 29648,
{
    proof {
        lemma_raw_data_modules_range(ver.spec_value());
    }
    let v = ver.value() as usize;
    proof {
        assert((16 * v + 128) * v <= 768 * 40) by (nonlinear_arith)
            requires
                1 <= v <= 40,
        ;
    }
    let mut result: usize = (16 * v + 128) * v + 64;
    if v >= 2 {
        let numalign: usize = v / 7 + 2;
        proof {
            if v < 7 {
                assert(numalign == 2);
                assert((25 * numalign - 10) * numalign - 55 == 25) by (nonlinear_arith)
                    requires
                        numalign == 2,
                ;
                assert((16 * v + 128) * v + 64 >= 384) by (nonlinear_arith)
                    requires
                        v >= 2,
                ;
            } else {
                assert(2 <= numalign <= 7);
                assert(25 <= (25 * numalign - 10) * numalign - 55 <= 1100) by (nonlinear_arith)
                    requires
                        2 <= numalign <= 7,
                ;
                assert((16 * v + 128) * v + 64 >= 1744) by (nonlinear_arith)
                    requires
                        v >= 7,
                ;
            }
        }
        result = result - ((25 * numalign - 10) * numalign - 55);
        if v >= 7 {
            result = result - 36;
        }
    }
    result
}

/// Looks up one entry of the error correction codewords per block table.
pub fn ecc_codewords_per_block(ver: Version, ecl: CodeEcc) -> (r: usize)
    requires
        ver.valid(),
    ensures
        r == spec_ecc_codewords_per_block(spec_ordinal(ecl), ver.spec_value()),
{
    let v = ver.value();
    match ecl {
        CodeEcc::Low => {
            if v == 1 {
                7
            } else if v == 2 {
                10
            } else if v == 3 {
                15
            } else if v == 4 {
                20
            } else if v == 5 {
                26
            } else if v == 6 {
                18
            } else if v == 7 {
                20
            } else if v == 8 {
                24
            } else if v == 9 {
                30
            } else if v == 10 {
                18
            } else if v == 11 {
                20
            } else if v == 12 {
                24
            } else if v == 13 {
                26
            } else if v == 14 {
                30
            } else if v == 15 {
                22
            } else if v == 16 {
                24
            } else if v == 17 {
                28
            } else if v == 18 {
                30
            } else if v == 19 {
                28
            } else if v == 20 {
                28
            } else if v == 21 {
                28
            } else if v == 22 {
                28
            } else if v == 23 {
                30
            } else if v == 24 {
                30
            } else if v == 25 {
                26
            } else if v == 26 {
                28
            } else if v == 27 {
                30
            } else if v == 28 {
                30
            } else if v == 29 {
                30
            } else if v == 30 {
                30
            } else if v == 31 {
                30
            } else if v == 32 {
                30
            } else if v == 33 {
                30
            } else if v == 34 {
                30
            } else if v == 35 {
                30
            } else if v == 36 {
                30
            } else if v == 37 {
                30
            } else if v == 38 {
                30
            } else if v == 39 {
                30
            } else {
                30
            }
        },
        CodeEcc::Medium => {
            if v == 1 {
                10
            } else if v == 2 {
                16
            } else if v == 3 {
                26
            } else if v == 4 {
                18
            } else if v == 5 {
                24
            } else if v == 6 {
                16
            } else if v == 7 {
                18
            } else if v == 8 {
                22
            } else if v == 9 {
                22
            } else if v == 10 {
                26
            } else if v == 11 {
                30
            } else if v == 12 {
                22
            } else if v == 13 {
                22
            } else if v == 14 {
                24
            } else if v == 15 {
                24
            } else if v == 16 {
                28
            } else if v == 17 {
                28
            } else if v == 18 {
                26
            } else if v == 19 {
                26
            } else if v == 20 {
                26
            } else if v == 21 {
                26
            } else if v == 22 {
                28
            } else if v == 23 {
                28
            } else if v == 24 {
                28
            } else if v == 25 {
                28
            } else if v == 26 {
                28
            } else if v == 27 {
                28
            } else if v == 28 {
                28
            } else if v == 29 {
                28
            } else if v == 30 {
                28
            } else if v == 31 {
                28
            } else if v == 32 {
                28
            } else if v == 33 {
                28
            } else if v == 34 {
                28
            } else if v == 35 {
                28
            } else if v == 36 {
                28
            } else if v == 37 {
                28
            } else if v == 38 {
                28
            } else if v == 39 {
                28
            } else {
                28
            }
        },
        CodeEcc::Quartile => {
            if v == 1 {
                13
            } else if v == 2 {
                22
            } else if v == 3 {
                18
            } else if v == 4 {
                26
            } else if v == 5 {
                18
            } else if v == 6 {
                24
            } else if v == 7 {
                18
            } else if v == 8 {
                22
            } else if v == 9 {
                20
            } else if v == 10 {
                24
            } else if v == 11 {
                28
            } else if v == 12 {
                26
            } else if v == 13 {
                24
            } else if v == 14 {
                20
            } else if v == 15 {
                30
            } else if v == 16 {
                24
            } else if v == 17 {
                28
            } else if v == 18 {
                28
            } else if v == 19 {
                26
            } else if v == 20 {
                30
            } else if v == 21 {
                28
            } else if v == 22 {
                30
            } else if v == 23 {
                30
            } else if v == 24 {
                30
            } else if v == 25 {
                30
            } else if v == 26 {
                28
            } else if v == 27 {
                30
            } else if v == 28 {
                30
            } else if v == 29 {
                30
            } else if v == 30 {
                30
            } else if v == 31 {
                30
            } else if v == 32 {
                30
            } else if v == 33 {
                30
            } else if v == 34 {
                30
            } else if v == 35 {
                30
            } else if v == 36 {
                30
            } else if v == 37 {
                30
            } else if v == 38 {
                30
            } else if v == 39 {
                30
            } else {
                30
            }
        },
        CodeEcc::High => {
            if v == 1 {
                17
            } else if v == 2 {
                28
            } else if v == 3 {
                22
            } else if v == 4 {
                16
            } else if v == 5 {
                22
            } else if v == 6 {
                28
            } else if v == 7 {
                26
            } else if v == 8 {
                26
            } else if v == 9 {
                24
            } else if v == 10 {
                28
            } else if v == 11 {
                24
            } else if v == 12 {
                28
            } else if v == 13 {
                22
            } else if v == 14 {
                24
            } else if v == 15 {
                24
            } else if v == 16 {
                30
            } else if v == 17 {
                28
            } else if v == 18 {
                28
            } else if v == 19 {
                26
            } else if v == 20 {
                28
            } else if v == 21 {
                30
            } else if v == 22 {
                24
            } else if v == 23 {
                30
            } else if v == 24 {
                30
            } else if v == 25 {
                30
            } else if v == 26 {
                30
            } else if v == 27 {
                30
            } else if v == 28 {
                30
            } else if v == 29 {
                30
            } else if v == 30 {
                30
            } else if v == 31 {
                30
            } else if v == 32 {
                30
            } else if v == 33 {
                30
            } else if v == 34 {
                30
            } else if v == 35 {
                30
            } else if v == 36 {
                30
            } else if v == 37 {
                30
            } else if v == 38 {
                30
            } else if v == 39 {
                30
            } else {
                30
            }
        },
    }
}

/// Looks up one entry of the error correction block count table.
pub fn num_ecc_blocks(ver: Version, ecl: CodeEcc) -> (r: usize)
    requires
        ver.valid(),
    ensures
        r == spec_num_ecc_blocks(spec_ordinal(ecl), ver.spec_value()),
{
    let v = ver.value();
    match ecl {
        CodeEcc::Low => {
            if v == 1 {
                1
            } else if v == 2 {
                1
            } else if v == 3 {
                1
            } else if v == 4 {
                1
            } else if v == 5 {
                1
            } else if v == 6 {
                2
            } else if v == 7 {
                2
            } else if v == 8 {
                2
            } else if v == 9 {
                2
            } else if v == 10 {
                4
            } else if v == 11 {
                4
            } else if v == 12 {
                4
            } else if v == 13 {
                4
            } else if v == 14 {
                4
            } else if v == 15 {
                6
            } else if v == 16 {
                6
            } else if v == 17 {
                6
            } else if v == 18 {
                6
            } else if v == 19 {
                7
            } else if v == 20 {
                8
            } else if v == 21 {
                8
            } else if v == 22 {
                9
            } else if v == 23 {
                9
            } else if v == 24 {
                10
            } else if v == 25 {
                12
            } else if v == 26 {
                12
            } else if v == 27 {
                12
            } else if v == 28 {
                13
            } else if v == 29 {
                14
            } else if v == 30 {
                15
            } else if v == 31 {
                16
            } else if v == 32 {
                17
            } else if v == 33 {
                18
            } else if v == 34 {
                19
            } else if v == 35 {
                19
            } else if v == 36 {
                20
            } else if v == 37 {
                21
            } else if v == 38 {
                22
            } else if v == 39 {
                24
            } else {
                25
            }
        },
        CodeEcc::Medium => {
            if v == 1 {
                1
            } else if v == 2 {
                1
            } else if v == 3 {
                1
            } else if v == 4 {
                2
            } else if v == 5 {
                2
            } else if v == 6 {
                4
            } else if v == 7 {
                4
            } else if v == 8 {
                4
            } else if v == 9 {
                5
            } else if v == 10 {
                5
            } else if v == 11 {
                5
            } else if v == 12 {
                8
            } else if v == 13 {
                9
            } else if v == 14 {
                9
            } else if v == 15 {
                10
            } else if v == 16 {
                10
            } else if v == 17 {
                11
            } else if v == 18 {
                13
            } else if v == 19 {
                14
            } else if v == 20 {
                16
            } else if v == 21 {
                17
            } else if v == 22 {
                17
            } else if v == 23 {
                18
            } else if v == 24 {
                20
            } else if v == 25 {
                21
            } else if v == 26 {
                23
            } else if v == 27 {
                25
            } else if v == 28 {
                26
            } else if v == 29 {
                28
            } else if v == 30 {
                29
            } else if v == 31 {
                31
            } else if v == 32 {
                33
            } else if v == 33 {
                35
            } else if v == 34 {
                37
            } else if v == 35 {
                38
            } else if v == 36 {
                40
            } else if v == 37 {
                43
            } else if v == 38 {
                45
            } else if v == 39 {
                47
            } else {
                49
            }
        },
        CodeEcc::Quartile => {
            if v == 1 {
                1
            } else if v == 2 {
                1
            } else if v == 3 {
                2
            } else if v == 4 {
                2
            } else if v == 5 {
                4
            } else if v == 6 {
                4
            } else if v == 7 {
                6
            } else if v == 8 {
                6
            } else if v == 9 {
                8
            } else if v == 10 {
                8
            } else if v == 11 {
                8
            } else if v == 12 {
                10
            } else if v == 13 {
                12
            } else if v == 14 {
                16
            } else if v == 15 {
                12
            } else if v == 16 {
                17
            } else if v == 17 {
                16
            } else if v == 18 {
                18
            } else if v == 19 {
                21
            } else if v == 20 {
                20
            } else if v == 21 {
                23
            } else if v == 22 {
                23
            } else if v == 23 {
                25
            } else if v == 24 {
                27
            } else if v == 25 {
                29
            } else if v == 26 {
                34
            } else if v == 27 {
                34
            } else if v == 28 {
                35
            } else if v == 29 {
                38
            } else if v == 30 {
                40
            } else if v == 31 {
                43
            } else if v == 32 {
                45
            } else if v == 33 {
                48
            } else if v == 34 {
                51
            } else if v == 35 {
                53
            } else if v == 36 {
                56
            } else if v == 37 {
                59
            } else if v == 38 {
                62
            } else if v == 39 {
                65
            } else {
                68
            }
        },
        CodeEcc::High => {
            if v == 1 {
                1
            } else if v == 2 {
                1
            } else if v == 3 {
                2
            } else if v == 4 {
                4
            } else if v == 5 {
                4
            } else if v == 6 {
                4
            } else if v == 7 {
                5
            } else if v == 8 {
                6
            } else if v == 9 {
                8
            } else if v == 10 {
                8
            } else if v == 11 {
                11
            } else if v == 12 {
                11
            } else if v == 13 {
                16
            } else if v == 14 {
                16
            } else if v == 15 {
                18
            } else if v == 16 {
                16
            } else if v == 17 {
                19
            } else if v == 18 {
                21
            } else if v == 19 {
                25
            } else if v == 20 {
                25
            } else if v == 21 {
                25
            } else if v == 22 {
                34
            } else if v == 23 {
                30
            } else if v == 24 {
                32
            } else if v == 25 {
                35
            } else if v == 26 {
                37
            } else if v == 27 {
                40
            } else if v == 28 {
                42
            } else if v == 29 {
                45
            } else if v == 30 {
                48
            } else if v == 31 {
                51
            } else if v == 32 {
                54
            } else if v == 33 {
                57
            } else if v == 34 {
                60
            } else if v == 35 {
                63
            } else if v == 36 {
                66
            } else if v == 37 {
                70
            } else if v == 38 {
                74
            } else if v == 39 {
                77
            } else {
                81
            }
        },
    }
}

/// Returns the number of 8-bit data (i.e. not error correction) codewords
/// contained in any QR Code of the given version number and error correction
/// level, with remainder bits discarded.
pub fn get_num_data_codewords(ver: Version, ecl: CodeEcc) -> (r: usize)
    requires
        ver.valid(),
    ensures
        r == spec_data_codewords(spec_ordinal(ecl), ver.spec_value()),
        0 < r <= 2956,
{
    proof {
        lemma_table_facts(spec_ordinal(ecl), ver.spec_value());
    }
    get_num_raw_data_modules(ver) / 8 - ecc_codewords_per_block(ver, ecl) * num_ecc_blocks(
        ver,
        ecl,
    )
}

} // verus!
