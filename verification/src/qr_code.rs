use crate::code_ecc::CodeEcc;
use crate::bit_buffer::spec_get_bit;
use crate::error::QrError;
use vstd::string::StringSliceAdditionalSpecFns;
use crate::mask::Mask;
use crate::version::Version;
use vstd::prelude::*;

verus! {

/// The cell index of coordinates (x, y) in a flat grid of the given side
/// length, row by row.
pub open spec fn spec_idx(x: int, y: int, size: int) -> int {
    y * size + x
}

/// The mask predicate: true at (x, y) when mask `mask` inverts that cell.
pub open spec fn spec_mask_pred(mask: int, x: int, y: int) -> bool
    recommends
        0 <= mask <= 7,
{
    if mask == 0 {
        (x + y) % 2 == 0
    } else if mask == 1 {
        y % 2 == 0
    } else if mask == 2 {
        x % 3 == 0
    } else if mask == 3 {
        (x + y) % 3 == 0
    } else if mask == 4 {
        (x / 3 + y / 2) % 2 == 0
    } else if mask == 5 {
        (x * y) % 2 + (x * y) % 3 == 0
    } else if mask == 6 {
        ((x * y) % 2 + (x * y) % 3) % 2 == 0
    } else {
        ((x + y) % 2 + (x * y) % 3) % 2 == 0
    }
}

/// The grid after XOR-applying mask `mask`: every cell not marked as a
/// function module is toggled where the mask predicate holds.
pub open spec fn spec_masked_grid(grid: Seq<bool>, isfn: Seq<bool>, size: int, mask: int) -> Seq<
    bool,
> {
    Seq::new(
        grid.len(),
        |i: int| grid[i] != (spec_mask_pred(mask, i % size, i / size) && !isfn[i]),
    )
}

/// Applying the same mask twice restores the grid exactly: masking is an
/// involution, because each cell is toggled by exclusive or.
pub proof fn lemma_mask_involution(grid: Seq<bool>, isfn: Seq<bool>, size: int, mask: int)
    ensures
        spec_masked_grid(spec_masked_grid(grid, isfn, size, mask), isfn, size, mask) == grid,
{
    assert(spec_masked_grid(spec_masked_grid(grid, isfn, size, mask), isfn, size, mask)
        =~= grid);
}

proof fn lemma_idx_bounds(x: int, y: int, size: int)
    requires
        0 <= x < size,
        0 <= y < size,
        size <= 200,
    ensures
        0 <= spec_idx(x, y, size) < size * size,
        spec_idx(x, y, size) % size == x,
        spec_idx(x, y, size) / size == y,
        0 <= y * size <= size * size,
        size * size <= 40000,
{
    assert(0 <= y * size + x < size * size && (y * size + x) % size == x && (y * size + x) / size
        == y) by (nonlinear_arith)
        requires
            0 <= x < size,
            0 <= y < size,
            size <= 200,
    ;
    assert(0 <= y * size <= size * size && size * size <= 40000) by (nonlinear_arith)
        requires
            0 <= x < size,
            0 <= y < size,
            size <= 200,
    ;
}


/// One step of the 10-bit BCH remainder used by the format information.
pub open spec fn spec_fmt_step(rem: u32) -> u32 {
    ((rem << 1) ^ (((rem >> 9) * 0x537) as u32)) as u32
}

/// `n` steps of the format BCH remainder, starting from `rem`.
pub open spec fn spec_fmt_rem(rem: u32, n: nat) -> u32
    decreases n,
{
    if n == 0 {
        rem
    } else {
        spec_fmt_step(spec_fmt_rem(rem, (n - 1) as nat))
    }
}

/// The 15-bit format word for an error correction level and mask: the
/// 5-bit data, its 10-bit BCH remainder, and the fixed XOR mask 0x5412.
pub open spec fn spec_format_word(ecl: CodeEcc, mask: int) -> int {
    let data = (crate::code_ecc::spec_format_bits(ecl) * 8 + mask) as u32;
    (((data << 10) | spec_fmt_rem(data, 10)) ^ 0x5412) as int
}

/// One step of the 12-bit BCH remainder used by the version information.
pub open spec fn spec_ver_step(rem: u32) -> u32 {
    ((rem << 1) ^ (((rem >> 11) * 0x1F25) as u32)) as u32
}

/// `n` steps of the version BCH remainder, starting from `rem`.
pub open spec fn spec_ver_rem(rem: u32, n: nat) -> u32
    decreases n,
{
    if n == 0 {
        rem
    } else {
        spec_ver_step(spec_ver_rem(rem, (n - 1) as nat))
    }
}

/// The 18-bit version word: the 6-bit version and its 12-bit remainder.
pub open spec fn spec_version_word(ver: int) -> int {
    let data = ver as u32;
    ((data << 12) | spec_ver_rem(data, 12)) as int
}


/// One step of Russian peasant multiplication in the Galois field of
/// order 256 with reduction polynomial x^8 + x^4 + x^3 + x^2 + 1 (0x11D).
pub open spec fn spec_rs_mul_step(z: u8, x: u8, bit: bool) -> u8 {
    let z2 = ((z << 1) ^ (if z >= 0x80 {
        0x1Du8
    } else {
        0u8
    })) as u8;
    if bit {
        (z2 ^ x) as u8
    } else {
        z2
    }
}

/// The first `k` steps of the field multiplication of `x` by `y`,
/// consuming the bits of `y` from the most significant end.
pub open spec fn spec_rs_mul_iter(x: u8, y: u8, k: nat) -> u8
    decreases k,
{
    if k == 0 {
        0u8
    } else {
        spec_rs_mul_step(
            spec_rs_mul_iter(x, y, (k - 1) as nat),
            x,
            (y >> ((8 - k) as u8)) & 1 == 1,
        )
    }
}

/// The product of two elements of the field GF(2^8 / 0x11D).
pub open spec fn spec_rs_mul(x: u8, y: u8) -> u8 {
    spec_rs_mul_iter(x, y, 8)
}

/// One multiplication pass over the divisor coefficients: multiply every
/// coefficient by the current root and fold in the next coefficient.
pub open spec fn spec_divisor_step(r: Seq<u8>, root: u8) -> Seq<u8> {
    Seq::new(
        r.len(),
        |j: int|
            (spec_rs_mul(r[j], root) ^ (if j + 1 < r.len() {
                r[j + 1]
            } else {
                0u8
            })) as u8,
    )
}

/// `n` passes of the divisor construction, tracking the rising root power.
pub open spec fn spec_divisor_iter(d: Seq<u8>, root: u8, n: nat) -> (Seq<u8>, u8)
    decreases n,
{
    if n == 0 {
        (d, root)
    } else {
        let prev = spec_divisor_iter(d, root, (n - 1) as nat);
        (spec_divisor_step(prev.0, prev.1), spec_rs_mul(prev.1, 2))
    }
}

/// The Reed-Solomon generator polynomial of the given degree: the product
/// of (x - r^i) for i in [0, degree), with r = 0x02, stored from highest
/// to lowest power and without the leading 1 term.
pub open spec fn spec_rs_divisor(degree: int) -> Seq<u8> {
    spec_divisor_iter(
        Seq::new(
            degree as nat,
            |j: int|
                if j == degree - 1 {
                    1u8
                } else {
                    0u8
                },
        ),
        1,
        degree as nat,
    ).0
}

/// One polynomial-division step of the Reed-Solomon remainder: shift the
/// register and fold in the divisor scaled by the leading coefficient.
pub open spec fn spec_rem_step(r: Seq<u8>, div: Seq<u8>, b: u8) -> Seq<u8> {
    let factor = (b ^ r[0]) as u8;
    Seq::new(
        r.len(),
        |j: int|
            ((if j + 1 < r.len() {
                r[j + 1]
            } else {
                0u8
            }) ^ spec_rs_mul(div[j], factor)) as u8,
    )
}

/// The remainder register after consuming the first `k` data bytes.
pub open spec fn spec_rs_remainder_iter(data: Seq<u8>, div: Seq<u8>, k: nat) -> Seq<u8>
    decreases k,
{
    if k == 0 {
        Seq::new(div.len(), |j: int| 0u8)
    } else {
        spec_rem_step(spec_rs_remainder_iter(data, div, (k - 1) as nat), div, data[k - 1])
    }
}

/// The Reed-Solomon error correction codewords for the given data and
/// divisor polynomials.
pub open spec fn spec_rs_remainder(data: Seq<u8>, div: Seq<u8>) -> Seq<u8> {
    spec_rs_remainder_iter(data, div, data.len())
}


/// The scan state over one line after `k` cells: current run color,
/// current run length, the run history, and penalty points so far from
/// long runs and finder-like patterns.
pub open spec fn spec_scan(line: Seq<bool>, size: int, k: int) -> (bool, int, Seq<i32>, int)
    decreases k,
{
    if k <= 0 {
        (false, 0int, seq![0i32, 0i32, 0i32, 0i32, 0i32, 0i32, 0i32], 0int)
    } else {
        let prev = spec_scan(line, size, k - 1);
        let c = line[k - 1];
        if c == prev.0 {
            let run2 = prev.1 + 1;
            (
                prev.0,
                run2,
                prev.2,
                prev.3 + if run2 == 5 {
                    3int
                } else if run2 > 5 {
                    1int
                } else {
                    0int
                },
            )
        } else {
            let hist2 = crate::finder_penalty::spec_push_hist(prev.2, size, prev.1);
            (
                c,
                1int,
                hist2,
                prev.3 + if !prev.0 {
                    crate::finder_penalty::spec_count_patterns(hist2) * 40
                } else {
                    0int
                },
            )
        }
    }
}

/// The penalty contribution of one full line of modules.
pub open spec fn spec_line_penalty(line: Seq<bool>, size: int) -> int {
    let st = spec_scan(line, size, line.len() as int);
    st.3 + crate::finder_penalty::spec_terminate_count(st.2, size, st.0, st.1) * 40
}

/// Row `y` of a flat grid as a sequence.
pub open spec fn spec_row_seq(grid: Seq<bool>, size: int, y: int) -> Seq<bool> {
    Seq::new(size as nat, |x: int| grid[y * size + x])
}

/// Column `x` of a flat grid as a sequence.
pub open spec fn spec_col_seq(grid: Seq<bool>, size: int, x: int) -> Seq<bool> {
    Seq::new(size as nat, |y: int| grid[y * size + x])
}

/// The line penalties of the first `y` rows.
pub open spec fn spec_rows_penalty(grid: Seq<bool>, size: int, y: int) -> int
    decreases y,
{
    if y <= 0 {
        0int
    } else {
        spec_rows_penalty(grid, size, y - 1) + spec_line_penalty(
            spec_row_seq(grid, size, y - 1),
            size,
        )
    }
}

/// The line penalties of the first `x` columns.
pub open spec fn spec_cols_penalty(grid: Seq<bool>, size: int, x: int) -> int
    decreases x,
{
    if x <= 0 {
        0int
    } else {
        spec_cols_penalty(grid, size, x - 1) + spec_line_penalty(
            spec_col_seq(grid, size, x - 1),
            size,
        )
    }
}

/// Three points when the 2x2 block with top-left corner (x, y) is all one
/// color.
pub open spec fn spec_block_at(grid: Seq<bool>, size: int, x: int, y: int) -> int {
    let c = grid[y * size + x];
    if c == grid[y * size + x + 1] && c == grid[(y + 1) * size + x] && c == grid[(y + 1) * size
        + x + 1] {
        3int
    } else {
        0int
    }
}

/// The block penalties of row `y` up to column `x`.
pub open spec fn spec_blocks_row(grid: Seq<bool>, size: int, y: int, x: int) -> int
    decreases x,
{
    if x <= 0 {
        0int
    } else {
        spec_blocks_row(grid, size, y, x - 1) + spec_block_at(grid, size, x - 1, y)
    }
}

/// The block penalties of the first `y` rows.
pub open spec fn spec_blocks_penalty(grid: Seq<bool>, size: int, y: int) -> int
    decreases y,
{
    if y <= 0 {
        0int
    } else {
        spec_blocks_penalty(grid, size, y - 1) + spec_blocks_row(grid, size, y - 1, size - 1)
    }
}

proof fn lemma_blocks_row_bound(grid: Seq<bool>, size: int, y: int, x: int)
    requires
        x >= 0,
    ensures
        0 <= spec_blocks_row(grid, size, y, x) <= 3 * x,
    decreases x,
{
    if x > 0 {
        lemma_blocks_row_bound(grid, size, y, x - 1);
    }
}

proof fn lemma_blocks_penalty_bound(grid: Seq<bool>, size: int, y: int)
    requires
        y >= 0,
        1 <= size <= 178,
    ensures
        0 <= spec_blocks_penalty(grid, size, y) <= 531 * y,
    decreases y,
{
    if y > 0 {
        lemma_blocks_penalty_bound(grid, size, y - 1);
        lemma_blocks_row_bound(grid, size, y - 1, size - 1);
    }
}

/// The number of dark modules in a grid.
pub open spec fn spec_count_dark(s: Seq<bool>) -> int
    decreases s.len(),
{
    if s.len() == 0 {
        0int
    } else {
        spec_count_dark(s.drop_last()) + if s.last() {
            1int
        } else {
            0int
        }
    }
}

/// The balance penalty: ten points for every 5% step the dark-module
/// share lies outside the band from 45% to 55%.
pub open spec fn spec_balance_penalty(grid: Seq<bool>, size: int) -> int {
    let dark = spec_count_dark(grid);
    let total = size * size;
    let dev = dark * 20 - total * 10;
    let a = if dev < 0 {
        -dev
    } else {
        dev
    };
    let k = (a + total - 1) / total - 1;
    k * 10
}

/// The full penalty score of a grid: rows, columns, blocks, and balance.
pub open spec fn spec_penalty(grid: Seq<bool>, size: int) -> int {
    spec_rows_penalty(grid, size, size) + spec_cols_penalty(grid, size, size)
        + spec_blocks_penalty(grid, size, size - 1) + spec_balance_penalty(grid, size)
}


/// True when the given segments' bits fit the data capacity of the given
/// version at the given error correction level.
pub open spec fn spec_fits(segs: Seq<crate::segment::Segment>, ver: int, ecl: CodeEcc) -> bool {
    match crate::segment::spec_total_bits(segs, ver) {
        Some(n) => n <= crate::tables::spec_data_codewords(
            crate::code_ecc::spec_ordinal(ecl),
            ver,
        ) * 8,
        None => false,
    }
}

/// The error correction level after optional boosting: the highest level
/// among Medium, Quartile and High whose capacity at the chosen version
/// still holds the required bits, never lower than useful and never
/// applied when boosting is off.
pub open spec fn spec_boosted_ecl(
    segs: Seq<crate::segment::Segment>,
    ver: int,
    ecl: CodeEcc,
    boostecl: bool,
) -> CodeEcc {
    let used = crate::segment::spec_total_bits(segs, ver)->0;
    if boostecl && used <= crate::tables::spec_data_codewords(3, ver) * 8 {
        CodeEcc::High
    } else if boostecl && used <= crate::tables::spec_data_codewords(2, ver) * 8 {
        CodeEcc::Quartile
    } else if boostecl && used <= crate::tables::spec_data_codewords(1, ver) * 8 {
        CodeEcc::Medium
    } else {
        ecl
    }
}


/// The bit length of a numeric-mode encoding of `n` digits.
pub open spec fn spec_numeric_bits_len(n: int) -> int {
    10 * (n / 3) + if n % 3 == 0 {
        0int
    } else if n % 3 == 1 {
        4int
    } else {
        7int
    }
}

/// The bit length of an alphanumeric-mode encoding of `n` characters.
pub open spec fn spec_alnum_bits_len(n: int) -> int {
    11 * (n / 2) + if n % 2 == 0 {
        0int
    } else {
        6int
    }
}

/// True when one segment of the given mode, character count and data bit
/// count fits the capacity of the given version and level.
pub open spec fn spec_single_segment_fits(
    mode: crate::segment_mode::SegmentMode,
    numchars: int,
    databits: int,
    ver: int,
    ecl: CodeEcc,
) -> bool {
    let cc = crate::segment_mode::spec_char_count_bits(mode, ver);
    &&& numchars < crate::segment::spec_count_limit(cc)
    &&& 4 + cc + databits <= crate::tables::spec_data_codewords(
        crate::code_ecc::spec_ordinal(ecl),
        ver,
    ) * 8
}

/// True when the single segment that the text-classification heuristic
/// chooses for this text fits the given version and level. Empty text
/// yields no segments and always fits.
pub open spec fn spec_text_fits(text: Seq<char>, bytes: Seq<u8>, ver: int, ecl: CodeEcc) -> bool {
    if text.len() == 0 {
        true
    } else if crate::segment::spec_all_numeric(text) {
        spec_single_segment_fits(
            crate::segment_mode::SegmentMode::Numeric,
            text.len() as int,
            spec_numeric_bits_len(text.len() as int),
            ver,
            ecl,
        )
    } else if crate::segment::spec_all_alnum(text) {
        spec_single_segment_fits(
            crate::segment_mode::SegmentMode::Alphanumeric,
            text.len() as int,
            spec_alnum_bits_len(text.len() as int),
            ver,
            ecl,
        )
    } else {
        spec_single_segment_fits(
            crate::segment_mode::SegmentMode::Byte,
            bytes.len() as int,
            8 * (bytes.len() as int),
            ver,
            ecl,
        )
    }
}


/// The data length of block `i`: short blocks hold `dl` data codewords,
/// and blocks from `ns` on hold one more.
pub open spec fn spec_block_data_len(dl: int, ns: int, i: int) -> int {
    dl + if i >= ns {
        1int
    } else {
        0int
    }
}

/// Where block `i`'s data starts inside the data codeword stream.
pub open spec fn spec_block_start(dl: int, ns: int, i: int) -> int
    decreases i,
{
    if i <= 0 {
        0int
    } else {
        spec_block_start(dl, ns, i - 1) + spec_block_data_len(dl, ns, i - 1)
    }
}

/// Block `i` as stored before interleaving: its slice of the data
/// codewords, one alignment padding byte for short blocks, and its
/// Reed-Solomon codewords.
pub open spec fn spec_block(data: Seq<u8>, div: Seq<u8>, dl: int, ns: int, i: int) -> Seq<u8> {
    let start = spec_block_start(dl, ns, i);
    let d = data.subrange(start, start + spec_block_data_len(dl, ns, i));
    d + (if i < ns {
        seq![0u8]
    } else {
        Seq::<u8>::empty()
    }) + spec_rs_remainder(d, div)
}

/// The first `j` entries of interleaving row `i`: every block's byte at
/// position `i`, skipping the padding position of short blocks.
pub open spec fn spec_interleave_row(
    blocks: Seq<Seq<u8>>,
    skiprow: int,
    ns: int,
    i: int,
    j: int,
) -> Seq<u8>
    decreases j,
{
    if j <= 0 {
        Seq::<u8>::empty()
    } else {
        spec_interleave_row(blocks, skiprow, ns, i, j - 1) + (if i == skiprow && j - 1 < ns {
            Seq::<u8>::empty()
        } else {
            seq![blocks[j - 1][i]]
        })
    }
}

/// The first `i` full rows of the interleaved codeword stream.
pub open spec fn spec_interleave(blocks: Seq<Seq<u8>>, skiprow: int, ns: int, i: int) -> Seq<u8>
    decreases i,
{
    if i <= 0 {
        Seq::<u8>::empty()
    } else {
        spec_interleave(blocks, skiprow, ns, i - 1) + spec_interleave_row(
            blocks,
            skiprow,
            ns,
            i - 1,
            blocks.len() as int,
        )
    }
}


/// The full interleaved codeword stream for the given data codewords at
/// the given error correction ordinal and version: the blocks of the
/// standard's table shape, each extended with its Reed-Solomon codewords,
/// read out round-robin.
pub open spec fn spec_ecc_interleaved(data: Seq<u8>, ecl_ord: int, ver: int) -> Seq<u8> {
    let raw = crate::tables::spec_raw_data_modules(ver) / 8;
    let b = crate::tables::spec_num_ecc_blocks(ecl_ord, ver);
    let e = crate::tables::spec_ecc_codewords_per_block(ecl_ord, ver);
    let l = raw / b;
    let ns = b - raw % b;
    let dl = l - e;
    spec_interleave(
        Seq::new(b as nat, |t: int| spec_block(data, spec_rs_divisor(e), dl, ns, t)),
        dl,
        ns,
        l + 1,
    )
}


/// The grid after painting the given cells in order: each in-bounds cell
/// is set to its color, later writes overriding earlier ones; cells
/// outside the grid are skipped.
pub open spec fn spec_painted(grid: Seq<bool>, size: int, cells: Seq<(int, int, bool)>) -> Seq<
    bool,
>
    decreases cells.len(),
{
    if cells.len() == 0 {
        grid
    } else {
        let c = cells.last();
        let g = spec_painted(grid, size, cells.drop_last());
        if 0 <= c.0 < size && 0 <= c.1 < size {
            g.update(c.1 * size + c.0, c.2)
        } else {
            g
        }
    }
}

/// The function-module map after marking the given cells, skipping cells
/// outside the grid.
pub open spec fn spec_marked(isfn: Seq<bool>, size: int, cells: Seq<(int, int, bool)>) -> Seq<
    bool,
>
    decreases cells.len(),
{
    if cells.len() == 0 {
        isfn
    } else {
        let c = cells.last();
        let g = spec_marked(isfn, size, cells.drop_last());
        if 0 <= c.0 < size && 0 <= c.1 < size {
            g.update(c.1 * size + c.0, true)
        } else {
            g
        }
    }
}

/// Painting one cell list after another paints their concatenation.
pub proof fn lemma_painted_append(
    grid: Seq<bool>,
    isfn: Seq<bool>,
    size: int,
    a: Seq<(int, int, bool)>,
    b: Seq<(int, int, bool)>,
)
    ensures
        spec_painted(grid, size, a + b) == spec_painted(spec_painted(grid, size, a), size, b),
        spec_marked(isfn, size, a + b) == spec_marked(spec_marked(isfn, size, a), size, b),
    decreases b.len(),
{
    if b.len() == 0 {
        assert(a + b =~= a);
    } else {
        assert((a + b).drop_last() =~= a + b.drop_last());
        lemma_painted_append(grid, isfn, size, a, b.drop_last());
    }
}

/// The timing pattern cells: alternating modules, starting dark, along
/// row 6 and column 6.
pub open spec fn spec_timing_cells(size: int) -> Seq<(int, int, bool)> {
    Seq::new(
        (2 * size) as nat,
        |k: int|
            if k % 2 == 0 {
                (6, k / 2, k / 2 % 2 == 0)
            } else {
                (k / 2, 6, k / 2 % 2 == 0)
            },
    )
}

/// The 9x9 finder pattern cells centered at (x, y): dark except at
/// Chebyshev distances 2 and 4; cells may lie outside the grid.
pub open spec fn spec_finder_cells(x: int, y: int) -> Seq<(int, int, bool)> {
    Seq::new(
        81,
        |k: int|
            {
                let dx = k % 9 - 4;
                let dy = k / 9 - 4;
                let dist = vstd::math::max(vstd::math::abs(dx) as int, vstd::math::abs(dy) as int);
                (x + dx, y + dy, dist != 2 && dist != 4)
            },
    )
}

/// The 5x5 alignment pattern cells centered at (x, y): dark except at
/// Chebyshev distance 1.
pub open spec fn spec_alignment_box_cells(x: int, y: int) -> Seq<(int, int, bool)> {
    Seq::new(
        25,
        |k: int|
            {
                let dx = k % 5 - 2;
                let dy = k / 5 - 2;
                let dist = vstd::math::max(vstd::math::abs(dx) as int, vstd::math::abs(dy) as int);
                (x + dx, y + dy, dist != 1)
            },
    )
}

/// The number of alignment pattern coordinates of a version.
pub open spec fn spec_align_count(ver: int) -> int {
    if ver == 1 {
        0
    } else {
        ver / 7 + 2
    }
}

/// The spacing between alignment pattern coordinates, with version 32
/// hard-coded to 26 as the standard requires.
pub open spec fn spec_align_step(ver: int) -> int {
    if ver == 32 {
        26
    } else {
        (ver * 4 + (ver / 7 + 2) * 2 + 1) / ((ver / 7 + 2) * 2 - 2) * 2
    }
}

/// The j-th alignment pattern coordinate, ascending: 6 first, then evenly
/// stepped positions ending at size - 7.
pub open spec fn spec_align_pos(ver: int, size: int, j: int) -> int {
    if j == 0 {
        6
    } else {
        size - 7 - (spec_align_count(ver) - 1 - j) * spec_align_step(ver)
    }
}

/// The cells of the alignment pattern at coordinate pair (a, b), or none
/// when the pair collides with a finder corner or leaves the grid.
pub open spec fn spec_alignment_pair_cells(ver: int, size: int, a: int, b: int) -> Seq<
    (int, int, bool),
> {
    let px = spec_align_pos(ver, size, a);
    let py = spec_align_pos(ver, size, b);
    let corner = (px == 6 && py == 6) || (px == 6 && py == size - 7) || (px == size - 7 && py
        == 6);
    if corner || !(2 <= px <= size - 3) || !(2 <= py <= size - 3) {
        Seq::<(int, int, bool)>::empty()
    } else {
        spec_alignment_box_cells(px, py)
    }
}

/// The cells of the first `p` alignment pattern pairs, in row-major pair
/// order.
pub open spec fn spec_alignment_cells(ver: int, size: int, p: int) -> Seq<(int, int, bool)>
    decreases p,
{
    if p <= 0 {
        Seq::<(int, int, bool)>::empty()
    } else {
        let na = spec_align_count(ver);
        spec_alignment_cells(ver, size, p - 1) + spec_alignment_pair_cells(
            ver,
            size,
            (p - 1) / na,
            (p - 1) % na,
        )
    }
}

/// The 31 format information cells for the given level and mask: two
/// copies of the 15-bit format word beside the finder patterns, and the
/// always-dark module.
pub open spec fn spec_format_cells(ecl: CodeEcc, m: int, size: int) -> Seq<(int, int, bool)> {
    let w = spec_format_word(ecl, m) as u32;
    Seq::new(6, |i: int| (8, i, spec_get_bit(w, i as u32))) + seq![
        (8, 7, spec_get_bit(w, 6)),
        (8, 8, spec_get_bit(w, 7)),
        (7, 8, spec_get_bit(w, 8)),
    ] + Seq::new(6, |i: int| (14 - (i + 9), 8, spec_get_bit(w, (i + 9) as u32))) + Seq::new(
        8,
        |i: int| (size - 1 - i, 8, spec_get_bit(w, i as u32)),
    ) + Seq::new(7, |i: int| (8, size - 15 + (i + 8), spec_get_bit(w, (i + 8) as u32))) + seq![
        (8, size - 8, true),
    ]
}

/// The 36 version information cells for versions 7 and up: two mirrored
/// copies of the 18-bit version word; nothing below version 7.
pub open spec fn spec_version_cells(ver: int, size: int) -> Seq<(int, int, bool)> {
    if ver < 7 {
        Seq::<(int, int, bool)>::empty()
    } else {
        let w = spec_version_word(ver) as u32;
        Seq::new(
            36,
            |k: int|
                {
                    let i = k / 2;
                    let bit = spec_get_bit(w, i as u32);
                    let a = size - 11 + i % 3;
                    let b = i / 3;
                    if k % 2 == 0 {
                        (a, b, bit)
                    } else {
                        (b, a, bit)
                    }
                },
        )
    }
}

/// All function pattern cells of a symbol, in drawing order: timing,
/// three finders, alignment patterns, format cells with a placeholder
/// mask of 0, and version cells.
pub open spec fn spec_function_pattern_cells(ver: int, size: int, ecl: CodeEcc) -> Seq<
    (int, int, bool),
> {
    spec_timing_cells(size) + spec_finder_cells(3, 3) + spec_finder_cells(size - 4, 3)
        + spec_finder_cells(3, size - 4) + spec_alignment_cells(
        ver,
        size,
        spec_align_count(ver) * spec_align_count(ver),
    ) + spec_format_cells(ecl, 0, size) + spec_version_cells(ver, size)
}


/// The coordinates of one zigzag column pair whose right column is `ra`:
/// the pair is walked vertically, upward or downward by the standard's
/// alternation, right column first at each height.
pub open spec fn spec_pair_coords(size: int, ra: int) -> Seq<(int, int)> {
    Seq::new(
        (2 * size) as nat,
        |k: int|
            {
                let vert = k / 2;
                let x = ra - k % 2;
                let y = if (ra + 1) % 4 <= 1 {
                    size - 1 - vert
                } else {
                    vert
                };
                (x, y)
            },
    )
}

/// The full zigzag scan order starting at right column `right`, moving
/// left two columns at a time; column 6 collapses into column 5 because
/// column 6 is a timing column.
pub open spec fn spec_zigzag_cols(size: int, right: int) -> Seq<(int, int)>
    decreases right + 1,
{
    if right < 1 {
        Seq::<(int, int)>::empty()
    } else {
        let ra = if right == 6 {
            5
        } else {
            right
        };
        spec_pair_coords(size, ra) + spec_zigzag_cols(size, ra - 2)
    }
}

/// The grid and consumed bit count after visiting the first `k` scan
/// coordinates: every non-function cell receives the next still unplaced
/// bit of `data`, most significant bit of each byte first; function cells
/// and cells past the last bit stay as they are.
pub open spec fn spec_place_upto(
    grid: Seq<bool>,
    isfn: Seq<bool>,
    size: int,
    data: Seq<u8>,
    coords: Seq<(int, int)>,
    k: int,
) -> (Seq<bool>, int)
    decreases k,
{
    if k <= 0 {
        (grid, 0int)
    } else {
        let prev = spec_place_upto(grid, isfn, size, data, coords, k - 1);
        let c = coords[k - 1];
        let idx = c.1 * size + c.0;
        if !isfn[idx] && prev.1 < 8 * data.len() {
            (
                prev.0.update(
                    idx,
                    spec_get_bit(data[prev.1 / 8] as u32, (7 - prev.1 % 8) as u32),
                ),
                prev.1 + 1,
            )
        } else {
            prev
        }
    }
}

/// The grid after drawing the full codeword stream along the zigzag scan.
pub open spec fn spec_codewords_drawn(
    grid: Seq<bool>,
    isfn: Seq<bool>,
    size: int,
    data: Seq<u8>,
) -> Seq<bool> {
    let coords = spec_zigzag_cols(size, size - 1);
    spec_place_upto(grid, isfn, size, data, coords, coords.len() as int).0
}


/// True when some in-bounds cell of the list writes grid index `i`.
pub open spec fn spec_cell_writes(cells: Seq<(int, int, bool)>, size: int, i: int) -> bool {
    exists|t: int|
        0 <= t < cells.len() && 0 <= (#[trigger] cells[t]).0 < size && 0 <= cells[t].1 < size
            && cells[t].1 * size + cells[t].0 == i
}

/// Painting a grid of the size's shape never changes its length.
proof fn lemma_painted_len(grid: Seq<bool>, size: int, cells: Seq<(int, int, bool)>)
    requires
        grid.len() == size * size,
        0 < size <= 200,
    ensures
        spec_painted(grid, size, cells).len() == grid.len(),
        spec_marked(grid, size, cells).len() == grid.len(),
    decreases cells.len(),
{
    if cells.len() > 0 {
        lemma_painted_len(grid, size, cells.drop_last());
        let c = cells.last();
        if 0 <= c.0 < size && 0 <= c.1 < size {
            lemma_idx_bounds(c.0, c.1, size);
        }
    }
}

/// A grid index that no cell writes keeps its value.
proof fn lemma_painted_unwritten(grid: Seq<bool>, size: int, cells: Seq<(int, int, bool)>, i: int)
    requires
        grid.len() == size * size,
        0 < size <= 200,
        0 <= i < grid.len(),
        !spec_cell_writes(cells, size, i),
    ensures
        spec_painted(grid, size, cells)[i] == grid[i],
    decreases cells.len(),
{
    if cells.len() > 0 {
        assert(!spec_cell_writes(cells.drop_last(), size, i)) by {
            if spec_cell_writes(cells.drop_last(), size, i) {
                let t = choose|t: int|
                    0 <= t < cells.drop_last().len() && 0 <= (#[trigger] cells.drop_last()[t]).0
                        < size && 0 <= cells.drop_last()[t].1 < size
                        && cells.drop_last()[t].1 * size + cells.drop_last()[t].0 == i;
                assert(cells[t] == cells.drop_last()[t]);
            }
        }
        lemma_painted_unwritten(grid, size, cells.drop_last(), i);
        let c = cells.last();
        if 0 <= c.0 < size && 0 <= c.1 < size {
            assert(cells[cells.len() - 1] == c);
            assert(c.1 * size + c.0 != i);
            lemma_idx_bounds(c.0, c.1, size);
            lemma_painted_len(grid, size, cells.drop_last());
        }
    }
}

/// A grid index that some cell writes gets the same value whatever grid
/// the cells are painted over.
proof fn lemma_painted_written(
    g1: Seq<bool>,
    g2: Seq<bool>,
    size: int,
    cells: Seq<(int, int, bool)>,
    i: int,
)
    requires
        g1.len() == size * size,
        g2.len() == size * size,
        0 < size <= 200,
        0 <= i < g1.len(),
        spec_cell_writes(cells, size, i),
    ensures
        spec_painted(g1, size, cells)[i] == spec_painted(g2, size, cells)[i],
    decreases cells.len(),
{
    let c = cells.last();
    if 0 <= c.0 < size && 0 <= c.1 < size && c.1 * size + c.0 == i {
        lemma_idx_bounds(c.0, c.1, size);
        lemma_painted_len(g1, size, cells.drop_last());
        lemma_painted_len(g2, size, cells.drop_last());
    } else {
        if 0 <= c.0 < size && 0 <= c.1 < size {
            lemma_idx_bounds(c.0, c.1, size);
            lemma_painted_len(g1, size, cells.drop_last());
            lemma_painted_len(g2, size, cells.drop_last());
        }
        assert(spec_cell_writes(cells.drop_last(), size, i)) by {
            let t = choose|t: int|
                0 <= t < cells.len() && 0 <= (#[trigger] cells[t]).0 < size && 0 <= cells[t].1
                    < size && cells[t].1 * size + cells[t].0 == i;
            assert(t < cells.len() - 1);
            assert(cells.drop_last()[t] == cells[t]);
        }
        lemma_painted_written(g1, g2, size, cells.drop_last(), i);
    }
}

/// Painting a cell list over an earlier paint of another list with the
/// same positions leaves only the later paint visible.
proof fn lemma_painted_overwrite(
    g: Seq<bool>,
    size: int,
    a: Seq<(int, int, bool)>,
    b: Seq<(int, int, bool)>,
)
    requires
        g.len() == size * size,
        0 < size <= 200,
        a.len() == b.len(),
        forall|t: int|
            0 <= t < a.len() ==> (#[trigger] a[t]).0 == b[t].0 && a[t].1 == b[t].1,
    ensures
        spec_painted(spec_painted(g, size, a), size, b) == spec_painted(g, size, b),
{
    lemma_painted_len(g, size, a);
    lemma_painted_len(spec_painted(g, size, a), size, b);
    lemma_painted_len(g, size, b);
    assert forall|i: int| 0 <= i < g.len() implies spec_painted(
        spec_painted(g, size, a),
        size,
        b,
    )[i] == spec_painted(g, size, b)[i] by {
        if spec_cell_writes(b, size, i) {
            lemma_painted_written(spec_painted(g, size, a), g, size, b, i);
        } else {
            assert(!spec_cell_writes(a, size, i)) by {
                if spec_cell_writes(a, size, i) {
                    let t = choose|t: int|
                        0 <= t < a.len() && 0 <= (#[trigger] a[t]).0 < size && 0 <= a[t].1
                            < size && a[t].1 * size + a[t].0 == i;
                    assert(0 <= b[t].0 < size && 0 <= b[t].1 < size && b[t].1 * size + b[t].0
                        == i);
                }
            }
            lemma_painted_unwritten(spec_painted(g, size, a), size, b, i);
            lemma_painted_unwritten(g, size, a, i);
            lemma_painted_unwritten(g, size, b, i);
        }
    }
    assert(spec_painted(spec_painted(g, size, a), size, b) =~= spec_painted(g, size, b));
}

/// A marked map holds exactly its old marks plus the written cells.
proof fn lemma_marked_writes(f: Seq<bool>, size: int, cells: Seq<(int, int, bool)>, i: int)
    requires
        f.len() == size * size,
        0 < size <= 200,
        0 <= i < f.len(),
    ensures
        spec_marked(f, size, cells)[i] == (f[i] || spec_cell_writes(cells, size, i)),
    decreases cells.len(),
{
    if cells.len() > 0 {
        lemma_marked_writes(f, size, cells.drop_last(), i);
        lemma_painted_len(f, size, cells.drop_last());
        let c = cells.last();
        if 0 <= c.0 < size && 0 <= c.1 < size {
            lemma_idx_bounds(c.0, c.1, size);
        }
        if 0 <= c.0 < size && 0 <= c.1 < size && c.1 * size + c.0 == i {
            assert(cells[cells.len() - 1] == c);
            assert(spec_cell_writes(cells, size, i));
        } else {
            assert(spec_cell_writes(cells.drop_last(), size, i) == spec_cell_writes(
                cells,
                size,
                i,
            )) by {
                if spec_cell_writes(cells, size, i) {
                    let t = choose|t: int|
                        0 <= t < cells.len() && 0 <= (#[trigger] cells[t]).0 < size && 0
                            <= cells[t].1 < size && cells[t].1 * size + cells[t].0 == i;
                    assert(t < cells.len() - 1);
                    assert(cells.drop_last()[t] == cells[t]);
                }
                if spec_cell_writes(cells.drop_last(), size, i) {
                    let t = choose|t: int|
                        0 <= t < cells.drop_last().len() && 0 <= (#[trigger] cells.drop_last()[t]).0
                            < size && 0 <= cells.drop_last()[t].1 < size
                            && cells.drop_last()[t].1 * size + cells.drop_last()[t].0 == i;
                    assert(cells[t] == cells.drop_last()[t]);
                }
            }
        }
    }
}

/// Masking commutes with painting cells that all sit on marked function
/// modules: the mask never toggles them, and the paint does not depend on
/// the mask.
proof fn lemma_masked_painted_commute(
    g: Seq<bool>,
    f: Seq<bool>,
    size: int,
    m: int,
    cells: Seq<(int, int, bool)>,
)
    requires
        g.len() == size * size,
        0 < size <= 200,
        f.len() == g.len(),
        forall|t: int|
            0 <= t < cells.len() && 0 <= (#[trigger] cells[t]).0 < size && 0 <= cells[t].1 < size
                ==> 0 <= cells[t].1 * size + cells[t].0 < f.len() && f[cells[t].1 * size
                + cells[t].0],
    ensures
        spec_masked_grid(spec_painted(g, size, cells), f, size, m) == spec_painted(
            spec_masked_grid(g, f, size, m),
            size,
            cells,
        ),
{
    lemma_painted_len(g, size, cells);
    lemma_painted_len(spec_masked_grid(g, f, size, m), size, cells);
    assert forall|i: int| 0 <= i < g.len() implies spec_masked_grid(
        spec_painted(g, size, cells),
        f,
        size,
        m,
    )[i] == spec_painted(spec_masked_grid(g, f, size, m), size, cells)[i] by {
        if spec_cell_writes(cells, size, i) {
            assert(f[i]) by {
                let t = choose|t: int|
                    0 <= t < cells.len() && 0 <= (#[trigger] cells[t]).0 < size && 0 <= cells[t].1
                        < size && cells[t].1 * size + cells[t].0 == i;
            }
            lemma_painted_written(g, spec_masked_grid(g, f, size, m), size, cells, i);
        } else {
            lemma_painted_unwritten(g, size, cells, i);
            lemma_painted_unwritten(spec_masked_grid(g, f, size, m), size, cells, i);
        }
    }
    assert(spec_masked_grid(spec_painted(g, size, cells), f, size, m) =~= spec_painted(
        spec_masked_grid(g, f, size, m),
        size,
        cells,
    ));
}

/// The format cells' length, their in-grid positions, and that those
/// positions do not depend on the mask.
proof fn lemma_format_cells_shape(ecl: CodeEcc, m1: int, m2: int, sz: int)
    requires
        sz >= 21,
    ensures
        spec_format_cells(ecl, m1, sz).len() == 31,
        forall|t: int|
            0 <= t < 31 ==> {
                let c = #[trigger] spec_format_cells(ecl, m1, sz)[t];
                let c0 = spec_format_cells(ecl, m2, sz)[t];
                &&& 0 <= c.0 < sz
                &&& 0 <= c.1 < sz
                &&& c.0 == c0.0
                &&& c.1 == c0.1
            },
{
    assert forall|t: int| 0 <= t < 31 implies {
        let c = #[trigger] spec_format_cells(ecl, m1, sz)[t];
        let c0 = spec_format_cells(ecl, m2, sz)[t];
        &&& 0 <= c.0 < sz
        &&& 0 <= c.1 < sz
        &&& c.0 == c0.0
        &&& c.1 == c0.1
    } by {
        if t < 6 {
        } else if t < 9 {
        } else if t < 15 {
        } else if t < 23 {
        } else if t < 30 {
        } else {
        }
    }
}


/// The function-module map of a symbol: exactly the cells that the
/// function pattern drawing marks.
pub open spec fn spec_symbol_function_map(ver: int, ecl: CodeEcc) -> Seq<bool> {
    let sz = ver * 4 + 17;
    spec_marked(
        Seq::new((sz * sz) as nat, |i: int| false),
        sz,
        spec_function_pattern_cells(ver, sz, ecl),
    )
}

/// The symbol grid before masking: function patterns painted over an
/// all-light grid, then the interleaved codeword stream drawn along the
/// zigzag scan.
pub open spec fn spec_premask_grid(ver: int, ecl: CodeEcc, data: Seq<u8>) -> Seq<bool> {
    let sz = ver * 4 + 17;
    let light = Seq::new((sz * sz) as nat, |i: int| false);
    let fp = spec_function_pattern_cells(ver, sz, ecl);
    spec_codewords_drawn(
        spec_painted(light, sz, fp),
        spec_marked(light, sz, fp),
        sz,
        spec_ecc_interleaved(data, crate::code_ecc::spec_ordinal(ecl), ver),
    )
}

/// The finished symbol grid for data codewords `data` and mask `m`: the
/// pre-mask grid with the mask applied to its non-function modules and
/// the mask's format cells drawn on top.
pub open spec fn spec_symbol_grid(ver: int, ecl: CodeEcc, data: Seq<u8>, m: int) -> Seq<bool> {
    let sz = ver * 4 + 17;
    spec_painted(
        spec_masked_grid(
            spec_premask_grid(ver, ecl, data),
            spec_symbol_function_map(ver, ecl),
            sz,
            m,
        ),
        sz,
        spec_format_cells(ecl, m, sz),
    )
}

/// Marking cells that are already marked changes nothing.
proof fn lemma_marked_subsumed(f: Seq<bool>, size: int, cells: Seq<(int, int, bool)>)
    requires
        f.len() == size * size,
        0 < size <= 200,
        forall|t: int|
            0 <= t < cells.len() && 0 <= (#[trigger] cells[t]).0 < size && 0 <= cells[t].1 < size
                ==> 0 <= cells[t].1 * size + cells[t].0 < f.len() && f[cells[t].1 * size
                + cells[t].0],
    ensures
        spec_marked(f, size, cells) == f,
{
    lemma_painted_len(f, size, cells);
    assert forall|i: int| 0 <= i < f.len() implies spec_marked(f, size, cells)[i] == f[i] by {
        lemma_marked_writes(f, size, cells, i);
        if spec_cell_writes(cells, size, i) {
            let t = choose|t: int|
                0 <= t < cells.len() && 0 <= (#[trigger] cells[t]).0 < size && 0 <= cells[t].1
                    < size && cells[t].1 * size + cells[t].0 == i;
        }
    }
    assert(spec_marked(f, size, cells) =~= f);
}

/// Every format cell position lies in the grid and is marked as a
/// function module by the function pattern drawing.
proof fn lemma_format_marked(ver: int, ecl: CodeEcc, m: int)
    requires
        1 <= ver <= 40,
    ensures
        forall|t: int|
            0 <= t < 31 ==> {
                &&& 0 <= (#[trigger] spec_format_cells(ecl, m, ver * 4 + 17)[t]).0 < ver * 4
                    + 17
                &&& 0 <= spec_format_cells(ecl, m, ver * 4 + 17)[t].1 < ver * 4 + 17
                &&& 0 <= spec_format_cells(ecl, m, ver * 4 + 17)[t].1 * (ver * 4 + 17)
                    + spec_format_cells(ecl, m, ver * 4 + 17)[t].0 < (ver * 4 + 17) * (ver * 4
                    + 17)
                &&& spec_symbol_function_map(ver, ecl)[spec_format_cells(ecl, m, ver * 4 + 17)[t].1
                    * (ver * 4 + 17) + spec_format_cells(ecl, m, ver * 4 + 17)[t].0]
            },
{
    let sz = ver * 4 + 17;
    lemma_format_cells_shape(ecl, m, 0, sz);
    lemma_format_cells_shape(ecl, 0, m, sz);
    let light = Seq::new((sz * sz) as nat, |i: int| false);
    let fp = spec_function_pattern_cells(ver, sz, ecl);
    let x5 = spec_timing_cells(sz) + spec_finder_cells(3, 3) + spec_finder_cells(sz - 4, 3)
        + spec_finder_cells(3, sz - 4) + spec_alignment_cells(
        ver,
        sz,
        spec_align_count(ver) * spec_align_count(ver),
    );
    let off = x5.len() as int;
    assert forall|t: int| 0 <= t < 31 implies {
        &&& 0 <= (#[trigger] spec_format_cells(ecl, m, sz)[t]).0 < sz
        &&& 0 <= spec_format_cells(ecl, m, sz)[t].1 < sz
        &&& 0 <= spec_format_cells(ecl, m, sz)[t].1 * sz + spec_format_cells(ecl, m, sz)[t].0
            < sz * sz
        &&& spec_symbol_function_map(ver, ecl)[spec_format_cells(ecl, m, sz)[t].1 * sz
            + spec_format_cells(ecl, m, sz)[t].0]
    } by {
        let c = spec_format_cells(ecl, m, sz)[t];
        let c0 = spec_format_cells(ecl, 0, sz)[t];
        lemma_idx_bounds(c.0, c.1, sz);
        lemma_marked_writes(light, sz, fp, c.1 * sz + c.0);
        assert(fp == x5 + spec_format_cells(ecl, 0, sz) + spec_version_cells(ver, sz));
        assert(fp[off + t] == c0);
        assert(c0.0 == c.0 && c0.1 == c.1);
        assert(spec_cell_writes(fp, sz, c.1 * sz + c.0));
    }
}


/// The concatenated data bit stream of the segments at a version: per
/// segment the 4-bit mode indicator, the character count field, and the
/// segment's data bits.
pub open spec fn spec_segment_bits(segs: Seq<crate::segment::Segment>, ver: int) -> Seq<bool>
    decreases segs.len(),
{
    if segs.len() == 0 {
        Seq::<bool>::empty()
    } else {
        let s = segs.last();
        spec_segment_bits(segs.drop_last(), ver) + crate::bit_buffer::spec_bits(
            crate::segment_mode::spec_mode_bits(s.mode) as u32,
            4,
        ) + crate::bit_buffer::spec_bits(
            s.numchars as u32,
            crate::segment_mode::spec_char_count_bits(s.mode, ver) as nat,
        ) + s.data@
    }
}

/// `k` alternating pad bytes, 0xEC first, as bits.
pub open spec fn spec_pad_seq(k: int) -> Seq<bool>
    decreases k,
{
    if k <= 0 {
        Seq::<bool>::empty()
    } else {
        spec_pad_seq(k - 1) + crate::bit_buffer::spec_bits(
            if (k - 1) % 2 == 0 {
                0xECu32
            } else {
                0x11u32
            },
            8,
        )
    }
}

/// The full assembled data bit stream: the segments' bits, up to four
/// zero terminator bits capped by the remaining capacity, zero bits to
/// the next byte boundary, and alternating 0xEC/0x11 pad bytes up to the
/// exact data capacity.
pub open spec fn spec_assembled_bits(
    segs: Seq<crate::segment::Segment>,
    ver: int,
    ecl: CodeEcc,
) -> Seq<bool> {
    let used = spec_segment_bits(segs, ver);
    let cap = crate::tables::spec_data_codewords(crate::code_ecc::spec_ordinal(ecl), ver) * 8;
    let t = if 4 <= cap - used.len() {
        4int
    } else {
        cap - used.len()
    };
    let aligned = used + Seq::new(t as nat, |i: int| false);
    let pad0 = (8 - aligned.len() % 8) % 8;
    let full = aligned + Seq::new(pad0 as nat, |i: int| false);
    full + spec_pad_seq((cap - full.len()) / 8)
}

/// The value of byte `i` of a packed bit stream, folded in most
/// significant bit first.
pub open spec fn spec_byte_fold(bits: Seq<bool>, i: int, j: int) -> u8
    decreases j,
{
    if j <= 0 {
        0u8
    } else {
        (spec_byte_fold(bits, i, j - 1) | ((if bits[8 * i + (j - 1)] {
            1u8
        } else {
            0u8
        }) << ((7 - (j - 1)) as usize))) as u8
    }
}

/// A bit stream packed into bytes, 8 bits per byte, MSB first.
pub open spec fn spec_packed(bits: Seq<bool>) -> Seq<u8> {
    Seq::new((bits.len() / 8) as nat, |i: int| spec_byte_fold(bits, i, 8))
}

/// The data codewords that the segment assembly produces.
pub open spec fn spec_assembled_codewords(
    segs: Seq<crate::segment::Segment>,
    ver: int,
    ecl: CodeEcc,
) -> Seq<u8> {
    spec_packed(spec_assembled_bits(segs, ver, ecl))
}

/// The shape of the segment list that the text-classification heuristic
/// builds for a text: empty for empty text, else one segment whose mode,
/// character count and data bits follow the text's class.
pub open spec fn spec_text_segments_shape(
    sg: Seq<crate::segment::Segment>,
    text: Seq<char>,
    bytes: Seq<u8>,
) -> bool {
    if text.len() == 0 {
        sg.len() == 0
    } else if crate::segment::spec_all_numeric(text) {
        sg.len() == 1 && sg[0].mode == crate::segment_mode::SegmentMode::Numeric
            && sg[0].numchars == text.len() && sg[0].data@ == crate::segment::spec_numeric_bits(
            text,
        )
    } else if crate::segment::spec_all_alnum(text) {
        sg.len() == 1 && sg[0].mode == crate::segment_mode::SegmentMode::Alphanumeric
            && sg[0].numchars == text.len() && sg[0].data@ == crate::segment::spec_alnum_bits(
            text,
        )
    } else {
        sg.len() == 1 && sg[0].mode == crate::segment_mode::SegmentMode::Byte && sg[0].numchars
            == bytes.len() && sg[0].data@ == crate::segment::spec_byte_bits(bytes)
    }
}

/// The shape of the single byte-mode segment built over a binary payload.
pub open spec fn spec_byte_segments_shape(
    sg: Seq<crate::segment::Segment>,
    data: Seq<u8>,
) -> bool {
    sg.len() == 1 && sg[0].mode == crate::segment_mode::SegmentMode::Byte && sg[0].numchars
        == data.len() && sg[0].data@ == crate::segment::spec_byte_bits(data)
}

/// The symbol grid that the full segment pipeline produces for the given
/// inputs and chosen mask: the assembled codewords of the boosted level,
/// drawn, masked and finished.
pub open spec fn spec_advanced_grid(
    segs: Seq<crate::segment::Segment>,
    ver: int,
    ecl: CodeEcc,
    boost: bool,
    m: int,
) -> Seq<bool> {
    let e2 = spec_boosted_ecl(segs, ver, ecl, boost);
    spec_symbol_grid(ver, e2, spec_assembled_codewords(segs, ver, e2), m)
}

/// The lowest bits of zero are all clear.
proof fn lemma_zero_bits(n: nat)
    requires
        n <= 32,
    ensures
        crate::bit_buffer::spec_bits(0u32, n) =~= Seq::new(n, |i: int| false),
{
    assert forall|i: int| 0 <= i < n implies !crate::bit_buffer::spec_bits(0u32, n)[i] by {
        let sh = (n - 1 - i) as u32;
        assert((0u32 >> sh) & 1 == 0) by (bit_vector);
    }
}

/// True when drawing left every mark of `a` in place and possibly added
/// more, while the symbol's shape and scalar fields stayed fixed.
pub open spec fn spec_draw_extends(a: QrCode, b: QrCode) -> bool {
    &&& b.building()
    &&& b.version == a.version
    &&& b.size == a.size
    &&& b.errorcorrectionlevel == a.errorcorrectionlevel
    &&& b.mask == a.mask
    &&& forall|i: int|
        0 <= i < a.isfunction@.len() && a.isfunction@[i] ==> #[trigger] b.isfunction@[i]
}

/// A QR Code symbol: an immutable square grid of dark and light cells,
/// as described in the ISO/IEC 18004 Model 2 standard.
///
/// Ways to create a QR Code object:
///
/// - High level: `QrCode::encode_text()` or `QrCode::encode_binary()`.
/// - Mid level: `QrCode::encode_segments()` or
///   `QrCode::encode_segments_advanced()` over a custom segment list.
/// - Low level: `QrCode::encode_codewords()` over hand-rolled codewords.
///
/// All ways require supplying the desired error correction level.
#[derive(Debug, Clone, PartialEq, Eq)]
pub struct QrCode {
    /// The version number of this QR Code, which is between 1 and 40
    /// (inclusive). This determines the size of this barcode.
    pub version: Version,
    /// The width and height of this QR Code, measured in modules, between
    /// 21 and 177 (inclusive). This is equal to version * 4 + 17.
    pub size: i32,
    /// The error correction level used in this QR Code.
    pub errorcorrectionlevel: CodeEcc,
    /// The index of the mask pattern used in this QR Code, between 0 and 7
    /// (inclusive). Even when automatic masking is requested, the resulting
    /// object still has a mask value between 0 and 7.
    pub mask: Mask,
    /// The modules of this QR Code (false = light, true = dark), row by
    /// row. Immutable after the constructor finishes.
    pub modules: Vec<bool>,
    /// Indicates function modules that are not subjected to masking.
    /// Discarded when the constructor finishes.
    pub isfunction: Vec<bool>,
}

impl QrCode {
    /// The shape every symbol keeps while under construction: a valid
    /// version, the side length derived from it, and both grids square.
    pub open spec fn building(self) -> bool {
        &&& self.version.valid()
        &&& self.size == self.version.spec_value() * 4 + 17
        &&& self.modules@.len() == self.size * self.size
        &&& self.isfunction@.len() == self.size * self.size
    }

    /// The shape of a finished symbol: as above, but the scratch function
    /// grid has been discarded and the mask is recorded.
    pub open spec fn wf(self) -> bool {
        &&& self.version.valid()
        &&& self.size == self.version.spec_value() * 4 + 17
        &&& self.modules@.len() == self.size * self.size
        &&& self.isfunction@.len() == 0
        &&& self.mask.valid()
    }

    /// Returns this QR Code's version, in the range [1, 40].
    pub fn version(&self) -> (r: Version)
        ensures
            r == self.version,
    {
        self.version
    }

    /// Returns this QR Code's size, in the range [21, 177].
    pub fn size(&self) -> (r: i32)
        ensures
            r == self.size,
    {
        self.size
    }

    /// Returns this QR Code's error correction level.
    pub fn error_correction_level(&self) -> (r: CodeEcc)
        ensures
            r == self.errorcorrectionlevel,
    {
        self.errorcorrectionlevel
    }

    /// Returns this QR Code's mask, in the range [0, 7].
    pub fn mask(&self) -> (r: Mask)
        ensures
            r == self.mask,
    {
        self.mask
    }

    /// Returns the color of the module (pixel) at the given coordinates:
    /// `false` for light or `true` for dark. The top left corner has the
    /// coordinates (x=0, y=0). If the given coordinates are out of bounds,
    /// then `false` (light) is returned.
    pub fn get_module(&self, x: i32, y: i32) -> (r: bool)
        requires
            self.modules@.len() == self.size * self.size,
            0 < self.size <= 177,
        ensures
            r == (0 <= x < self.size && 0 <= y < self.size && self.modules@[spec_idx(
                x as int,
                y as int,
                self.size as int,
            )]),
    {
        if 0 <= x && x < self.size && 0 <= y && y < self.size {
            self.module(x, y)
        } else {
            false
        }
    }

    /// Returns the color of the module at the given coordinates, which
    /// must be in bounds.
    fn module(&self, x: i32, y: i32) -> (r: bool)
        requires
            self.modules@.len() == self.size * self.size,
            0 < self.size <= 177,
            0 <= x < self.size,
            0 <= y < self.size,
        ensures
            r == self.modules@[spec_idx(x as int, y as int, self.size as int)],
    {
        proof {
            lemma_idx_bounds(x as int, y as int, self.size as int);
        }
        self.modules[(y * self.size + x) as usize]
    }

    /// Sets the color of the module at the given in-bounds coordinates.
    fn set_module(&mut self, x: i32, y: i32, isdark: bool)
        requires
            old(self).modules@.len() == old(self).size * old(self).size,
            0 < old(self).size <= 177,
            0 <= x < old(self).size,
            0 <= y < old(self).size,
        ensures
            final(self).modules@ == old(self).modules@.update(
                spec_idx(x as int, y as int, old(self).size as int),
                isdark,
            ),
            final(self).version == old(self).version,
            final(self).size == old(self).size,
            final(self).errorcorrectionlevel == old(self).errorcorrectionlevel,
            final(self).mask == old(self).mask,
            final(self).isfunction == old(self).isfunction,
    {
        proof {
            lemma_idx_bounds(x as int, y as int, self.size as int);
        }
        let idx = (y * self.size + x) as usize;
        self.modules.set(idx, isdark);
    }

    /// Sets the color of a module and marks it as a function module.
    /// Only used by the constructor. Coordinates must be in bounds.
    fn set_function_module(&mut self, x: i32, y: i32, isdark: bool)
        requires
            old(self).building(),
            0 <= x < old(self).size,
            0 <= y < old(self).size,
        ensures
            final(self).building(),
            final(self).modules@ == old(self).modules@.update(
                spec_idx(x as int, y as int, old(self).size as int),
                isdark,
            ),
            final(self).isfunction@ == old(self).isfunction@.update(
                spec_idx(x as int, y as int, old(self).size as int),
                true,
            ),
            forall|i: int|
                0 <= i < old(self).isfunction@.len() && old(self).isfunction@[i]
                    ==> #[trigger] final(self).isfunction@[i],
            final(self).version == old(self).version,
            final(self).size == old(self).size,
            final(self).errorcorrectionlevel == old(self).errorcorrectionlevel,
            final(self).mask == old(self).mask,
    {
        proof {
            lemma_idx_bounds(x as int, y as int, self.size as int);
        }
        let idx = (y * self.size + x) as usize;
        self.modules.set(idx, isdark);
        self.isfunction.set(idx, true);
    }

    /// XORs the codeword modules in this QR Code with the given mask
    /// pattern. The function modules must be marked and the codeword bits
    /// must be drawn before masking. Due to the arithmetic of XOR, calling
    /// this with the same mask value a second time undoes the mask. A final
    /// well-formed QR Code needs exactly one mask applied.
    pub fn apply_mask(&mut self, mask: Mask)
        requires
            old(self).building(),
            mask.valid(),
        ensures
            final(self).building(),
            final(self).modules@ == spec_masked_grid(
                old(self).modules@,
                old(self).isfunction@,
                old(self).size as int,
                mask.spec_value(),
            ),
            final(self).version == old(self).version,
            final(self).size == old(self).size,
            final(self).errorcorrectionlevel == old(self).errorcorrectionlevel,
            final(self).mask == old(self).mask,
            final(self).isfunction == old(self).isfunction,
    {
        let ghost g0 = self.modules@;
        let ghost f0 = self.isfunction@;
        let ghost sz = self.size as int;
        let ghost m = mask.spec_value();
        let size = self.size;
        let mval = mask.value();
        let mut y: i32 = 0;
        while y < size
            invariant
                self.building(),
                self.size == size,
                0 < size <= 177,
                sz == size as int,
                0 <= y <= size,
                m == mask.spec_value(),
                0 <= m <= 7,
                mval == m,
                self.isfunction@ == f0,
                self.version == old(self).version,
                self.errorcorrectionlevel == old(self).errorcorrectionlevel,
                self.mask == old(self).mask,
                self.isfunction == old(self).isfunction,
                self.modules@.len() == g0.len(),
                g0.len() == sz * sz,
                forall|i: int|
                    0 <= i < y * sz ==> self.modules@[i] == (g0[i] != (spec_mask_pred(
                        m,
                        i % sz,
                        i / sz,
                    ) && !f0[i])),
                forall|i: int| y * sz <= i < sz * sz ==> self.modules@[i] == g0[i],
            decreases size - y,
        {
            let mut x: i32 = 0;
            while x < size
                invariant
                    self.building(),
                    self.size == size,
                    0 < size <= 177,
                    sz == size as int,
                    0 <= y < size,
                    0 <= x <= size,
                    m == mask.spec_value(),
                    0 <= m <= 7,
                    mval == m,
                    self.isfunction@ == f0,
                    self.version == old(self).version,
                    self.errorcorrectionlevel == old(self).errorcorrectionlevel,
                    self.mask == old(self).mask,
                    self.isfunction == old(self).isfunction,
                    self.modules@.len() == g0.len(),
                    g0.len() == sz * sz,
                    forall|i: int|
                        0 <= i < y * sz + x ==> self.modules@[i] == (g0[i] != (spec_mask_pred(
                            m,
                            i % sz,
                            i / sz,
                        ) && !f0[i])),
                    forall|i: int| y * sz + x <= i < sz * sz ==> self.modules@[i] == g0[i],
                decreases size - x,
            {
                proof {
                    lemma_idx_bounds(x as int, y as int, sz);
                    assert(x * y <= 31329 && x + y <= 354) by (nonlinear_arith)
                        requires
                            0 <= x < 178,
                            0 <= y < 178,
                    ;
                }
                let invert: bool = if mval == 0 {
                    (x + y) % 2 == 0
                } else if mval == 1 {
                    y % 2 == 0
                } else if mval == 2 {
                    x % 3 == 0
                } else if mval == 3 {
                    (x + y) % 3 == 0
                } else if mval == 4 {
                    (x / 3 + y / 2) % 2 == 0
                } else if mval == 5 {
                    (x * y) % 2 + (x * y) % 3 == 0
                } else if mval == 6 {
                    ((x * y) % 2 + (x * y) % 3) % 2 == 0
                } else {
                    ((x + y) % 2 + (x * y) % 3) % 2 == 0
                };
                proof {
                    assert(invert == spec_mask_pred(m, x as int, y as int));
                }
                let idx = (y * size + x) as usize;
                let cur = self.modules[idx];
                let fnc = self.isfunction[idx];
                self.modules.set(idx, cur != (invert && !fnc));
                x = x + 1;
            }
            y = y + 1;
            proof {
                assert(y * sz == (y - 1) * sz + sz) by (nonlinear_arith);
            }
        }
        proof {
            assert(self.modules@ =~= spec_masked_grid(g0, f0, sz, m));
        }
    }

    /// Returns a new byte string representing the given data with the
    /// appropriate error correction codewords appended to it, based on
    /// this object's version and error correction level: the data is split
    /// into blocks, each block gets its Reed-Solomon codewords, and the
    /// blocks' bytes are interleaved round-robin into one sequence whose
    /// length is the symbol's full codeword capacity.
    #[verifier::rlimit(100)]
    #[verifier::spinoff_prover]
    fn add_ecc_and_interleave(&self, data: &[u8]) -> (r: Vec<u8>)
        requires
            self.version.valid(),
            data@.len() == crate::tables::spec_data_codewords(
                crate::code_ecc::spec_ordinal(self.errorcorrectionlevel),
                self.version.spec_value(),
            ),
        ensures
            r@.len() == crate::tables::spec_raw_data_modules(self.version.spec_value()) / 8,
            r@ == spec_ecc_interleaved(
                data@,
                crate::code_ecc::spec_ordinal(self.errorcorrectionlevel),
                self.version.spec_value(),
            ),
    {
        let ver: Version = self.version;
        let ecl: CodeEcc = self.errorcorrectionlevel;
        proof {
            crate::tables::lemma_table_facts(
                crate::code_ecc::spec_ordinal(ecl),
                ver.spec_value(),
            );
        }

        // Calculate parameter numbers
        let numblocks: usize = crate::tables::num_ecc_blocks(ver, ecl);
        let blockecclen: usize = crate::tables::ecc_codewords_per_block(ver, ecl);
        let rawcodewords: usize = crate::tables::get_num_raw_data_modules(ver) / 8;
        let numshortblocks: usize = numblocks - rawcodewords % numblocks;
        let shortblocklen: usize = rawcodewords / numblocks;
        let datlen_short: usize = shortblocklen - blockecclen;
        proof {
            vstd::arithmetic::div_mod::lemma_fundamental_div_mod(
                rawcodewords as int,
                numblocks as int,
            );
            assert(numblocks as int * (datlen_short as int) + (numblocks - numshortblocks)
                == rawcodewords as int - (blockecclen as int) * (numblocks as int))
                by (nonlinear_arith)
                requires
                    datlen_short == shortblocklen - blockecclen,
                    numshortblocks == numblocks - rawcodewords as int % (numblocks as int),
                    rawcodewords as int == (numblocks as int) * (rawcodewords as int / (
                    numblocks as int)) + rawcodewords as int % (numblocks as int),
                    shortblocklen == rawcodewords as int / (numblocks as int),
                    1 <= numblocks,
            ;
            assert(data@.len() == numblocks * datlen_short + (numblocks - numshortblocks));
        }
        let ghost dl = datlen_short as int;
        let ghost ns = numshortblocks as int;

        // Split data into blocks and append ECC to each block
        let mut blocks: Vec<Vec<u8>> = Vec::new();
        let rsdiv: Vec<u8> = reed_solomon_compute_divisor(blockecclen);
        let mut k: usize = 0;
        let mut i: usize = 0;
        while i < numblocks
            invariant
                i <= numblocks,
                1 <= numblocks <= 81,
                7 <= blockecclen <= 30,
                blockecclen + 1 <= shortblocklen <= 153,
                datlen_short == shortblocklen - blockecclen,
                numshortblocks <= numblocks,
                dl == datlen_short as int,
                ns == numshortblocks as int,
                rsdiv@.len() == blockecclen,
                rsdiv@ == spec_rs_divisor(blockecclen as int),
                data@.len() <= 3000,
                data@.len() == numblocks * datlen_short + (numblocks - numshortblocks),
                k == i * datlen_short + (if i <= numshortblocks {
                    0int
                } else {
                    i - numshortblocks
                }),
                k == spec_block_start(dl, ns, i as int),
                k <= data@.len(),
                blocks@.len() == i,
                forall|j: int|
                    0 <= j < i ==> (#[trigger] blocks@[j])@.len() == shortblocklen + 1,
                forall|j: int|
                    0 <= j < i ==> (#[trigger] blocks@[j])@ == spec_block(
                        data@,
                        rsdiv@,
                        dl,
                        ns,
                        j,
                    ),
            decreases numblocks - i,
        {
            let datlen: usize = datlen_short + (if i >= numshortblocks {
                1usize
            } else {
                0usize
            });
            proof {
                assert((i + 1) * datlen_short == i * datlen_short + datlen_short)
                    by (nonlinear_arith);
                assert((i + 1) * datlen_short + (if i + 1 <= numshortblocks {
                    0int
                } else {
                    i + 1 - numshortblocks
                }) <= numblocks * datlen_short + (numblocks - numshortblocks))
                    by (nonlinear_arith)
                    requires
                        i + 1 <= numblocks,
                        0 <= datlen_short,
                        numshortblocks <= numblocks,
                ;
                assert(k + datlen == (i + 1) * datlen_short + (if i + 1 <= numshortblocks {
                    0int
                } else {
                    i + 1 - numshortblocks
                }));
                assert(k + datlen <= data@.len());
            }
            let mut dat: Vec<u8> = Vec::new();
            let mut t: usize = 0;
            while t < datlen
                invariant
                    t <= datlen,
                    data@.len() <= 3000,
                    k + datlen <= data@.len(),
                    dat@.len() == t,
                    dat@ == data@.subrange(k as int, k + t),
                decreases datlen - t,
            {
                dat.push(data[k + t]);
                proof {
                    assert(dat@ =~= data@.subrange(k as int, k + t + 1));
                }
                t = t + 1;
            }
            let ghost dat_data = dat@;
            k = k + datlen;
            let ecc: Vec<u8> = reed_solomon_compute_remainder(dat.as_slice(), &rsdiv);
            if i < numshortblocks {
                dat.push(0);
            }
            let ghost padded = dat@;
            let mut e: usize = 0;
            while e < ecc.len()
                invariant
                    e <= ecc@.len(),
                    dat@ == padded + ecc@.take(e as int),
                    padded.len() == datlen + (if i < numshortblocks {
                        1int
                    } else {
                        0int
                    }),
                    datlen == datlen_short + (if i >= numshortblocks {
                        1int
                    } else {
                        0int
                    }),
                    ecc@.len() == blockecclen,
                decreases ecc@.len() - e,
            {
                dat.push(ecc[e]);
                proof {
                    assert(dat@ =~= padded + ecc@.take(e + 1));
                }
                e = e + 1;
            }
            proof {
                assert(ecc@.take(ecc@.len() as int) =~= ecc@);
                assert(dat@ =~= spec_block(data@, rsdiv@, dl, ns, i as int));
            }
            blocks.push(dat);
            i = i + 1;
        }

        // Interleave (not concatenate) the bytes from every block
        let ghost target = Seq::new(
            numblocks as nat,
            |t: int| spec_block(data@, rsdiv@, dl, ns, t),
        );
        proof {
            assert(forall|j: int|
                0 <= j < numblocks ==> (#[trigger] blocks@[j])@ == target[j]);
        }
        let ghost skiprow = shortblocklen - blockecclen;
        let mut result: Vec<u8> = Vec::new();
        let mut i: usize = 0;
        while i < shortblocklen + 1
            invariant
                i <= shortblocklen + 1,
                1 <= numblocks <= 81,
                7 <= blockecclen <= 30,
                blockecclen + 1 <= shortblocklen <= 153,
                numshortblocks <= numblocks,
                ns == numshortblocks as int,
                skiprow == shortblocklen - blockecclen,
                blocks@.len() == numblocks,
                target.len() == numblocks,
                forall|j: int|
                    0 <= j < numblocks ==> (#[trigger] blocks@[j])@.len() == shortblocklen + 1,
                forall|j: int| 0 <= j < numblocks ==> (#[trigger] blocks@[j])@ == target[j],
                result@.len() == i * numblocks - (if i > shortblocklen - blockecclen {
                    numshortblocks as int
                } else {
                    0int
                }),
                result@ == spec_interleave(target, skiprow, ns, i as int),
            decreases shortblocklen + 1 - i,
        {
            proof {
                assert((i + 1) * numblocks == i * numblocks + numblocks) by (nonlinear_arith);
                assert(i * numblocks <= 154 * 81) by (nonlinear_arith)
                    requires
                        i <= 154,
                        numblocks <= 81,
                ;
            }
            let mut j: usize = 0;
            let ghost len0 = result@.len();
            let ghost row0 = result@;
            while j < numblocks
                invariant
                    j <= numblocks,
                    i <= shortblocklen,
                    ns == numshortblocks as int,
                    skiprow == shortblocklen - blockecclen,
                    blockecclen + 1 <= shortblocklen <= 153,
                    7 <= blockecclen,
                    blocks@.len() == numblocks,
                    target.len() == numblocks,
                    numshortblocks <= numblocks,
                    forall|t: int|
                        0 <= t < numblocks ==> (#[trigger] blocks@[t])@.len() == shortblocklen
                            + 1,
                    forall|t: int|
                        0 <= t < numblocks ==> (#[trigger] blocks@[t])@ == target[t],
                    result@.len() == len0 + (if i == shortblocklen - blockecclen {
                        (if j <= numshortblocks {
                            0int
                        } else {
                            j - numshortblocks
                        })
                    } else {
                        j as int
                    }),
                    result@ == row0 + spec_interleave_row(target, skiprow, ns, i as int, j as int),
                    row0 == spec_interleave(target, skiprow, ns, i as int),
                decreases numblocks - j,
            {
                // Skip the padding byte in short blocks
                if i != shortblocklen - blockecclen || j >= numshortblocks {
                    let b = &blocks[j];
                    result.push(b[i]);
                    proof {
                        assert(result@ =~= row0 + spec_interleave_row(
                            target,
                            skiprow,
                            ns,
                            i as int,
                            j + 1,
                        ));
                    }
                } else {
                    proof {
                        assert(result@ =~= row0 + spec_interleave_row(
                            target,
                            skiprow,
                            ns,
                            i as int,
                            j + 1,
                        ));
                    }
                }
                j = j + 1;
            }
            i = i + 1;
        }
        proof {
            assert(result@.len() == (shortblocklen + 1) * numblocks - numshortblocks);
            assert((shortblocklen + 1) * numblocks == shortblocklen * numblocks + numblocks)
                by (nonlinear_arith);
            vstd::arithmetic::div_mod::lemma_fundamental_div_mod(
                rawcodewords as int,
                numblocks as int,
            );
            assert(numblocks * shortblocklen == shortblocklen * numblocks) by (nonlinear_arith);
            assert(target =~= Seq::new(
                crate::tables::spec_num_ecc_blocks(
                    crate::code_ecc::spec_ordinal(ecl),
                    ver.spec_value(),
                ) as nat,
                |t: int|
                    spec_block(
                        data@,
                        spec_rs_divisor(
                            crate::tables::spec_ecc_codewords_per_block(
                                crate::code_ecc::spec_ordinal(ecl),
                                ver.spec_value(),
                            ),
                        ),
                        dl,
                        ns,
                        t,
                    ),
            ));
        }
        result
    }

    /// Draws the given sequence of 8-bit codewords (data and error
    /// correction) onto the entire data area of this QR Code, following
    /// the standard's zigzag scan over the non-function modules: exactly
    /// the grid of `spec_codewords_drawn`. Function modules need to be
    /// marked off before this is called, and they are left untouched; any
    /// remainder modules keep their initial light value.
    #[verifier::rlimit(100)]
    #[verifier::spinoff_prover]
    fn draw_codewords(&mut self, data: &[u8])
        requires
            old(self).building(),
            data@.len() == crate::tables::spec_raw_data_modules(old(self).version.spec_value())
                / 8,
        ensures
            spec_draw_extends(*old(self), *final(self)),
            final(self).isfunction == old(self).isfunction,
            final(self).modules@ == spec_codewords_drawn(
                old(self).modules@,
                old(self).isfunction@,
                old(self).size as int,
                data@,
            ),
            forall|t: int|
                0 <= t < old(self).isfunction@.len() && old(self).isfunction@[t]
                    ==> final(self).modules@[t] == old(self).modules@[t],
    {
        proof {
            crate::tables::lemma_raw_data_modules_range(self.version.spec_value());
        }
        let ghost g0 = self.modules@;
        let ghost f0 = self.isfunction@;
        let ghost sz = self.size as int;
        let ghost coords = spec_zigzag_cols(sz, sz - 1);
        let ghost mut k: int = 0;
        let size = self.size;
        let mut i: usize = 0;  // Bit index into the data
        // Do the funny zigzag scan
        let mut right: i32 = size - 1;
        proof {
            assert(coords.skip(0) =~= coords);
        }
        while right >= 1
            invariant
                old(self).building(),
                spec_draw_extends(*old(self), *self),
                self.isfunction == old(self).isfunction,
                forall|t: int|
                    0 <= t < old(self).isfunction@.len() && old(self).isfunction@[t]
                        ==> self.modules@[t] == old(self).modules@[t],
                self.size == size,
                sz == size as int,
                g0 == old(self).modules@,
                f0 == old(self).isfunction@,
                coords == spec_zigzag_cols(sz, sz - 1),
                -1 <= right <= size - 1,
                data@.len() <= 4000,
                i <= data@.len() * 8,
                0 <= k <= coords.len(),
                spec_zigzag_cols(sz, right as int) == coords.skip(k),
                (self.modules@, i as int) == spec_place_upto(g0, f0, sz, data@, coords, k),
            decreases right + 1,
        {
            // Index of right column in each column pair; column 6 collapses
            // into column 5, because column 6 is a timing column
            let right_adj: i32 = if right == 6 {
                5
            } else {
                right
            };
            let ghost k0 = k;
            proof {
                assert(spec_zigzag_cols(sz, right as int) == spec_pair_coords(
                    sz,
                    right_adj as int,
                ) + spec_zigzag_cols(sz, right_adj as int - 2));
            }
            let mut vert: i32 = 0;  // Vertical counter
            while vert < size
                invariant
                    old(self).building(),
                    spec_draw_extends(*old(self), *self),
                    self.isfunction == old(self).isfunction,
                    forall|t: int|
                        0 <= t < old(self).isfunction@.len() && old(self).isfunction@[t]
                            ==> self.modules@[t] == old(self).modules@[t],
                    self.size == size,
                    sz == size as int,
                    g0 == old(self).modules@,
                    f0 == old(self).isfunction@,
                    coords == spec_zigzag_cols(sz, sz - 1),
                    1 <= right_adj <= size - 1,
                    0 <= vert <= size,
                    data@.len() <= 4000,
                    i <= data@.len() * 8,
                    k == k0 + 2 * vert,
                    0 <= k0,
                    k0 + 2 * sz <= coords.len(),
                    coords.skip(k0) == spec_pair_coords(sz, right_adj as int)
                        + spec_zigzag_cols(sz, right_adj as int - 2),
                    (self.modules@, i as int) == spec_place_upto(g0, f0, sz, data@, coords, k),
                decreases size - vert,
            {
                let mut j: i32 = 0;
                while j < 2
                    invariant
                        old(self).building(),
                        spec_draw_extends(*old(self), *self),
                        self.isfunction == old(self).isfunction,
                        forall|t: int|
                            0 <= t < old(self).isfunction@.len() && old(self).isfunction@[t]
                                ==> self.modules@[t] == old(self).modules@[t],
                        self.size == size,
                        sz == size as int,
                        g0 == old(self).modules@,
                        f0 == old(self).isfunction@,
                        coords == spec_zigzag_cols(sz, sz - 1),
                        1 <= right_adj <= size - 1,
                        0 <= vert < size,
                        0 <= j <= 2,
                        data@.len() <= 4000,
                        i <= data@.len() * 8,
                        k == k0 + 2 * vert + j,
                        0 <= k0,
                        k0 + 2 * sz <= coords.len(),
                        coords.skip(k0) == spec_pair_coords(sz, right_adj as int)
                            + spec_zigzag_cols(sz, right_adj as int - 2),
                        (self.modules@, i as int) == spec_place_upto(
                            g0,
                            f0,
                            sz,
                            data@,
                            coords,
                            k,
                        ),
                    decreases 2 - j,
                {
                    let x: i32 = right_adj - j;  // Actual x coordinate
                    let ra1: i32 = right_adj + 1;
                    let upward: bool = ra1 & 2 == 0;
                    let y: i32 = if upward {
                        size - 1 - vert
                    } else {
                        vert
                    };  // Actual y coordinate
                    proof {
                        assert((ra1 & 2 == 0) == (ra1 % 4 <= 1)) by (bit_vector)
                            requires
                                2 <= ra1 <= 201,
                        ;
                        assert(coords[k] == (coords.skip(k0))[2 * vert + j]);
                        assert((coords.skip(k0))[2 * vert + j] == spec_pair_coords(
                            sz,
                            right_adj as int,
                        )[2 * vert + j]);
                        assert(coords[k] == (x as int, y as int));
                        lemma_idx_bounds(x as int, y as int, size as int);
                    }
                    let idx = (y * size + x) as usize;
                    if !self.isfunction[idx] && i < data.len() * 8 {
                        proof {
                            assert(i >> 3 == i / 8) by (bit_vector);
                            assert(i / 8 < data@.len()) by (nonlinear_arith)
                                requires
                                    i < data@.len() * 8,
                            ;
                            assert(data@.len() * 8 <= 32000) by (nonlinear_arith)
                                requires
                                    data@.len() <= 4000,
                            ;
                            assert(0 <= ((i as i32) & 7) <= 7) by (bit_vector)
                                requires
                                    0 <= i as i32 <= 32000,
                            ;
                            assert((i as i32) & 7 == (i as i32) % 8) by (bit_vector)
                                requires
                                    0 <= i as i32 <= 32000,
                            ;
                        }
                        let byte = data[i >> 3];
                        let bit = crate::bit_buffer::get_bit(byte as u32, 7 - ((i as i32) & 7));
                        self.set_module(x, y, bit);
                        i = i + 1;
                    }
                    // If this QR Code has any remainder bits (0 to 7), they
                    // were assigned as light by the constructor and are
                    // left unchanged by this method
                    proof {
                        k = k + 1;
                        assert((self.modules@, i as int) == spec_place_upto(
                            g0,
                            f0,
                            sz,
                            data@,
                            coords,
                            k,
                        ));
                    }
                    j = j + 1;
                }
                vert = vert + 1;
            }
            proof {
                let ra = right_adj as int;
                let p = spec_pair_coords(sz, ra);
                let rest = spec_zigzag_cols(sz, ra - 2);
                assert(coords.skip(k0).len() == p.len() + rest.len());
                assert forall|t: int| 0 <= t < rest.len() implies coords.skip(k0 + 2 * sz)[t]
                    == rest[t] by {
                    assert(coords.skip(k0 + 2 * sz)[t] == coords[k0 + 2 * sz + t]);
                    assert(coords.skip(k0)[2 * sz + t] == coords[k0 + 2 * sz + t]);
                    assert(coords.skip(k0)[2 * sz + t] == (p + rest)[2 * sz + t]);
                }
                assert(coords.skip(k0 + 2 * sz) =~= rest);
            }
            right = right_adj - 2;
        }
        proof {
            assert(spec_zigzag_cols(sz, right as int) =~= Seq::<(int, int)>::empty());
            assert(k == coords.len());
        }
    }

    /// Creates a new QR Code with the given version number, error
    /// correction level, data codeword bytes, and mask number. The data
    /// codewords must exactly fill the data capacity of the version and
    /// level. The returned grid is `spec_symbol_grid` at the recorded
    /// mask; when no mask is forced, the recorded mask is the lowest
    /// index whose candidate grid has the minimal penalty score.
    ///
    /// This is a low-level API that most users should not use directly.
    /// A mid-level API is the `encode_segments()` function.
    #[verifier::rlimit(100)]
    #[verifier::spinoff_prover]
    pub fn encode_codewords(
        ver: Version,
        ecl: CodeEcc,
        datacodewords: &[u8],
        msk: Option<Mask>,
    ) -> (r: QrCode)
        requires
            ver.valid(),
            datacodewords@.len() == crate::tables::spec_data_codewords(
                crate::code_ecc::spec_ordinal(ecl),
                ver.spec_value(),
            ),
            msk matches Some(m) ==> m.valid(),
        ensures
            r.wf(),
            r.version == ver,
            r.size == ver.spec_value() * 4 + 17,
            r.errorcorrectionlevel == ecl,
            msk matches Some(m) ==> r.mask == m,
            r.modules@ == spec_symbol_grid(
                ver.spec_value(),
                ecl,
                datacodewords@,
                r.mask.spec_value(),
            ),
            msk is None ==> forall|w: int|
                0 <= w <= 7 ==> spec_penalty(
                    spec_symbol_grid(ver.spec_value(), ecl, datacodewords@, r.mask.spec_value()),
                    ver.spec_value() * 4 + 17,
                ) <= #[trigger] spec_penalty(
                    spec_symbol_grid(ver.spec_value(), ecl, datacodewords@, w),
                    ver.spec_value() * 4 + 17,
                ),
            msk is None ==> forall|w: int|
                0 <= w < r.mask.spec_value() ==> spec_penalty(
                    spec_symbol_grid(ver.spec_value(), ecl, datacodewords@, r.mask.spec_value()),
                    ver.spec_value() * 4 + 17,
                ) < #[trigger] spec_penalty(
                    spec_symbol_grid(ver.spec_value(), ecl, datacodewords@, w),
                    ver.spec_value() * 4 + 17,
                ),
    {
        let ghost ver_i = ver.spec_value();
        let ghost sz = ver_i * 4 + 17;
        let ghost data_s = datacodewords@;

        // Initialize fields
        let size_us: usize = ver.value() as usize * 4 + 17;
        proof {
            assert(size_us * size_us <= 31329) by (nonlinear_arith)
                requires
                    size_us <= 177,
            ;
        }
        let total_cells: usize = size_us * size_us;
        let mut modules: Vec<bool> = Vec::new();
        let mut isfunction: Vec<bool> = Vec::new();
        while modules.len() < total_cells
            invariant
                total_cells == size_us * size_us,
                size_us <= 177,
                modules@.len() <= total_cells,
                isfunction@.len() == modules@.len(),
                forall|j: int| 0 <= j < modules@.len() ==> !(#[trigger] modules@[j]),
                forall|j: int| 0 <= j < isfunction@.len() ==> !(#[trigger] isfunction@[j]),
            decreases total_cells - modules@.len(),
        {
            modules.push(false);  // Initially all light
            isfunction.push(false);
        }
        let ghost light = Seq::new((sz * sz) as nat, |i: int| false);
        proof {
            assert(modules@ =~= light);
            assert(isfunction@ =~= light);
        }
        let mut result = QrCode {
            version: ver,
            size: size_us as i32,
            mask: Mask::new(0),  // Dummy value
            errorcorrectionlevel: ecl,
            modules,
            isfunction,
        };
        proof {
            crate::tables::lemma_table_facts(
                crate::code_ecc::spec_ordinal(ecl),
                ver.spec_value(),
            );
            assert(result.building());
        }

        // Compute ECC, draw modules
        result.draw_function_patterns();
        let allcodewords: Vec<u8> = result.add_ecc_and_interleave(datacodewords);
        result.draw_codewords(allcodewords.as_slice());
        let ghost grid_p = spec_premask_grid(ver_i, ecl, data_s);
        let ghost fmap = spec_symbol_function_map(ver_i, ecl);
        proof {
            assert(result.modules@ == grid_p);
            assert(result.isfunction@ == fmap);
            assert(grid_p.len() == sz * sz);
            assert(fmap.len() == sz * sz);
        }

        // Do masking
        let mut msk_pick: Option<Mask> = msk;
        if msk_pick.is_none() {
            // Automatically choose best mask
            let mut minpenalty: i32 = i32::MAX;
            let mut i: u8 = 0;
            while i < 8
                invariant
                    result.building(),
                    result.version == ver,
                    result.errorcorrectionlevel == ecl,
                    ver_i == ver.spec_value(),
                    sz == ver_i * 4 + 17,
                    data_s == datacodewords@,
                    grid_p == spec_premask_grid(ver_i, ecl, data_s),
                    fmap == spec_symbol_function_map(ver_i, ecl),
                    grid_p.len() == sz * sz,
                    fmap.len() == sz * sz,
                    0 <= i <= 8,
                    result.isfunction@ == fmap,
                    result.modules@ == (if i == 0 {
                        grid_p
                    } else {
                        spec_painted(grid_p, sz, spec_format_cells(ecl, i - 1, sz))
                    }),
                    msk_pick matches Some(mp) ==> {
                        &&& mp.valid()
                        &&& 0 <= mp.spec_value() < i
                        &&& minpenalty == spec_penalty(
                            spec_symbol_grid(ver_i, ecl, data_s, mp.spec_value()),
                            sz,
                        )
                        &&& forall|w: int|
                            0 <= w < i ==> minpenalty <= #[trigger] spec_penalty(
                                spec_symbol_grid(ver_i, ecl, data_s, w),
                                sz,
                            )
                        &&& forall|w: int|
                            0 <= w < mp.spec_value() ==> minpenalty < #[trigger] spec_penalty(
                                spec_symbol_grid(ver_i, ecl, data_s, w),
                                sz,
                            )
                    },
                    i > 0 ==> msk_pick is Some,
                decreases 8 - i,
            {
                let m = Mask::new(i);
                let ghost pre = result.modules@;
                result.apply_mask(m);
                proof {
                    lemma_format_marked(ver_i, ecl, i as int);
                    lemma_format_marked(ver_i, ecl, i - 1);
                    if i > 0 {
                        lemma_masked_painted_commute(
                            grid_p,
                            fmap,
                            sz,
                            i as int,
                            spec_format_cells(ecl, i - 1, sz),
                        );
                    }
                }
                result.draw_format_bits(m);
                proof {
                    if i > 0 {
                        lemma_format_cells_shape(ecl, i - 1, i as int, sz);
                        lemma_painted_overwrite(
                            spec_masked_grid(grid_p, fmap, sz, i as int),
                            sz,
                            spec_format_cells(ecl, i - 1, sz),
                            spec_format_cells(ecl, i as int, sz),
                        );
                    }
                    assert(result.modules@ == spec_symbol_grid(ver_i, ecl, data_s, i as int));
                    lemma_marked_subsumed(fmap, sz, spec_format_cells(ecl, i as int, sz));
                    assert(result.isfunction@ == fmap);
                }
                let penalty: i32 = result.get_penalty_score();
                if msk_pick.is_none() || penalty < minpenalty {
                    msk_pick = Some(m);
                    minpenalty = penalty;
                }
                let ghost cand = result.modules@;
                result.apply_mask(m);  // Undoes the mask due to XOR
                proof {
                    lemma_masked_painted_commute(
                        spec_masked_grid(grid_p, fmap, sz, i as int),
                        fmap,
                        sz,
                        i as int,
                        spec_format_cells(ecl, i as int, sz),
                    );
                    lemma_mask_involution(grid_p, fmap, sz, i as int);
                    assert(result.modules@ == spec_painted(
                        grid_p,
                        sz,
                        spec_format_cells(ecl, i as int, sz),
                    ));
                }
                i = i + 1;
            }
        }
        let msk_final: Mask = match msk_pick {
            Some(m) => m,
            None => {
                proof {
                    assert(false);
                }
                Mask::new(0)
            },
        };
        result.mask = msk_final;
        let ghost mf = msk_final.spec_value();
        result.apply_mask(msk_final);  // Apply the final choice of mask
        proof {
            if msk is None {
                lemma_format_marked(ver_i, ecl, 7);
                lemma_masked_painted_commute(grid_p, fmap, sz, mf, spec_format_cells(ecl, 7, sz));
            }
        }
        result.draw_format_bits(msk_final);  // Overwrite old format bits
        proof {
            if msk is None {
                lemma_format_cells_shape(ecl, 7, mf, sz);
                lemma_painted_overwrite(
                    spec_masked_grid(grid_p, fmap, sz, mf),
                    sz,
                    spec_format_cells(ecl, 7, sz),
                    spec_format_cells(ecl, mf, sz),
                );
            }
            assert(result.modules@ == spec_symbol_grid(ver_i, ecl, data_s, mf));
        }

        result.isfunction = Vec::new();
        result
    }

    /// Returns a QR Code representing the given Unicode text string at the
    /// given error correction level.
    ///
    /// The text is encoded as one segment in the cheapest eligible mode
    /// (numeric, alphanumeric, or byte over the UTF-8 bytes). The smallest
    /// version whose capacity holds the segment is chosen, and the error
    /// correction level may be boosted when that costs no size. Returns
    /// `Err` if the data is too long to fit in any version at the given
    /// ECC level.
    #[verifier::rlimit(100)]
    #[verifier::spinoff_prover]
    pub fn encode_text(text: &str, ecl: CodeEcc) -> (r: Result<QrCode, QrError>)
        ensures
            r is Ok <==> exists|v: int|
                1 <= v <= 40 && #[trigger] spec_text_fits(text@, text.spec_bytes(), v, ecl),
            r matches Ok(q) ==> {
                &&& q.wf()
                &&& 1 <= q.version.spec_value() <= 40
                &&& spec_text_fits(text@, text.spec_bytes(), q.version.spec_value(), ecl)
                &&& forall|w: int|
                    1 <= w < q.version.spec_value() ==> !#[trigger] spec_text_fits(
                        text@,
                        text.spec_bytes(),
                        w,
                        ecl,
                    )
                &&& q.size == q.version.spec_value() * 4 + 17
                &&& exists|sg: Seq<crate::segment::Segment>|
                    #[trigger] spec_text_segments_shape(sg, text@, text.spec_bytes())
                        && q.modules@ == spec_advanced_grid(
                        sg,
                        q.version.spec_value(),
                        ecl,
                        true,
                        q.mask.spec_value(),
                    )
            },
            text@.len() <= 738 && ecl is Low ==> r is Ok,
    {
        let segs: Vec<crate::segment::Segment> = crate::segment::Segment::make_segments(text);
        proof {
            if text@.len() == 0 {
                assert(segs@ =~= Seq::<crate::segment::Segment>::empty());
                assert forall|v: int| 1 <= v <= 40 implies #[trigger] spec_fits(
                    segs@,
                    v,
                    ecl,
                ) == spec_text_fits(text@, text.spec_bytes(), v, ecl) by {
                    crate::tables::lemma_table_facts(crate::code_ecc::spec_ordinal(ecl), v);
                }
            } else {
                let seg = segs@[0];
                assert(segs@ =~= seq![seg]);
                if crate::segment::spec_all_numeric(text@) {
                    lemma_numeric_bits_len(text@);
                } else if crate::segment::spec_all_alnum(text@) {
                    lemma_alnum_bits_len(text@);
                } else {
                    lemma_byte_bits_len(text.spec_bytes());
                }
                assert forall|v: int| 1 <= v <= 40 implies #[trigger] spec_fits(
                    segs@,
                    v,
                    ecl,
                ) == spec_text_fits(text@, text.spec_bytes(), v, ecl) by {
                    lemma_singleton_fits(seg, v, ecl);
                }
            }
        }
        proof {
            if text@.len() <= 738 && ecl is Low {
                crate::tables::lemma_low_capacity();
                lemma_utf8_len_bound(text@);
                assert(spec_text_fits(text@, text.spec_bytes(), 40, ecl));
                assert(spec_fits(segs@, 40, ecl));
            }
        }
        let r = QrCode::encode_segments(segs.as_slice(), ecl);
        proof {
            if exists|v: int| 1 <= v <= 40 && #[trigger] spec_fits(segs@, v, ecl) {
                let v0 = choose|v: int| 1 <= v <= 40 && #[trigger] spec_fits(segs@, v, ecl);
                assert(spec_text_fits(text@, text.spec_bytes(), v0, ecl));
            }
            if exists|v: int|
                1 <= v <= 40 && #[trigger] spec_text_fits(text@, text.spec_bytes(), v, ecl) {
                let v0 = choose|v: int|
                    1 <= v <= 40 && #[trigger] spec_text_fits(
                        text@,
                        text.spec_bytes(),
                        v,
                        ecl,
                    );
                assert(spec_fits(segs@, v0, ecl));
            }
            if r is Ok {
                let q = r->Ok_0;
                assert(spec_text_fits(text@, text.spec_bytes(), q.version.spec_value(), ecl));
                assert forall|w: int| 1 <= w < q.version.spec_value() implies !#[trigger]
                    spec_text_fits(text@, text.spec_bytes(), w, ecl) by {
                    assert(!spec_fits(segs@, w, ecl));
                }
                assert(spec_text_segments_shape(segs@, text@, text.spec_bytes()));
            }
        }
        r
    }

    /// Returns a QR Code representing the given binary data at the given
    /// error correction level.
    ///
    /// This function always encodes using the binary segment mode, not any
    /// text mode. The smallest possible QR Code version is automatically
    /// chosen, and the ECC level of the result may be higher than the ecl
    /// argument if it can be done without increasing the version. Returns
    /// `Err` if the data is too long to fit in any version at the given
    /// ECC level.
    #[verifier::rlimit(100)]
    #[verifier::spinoff_prover]
    pub fn encode_binary(data: &[u8], ecl: CodeEcc) -> (r: Result<QrCode, QrError>)
        ensures
            r is Ok <==> exists|v: int|
                1 <= v <= 40 && #[trigger] spec_single_segment_fits(
                    crate::segment_mode::SegmentMode::Byte,
                    data@.len() as int,
                    8 * (data@.len() as int),
                    v,
                    ecl,
                ),
            r matches Ok(q) ==> {
                &&& q.wf()
                &&& 1 <= q.version.spec_value() <= 40
                &&& forall|w: int|
                    1 <= w < q.version.spec_value() ==> !#[trigger] spec_single_segment_fits(
                        crate::segment_mode::SegmentMode::Byte,
                        data@.len() as int,
                        8 * (data@.len() as int),
                        w,
                        ecl,
                    )
                &&& q.size == q.version.spec_value() * 4 + 17
                &&& exists|sg: Seq<crate::segment::Segment>|
                    #[trigger] spec_byte_segments_shape(sg, data@) && q.modules@
                        == spec_advanced_grid(
                        sg,
                        q.version.spec_value(),
                        ecl,
                        true,
                        q.mask.spec_value(),
                    )
            },
            data@.len() <= 2953 && ecl is Low ==> r is Ok,
    {
        let mut segs: Vec<crate::segment::Segment> = Vec::new();
        segs.push(crate::segment::Segment::make_bytes(data));
        proof {
            let seg = segs@[0];
            assert(segs@ =~= seq![seg]);
            lemma_byte_bits_len(data@);
            assert forall|v: int| 1 <= v <= 40 implies #[trigger] spec_fits(segs@, v, ecl)
                == spec_single_segment_fits(
                crate::segment_mode::SegmentMode::Byte,
                data@.len() as int,
                8 * (data@.len() as int),
                v,
                ecl,
            ) by {
                lemma_singleton_fits(seg, v, ecl);
            }
        }
        proof {
            if data@.len() <= 2953 && ecl is Low {
                crate::tables::lemma_low_capacity();
                assert(spec_single_segment_fits(
                    crate::segment_mode::SegmentMode::Byte,
                    data@.len() as int,
                    8 * (data@.len() as int),
                    40,
                    ecl,
                ));
                assert(spec_fits(segs@, 40, ecl));
            }
        }
        let r = QrCode::encode_segments(segs.as_slice(), ecl);
        proof {
            if exists|v: int| 1 <= v <= 40 && #[trigger] spec_fits(segs@, v, ecl) {
                let v0 = choose|v: int| 1 <= v <= 40 && #[trigger] spec_fits(segs@, v, ecl);
                assert(spec_single_segment_fits(
                    crate::segment_mode::SegmentMode::Byte,
                    data@.len() as int,
                    8 * (data@.len() as int),
                    v0,
                    ecl,
                ));
            }
            if exists|v: int|
                1 <= v <= 40 && #[trigger] spec_single_segment_fits(
                    crate::segment_mode::SegmentMode::Byte,
                    data@.len() as int,
                    8 * (data@.len() as int),
                    v,
                    ecl,
                ) {
                let v0 = choose|v: int|
                    1 <= v <= 40 && #[trigger] spec_single_segment_fits(
                        crate::segment_mode::SegmentMode::Byte,
                        data@.len() as int,
                        8 * (data@.len() as int),
                        v,
                        ecl,
                    );
                assert(spec_fits(segs@, v0, ecl));
            }
            if r is Ok {
                let q = r->Ok_0;
                assert forall|w: int| 1 <= w < q.version.spec_value() implies !#[trigger]
                    spec_single_segment_fits(
                    crate::segment_mode::SegmentMode::Byte,
                    data@.len() as int,
                    8 * (data@.len() as int),
                    w,
                    ecl,
                ) by {
                    assert(!spec_fits(segs@, w, ecl));
                }
                assert(spec_byte_segments_shape(segs@, data@));
            }
        }
        r
    }

    /// Returns a QR Code representing the given segments at the given
    /// error correction level.
    ///
    /// The smallest possible QR Code version is automatically chosen for
    /// the output, and the ECC level of the result may be higher than the
    /// ecl argument if it can be done without increasing the version.
    /// Returns `Err` if the data is too long to fit in any version at the
    /// given ECC level.
    pub fn encode_segments(
        segs: &[crate::segment::Segment],
        ecl: CodeEcc,
    ) -> (r: Result<QrCode, QrError>)
        ensures
            r is Ok <==> exists|v: int| 1 <= v <= 40 && #[trigger] spec_fits(segs@, v, ecl),
            r matches Ok(q) ==> {
                &&& q.wf()
                &&& 1 <= q.version.spec_value() <= 40
                &&& spec_fits(segs@, q.version.spec_value(), ecl)
                &&& forall|w: int|
                    1 <= w < q.version.spec_value() ==> !#[trigger] spec_fits(segs@, w, ecl)
                &&& q.size == q.version.spec_value() * 4 + 17
                &&& q.errorcorrectionlevel == spec_boosted_ecl(
                    segs@,
                    q.version.spec_value(),
                    ecl,
                    true,
                )
                &&& q.modules@ == spec_advanced_grid(
                    segs@,
                    q.version.spec_value(),
                    ecl,
                    true,
                    q.mask.spec_value(),
                )
                &&& forall|w: int|
                    0 <= w <= 7 ==> spec_penalty(
                        spec_advanced_grid(
                            segs@,
                            q.version.spec_value(),
                            ecl,
                            true,
                            q.mask.spec_value(),
                        ),
                        q.version.spec_value() * 4 + 17,
                    ) <= #[trigger] spec_penalty(
                        spec_advanced_grid(segs@, q.version.spec_value(), ecl, true, w),
                        q.version.spec_value() * 4 + 17,
                    )
                &&& forall|w: int|
                    0 <= w < q.mask.spec_value() ==> spec_penalty(
                        spec_advanced_grid(
                            segs@,
                            q.version.spec_value(),
                            ecl,
                            true,
                            q.mask.spec_value(),
                        ),
                        q.version.spec_value() * 4 + 17,
                    ) < #[trigger] spec_penalty(
                        spec_advanced_grid(segs@, q.version.spec_value(), ecl, true, w),
                        q.version.spec_value() * 4 + 17,
                    )
            },
            r matches Err(e) ==> (if crate::segment::spec_total_bits(segs@, 40) is None {
                e == QrError::SegmentTooLong
            } else {
                e matches QrError::DataOverCapacity(_, _)
            }),
    {
        QrCode::encode_segments_advanced(segs, ecl, Version::min(), Version::max(), None, true)
    }

    /// Concatenates the segments' headers and data bits, appends the
    /// terminator, the byte alignment and the alternating pad bytes, and
    /// packs the stream into bytes, most significant bit first: exactly
    /// `spec_assembled_codewords`.
    #[verifier::rlimit(100)]
    #[verifier::spinoff_prover]
    fn assemble_codewords(
        segs: &[crate::segment::Segment],
        version: Version,
        ecl2: CodeEcc,
    ) -> (r: Vec<u8>)
        requires
            version.valid(),
            crate::segment::spec_total_bits(segs@, version.spec_value()) is Some,
            crate::segment::spec_total_bits(segs@, version.spec_value())->0
                <= crate::tables::spec_data_codewords(
                crate::code_ecc::spec_ordinal(ecl2),
                version.spec_value(),
            ) * 8,
        ensures
            r@ == spec_assembled_codewords(segs@, version.spec_value(), ecl2),
            r@.len() == crate::tables::spec_data_codewords(
                crate::code_ecc::spec_ordinal(ecl2),
                version.spec_value(),
            ),
    {
        let ghost ver_i = version.spec_value();
        let datausedbits: usize = match crate::segment::Segment::get_total_bits(segs, version) {
            Some(n) => n,
            None => {
                proof {
                    assert(false);
                }
                0
            },
        };
        let datacapacitybits: usize = crate::tables::get_num_data_codewords(version, ecl2) * 8;
        proof {
            crate::tables::lemma_table_facts(
                crate::code_ecc::spec_ordinal(ecl2),
                ver_i,
            );
        }
        let mut bb = crate::bit_buffer::BitBuffer(Vec::new());
        let mut i: usize = 0;
        while i < segs.len()
            invariant
                version.valid(),
                ver_i == version.spec_value(),
                crate::segment::spec_total_bits(segs@, ver_i) == Some(datausedbits as int),
                datausedbits <= datacapacitybits,
                datacapacitybits <= 23648,
                i <= segs@.len(),
                crate::segment::spec_total_bits(segs@.take(i as int), ver_i) == Some(
                    bb.0@.len() as int,
                ),
                bb.0@ == spec_segment_bits(segs@.take(i as int), ver_i),
            decreases segs@.len() - i,
        {
            proof {
                lemma_total_bits_prefix(segs@, ver_i, i as int);
                lemma_total_bits_prefix(segs@, ver_i, i + 1);
            }
            let ghost pre_bits = bb.0@;
            let seg = &segs[i];
            let mb = seg.mode.mode_bits();
            proof {
                assert(mb <= 15);
                assert(mb >> 4u32 == 0) by (bit_vector)
                    requires
                        mb <= 15,
                ;
            }
            bb.append_bits(mb, 4);
            let ccbits: u8 = seg.mode.num_char_count_bits(version);
            proof {
                assert(ccbits == 0 || 8 <= ccbits <= 14 || ccbits == 16);
                lemma_count_fits(seg.numchars as u32, ccbits);
            }
            bb.append_bits(seg.numchars as u32, ccbits);
            let mut j: usize = 0;
            let ghost mid_len = bb.0@.len();
            let ghost mid_bits = bb.0@;
            while j < seg.data.len()
                invariant
                    j <= seg.data@.len(),
                    bb.0@.len() == mid_len + j,
                    mid_len + seg.data@.len() <= 100000,
                    bb.0@ == mid_bits + seg.data@.take(j as int),
                decreases seg.data@.len() - j,
            {
                bb.0.push(seg.data[j]);
                proof {
                    assert(bb.0@ =~= mid_bits + seg.data@.take(j + 1));
                }
                j = j + 1;
            }
            proof {
                assert(seg.data@.take(seg.data@.len() as int) =~= seg.data@);
                assert(segs@.take(i + 1).drop_last() =~= segs@.take(i as int));
                assert(segs@.take(i + 1).last() == segs@[i as int]);
                assert(bb.0@ =~= spec_segment_bits(segs@.take(i + 1), ver_i));
            }
            i = i + 1;
        }
        proof {
            assert(segs@.take(segs@.len() as int) =~= segs@);
        }
        let ghost used = bb.0@;

        // Add terminator and pad up to a byte if applicable
        let numzerobits: usize = if 4 <= datacapacitybits - bb.0.len() {
            4
        } else {
            datacapacitybits - bb.0.len()
        };
        proof {
            assert(0u32 >> (numzerobits as u32) == 0) by (bit_vector);
        }
        bb.append_bits(0, numzerobits as u8);
        proof {
            lemma_zero_bits(numzerobits as nat);
        }
        let ghost aligned = used + Seq::new(numzerobits as nat, |i: int| false);
        proof {
            assert(bb.0@ =~= aligned);
        }
        let numzerobits2: usize = (8 - bb.0.len() % 8) % 8;
        proof {
            assert(0u32 >> (numzerobits2 as u32) == 0) by (bit_vector);
        }
        bb.append_bits(0, numzerobits2 as u8);
        proof {
            lemma_zero_bits(numzerobits2 as nat);
        }
        let ghost full = aligned + Seq::new(numzerobits2 as nat, |i: int| false);
        proof {
            assert(bb.0@ =~= full);
            assert(spec_pad_seq(0) =~= Seq::<bool>::empty());
            assert(bb.0@ =~= full + spec_pad_seq(0));
        }

        // Pad with alternating bytes until data capacity is reached
        let mut padbyte: u32 = 0xEC;
        let ghost mut kpad: int = 0;
        while bb.0.len() < datacapacitybits
            invariant
                bb.0@.len() % 8 == 0,
                datacapacitybits % 8 == 0,
                bb.0@.len() <= datacapacitybits,
                datacapacitybits <= 23648,
                padbyte == 0xEC || padbyte == 0x11,
                0 <= kpad,
                padbyte == (if kpad % 2 == 0 {
                    0xECu32
                } else {
                    0x11u32
                }),
                bb.0@.len() == full.len() + 8 * kpad,
                bb.0@ == full + spec_pad_seq(kpad),
            decreases datacapacitybits - bb.0@.len(),
        {
            proof {
                assert(padbyte >> 8u32 == 0) by (bit_vector)
                    requires
                        padbyte == 0xEC || padbyte == 0x11,
                ;
            }
            bb.append_bits(padbyte, 8);
            proof {
                kpad = kpad + 1;
                assert(bb.0@ =~= full + spec_pad_seq(kpad));
            }
            padbyte = if padbyte == 0xEC {
                0x11
            } else {
                0xEC
            };
        }
        proof {
            assert(kpad == (datacapacitybits - full.len()) / 8);
            assert(bb.0@ =~= spec_assembled_bits(segs@, ver_i, ecl2));
        }

        // Pack bits into bytes in big endian
        let ncw: usize = datacapacitybits / 8;
        let mut datacodewords: Vec<u8> = Vec::new();
        while datacodewords.len() < ncw
            invariant
                datacodewords@.len() <= ncw,
                ncw <= 2956,
                forall|b: int| 0 <= b < datacodewords@.len() ==> datacodewords@[b] == 0,
            decreases ncw - datacodewords@.len(),
        {
            datacodewords.push(0);
        }
        let ghost bits = bb.0@;
        let mut i: usize = 0;
        while i < bb.0.len()
            invariant
                datacodewords@.len() == ncw,
                bits == bb.0@,
                bb.0@.len() == datacapacitybits,
                datacapacitybits == ncw * 8,
                ncw <= 2956,
                i <= datacapacitybits,
                forall|b: int|
                    0 <= b < i / 8 ==> datacodewords@[b] == spec_byte_fold(bits, b, 8),
                i as int / 8 < ncw ==> datacodewords@[i as int / 8] == spec_byte_fold(
                    bits,
                    i as int / 8,
                    i as int % 8,
                ),
                forall|b: int| i / 8 < b < ncw ==> datacodewords@[b] == 0,
            decreases datacapacitybits - i,
        {
            proof {
                assert(i >> 3 == i / 8) by (bit_vector);
                assert(i / 8 < ncw) by (nonlinear_arith)
                    requires
                        i < ncw * 8,
                ;
                assert(i & 7 <= 7) by (bit_vector);
                assert(i & 7 == i % 8) by (bit_vector);
            }
            let bit = bb.0[i];
            let idx = i >> 3;
            let sh: usize = 7 - (i & 7);
            let cur = datacodewords[idx];
            datacodewords.set(
                idx,
                cur | ((if bit {
                    1u8
                } else {
                    0u8
                }) << sh),
            );
            proof {
                assert(datacodewords@[idx as int] == spec_byte_fold(
                    bits,
                    idx as int,
                    i as int % 8 + 1,
                ));
            }
            i = i + 1;
        }
        proof {
            assert(ncw == crate::tables::spec_data_codewords(
                crate::code_ecc::spec_ordinal(ecl2),
                ver_i,
            )) by (nonlinear_arith)
                requires
                    datacapacitybits == crate::tables::spec_data_codewords(
                        crate::code_ecc::spec_ordinal(ecl2),
                        ver_i,
                    ) * 8,
                    ncw == datacapacitybits / 8,
            ;
        }

        proof {
            assert(datacodewords@ =~= spec_packed(bb.0@));
        }
        datacodewords
    }

    /// Returns a QR Code representing the given segments with the given
    /// encoding parameters.
    ///
    /// The smallest possible QR Code version within the given range is
    /// automatically chosen for the output. Iff boostecl is true, then the
    /// ECC level of the result may be higher than the ecl argument if it
    /// can be done without increasing the version. The mask number is
    /// either between 0 and 7 (inclusive) to force that mask, or `None`
    /// to automatically choose an appropriate mask (which may be slow).
    ///
    /// Returns `Err` if the data is too long to fit in any version in the
    /// given range at the given ECC level.
    #[verifier::rlimit(100)]
    #[verifier::spinoff_prover]
    pub fn encode_segments_advanced(
        segs: &[crate::segment::Segment],
        ecl: CodeEcc,
        minversion: Version,
        maxversion: Version,
        mask: Option<Mask>,
        boostecl: bool,
    ) -> (r: Result<QrCode, QrError>)
        requires
            minversion.valid(),
            maxversion.valid(),
            minversion.spec_value() <= maxversion.spec_value(),
            mask matches Some(m) ==> m.valid(),
        ensures
            r is Ok <==> exists|v: int|
                minversion.spec_value() <= v <= maxversion.spec_value() && #[trigger] spec_fits(
                    segs@,
                    v,
                    ecl,
                ),
            r matches Ok(q) ==> {
                &&& q.wf()
                &&& minversion.spec_value() <= q.version.spec_value()
                    <= maxversion.spec_value()
                &&& spec_fits(segs@, q.version.spec_value(), ecl)
                &&& forall|w: int|
                    minversion.spec_value() <= w < q.version.spec_value()
                        ==> !#[trigger] spec_fits(segs@, w, ecl)
                &&& q.size == q.version.spec_value() * 4 + 17
                &&& q.errorcorrectionlevel == spec_boosted_ecl(
                    segs@,
                    q.version.spec_value(),
                    ecl,
                    boostecl,
                )
                &&& (mask matches Some(m) ==> q.mask == m)
                &&& q.modules@ == spec_advanced_grid(
                    segs@,
                    q.version.spec_value(),
                    ecl,
                    boostecl,
                    q.mask.spec_value(),
                )
                &&& (mask is None ==> forall|w: int|
                    0 <= w <= 7 ==> spec_penalty(
                        spec_advanced_grid(
                            segs@,
                            q.version.spec_value(),
                            ecl,
                            boostecl,
                            q.mask.spec_value(),
                        ),
                        q.version.spec_value() * 4 + 17,
                    ) <= #[trigger] spec_penalty(
                        spec_advanced_grid(segs@, q.version.spec_value(), ecl, boostecl, w),
                        q.version.spec_value() * 4 + 17,
                    ))
                &&& (mask is None ==> forall|w: int|
                    0 <= w < q.mask.spec_value() ==> spec_penalty(
                        spec_advanced_grid(
                            segs@,
                            q.version.spec_value(),
                            ecl,
                            boostecl,
                            q.mask.spec_value(),
                        ),
                        q.version.spec_value() * 4 + 17,
                    ) < #[trigger] spec_penalty(
                        spec_advanced_grid(segs@, q.version.spec_value(), ecl, boostecl, w),
                        q.version.spec_value() * 4 + 17,
                    ))
            },
            r matches Err(e) ==> (if crate::segment::spec_total_bits(
                segs@,
                maxversion.spec_value(),
            ) is None {
                e == QrError::SegmentTooLong
            } else {
                e == QrError::DataOverCapacity(
                    crate::segment::spec_total_bits(segs@, maxversion.spec_value())->0 as usize,
                    (crate::tables::spec_data_codewords(
                        crate::code_ecc::spec_ordinal(ecl),
                        maxversion.spec_value(),
                    ) * 8) as usize,
                )
            }),
    {
        // Find the minimal version number to use
        let mut version: Version = minversion;
        let mut datausedbits: usize = 0;
        loop
            invariant
                minversion.valid(),
                maxversion.valid(),
                version.valid(),
                minversion.spec_value() <= version.spec_value() <= maxversion.spec_value(),
                forall|w: int|
                    minversion.spec_value() <= w < version.spec_value()
                        ==> !#[trigger] spec_fits(segs@, w, ecl),
            ensures
                version.valid(),
                minversion.spec_value() <= version.spec_value() <= maxversion.spec_value(),
                forall|w: int|
                    minversion.spec_value() <= w < version.spec_value()
                        ==> !#[trigger] spec_fits(segs@, w, ecl),
                spec_fits(segs@, version.spec_value(), ecl),
                crate::segment::spec_total_bits(segs@, version.spec_value()) == Some(
                    datausedbits as int,
                ),
            decreases maxversion.spec_value() - version.spec_value(),
        {
            // Number of data bits available
            let datacapacitybits: usize = crate::tables::get_num_data_codewords(version, ecl)
                * 8;
            let dataused: Option<usize> = crate::segment::Segment::get_total_bits(
                segs,
                version,
            );
            let mut found = false;
            match dataused {
                Some(n) => {
                    if n <= datacapacitybits {
                        // This version number is found to be suitable
                        datausedbits = n;
                        found = true;
                    }
                },
                None => {},
            }
            if found {
                break ;
            }
            if version.value() >= maxversion.value() {
                // All versions in the range could not fit the given data
                return Err(
                    match dataused {
                        None => QrError::SegmentTooLong,
                        Some(n) => QrError::DataOverCapacity(n, datacapacitybits),
                    },
                );
            }
            version = Version::new(version.value() + 1);
        }

        // Increase the error correction level while the data still fits in
        // the current version number (from low to high)
        let mut ecl2: CodeEcc = ecl;
        if boostecl && datausedbits <= crate::tables::get_num_data_codewords(
            version,
            CodeEcc::Medium,
        ) * 8 {
            ecl2 = CodeEcc::Medium;
        }
        if boostecl && datausedbits <= crate::tables::get_num_data_codewords(
            version,
            CodeEcc::Quartile,
        ) * 8 {
            ecl2 = CodeEcc::Quartile;
        }
        if boostecl && datausedbits <= crate::tables::get_num_data_codewords(
            version,
            CodeEcc::High,
        ) * 8 {
            ecl2 = CodeEcc::High;
        }
        proof {
            assert(ecl2 == spec_boosted_ecl(segs@, version.spec_value(), ecl, boostecl));
        }

        // Concatenate all segments into data codewords, terminated,
        // padded and packed
        let datacodewords: Vec<u8> = QrCode::assemble_codewords(segs, version, ecl2);

        // Create the QR Code object
        Ok(QrCode::encode_codewords(version, ecl2, datacodewords.as_slice(), mask))
    }

    /// Calculates and returns the penalty score based on the state of this
    /// QR Code's current modules: adjacent same-colored runs, finder-like
    /// patterns, 2x2 same-colored blocks, and the dark/light balance.
    /// This is used by the automatic mask choice algorithm to find the
    /// mask pattern that yields the lowest score.
    pub fn get_penalty_score(&self) -> (r: i32)
        requires
            self.modules@.len() == self.size * self.size,
            21 <= self.size <= 177,
            self.size % 2 == 1,
        ensures
            r == spec_penalty(self.modules@, self.size as int),
    {
        let mut result: i32 = 0;
        let size: i32 = self.size;
        let ghost grid = self.modules@;
        let ghost sz = size as int;

        // Adjacent modules in row having same color, and finder-like patterns
        let mut y: i32 = 0;
        while y < size
            invariant
                self.modules@ == grid,
                self.modules@.len() == self.size * self.size,
                self.size == size,
                21 <= size <= 177,
                sz == size as int,
                0 <= y <= size,
                result as int == spec_rows_penalty(grid, sz, y as int),
                0 <= result <= 15000 * y,
            decreases size - y,
        {
            let mut row: Vec<bool> = Vec::new();
            let mut x: i32 = 0;
            while x < size
                invariant
                    self.modules@ == grid,
                    self.modules@.len() == self.size * self.size,
                    self.size == size,
                    21 <= size <= 177,
                    sz == size as int,
                    0 <= y < size,
                    0 <= x <= size,
                    row@.len() == x,
                    forall|t: int| 0 <= t < x ==> row@[t] == grid[y * sz + t],
                decreases size - x,
            {
                row.push(self.module(x, y));
                x = x + 1;
            }
            proof {
                assert(row@ =~= spec_row_seq(grid, sz, y as int));
            }
            result = result + penalty_line(&row, size);
            y = y + 1;
        }

        // Adjacent modules in column having same color, and finder-like patterns
        let ghost rows_total = result as int;
        let mut x: i32 = 0;
        while x < size
            invariant
                self.modules@ == grid,
                self.modules@.len() == self.size * self.size,
                self.size == size,
                21 <= size <= 177,
                sz == size as int,
                0 <= x <= size,
                result as int == rows_total + spec_cols_penalty(grid, sz, x as int),
                0 <= rows_total <= 15000 * 177,
                rows_total <= result,
                result <= rows_total + 15000 * x,
            decreases size - x,
        {
            let mut col: Vec<bool> = Vec::new();
            let mut y: i32 = 0;
            while y < size
                invariant
                    self.modules@ == grid,
                    self.modules@.len() == self.size * self.size,
                    self.size == size,
                    21 <= size <= 177,
                    sz == size as int,
                    0 <= x < size,
                    0 <= y <= size,
                    col@.len() == y,
                    forall|t: int| 0 <= t < y ==> col@[t] == grid[t * sz + x],
                decreases size - y,
            {
                col.push(self.module(x, y));
                y = y + 1;
            }
            proof {
                assert(col@ =~= spec_col_seq(grid, sz, x as int));
            }
            result = result + penalty_line(&col, size);
            x = x + 1;
        }

        // 2*2 blocks of modules having same color
        let ghost lines_total = result as int;
        let mut y: i32 = 0;
        while y < size - 1
            invariant
                self.modules@ == grid,
                self.modules@.len() == self.size * self.size,
                self.size == size,
                21 <= size <= 177,
                sz == size as int,
                0 <= y <= size - 1,
                result as int == lines_total + spec_blocks_penalty(grid, sz, y as int),
                0 <= lines_total <= 2 * 15000 * 177,
            decreases size - 1 - y,
        {
            let mut x: i32 = 0;
            while x < size - 1
                invariant
                    self.modules@ == grid,
                    self.modules@.len() == self.size * self.size,
                    self.size == size,
                    21 <= size <= 177,
                    sz == size as int,
                    0 <= y < size - 1,
                    0 <= x <= size - 1,
                    result as int == lines_total + spec_blocks_penalty(grid, sz, y as int)
                        + spec_blocks_row(grid, sz, y as int, x as int),
                    0 <= lines_total <= 2 * 15000 * 177,
                decreases size - 1 - x,
            {
                proof {
                    lemma_blocks_penalty_bound(grid, sz, y as int);
                    lemma_blocks_row_bound(grid, sz, y as int, x as int);
                }
                let color: bool = self.module(x, y);
                if color == self.module(x + 1, y) && color == self.module(x, y + 1) && color
                    == self.module(x + 1, y + 1) {
                    result = result + 3;
                }
                proof {
                    lemma_idx_bounds(x as int, y as int, sz);
                    lemma_idx_bounds(x + 1, y + 1, sz);
                }
                x = x + 1;
            }
            y = y + 1;
        }
        proof {
            lemma_blocks_penalty_bound(grid, sz, y as int);
        }

        // Balance of dark and light modules
        let ghost all_total = result as int;
        let mut dark: i32 = 0;
        proof {
            assert(441 <= size * size <= 31329) by (nonlinear_arith)
                requires
                    21 <= size <= 177,
            ;
        }
        let total: i32 = size * size;
        proof {
            lemma_idx_bounds(sz - 1, sz - 1, sz);
        }
        let mut idx: usize = 0;
        while idx < self.modules.len()
            invariant
                self.modules@ == grid,
                self.modules@.len() == self.size * self.size,
                self.size == size,
                21 <= size <= 177,
                sz == size as int,
                idx <= grid.len(),
                grid.len() <= 40000,
                dark as int == spec_count_dark(grid.take(idx as int)),
                0 <= dark <= idx,
            decreases grid.len() - idx,
        {
            if self.modules[idx] {
                dark = dark + 1;
            }
            proof {
                assert(grid.take(idx + 1).drop_last() =~= grid.take(idx as int));
            }
            idx = idx + 1;
        }
        proof {
            assert(grid.take(grid.len() as int) =~= grid);
        }
        // Compute the smallest k >= 0 such that the dark share lies within
        // [45-5k, 55+5k] percent; note that size is odd, so the share is
        // never exactly one half.
        let dev: i32 = dark * 20 - total * 10;
        let a: i32 = if dev < 0 {
            -dev
        } else {
            dev
        };
        proof {
            let h = size as int / 2;
            vstd::arithmetic::div_mod::lemma_fundamental_div_mod(size as int, 2);
            assert(size as int * (size as int) == 2 * (2 * h * h + 2 * h) + 1)
                by (nonlinear_arith)
                requires
                    size as int == 2 * h + 1,
            ;
            assert(a != 0);
            assert(1 <= (a as int + total as int - 1) / (total as int)
                <= 11 && (a as int + total as int - 1) / (total as int) != 11)
                by (nonlinear_arith)
                requires
                    1 <= a as int <= 10 * (total as int),
                    441 <= total as int <= 40000,
            ;
        }
        let k: i32 = (a + total - 1) / total - 1;
        result + k * 10
    }

    /// Reads this object's version field, and draws and marks all function
    /// modules: timing patterns, the three finder patterns, the alignment
    /// patterns, placeholder format bits, and the version information,
    /// exactly the cells of `spec_function_pattern_cells`.
    fn draw_function_patterns(&mut self)
        requires
            old(self).building(),
        ensures
            spec_draw_extends(*old(self), *final(self)),
            final(self).modules@ == spec_painted(
                old(self).modules@,
                old(self).size as int,
                spec_function_pattern_cells(
                    old(self).version.spec_value(),
                    old(self).size as int,
                    old(self).errorcorrectionlevel,
                ),
            ),
            final(self).isfunction@ == spec_marked(
                old(self).isfunction@,
                old(self).size as int,
                spec_function_pattern_cells(
                    old(self).version.spec_value(),
                    old(self).size as int,
                    old(self).errorcorrectionlevel,
                ),
            ),
    {
        let ghost g0 = self.modules@;
        let ghost f0 = self.isfunction@;
        let ghost ver = self.version.spec_value();
        let ghost ecl = self.errorcorrectionlevel;
        let ghost sz = self.size as int;

        // Draw horizontal and vertical timing patterns
        let size: i32 = self.size;
        let ghost t_cells = spec_timing_cells(sz);
        let mut i: i32 = 0;
        while i < size
            invariant
                old(self).building(),
                spec_draw_extends(*old(self), *self),
                self.size == size,
                sz == size as int,
                0 <= i <= size,
                g0 == old(self).modules@,
                f0 == old(self).isfunction@,
                t_cells == spec_timing_cells(sz),
                self.modules@ == spec_painted(g0, sz, t_cells.take(2 * i as int)),
                self.isfunction@ == spec_marked(f0, sz, t_cells.take(2 * i as int)),
            decreases size - i,
        {
            proof {
                assert(t_cells.take(2 * i + 1).drop_last() =~= t_cells.take(2 * i as int));
                assert(t_cells[2 * i as int] == (6int, i as int, i as int % 2 == 0));
            }
            self.set_function_module(6, i, i % 2 == 0);
            proof {
                assert(self.modules@ == spec_painted(g0, sz, t_cells.take(2 * i + 1)));
                assert(self.isfunction@ == spec_marked(f0, sz, t_cells.take(2 * i + 1)));
                assert(t_cells.take(2 * i + 2).drop_last() =~= t_cells.take(2 * i + 1));
                assert(t_cells[2 * i + 1] == (i as int, 6int, i as int % 2 == 0));
            }
            self.set_function_module(i, 6, i % 2 == 0);
            proof {
                assert(self.modules@ == spec_painted(g0, sz, t_cells.take(2 * (i + 1))));
                assert(self.isfunction@ == spec_marked(f0, sz, t_cells.take(2 * (i + 1))));
            }
            i = i + 1;
        }
        proof {
            assert(t_cells.take(2 * sz) =~= t_cells);
        }

        // Draw 3 finder patterns (all corners except bottom right;
        // overwrites some timing modules)
        let ghost pre1 = t_cells;
        self.draw_finder_pattern(3, 3);
        proof {
            lemma_painted_append(g0, f0, sz, pre1, spec_finder_cells(3, 3));
        }
        let ghost pre2 = pre1 + spec_finder_cells(3, 3);
        self.draw_finder_pattern(size - 4, 3);
        proof {
            lemma_painted_append(g0, f0, sz, pre2, spec_finder_cells(sz - 4, 3));
        }
        let ghost pre3 = pre2 + spec_finder_cells(sz - 4, 3);
        self.draw_finder_pattern(3, size - 4);
        proof {
            lemma_painted_append(g0, f0, sz, pre3, spec_finder_cells(3, sz - 4));
        }
        let ghost pre4 = pre3 + spec_finder_cells(3, sz - 4);

        // Draw numerous alignment patterns, skipping the three finder corners
        let alignpatpos: Vec<i32> = self.get_alignment_pattern_positions();
        let numalign: usize = alignpatpos.len();
        let mut a: usize = 0;
        while a < numalign
            invariant
                old(self).building(),
                spec_draw_extends(*old(self), *self),
                self.size == size,
                sz == size as int,
                g0 == old(self).modules@,
                f0 == old(self).isfunction@,
                ver == old(self).version.spec_value(),
                a <= numalign,
                numalign == spec_align_count(ver),
                numalign == alignpatpos@.len(),
                forall|j: int|
                    0 <= j < alignpatpos@.len() ==> alignpatpos@[j] == spec_align_pos(
                        ver,
                        sz,
                        j,
                    ),
                pre4 == spec_timing_cells(sz) + spec_finder_cells(3, 3) + spec_finder_cells(
                    sz - 4,
                    3,
                ) + spec_finder_cells(3, sz - 4),
                self.modules@ == spec_painted(
                    g0,
                    sz,
                    pre4 + spec_alignment_cells(ver, sz, a as int * numalign as int),
                ),
                self.isfunction@ == spec_marked(
                    f0,
                    sz,
                    pre4 + spec_alignment_cells(ver, sz, a as int * numalign as int),
                ),
            decreases numalign - a,
        {
            let mut b: usize = 0;
            while b < numalign
                invariant
                    old(self).building(),
                    spec_draw_extends(*old(self), *self),
                    self.size == size,
                    sz == size as int,
                    g0 == old(self).modules@,
                    f0 == old(self).isfunction@,
                    ver == old(self).version.spec_value(),
                    a < numalign,
                    b <= numalign,
                    numalign == spec_align_count(ver),
                    numalign == alignpatpos@.len(),
                    numalign <= 7,
                    forall|j: int|
                        0 <= j < alignpatpos@.len() ==> alignpatpos@[j] == spec_align_pos(
                            ver,
                            sz,
                            j,
                        ),
                    pre4 == spec_timing_cells(sz) + spec_finder_cells(3, 3) + spec_finder_cells(
                        sz - 4,
                        3,
                    ) + spec_finder_cells(3, sz - 4),
                    self.modules@ == spec_painted(
                        g0,
                        sz,
                        pre4 + spec_alignment_cells(
                            ver,
                            sz,
                            a as int * numalign as int + b as int,
                        ),
                    ),
                    self.isfunction@ == spec_marked(
                        f0,
                        sz,
                        pre4 + spec_alignment_cells(
                            ver,
                            sz,
                            a as int * numalign as int + b as int,
                        ),
                    ),
                decreases numalign - b,
            {
                let ghost p = a as int * numalign as int + b as int;
                proof {
                    assert((p + 1 - 1) / (numalign as int) == a as int && (p + 1 - 1) % (
                    numalign as int) == b as int) by (nonlinear_arith)
                        requires
                            p == a as int * numalign as int + b as int,
                            0 <= b < numalign as int,
                            0 <= a,
                            1 <= numalign as int,
                    ;
                }
                let px = alignpatpos[a];
                let py = alignpatpos[b];
                let corner = (px == 6 && py == 6) || (px == 6 && py == size - 7) || (px == size
                    - 7 && py == 6);
                let ghost cur = pre4 + spec_alignment_cells(ver, sz, p);
                if !corner && 2 <= px && px <= size - 3 && 2 <= py && py <= size - 3 {
                    self.draw_alignment_pattern(px, py);
                    proof {
                        lemma_painted_append(
                            g0,
                            f0,
                            sz,
                            cur,
                            spec_alignment_pair_cells(ver, sz, a as int, b as int),
                        );
                        assert(cur + spec_alignment_pair_cells(ver, sz, a as int, b as int)
                            =~= pre4 + spec_alignment_cells(ver, sz, p + 1));
                    }
                } else {
                    proof {
                        assert(spec_alignment_pair_cells(ver, sz, a as int, b as int)
                            =~= Seq::<(int, int, bool)>::empty());
                        assert(cur + spec_alignment_pair_cells(ver, sz, a as int, b as int)
                            =~= pre4 + spec_alignment_cells(ver, sz, p + 1));
                        lemma_painted_append(
                            g0,
                            f0,
                            sz,
                            cur,
                            spec_alignment_pair_cells(ver, sz, a as int, b as int),
                        );
                    }
                }
                b = b + 1;
            }
            proof {
                assert(a as int * numalign as int + numalign as int == (a + 1) as int
                    * numalign as int) by (nonlinear_arith);
            }
            a = a + 1;
        }
        proof {
            assert(spec_alignment_cells(ver, sz, numalign as int * numalign as int)
                == spec_alignment_cells(ver, sz, spec_align_count(ver) * spec_align_count(ver)));
            assert(numalign as int * numalign as int == spec_align_count(ver)
                * spec_align_count(ver)) by (nonlinear_arith)
                requires
                    numalign as int == spec_align_count(ver),
            ;
        }
        let ghost pre5 = pre4 + spec_alignment_cells(
            ver,
            sz,
            spec_align_count(ver) * spec_align_count(ver),
        );

        // Draw configuration data; the format bits get a dummy mask value
        // that the constructor overwrites later
        self.draw_format_bits(Mask::new(0));
        proof {
            lemma_painted_append(g0, f0, sz, pre5, spec_format_cells(ecl, 0, sz));
        }
        let ghost pre6 = pre5 + spec_format_cells(ecl, 0, sz);
        self.draw_version();
        proof {
            lemma_painted_append(g0, f0, sz, pre6, spec_version_cells(ver, sz));
            assert(pre6 + spec_version_cells(ver, sz) =~= spec_function_pattern_cells(
                ver,
                sz,
                ecl,
            ));
        }
    }

    /// Draws two copies of the format bits (with its own error correction
    /// code) based on the given mask and this object's error correction
    /// level field: the 31 cells of `spec_format_cells`, every other
    /// module untouched.
    fn draw_format_bits(&mut self, mask: Mask)
        requires
            old(self).building(),
            mask.valid(),
        ensures
            spec_draw_extends(*old(self), *final(self)),
            final(self).modules@ == spec_painted(
                old(self).modules@,
                old(self).size as int,
                spec_format_cells(
                    old(self).errorcorrectionlevel,
                    mask.spec_value(),
                    old(self).size as int,
                ),
            ),
            final(self).isfunction@ == spec_marked(
                old(self).isfunction@,
                old(self).size as int,
                spec_format_cells(
                    old(self).errorcorrectionlevel,
                    mask.spec_value(),
                    old(self).size as int,
                ),
            ),
    {
        // Calculate error correction code and pack bits
        let bits: u32 = format_word(self.errorcorrectionlevel, mask);
        let size: i32 = self.size;
        let ghost cells = spec_format_cells(
            self.errorcorrectionlevel,
            mask.spec_value(),
            size as int,
        );
        proof {
            assert(cells.take(0) =~= Seq::<(int, int, bool)>::empty());
            assert(spec_painted(old(self).modules@, size as int, cells.take(0))
                == old(self).modules@);
            assert(spec_marked(old(self).isfunction@, size as int, cells.take(0))
                == old(self).isfunction@);
        }

        // Draw first copy
        let mut i: i32 = 0;
        while i < 6
            invariant
                old(self).building(),
                spec_draw_extends(*old(self), *self),
                self.size == size,
                0 <= i <= 6,
                bits == spec_format_word(old(self).errorcorrectionlevel, mask.spec_value()),
                cells == spec_format_cells(
                    old(self).errorcorrectionlevel,
                    mask.spec_value(),
                    size as int,
                ),
                self.modules@ == spec_painted(old(self).modules@, size as int, cells.take(i as int)),
                self.isfunction@ == spec_marked(
                    old(self).isfunction@,
                    size as int,
                    cells.take(i as int),
                ),
            decreases 6 - i,
        {
            proof {
                assert(cells.take(i + 1).drop_last() =~= cells.take(i as int));
                assert(cells[i as int] == (8int, i as int, spec_get_bit(bits, i as u32)));
            }
            self.set_function_module(8, i, crate::bit_buffer::get_bit(bits, i));
            i = i + 1;
        }
        proof {
            assert(cells.take(7).drop_last() =~= cells.take(6));
            assert(cells[6] == (8int, 7int, spec_get_bit(bits, 6u32)));
        }
        self.set_function_module(8, 7, crate::bit_buffer::get_bit(bits, 6));
        proof {
            assert(self.modules@ == spec_painted(old(self).modules@, size as int, cells.take(7)));
            assert(self.isfunction@ == spec_marked(
                old(self).isfunction@,
                size as int,
                cells.take(7),
            ));
            assert(cells.take(8).drop_last() =~= cells.take(7));
            assert(cells[7] == (8int, 8int, spec_get_bit(bits, 7u32)));
        }
        self.set_function_module(8, 8, crate::bit_buffer::get_bit(bits, 7));
        proof {
            assert(self.modules@ == spec_painted(old(self).modules@, size as int, cells.take(8)));
            assert(self.isfunction@ == spec_marked(
                old(self).isfunction@,
                size as int,
                cells.take(8),
            ));
            assert(cells.take(9).drop_last() =~= cells.take(8));
            assert(cells[8] == (7int, 8int, spec_get_bit(bits, 8u32)));
        }
        self.set_function_module(7, 8, crate::bit_buffer::get_bit(bits, 8));
        proof {
            assert(self.modules@ == spec_painted(old(self).modules@, size as int, cells.take(9)));
            assert(self.isfunction@ == spec_marked(
                old(self).isfunction@,
                size as int,
                cells.take(9),
            ));
        }
        let mut i: i32 = 9;
        while i < 15
            invariant
                old(self).building(),
                spec_draw_extends(*old(self), *self),
                self.size == size,
                9 <= i <= 15,
                bits == spec_format_word(old(self).errorcorrectionlevel, mask.spec_value()),
                cells == spec_format_cells(
                    old(self).errorcorrectionlevel,
                    mask.spec_value(),
                    size as int,
                ),
                self.modules@ == spec_painted(old(self).modules@, size as int, cells.take(i as int)),
                self.isfunction@ == spec_marked(
                    old(self).isfunction@,
                    size as int,
                    cells.take(i as int),
                ),
            decreases 15 - i,
        {
            proof {
                assert(cells.take(i + 1).drop_last() =~= cells.take(i as int));
                assert(cells[i as int] == (14 - i as int, 8int, spec_get_bit(bits, i as u32)));
            }
            self.set_function_module(14 - i, 8, crate::bit_buffer::get_bit(bits, i));
            i = i + 1;
        }

        // Draw second copy
        let mut i: i32 = 0;
        while i < 8
            invariant
                old(self).building(),
                spec_draw_extends(*old(self), *self),
                self.size == size,
                0 <= i <= 8,
                bits == spec_format_word(old(self).errorcorrectionlevel, mask.spec_value()),
                cells == spec_format_cells(
                    old(self).errorcorrectionlevel,
                    mask.spec_value(),
                    size as int,
                ),
                self.modules@ == spec_painted(
                    old(self).modules@,
                    size as int,
                    cells.take(15 + i as int),
                ),
                self.isfunction@ == spec_marked(
                    old(self).isfunction@,
                    size as int,
                    cells.take(15 + i as int),
                ),
            decreases 8 - i,
        {
            proof {
                assert(cells.take(15 + i + 1).drop_last() =~= cells.take(15 + i as int));
                assert(cells[15 + i as int] == (
                    size as int - 1 - i as int,
                    8int,
                    spec_get_bit(bits, i as u32),
                ));
            }
            self.set_function_module(size - 1 - i, 8, crate::bit_buffer::get_bit(bits, i));
            i = i + 1;
        }
        let mut i: i32 = 8;
        while i < 15
            invariant
                old(self).building(),
                spec_draw_extends(*old(self), *self),
                self.size == size,
                8 <= i <= 15,
                bits == spec_format_word(old(self).errorcorrectionlevel, mask.spec_value()),
                cells == spec_format_cells(
                    old(self).errorcorrectionlevel,
                    mask.spec_value(),
                    size as int,
                ),
                self.modules@ == spec_painted(
                    old(self).modules@,
                    size as int,
                    cells.take(15 + i as int),
                ),
                self.isfunction@ == spec_marked(
                    old(self).isfunction@,
                    size as int,
                    cells.take(15 + i as int),
                ),
            decreases 15 - i,
        {
            proof {
                assert(cells.take(15 + i + 1).drop_last() =~= cells.take(15 + i as int));
                assert(cells[15 + i as int] == (
                    8int,
                    size as int - 15 + i as int,
                    spec_get_bit(bits, i as u32),
                ));
            }
            self.set_function_module(8, size - 15 + i, crate::bit_buffer::get_bit(bits, i));
            i = i + 1;
        }
        proof {
            assert(cells.take(31).drop_last() =~= cells.take(30));
            assert(cells[30] == (8int, size as int - 8, true));
        }
        self.set_function_module(8, size - 8, true);  // Always dark
        proof {
            assert(cells.take(31) =~= cells);
        }
    }

    /// Draws two copies of the version bits (with its own error correction
    /// code), based on this object's version field, iff 7 <= version <= 40:
    /// the 36 cells of `spec_version_cells`, and no change at all below
    /// version 7.
    fn draw_version(&mut self)
        requires
            old(self).building(),
        ensures
            spec_draw_extends(*old(self), *final(self)),
            final(self).modules@ == spec_painted(
                old(self).modules@,
                old(self).size as int,
                spec_version_cells(old(self).version.spec_value(), old(self).size as int),
            ),
            final(self).isfunction@ == spec_marked(
                old(self).isfunction@,
                old(self).size as int,
                spec_version_cells(old(self).version.spec_value(), old(self).size as int),
            ),
    {
        let ghost cells = spec_version_cells(self.version.spec_value(), self.size as int);
        if self.version.value() < 7 {
            proof {
                assert(cells =~= Seq::<(int, int, bool)>::empty());
            }
            return ;
        }
        // Calculate error correction code and pack bits
        let bits: u32 = version_word(self.version);
        let size: i32 = self.size;

        // Draw two copies
        let mut i: i32 = 0;
        while i < 18
            invariant
                old(self).building(),
                spec_draw_extends(*old(self), *self),
                self.size == size,
                45 <= size <= 177,
                0 <= i <= 18,
                old(self).version.spec_value() >= 7,
                bits == spec_version_word(old(self).version.spec_value()),
                cells == spec_version_cells(old(self).version.spec_value(), size as int),
                self.modules@ == spec_painted(
                    old(self).modules@,
                    size as int,
                    cells.take(2 * i as int),
                ),
                self.isfunction@ == spec_marked(
                    old(self).isfunction@,
                    size as int,
                    cells.take(2 * i as int),
                ),
            decreases 18 - i,
        {
            let bit: bool = crate::bit_buffer::get_bit(bits, i);
            let a: i32 = size - 11 + i % 3;
            let b: i32 = i / 3;
            proof {
                assert(cells.take(2 * i + 1).drop_last() =~= cells.take(2 * i as int));
                assert(cells[2 * i as int] == (a as int, b as int, spec_get_bit(bits, i as u32)));
            }
            self.set_function_module(a, b, bit);
            proof {
                assert(self.modules@ == spec_painted(
                    old(self).modules@,
                    size as int,
                    cells.take(2 * i + 1),
                ));
                assert(self.isfunction@ == spec_marked(
                    old(self).isfunction@,
                    size as int,
                    cells.take(2 * i + 1),
                ));
                assert(cells.take(2 * i + 2).drop_last() =~= cells.take(2 * i + 1));
                assert(cells[2 * i + 1] == (b as int, a as int, spec_get_bit(bits, i as u32)));
            }
            self.set_function_module(b, a, bit);
            proof {
                assert(self.modules@ == spec_painted(
                    old(self).modules@,
                    size as int,
                    cells.take(2 * (i + 1)),
                ));
                assert(self.isfunction@ == spec_marked(
                    old(self).isfunction@,
                    size as int,
                    cells.take(2 * (i + 1)),
                ));
            }
            i = i + 1;
        }
        proof {
            assert(cells.take(36) =~= cells);
        }
    }

    /// Draws a 9*9 finder pattern including the border separator, with the
    /// center module at (x, y). Modules can be out of bounds.
    fn draw_finder_pattern(&mut self, x: i32, y: i32)
        requires
            old(self).building(),
            -200 <= x <= 200,
            -200 <= y <= 200,
        ensures
            spec_draw_extends(*old(self), *final(self)),
            final(self).modules@ == spec_painted(
                old(self).modules@,
                old(self).size as int,
                spec_finder_cells(x as int, y as int),
            ),
            final(self).isfunction@ == spec_marked(
                old(self).isfunction@,
                old(self).size as int,
                spec_finder_cells(x as int, y as int),
            ),
    {
        let size = self.size;
        let ghost cells = spec_finder_cells(x as int, y as int);
        let mut dy: i32 = -4;
        while dy <= 4
            invariant
                old(self).building(),
                spec_draw_extends(*old(self), *self),
                self.size == size,
                -4 <= dy <= 5,
                -200 <= x <= 200,
                -200 <= y <= 200,
                cells == spec_finder_cells(x as int, y as int),
                self.modules@ == spec_painted(
                    old(self).modules@,
                    size as int,
                    cells.take((dy + 4) * 9),
                ),
                self.isfunction@ == spec_marked(
                    old(self).isfunction@,
                    size as int,
                    cells.take((dy + 4) * 9),
                ),
            decreases 5 - dy,
        {
            let mut dx: i32 = -4;
            while dx <= 4
                invariant
                    old(self).building(),
                    spec_draw_extends(*old(self), *self),
                    self.size == size,
                    -4 <= dx <= 5,
                    -4 <= dy <= 4,
                    -200 <= x <= 200,
                    -200 <= y <= 200,
                    cells == spec_finder_cells(x as int, y as int),
                    self.modules@ == spec_painted(
                        old(self).modules@,
                        size as int,
                        cells.take((dy + 4) * 9 + (dx + 4)),
                    ),
                    self.isfunction@ == spec_marked(
                        old(self).isfunction@,
                        size as int,
                        cells.take((dy + 4) * 9 + (dx + 4)),
                    ),
                decreases 5 - dx,
            {
                let ghost k = ((dy + 4) * 9 + (dx + 4)) as int;
                proof {
                    assert(cells.take(k + 1).drop_last() =~= cells.take(k));
                    assert(cells[k] == (
                        x + dx as int,
                        y + dy as int,
                        vstd::math::max(
                            vstd::math::abs(dx as int) as int,
                            vstd::math::abs(dy as int) as int,
                        ) != 2 && vstd::math::max(
                            vstd::math::abs(dx as int) as int,
                            vstd::math::abs(dy as int) as int,
                        ) != 4,
                    ));
                }
                let xx: i32 = x + dx;
                let yy: i32 = y + dy;
                if 0 <= xx && xx < size && 0 <= yy && yy < size {
                    // Chebyshev/infinity norm
                    let dist: i32 = max_abs(dx, dy);
                    self.set_function_module(xx, yy, dist != 2 && dist != 4);
                }
                dx = dx + 1;
            }
            dy = dy + 1;
        }
        proof {
            assert(cells.take(81) =~= cells);
        }
    }

    /// Draws a 5*5 alignment pattern, with the center module at (x, y).
    /// All modules must be in bounds.
    fn draw_alignment_pattern(&mut self, x: i32, y: i32)
        requires
            old(self).building(),
            2 <= x <= old(self).size - 3,
            2 <= y <= old(self).size - 3,
        ensures
            spec_draw_extends(*old(self), *final(self)),
            final(self).modules@ == spec_painted(
                old(self).modules@,
                old(self).size as int,
                spec_alignment_box_cells(x as int, y as int),
            ),
            final(self).isfunction@ == spec_marked(
                old(self).isfunction@,
                old(self).size as int,
                spec_alignment_box_cells(x as int, y as int),
            ),
    {
        let ghost cells = spec_alignment_box_cells(x as int, y as int);
        let mut dy: i32 = -2;
        while dy <= 2
            invariant
                old(self).building(),
                spec_draw_extends(*old(self), *self),
                self.size == old(self).size,
                -2 <= dy <= 3,
                2 <= x <= self.size - 3,
                2 <= y <= self.size - 3,
                cells == spec_alignment_box_cells(x as int, y as int),
                self.modules@ == spec_painted(
                    old(self).modules@,
                    self.size as int,
                    cells.take((dy + 2) * 5),
                ),
                self.isfunction@ == spec_marked(
                    old(self).isfunction@,
                    self.size as int,
                    cells.take((dy + 2) * 5),
                ),
            decreases 3 - dy,
        {
            let mut dx: i32 = -2;
            while dx <= 2
                invariant
                    old(self).building(),
                    spec_draw_extends(*old(self), *self),
                    self.size == old(self).size,
                    -2 <= dx <= 3,
                    -2 <= dy <= 2,
                    2 <= x <= self.size - 3,
                    2 <= y <= self.size - 3,
                    cells == spec_alignment_box_cells(x as int, y as int),
                    self.modules@ == spec_painted(
                        old(self).modules@,
                        self.size as int,
                        cells.take((dy + 2) * 5 + (dx + 2)),
                    ),
                    self.isfunction@ == spec_marked(
                        old(self).isfunction@,
                        self.size as int,
                        cells.take((dy + 2) * 5 + (dx + 2)),
                    ),
                decreases 3 - dx,
            {
                proof {
                    let k = ((dy + 2) * 5 + (dx + 2)) as int;
                    assert(cells.take(k + 1).drop_last() =~= cells.take(k));
                    assert(cells[k] == (
                        x + dx as int,
                        y + dy as int,
                        vstd::math::max(
                            vstd::math::abs(dx as int) as int,
                            vstd::math::abs(dy as int) as int,
                        ) != 1,
                    ));
                }
                self.set_function_module(x + dx, y + dy, max_abs(dx, dy) != 1);
                dx = dx + 1;
            }
            dy = dy + 1;
        }
        proof {
            assert(cells.take(25) =~= cells);
        }
    }

    /// Returns an ascending list of positions of alignment patterns for
    /// this version number: none for version 1, else `ver/7 + 2` values
    /// starting at 6 and stepping by `spec_align_step` up to `size - 7`.
    /// Each position is used on both the x and y axes.
    fn get_alignment_pattern_positions(&self) -> (r: Vec<i32>)
        requires
            self.building(),
        ensures
            r@.len() == spec_align_count(self.version.spec_value()),
            forall|j: int|
                0 <= j < r@.len() ==> r@[j] == spec_align_pos(
                    self.version.spec_value(),
                    self.size as int,
                    j,
                ),
    {
        let ver: u8 = self.version.value();
        let mut result: Vec<i32> = Vec::new();
        if ver == 1 {
            return result;
        }
        let numalign: i32 = ver as i32 / 7 + 2;
        proof {
            assert(2 <= numalign <= 7);
        }
        let step: i32 = if ver == 32 {
            26
        } else {
            proof {
                assert(0 <= (ver as i32 * 4 + numalign * 2 + 1) / (numalign * 2 - 2) <= 100)
                    by (nonlinear_arith)
                    requires
                        2 <= ver <= 40,
                        2 <= numalign <= 7,
                ;
            }
            (ver as i32 * 4 + numalign * 2 + 1) / (numalign * 2 - 2) * 2
        };
        proof {
            assert(0 <= step <= 200);
            assert(step == spec_align_step(ver as int));
        }
        result.push(6);
        let mut i: i32 = numalign - 2;
        while i >= 0
            invariant
                -1 <= i <= numalign - 2,
                2 <= numalign <= 7,
                0 <= step <= 200,
                21 <= self.size <= 177,
                step == spec_align_step(self.version.spec_value()),
                numalign == spec_align_count(self.version.spec_value()),
                self.version.spec_value() >= 2,
                result@.len() == numalign - 1 - i,
                forall|j: int|
                    0 <= j < result@.len() ==> result@[j] == spec_align_pos(
                        self.version.spec_value(),
                        self.size as int,
                        j,
                    ),
            decreases i + 1,
        {
            proof {
                assert(0 <= i * step <= 1200) by (nonlinear_arith)
                    requires
                        0 <= i <= 6,
                        0 <= step <= 200,
                ;
            }
            result.push(self.size - 7 - i * step);
            i = i - 1;
        }
        result
    }
}


/// Returns the product of the two given field elements modulo
/// GF(2^8 / 0x11D). All inputs are valid.
fn reed_solomon_multiply(x: u8, y: u8) -> (r: u8)
    ensures
        r == spec_rs_mul(x, y),
{
    // Russian peasant multiplication
    let mut z: u8 = 0;
    let mut k: u8 = 0;
    while k < 8
        invariant
            k <= 8,
            z == spec_rs_mul_iter(x, y, k as nat),
        decreases 8 - k,
    {
        let z2 = (z << 1) ^ (if z >= 0x80 {
            0x1Du8
        } else {
            0u8
        });
        z = if (y >> (7 - k)) & 1 == 1 {
            z2 ^ x
        } else {
            z2
        };
        k = k + 1;
    }
    z
}

/// Returns a Reed-Solomon ECC generator polynomial for the given degree.
fn reed_solomon_compute_divisor(degree: usize) -> (r: Vec<u8>)
    requires
        1 <= degree <= 255,
    ensures
        r@ == spec_rs_divisor(degree as int),
        r@.len() == degree,
{
    // Coefficients are stored from highest to lowest power, excluding the
    // leading term which is always 1. For example x^3 + 255x^2 + 8x + 93
    // is stored as [255, 8, 93].
    let mut result: Vec<u8> = Vec::new();
    while result.len() < degree - 1
        invariant
            result@.len() <= degree - 1,
            forall|j: int| 0 <= j < result@.len() ==> result@[j] == 0u8,
        decreases degree - result@.len(),
    {
        result.push(0);
    }
    result.push(1);  // Start off with the monomial x^0
    proof {
        assert(result@ =~= Seq::new(
            degree as nat,
            |j: int|
                if j == degree - 1 {
                    1u8
                } else {
                    0u8
                },
        ));
    }
    let ghost init = result@;

    // Compute the product polynomial (x - r^0) * (x - r^1) * ... and drop
    // the highest term; r = 0x02 generates the field.
    let mut root: u8 = 1;
    let mut pass: usize = 0;
    while pass < degree
        invariant
            1 <= degree <= 255,
            pass <= degree,
            result@.len() == degree,
            (result@, root) == spec_divisor_iter(init, 1, pass as nat),
            init =~= Seq::new(
                degree as nat,
                |j: int|
                    if j == degree - 1 {
                        1u8
                    } else {
                        0u8
                    },
            ),
        decreases degree - pass,
    {
        let ghost snap = result@;
        let mut j: usize = 0;
        while j < degree
            invariant
                degree == result@.len(),
                degree == snap.len(),
                j <= degree,
                forall|t: int| 0 <= t < j ==> result@[t] == spec_divisor_step(snap, root)[t],
                forall|t: int| j <= t < degree ==> result@[t] == snap[t],
            decreases degree - j,
        {
            let mut v = reed_solomon_multiply(result[j], root);
            if j + 1 < degree {
                v = v ^ result[j + 1];
            } else {
                proof {
                    assert(v ^ 0u8 == v) by (bit_vector);
                }
            }
            result.set(j, v);
            j = j + 1;
        }
        proof {
            assert(result@ =~= spec_divisor_step(snap, root));
        }
        root = reed_solomon_multiply(root, 0x02);
        pass = pass + 1;
    }
    result
}

/// Returns the Reed-Solomon error correction codewords for the given data
/// and divisor polynomials.
fn reed_solomon_compute_remainder(data: &[u8], divisor: &Vec<u8>) -> (r: Vec<u8>)
    requires
        divisor@.len() >= 1,
    ensures
        r@ == spec_rs_remainder(data@, divisor@),
        r@.len() == divisor@.len(),
{
    let dlen = divisor.len();
    let mut result: Vec<u8> = Vec::new();
    while result.len() < dlen
        invariant
            result@.len() <= dlen,
            forall|j: int| 0 <= j < result@.len() ==> result@[j] == 0u8,
        decreases dlen - result@.len(),
    {
        result.push(0);
    }
    proof {
        assert(result@ =~= spec_rs_remainder_iter(data@, divisor@, 0));
    }
    let mut k: usize = 0;
    while k < data.len()
        invariant
            dlen == divisor@.len(),
            1 <= dlen,
            k <= data@.len(),
            result@.len() == dlen,
            result@ == spec_rs_remainder_iter(data@, divisor@, k as nat),
        decreases data@.len() - k,
    {
        let ghost snap = result@;
        let b = data[k];
        // Polynomial division
        let factor: u8 = b ^ result.remove(0);
        result.push(0);
        let mut j: usize = 0;
        while j < dlen
            invariant
                dlen == divisor@.len(),
                result@.len() == dlen,
                snap.len() == dlen,
                j <= dlen,
                factor == (b ^ snap[0]) as u8,
                forall|t: int|
                    0 <= t < j ==> result@[t] == spec_rem_step(snap, divisor@, b)[t],
                forall|t: int|
                    j <= t < dlen ==> result@[t] == (if t + 1 < dlen {
                        snap[t + 1]
                    } else {
                        0u8
                    }),
            decreases dlen - j,
        {
            let v = result[j] ^ reed_solomon_multiply(divisor[j], factor);
            result.set(j, v);
            j = j + 1;
        }
        proof {
            assert(result@ =~= spec_rem_step(snap, divisor@, b));
        }
        k = k + 1;
    }
    result
}


/// The penalty contribution of one line (row or column) of modules: runs
/// of five or more same-colored modules and finder-like patterns.
fn penalty_line(line: &Vec<bool>, size: i32) -> (r: i32)
    requires
        21 <= size <= 177,
        line@.len() == size,
    ensures
        r == spec_line_penalty(line@, size as int),
        0 <= r <= 15000,
{
    let mut result: i32 = 0;
    let mut runcolor = false;
    let mut runx: i32 = 0;
    let mut runhistory = crate::finder_penalty::FinderPenalty::new(size);
    let mut x: i32 = 0;
    while x < size
        invariant
            21 <= size <= 177,
            line@.len() == size,
            0 <= x <= size,
            runhistory.wf(),
            runhistory.qr_size == size,
            runcolor == spec_scan(line@, size as int, x as int).0,
            runx as int == spec_scan(line@, size as int, x as int).1,
            runhistory.run_history@ == spec_scan(line@, size as int, x as int).2,
            result as int == spec_scan(line@, size as int, x as int).3,
            0 <= runx <= x,
            x > 0 ==> runx >= 1,
            0 <= result <= 83 * x,
        decreases size - x,
    {
        let c = line[x as usize];
        if c == runcolor {
            runx = runx + 1;
            if runx == 5 {
                result = result + 3;
            } else if runx > 5 {
                result = result + 1;
            }
        } else {
            runhistory.add_history(runx);
            if !runcolor {
                result = result + runhistory.count_patterns() * 40;
            }
            runcolor = c;
            runx = 1;
        }
        x = x + 1;
    }
    let tail = runhistory.terminate_and_count(runcolor, runx) * 40;
    result + tail
}


proof fn lemma_total_bits_nonneg(segs: Seq<crate::segment::Segment>, ver: int)
    requires
        crate::segment::spec_total_bits(segs, ver) is Some,
    ensures
        crate::segment::spec_total_bits(segs, ver)->0 >= 0,
    decreases segs.len(),
{
    if segs.len() > 0 {
        lemma_total_bits_nonneg(segs.drop_last(), ver);
    }
}

/// The prefix totals of a fitting segment list are defined and bounded by
/// the full total, and every segment's character count fits its field.
proof fn lemma_total_bits_prefix(segs: Seq<crate::segment::Segment>, ver: int, k: int)
    requires
        crate::segment::spec_total_bits(segs, ver) is Some,
        0 <= k <= segs.len(),
    ensures
        crate::segment::spec_total_bits(segs.take(k), ver) is Some,
        0 <= crate::segment::spec_total_bits(segs.take(k), ver)->0
            <= crate::segment::spec_total_bits(segs, ver)->0,
        k < segs.len() ==> segs[k].numchars < crate::segment::spec_count_limit(
            crate::segment_mode::spec_char_count_bits(segs[k].mode, ver),
        ),
        k < segs.len() ==> crate::segment::spec_total_bits(segs.take(k + 1), ver)->0
            == crate::segment::spec_total_bits(segs.take(k), ver)->0 + 4
            + crate::segment_mode::spec_char_count_bits(segs[k].mode, ver)
            + segs[k].data@.len(),
    decreases segs.len() - k,
{
    if k == segs.len() {
        assert(segs.take(k) =~= segs);
        lemma_total_bits_nonneg(segs, ver);
    } else {
        lemma_total_bits_prefix(segs, ver, k + 1);
        assert(segs.take(k + 1).drop_last() =~= segs.take(k));
        assert(segs.take(k + 1).last() == segs[k]);
        lemma_total_bits_nonneg(segs.take(k), ver);
    }
}

/// A character count below the field's limit has no bits beyond the
/// field's width.
proof fn lemma_count_fits(nc: u32, cc: u8)
    requires
        cc == 0 || 8 <= cc <= 14 || cc == 16,
        nc < crate::segment::spec_count_limit(cc as int),
    ensures
        nc >> (cc as u32) == 0,
{
    if cc == 0 {
        assert(nc == 0);
        assert(nc >> 0u32 == nc) by (bit_vector);
    } else if cc == 8 {
        assert(nc >> 8u32 == 0) by (bit_vector)
            requires
                nc < 256,
        ;
    } else if cc == 9 {
        assert(nc >> 9u32 == 0) by (bit_vector)
            requires
                nc < 512,
        ;
    } else if cc == 10 {
        assert(nc >> 10u32 == 0) by (bit_vector)
            requires
                nc < 1024,
        ;
    } else if cc == 11 {
        assert(nc >> 11u32 == 0) by (bit_vector)
            requires
                nc < 2048,
        ;
    } else if cc == 12 {
        assert(nc >> 12u32 == 0) by (bit_vector)
            requires
                nc < 4096,
        ;
    } else if cc == 13 {
        assert(nc >> 13u32 == 0) by (bit_vector)
            requires
                nc < 8192,
        ;
    } else if cc == 14 {
        assert(nc >> 14u32 == 0) by (bit_vector)
            requires
                nc < 16384,
        ;
    } else {
        assert(nc >> 16u32 == 0) by (bit_vector)
            requires
                nc < 65536,
        ;
    }
}


pub(crate) proof fn lemma_numeric_bits_len(s: Seq<char>)
    ensures
        crate::segment::spec_numeric_bits(s).len() == spec_numeric_bits_len(s.len() as int),
    decreases s.len(),
{
    if s.len() >= 3 {
        lemma_numeric_bits_len(s.skip(3));
    }
}

pub(crate) proof fn lemma_alnum_bits_len(s: Seq<char>)
    ensures
        crate::segment::spec_alnum_bits(s).len() == spec_alnum_bits_len(s.len() as int),
    decreases s.len(),
{
    if s.len() >= 2 {
        lemma_alnum_bits_len(s.skip(2));
    }
}

/// A character sequence's UTF-8 encoding holds at most four bytes per
/// character.
pub proof fn lemma_utf8_len_bound(s: Seq<char>)
    ensures
        vstd::utf8::encode_utf8(s).len() <= 4 * s.len(),
    decreases s.len(),
{
    if s.len() > 0 {
        lemma_utf8_len_bound(s.drop_first());
        assert(vstd::utf8::encode_scalar(s[0] as u32).len() <= 4);
    }
}

pub(crate) proof fn lemma_byte_bits_len(bytes: Seq<u8>)
    ensures
        crate::segment::spec_byte_bits(bytes).len() == 8 * bytes.len(),
    decreases bytes.len(),
{
    if bytes.len() > 0 {
        lemma_byte_bits_len(bytes.drop_first());
    }
}

/// Fitting a single segment is the same as fitting its mode, character
/// count and data bit count directly.
pub(crate) proof fn lemma_singleton_fits(seg: crate::segment::Segment, ver: int, ecl: CodeEcc)
    requires
        1 <= ver <= 40,
    ensures
        spec_fits(seq![seg], ver, ecl) <==> spec_single_segment_fits(
            seg.mode,
            seg.numchars as int,
            seg.data@.len() as int,
            ver,
            ecl,
        ),
{
    crate::tables::lemma_table_facts(crate::code_ecc::spec_ordinal(ecl), ver);
    let s = seq![seg];
    assert(s.drop_last() =~= Seq::<crate::segment::Segment>::empty());
    assert(crate::segment::spec_total_bits(s.drop_last(), ver) == Some(0int));
    assert(s.last() == seg);
}

/// The larger of the absolute values of two small numbers.
fn max_abs(a: i32, b: i32) -> (r: i32)
    requires
        -1000 < a < 1000,
        -1000 < b < 1000,
    ensures
        r == vstd::math::max(vstd::math::abs(a as int) as int, vstd::math::abs(b as int) as int),
{
    let aa = if a < 0 { -a } else { a };
    let bb = if b < 0 { -b } else { b };
    if aa > bb { aa } else { bb }
}

/// The 15-bit format word drawn beside the finder patterns.
fn format_word(ecl: CodeEcc, mask: Mask) -> (r: u32)
    requires
        mask.valid(),
    ensures
        r == spec_format_word(ecl, mask.spec_value()),
        r >> 15u32 == 0,
{
    // errcorrlvl is uint2, mask is uint3
    let fb: u8 = ecl.format_bits();
    let mv: u8 = mask.value();
    let data: u32 = ((fb << 3) | mv) as u32;
    proof {
        assert((fb << 3u8) | mv == fb * 8 + mv) by (bit_vector)
            requires
                fb <= 3,
                mv <= 7,
        ;
    }
    let mut rem: u32 = data;
    let mut n: u32 = 0;
    while n < 10
        invariant
            0 <= n <= 10,
            rem == spec_fmt_rem(data, n as nat),
            data < 32,
            rem < 1024,
        decreases 10 - n,
    {
        proof {
            assert(((rem << 1u32) ^ (((rem >> 9u32) * 0x537) as u32)) < 1024 && (rem >> 9u32)
                * 0x537 < 0x100000000) by (bit_vector)
                requires
                    rem < 1024,
            ;
        }
        rem = (rem << 1) ^ ((rem >> 9) * 0x537);
        n = n + 1;
    }
    let r = ((data << 10) | rem) ^ 0x5412;
    proof {
        assert((((data << 10u32) | rem) ^ 0x5412) >> 15u32 == 0) by (bit_vector)
            requires
                data < 32,
                rem < 1024,
        ;
    }
    r
}

/// The 18-bit version word drawn beside two corners for versions 7 and up.
fn version_word(ver: Version) -> (r: u32)
    requires
        ver.valid(),
        ver.spec_value() >= 7,
    ensures
        r == spec_version_word(ver.spec_value()),
        r >> 18u32 == 0,
{
    let data: u32 = ver.value() as u32;
    let mut rem: u32 = data;
    let mut n: u32 = 0;
    while n < 12
        invariant
            0 <= n <= 12,
            rem == spec_ver_rem(data, n as nat),
            data <= 40,
            rem < 4096,
        decreases 12 - n,
    {
        proof {
            assert(((rem << 1u32) ^ (((rem >> 11u32) * 0x1F25) as u32)) < 4096 && (rem >> 11u32)
                * 0x1F25 < 0x100000000) by (bit_vector)
                requires
                    rem < 4096,
            ;
        }
        rem = (rem << 1) ^ ((rem >> 11) * 0x1F25);
        n = n + 1;
    }
    let r = (data << 12) | rem;
    proof {
        assert(((data << 12u32) | rem) >> 18u32 == 0) by (bit_vector)
            requires
                data <= 40,
                rem < 4096,
        ;
    }
    r
}

} // verus!
