//! Size summary: how many bytes the written file spends on each column.

use crate::text::{ascii_chars, nat_digits, push_char};
use thousands::Separable;
use vstd::prelude::*;
use vstd::string::*;

verus! {

/// The sizes that the sink reports for one row group.
#[derive(Debug, Clone, PartialEq, Eq)]
pub struct RowGroupSizes {
    /// The size of the whole row group in bytes.
    pub total_byte_size: i64,
    /// The compressed size of each column chunk in bytes, in column order;
    /// `None` where the sink reports no metadata for the chunk.
    pub column_sizes: Vec<Option<i64>>,
}

/// The sizes per column, summed over all row groups.
#[derive(Debug, Clone, PartialEq, Eq)]
pub struct SizeSummary {
    /// The sum of the row groups' sizes.
    pub total_bytes: i128,
    /// For each column, the sum of its chunks' compressed sizes.
    pub by_col_bytes: Vec<i128>,
}

/// The sum of the sizes of the given row groups.
pub open spec fn spec_total_bytes(groups: Seq<RowGroupSizes>) -> int
    decreases groups.len(),
{
    if groups.len() == 0 {
        0
    } else {
        spec_total_bytes(groups.drop_last()) + groups.last().total_byte_size
    }
}

/// What a row group spends on column `column`: the compressed size of the
/// column's chunk, or nothing where the group reports none.
pub open spec fn spec_chunk_bytes(group: RowGroupSizes, column: int) -> int {
    if 0 <= column < group.column_sizes.len() && group.column_sizes[column] is Some {
        group.column_sizes[column]->0 as int
    } else {
        0
    }
}

/// The sum of what the given row groups spend on column `column`.
pub open spec fn spec_column_bytes(groups: Seq<RowGroupSizes>, column: int) -> int
    decreases groups.len(),
{
    if groups.len() == 0 {
        0
    } else {
        spec_column_bytes(groups.drop_last(), column) + spec_chunk_bytes(groups.last(), column)
    }
}

/// A sum of 64-bit sizes over as many groups as a vector holds stays within
/// 128 bits.
proof fn lemma_sum_fits(count: int, sum: int)
    requires
        0 <= count <= usize::MAX,
        -count * 0x8000_0000_0000_0000 <= sum <= count * 0x8000_0000_0000_0000,
    ensures
        i128::MIN <= sum <= i128::MAX,
        count < usize::MAX ==> i128::MIN <= sum - 0x8000_0000_0000_0000 && sum
            + 0x8000_0000_0000_0000 <= i128::MAX,
{
    assert(count * 0x8000_0000_0000_0000 <= 0xffff_ffff_ffff_ffff * 0x8000_0000_0000_0000)
        by (nonlinear_arith)
        requires
            0 <= count <= 0xffff_ffff_ffff_ffff,
    ;
    assert(count < usize::MAX ==> (count + 1) * 0x8000_0000_0000_0000 <= 0xffff_ffff_ffff_ffff
        * 0x8000_0000_0000_0000) by (nonlinear_arith)
        requires
            0 <= count <= 0xffff_ffff_ffff_ffff,
            usize::MAX <= 0xffff_ffff_ffff_ffff,
    ;
    assert((count + 1) * 0x8000_0000_0000_0000 == count * 0x8000_0000_0000_0000
        + 0x8000_0000_0000_0000) by (nonlinear_arith);
}

/// Sums the sizes that the sink reports: the total over all row groups, and
/// for each of `n_cols` columns the compressed size of its chunks.
pub fn summarize(n_cols: usize, row_groups: &Vec<RowGroupSizes>) -> (r: SizeSummary)
    ensures
        r.total_bytes == spec_total_bytes(row_groups@),
        r.by_col_bytes.len() == n_cols,
        forall|c: int|
            0 <= c < n_cols ==> #[trigger] r.by_col_bytes[c] == spec_column_bytes(row_groups@, c),
{
    let mut total_bytes: i128 = 0;
    let mut by_col_bytes: Vec<i128> = Vec::new();
    let mut c: usize = 0;
    while c < n_cols
        invariant
            c <= n_cols,
            by_col_bytes.len() == c,
            forall|k: int| 0 <= k < c ==> #[trigger] by_col_bytes[k] == 0,
        decreases n_cols - c,
    {
        by_col_bytes.push(0);
        c += 1;
    }
    let bound: i128 = 0x8000_0000_0000_0000;
    let mut g: usize = 0;
    while g < row_groups.len()
        invariant
            g <= row_groups.len(),
            bound == 0x8000_0000_0000_0000,
            by_col_bytes.len() == n_cols,
            total_bytes == spec_total_bytes(row_groups@.take(g as int)),
            -g * bound <= total_bytes <= g * bound,
            forall|k: int|
                0 <= k < n_cols ==> {
                    &&& #[trigger] by_col_bytes[k] == spec_column_bytes(
                        row_groups@.take(g as int),
                        k,
                    )
                    &&& -g * bound <= by_col_bytes[k] <= g * bound
                },
        decreases row_groups.len() - g,
    {
        let group = &row_groups[g];
        proof {
            let next = row_groups@.take(g + 1);
            assert(next.drop_last() =~= row_groups@.take(g as int));
            assert(next.last() == *group);
            lemma_sum_fits(g as int, total_bytes as int);
            assert((g + 1) * bound == g * bound + bound) by (nonlinear_arith);
        }
        total_bytes = total_bytes + group.total_byte_size as i128;
        let ghost before = by_col_bytes@;
        let mut k: usize = 0;
        while k < n_cols
            invariant
                k <= n_cols,
                g < row_groups.len(),
                bound == 0x8000_0000_0000_0000,
                *group == row_groups[g as int],
                by_col_bytes.len() == n_cols,
                before.len() == n_cols,
                (g + 1) * bound == g * bound + bound,
                forall|j: int|
                    0 <= j < n_cols ==> -g * bound <= #[trigger] before[j] <= g * bound,
                forall|j: int|
                    0 <= j < k ==> #[trigger] by_col_bytes[j] == before[j] + spec_chunk_bytes(
                        *group,
                        j,
                    ),
                forall|j: int| k <= j < n_cols ==> #[trigger] by_col_bytes[j] == before[j],
            decreases n_cols - k,
        {
            if k < group.column_sizes.len() {
                match group.column_sizes[k] {
                    Some(size) => {
                        proof {
                            lemma_sum_fits(g as int, by_col_bytes[k as int] as int);
                        }
                        let sum: i128 = by_col_bytes[k] + size as i128;
                        by_col_bytes.set(k, sum);
                    },
                    None => {},
                }
            }
            k += 1;
        }
        g += 1;
    }
    assert(row_groups@.take(row_groups.len() as int) =~= row_groups@);
    SizeSummary { total_bytes, by_col_bytes }
}

/// The digits `digits` with a comma before every group of three, counted
/// from the right.
pub open spec fn group_by_threes(digits: Seq<char>) -> Seq<char>
    decreases digits.len(),
{
    if digits.len() <= 3 {
        digits
    } else {
        group_by_threes(digits.take(digits.len() - 3)).push(',') + digits.skip(digits.len() - 3)
    }
}

/// The decimal text of `v` with a comma every three digits from the right; a
/// minus sign stays in front.
pub open spec fn comma_separated(v: int) -> Seq<char> {
    if v < 0 {
        seq!['-'] + group_by_threes(ascii_chars(nat_digits((-v) as nat)))
    } else {
        group_by_threes(ascii_chars(nat_digits(v as nat)))
    }
}

/// `thousands::Separable::separate_with_commas` on a 128-bit integer: its
/// decimal text with a comma inserted every three digits from the right,
/// a minus sign left alone.
#[verifier::external_body]
fn separate_with_commas(v: i128) -> (r: String)
    ensures
        r@ == comma_separated(v as int),
{
    v.separate_with_commas()
}

/// `s` with spaces in front until it is `width` characters long.
pub open spec fn pad_left(s: Seq<char>, width: nat) -> Seq<char> {
    if s.len() >= width {
        s
    } else {
        Seq::new((width - s.len()) as nat, |i: int| ' ') + s
    }
}

/// The number of whole kibibytes in `bytes`, rounded towards zero.
pub open spec fn whole_kib(bytes: int) -> int {
    if bytes >= 0 {
        bytes / 1024
    } else {
        -((-bytes) / 1024)
    }
}

/// A size in bytes as text: its whole kibibytes with thousands separators,
/// right-aligned in nine characters, then the unit.
pub open spec fn spec_fmt_bytes(bytes: int) -> Seq<char> {
    pad_left(comma_separated(whole_kib(bytes)), 9) + " KiB"@
}

/// A size in bytes as text, for the size summary.
pub fn fmt_bytes(bytes: i128) -> (r: String)
    ensures
        r@ == spec_fmt_bytes(bytes as int),
{
    let kib: i128 = if bytes >= 0 {
        bytes / 1024
    } else {
        let magnitude: u128 = ((-(bytes + 1)) as u128) + 1;
        -((magnitude / 1024) as i128)
    };
    let number = separate_with_commas(kib);
    let len: usize = number.as_str().unicode_len();
    let mut out = String::new();
    let mut i: usize = len;
    while i < 9
        invariant
            len == number@.len(),
            len <= i,
            len < 9 ==> i <= 9,
            len >= 9 ==> i == len,
            out@ == Seq::new((i - len) as nat, |j: int| ' '),
        decreases 9 - i,
    {
        push_char(&mut out, ' ');
        assert(out@ =~= Seq::new((i + 1 - len) as nat, |j: int| ' '));
        i += 1;
    }
    assert(kib == whole_kib(bytes as int));
    assert(out@ + number@ =~= pad_left(number@, 9));
    out.append(number.as_str());
    out.append(" KiB");
    out
}

} // verus!
