//! Row matrices: the mathematical model of a buffer's rows, transposition
//! and left rotation.

use vstd::prelude::*;

verus! {

/// The rows of `d`, each taken by its view.
pub open spec fn rows_view<T>(d: Seq<Vec<T>>) -> Seq<Seq<T>> {
    d.map_values(|r: Vec<T>| r@)
}

/// Every row of `m` is as long as the first one.
pub open spec fn is_rectangular<T>(m: Seq<Seq<T>>) -> bool {
    forall|i: int| 0 <= i < m.len() ==> #[trigger] m[i].len() == m[0].len()
}

/// The transpose of a rectangular matrix: its `j`-th row is the `j`-th column of `m`.
/// The empty matrix transposes to itself.
pub open spec fn transposed<T>(m: Seq<Seq<T>>) -> Seq<Seq<T>> {
    if m.len() == 0 {
        Seq::empty()
    } else {
        Seq::new(m[0].len(), |j: int| Seq::new(m.len(), |i: int| m[i][j]))
    }
}

/// `s` rotated to the left by `k` places: the first `k mod len` items move to the end.
pub open spec fn rotated_left<A>(s: Seq<A>, k: nat) -> Seq<A> {
    if s.len() == 0 {
        s
    } else {
        let r: int = (k % s.len()) as int;
        s.skip(r) + s.take(r)
    }
}

/// Transposing a rectangular matrix whose rows are not empty twice gives it back.
pub proof fn lemma_transpose_involution<T>(m: Seq<Seq<T>>)
    requires
        is_rectangular(m),
        m.len() == 0 || m[0].len() > 0,
    ensures
        is_rectangular(transposed(m)),
        transposed(transposed(m)) == m,
{
    if m.len() > 0 {
        let t = transposed(m);
        assert(t[0].len() == m.len());
        assert forall|i: int| 0 <= i < m.len() implies #[trigger] transposed(t)[i] == m[i] by {
            assert(transposed(t)[i] =~= m[i]);
        }
        assert(transposed(t) =~= m);
    }
}

/// Copies a row item by item.
pub fn copy_row<T: Copy>(row: &Vec<T>) -> (out: Vec<T>)
    ensures
        out@ == row@,
{
    let mut out: Vec<T> = Vec::new();
    let n: usize = row.len();
    for j in 0..n
        invariant
            n == row@.len(),
            out@ == row@.take(j as int),
    {
        out.push(row[j]);
        assert(out@ =~= row@.take(j + 1));
    }
    assert(row@.take(n as int) =~= row@);
    out
}

/// The transpose of a rectangular matrix of rows.
pub fn transpose<T: Copy>(src: &Vec<Vec<T>>) -> (out: Vec<Vec<T>>)
    requires
        is_rectangular(rows_view(src@)),
    ensures
        rows_view(out@) == transposed(rows_view(src@)),
        out@.len() == if src@.len() == 0 { 0 } else { src@[0]@.len() },
        forall|j: int| 0 <= j < out@.len() ==> (#[trigger] out@[j])@.len() == src@.len(),
        forall|i: int, j: int|
            0 <= i < src@.len() && 0 <= j < out@.len() ==> (#[trigger] out@[j])@[i] == (
            #[trigger] src@[i])@[j],
{
    let ghost m = rows_view(src@);
    let mut out: Vec<Vec<T>> = Vec::new();
    let rows: usize = src.len();
    if rows == 0 {
        assert(rows_view(out@) =~= transposed(m));
        proof { lemma_transposed_rows(src@, out@); }
        return out;
    }
    let cols: usize = src[0].len();
    for j in 0..cols
        invariant
            rows == src@.len(),
            rows > 0,
            m == rows_view(src@),
            is_rectangular(m),
            cols == m[0].len(),
            out@.len() == j,
            forall|c: int| 0 <= c < j ==> #[trigger] out@[c]@ == Seq::new(m.len(), |i: int| m[i][c]),
    {
        let mut col: Vec<T> = Vec::new();
        for i in 0..rows
            invariant
                rows == src@.len(),
                m == rows_view(src@),
                is_rectangular(m),
                cols == m[0].len(),
                j < cols,
                col@.len() == i,
                forall|r: int| 0 <= r < i ==> #[trigger] col@[r] == m[r][j as int],
        {
            assert(m[i as int].len() == cols);
            col.push(src[i][j]);
        }
        assert(col@ =~= Seq::new(m.len(), |i: int| m[i][j as int]));
        out.push(col);
    }
    assert(rows_view(out@) =~= transposed(m));
    proof { lemma_transposed_rows(src@, out@); }
    out
}

/// Rotates `d` to the left by `k` places, in place.
pub fn rotate_left<A>(d: &mut Vec<A>, k: usize)
    ensures
        final(d)@ == rotated_left(old(d)@, k as nat),
{
    let n: usize = d.len();
    if n == 0 {
        return;
    }
    let r: usize = k % n;
    let ghost s = old(d)@;
    for i in 0..r
        invariant
            n == s.len(),
            n > 0,
            r == k % n,
            r < n,
            d@ == s.skip(i as int) + s.take(i as int),
    {
        let x = d.remove(0);
        d.push(x);
        assert(d@ =~= s.skip(i + 1) + s.take(i + 1));
    }
}

/// Whether every row of `d` is as long as the first one.
pub fn rows_are_rectangular<T>(d: &Vec<Vec<T>>) -> (r: bool)
    ensures
        r == is_rectangular(rows_view(d@)),
{
    let n: usize = d.len();
    if n == 0 {
        return true;
    }
    let w: usize = d[0].len();
    let mut i: usize = 0;
    while i < n
        invariant
            i <= n,
            n == d@.len(),
            n > 0,
            w == d@[0]@.len(),
            forall|j: int| 0 <= j < i ==> (#[trigger] d@[j])@.len() == w,
        decreases n - i,
    {
        if d[i].len() != w {
            assert(rows_view(d@)[i as int].len() != rows_view(d@)[0].len());
            return false;
        }
        i = i + 1;
    }
    assert forall|j: int| 0 <= j < rows_view(d@).len() implies #[trigger] rows_view(d@)[j].len()
        == rows_view(d@)[0].len() by {
        assert(d@[j]@.len() == w);
    }
    true
}

/// The transpose of a rectangular matrix of `r > 0` rows and `c` columns has
/// `c` rows, each of `r` items, and the item at row `j`, column `i` is the
/// item of `m` at row `i`, column `j`.
pub proof fn law_transposed_entries<T>(m: Seq<Seq<T>>)
    requires
        is_rectangular(m),
        m.len() > 0,
    ensures
        transposed(m).len() == m[0].len(),
        forall|j: int| 0 <= j < m[0].len() ==> (#[trigger] transposed(m)[j]).len() == m.len(),
        forall|i: int, j: int|
            0 <= i < m.len() && 0 <= j < m[0].len() ==> #[trigger] transposed(m)[j][i] == m[i][j],
{
}

/// A run of rows whose views are the transpose of those of `src` has, read
/// directly, the transposed entries.
proof fn lemma_transposed_rows<T>(src: Seq<Vec<T>>, out: Seq<Vec<T>>)
    requires
        is_rectangular(rows_view(src)),
        rows_view(out) == transposed(rows_view(src)),
    ensures
        out.len() == if src.len() == 0 { 0 } else { src[0]@.len() },
        forall|j: int| 0 <= j < out.len() ==> (#[trigger] out[j])@.len() == src.len(),
        forall|i: int, j: int|
            0 <= i < src.len() && 0 <= j < out.len() ==> (#[trigger] out[j])@[i] == (
            #[trigger] src[i])@[j],
{
    let m = rows_view(src);
    assert(rows_view(out).len() == out.len());
    if src.len() > 0 {
        law_transposed_entries(m);
        assert(m[0] == src[0]@);
        assert forall|j: int| 0 <= j < out.len() implies (#[trigger] out[j])@.len() == src.len() by {
            assert(rows_view(out)[j] == out[j]@);
        }
        assert forall|i: int, j: int|
            0 <= i < src.len() && 0 <= j < out.len() implies (#[trigger] out[j])@[i] == (
            #[trigger] src[i])@[j] by {
            assert(rows_view(out)[j] == out[j]@);
            assert(m[i] == src[i]@);
        }
    }
}

/// The rows of a run of rows, by their views, are as many as the rows, and
/// each is the view of the row at its place.
pub proof fn law_rows_view<T>(d: Seq<Vec<T>>)
    ensures
        rows_view(d).len() == d.len(),
        forall|i: int| 0 <= i < d.len() ==> #[trigger] rows_view(d)[i] == d[i]@,
{
}

} // verus!
