//! A sliding window of rows: the market data a trading runtime feeds its
//! indicators with, oldest row first.

use vstd::prelude::*;

use crate::matrix::{copy_row, is_rectangular, rotate_left, rows_view, transpose, transposed};

verus! {

/// What a window of rows becomes when `new` rows arrive: the oldest rows make
/// room for them, as many as arrived; when more rows arrive than the window
/// holds, only the new rows remain.
pub open spec fn slid<A>(old: Seq<A>, new: Seq<A>) -> Seq<A> {
    if new.len() >= old.len() {
        new
    } else {
        old.skip(new.len() as int) + new
    }
}

/// A window of rows. `d` holds the rows, oldest first; `window` is the
/// number of rows it was made with; `is_transposed` tells whether `d`
/// currently holds the columns in place of the rows.
#[derive(Clone, PartialEq, Debug, Default)]
pub struct Buffer<T> {
    pub d: Vec<Vec<T>>,
    pub window: usize,
    pub is_transposed: bool,
}

impl<T> Buffer<T> {
    /// The rows of the buffer, each by its view.
    pub open spec fn rows(&self) -> Seq<Seq<T>> {
        rows_view(self.d@)
    }

    /// A buffer of the last `window` rows of `src`.
    pub fn from_row(src: Vec<Vec<T>>, window: usize) -> (b: Self)
        requires
            window <= src@.len(),
        ensures
            b.d@ == src@.subrange(src@.len() - window, src@.len() as int),
            b.window == window,
            !b.is_transposed,
    {
        let mut src = src;
        let at: usize = src.len() - window;
        let d = src.split_off(at);
        Buffer { d, window, is_transposed: false }
    }

    /// Rolls the buffer on by one row: the oldest row leaves and `src` is
    /// the newest.
    pub fn update(&mut self, src: Vec<T>)
        requires
            old(self).d@.len() > 0,
        ensures
            final(self).d@ == old(self).d@.skip(1).push(src),
            final(self).rows() == slid(old(self).rows(), seq![src@]),
            final(self).window == old(self).window,
            final(self).is_transposed == old(self).is_transposed,
    {
        rotate_left(&mut self.d, 1);
        let l: usize = self.d.len() - 1;
        proof {
            let s = old(self).d@;
            let n: nat = s.len();
            assert(1nat % n == if n == 1 { 0nat } else { 1nat }) by (nonlinear_arith)
                requires
                    n >= 1,
            ;
        }
        self.d.set(l, src);
        proof {
            let s = old(self).d@;
            assert(self.d@ =~= s.skip(1).push(src));
            assert(self.rows() =~= slid(old(self).rows(), seq![src@]));
        }
    }

    /// The number of rows.
    pub fn len(&self) -> (n: usize)
        ensures
            n == self.d@.len(),
    {
        self.d.len()
    }

    /// The rows as a slice.
    pub fn as_slice(&self) -> (s: &[Vec<T>])
        ensures
            s@ == self.d@,
    {
        self.d.as_slice()
    }

    /// The oldest row, if any.
    pub fn first(&self) -> (r: Option<&Vec<T>>)
        ensures
            self.d@.len() == 0 ==> r is None,
            self.d@.len() > 0 ==> r == Some(&self.d@[0]),
    {
        self.d.as_slice().first()
    }

    /// The newest row, if any.
    pub fn last(&self) -> (r: Option<&Vec<T>>)
        ensures
            self.d@.len() == 0 ==> r is None,
            self.d@.len() > 0 ==> r == Some(&self.d@.last()),
    {
        self.d.as_slice().last()
    }

    /// The row before the newest one.
    pub fn last1(&self) -> (r: Option<&Vec<T>>)
        requires
            self.d@.len() >= 2,
        ensures
            r == Some(&self.d@[self.d@.len() - 2]),
    {
        let i: usize = self.len() - 2;
        Some(&self.d[i])
    }

    /// The row at position `i`, oldest first.
    pub fn index(&self, i: usize) -> (r: &Vec<T>)
        requires
            i < self.d@.len(),
        ensures
            *r == self.d@[i as int],
    {
        &self.d[i]
    }

    /// Appends `rows` after the newest row.
    pub fn extend(&mut self, rows: Vec<Vec<T>>)
        ensures
            final(self).d@ == old(self).d@ + rows@,
            final(self).window == old(self).window,
            final(self).is_transposed == old(self).is_transposed,
    {
        let mut rows = rows;
        self.d.append(&mut rows);
    }

    /// An iterator over the rows, oldest first.
    pub fn iter(&self) -> (it: std::slice::Iter<'_, Vec<T>>)
        ensures
            vstd::std_specs::iter::IteratorSpec::remaining(&it).unref() == self.d@,
    {
        self.d.as_slice().iter()
    }
}

impl<T> std::ops::Deref for Buffer<T> {
    type Target = [Vec<T>];

    fn deref(&self) -> (s: &[Vec<T>])
        ensures
            s@ == self.d@,
    {
        self.d.as_slice()
    }
}

impl<T: Copy> Buffer<T> {
    /// A buffer of the last `window` rows of the transpose of `src`, that is
    /// of its last `window` columns, each taken as a row.
    pub fn from_column(src: Vec<Vec<T>>, window: usize) -> (b: Self)
        requires
            is_rectangular(rows_view(src@)),
            window <= transposed(rows_view(src@)).len(),
        ensures
            b.rows() == transposed(rows_view(src@)).subrange(
                transposed(rows_view(src@)).len() - window,
                transposed(rows_view(src@)).len() as int,
            ),
            b.window == window,
            !b.is_transposed,
    {
        let t = transpose(&src);
        let b = Self::from_row(t, window);
        proof {
            let tv = transposed(rows_view(src@));
            assert(b.rows() =~= tv.subrange(tv.len() - window, tv.len() as int));
        }
        b
    }

    /// Rolls the buffer on by the rows of `src`: as many of the oldest rows
    /// leave as `src` has rows, and copies of the rows of `src` follow the
    /// rows that stay, in their order.
    pub fn update_extend(&mut self, src: &[Vec<T>])
        requires
            src@.len() <= i32::MAX,
        ensures
            final(self).rows() == slid(old(self).rows(), rows_view(src@)),
            src@.len() <= old(self).d@.len() ==> final(self).d@.take(
                old(self).d@.len() - src@.len(),
            ) == old(self).d@.skip(src@.len() as int),
            final(self).window == old(self).window,
            final(self).is_transposed == old(self).is_transposed,
    {
        let ghost s = old(self).d@;
        let ghost n: nat = s.len();
        let k: usize = src.len();
        rotate_left(&mut self.d, k);
        let ghost rolled = self.d@;
        let mut i: usize = 0;
        while i < k
            invariant
                i <= k,
                rolled.len() == n,
                self.window == old(self).window,
                self.is_transposed == old(self).is_transposed,
                self.d@ == rolled.take(if i <= n { n - i } else { 0 }),
            decreases k - i,
        {
            self.d.pop();
            proof {
                if i + 1 <= n {
                    assert(self.d@ =~= rolled.take(n - (i + 1)));
                } else {
                    assert(self.d@ =~= rolled.take(0));
                }
            }
            i = i + 1;
        }
        let ghost kept: Seq<Vec<T>> = self.d@;
        proof {
            if n == 0 {
                assert(kept =~= Seq::<Vec<T>>::empty());
                assert(s.skip(0) =~= s);
            } else if k <= n {
                if k < n {
                    assert((k as nat) % n == k as nat) by (nonlinear_arith)
                        requires
                            k < n,
                    ;
                } else {
                    assert((k as nat) % n == 0) by (nonlinear_arith)
                        requires
                            k == n,
                            n > 0,
                    ;
                }
                assert(kept =~= s.skip(k as int));
            } else {
                assert(kept =~= Seq::<Vec<T>>::empty());
            }
        }
        let mut j: usize = 0;
        while j < k
            invariant
                j <= k,
                k == src@.len(),
                self.window == old(self).window,
                self.is_transposed == old(self).is_transposed,
                self.d@.len() == kept.len() + j,
                self.d@.take(kept.len() as int) == kept,
                rows_view(self.d@) == rows_view(kept) + rows_view(src@).take(j as int),
            decreases k - j,
        {
            let row = copy_row(&src[j]);
            let ghost before = self.d@;
            self.d.push(row);
            proof {
                assert(row@ == rows_view(src@)[j as int]);
                assert(rows_view(src@).take(j + 1) =~= rows_view(src@).take(j as int).push(row@));
                assert(rows_view(self.d@) =~= rows_view(before).push(row@));
                assert(self.d@.take(kept.len() as int) =~= kept);
                assert(rows_view(self.d@) =~= rows_view(kept) + rows_view(src@).take(j + 1));
            }
            j = j + 1;
        }
        proof {
            let o = rows_view(s);
            let nw = rows_view(src@);
            assert(nw.take(k as int) =~= nw);
            if k <= n {
                assert(rows_view(kept) =~= o.skip(k as int));
            } else {
                assert(rows_view(kept) =~= Seq::<Seq<T>>::empty());
            }
            assert(self.rows() =~= slid(o, nw));
        }
    }

    /// The buffer with its rows and columns swapped.
    pub fn transpose(self) -> (b: Self)
        requires
            is_rectangular(self.rows()),
        ensures
            b.rows() == transposed(self.rows()),
            b.d@.len() == if self.d@.len() == 0 { 0 } else { self.d@[0]@.len() },
            forall|j: int| 0 <= j < b.d@.len() ==> (#[trigger] b.d@[j])@.len() == self.d@.len(),
            forall|i: int, j: int|
                0 <= i < self.d@.len() && 0 <= j < b.d@.len() ==> (#[trigger] b.d@[j])@[i] == (
                #[trigger] self.d@[i])@[j],
            b.window == b.d@.len(),
            b.is_transposed == !self.is_transposed,
    {
        let mut b = self;
        b.d = transpose(&b.d);
        b.window = b.d.len();
        b.is_transposed = !b.is_transposed;
        b
    }

    /// Swaps the rows and columns of the buffer in place.
    pub fn transpose_set(&mut self)
        requires
            is_rectangular(old(self).rows()),
        ensures
            final(self).rows() == transposed(old(self).rows()),
            final(self).d@.len() == if old(self).d@.len() == 0 { 0 } else { old(self).d@[0]@.len() },
            forall|j: int|
                0 <= j < final(self).d@.len() ==> (#[trigger] final(self).d@[j])@.len() == old(
                    self,
                ).d@.len(),
            forall|i: int, j: int|
                0 <= i < old(self).d@.len() && 0 <= j < final(self).d@.len() ==> (
                #[trigger] final(self).d@[j])@[i] == (#[trigger] old(self).d@[i])@[j],
            final(self).window == final(self).d@.len(),
            final(self).is_transposed == !old(self).is_transposed,
    {
        self.d = transpose(&self.d);
        self.window = self.d.len();
        self.is_transposed = !self.is_transposed;
    }
}

/// Conversion of a run of rows into a buffer that holds copies of all of them.
pub trait ToBuff<T> {
    fn to_buff(&self) -> Buffer<T>;
}

impl<T: Copy> ToBuff<T> for [Vec<T>] {
    fn to_buff(&self) -> (b: Buffer<T>)
        ensures
            b.rows() == rows_view(self@),
            b.window == self@.len(),
            !b.is_transposed,
    {
        let mut d: Vec<Vec<T>> = Vec::new();
        let n: usize = self.len();
        let mut i: usize = 0;
        while i < n
            invariant
                i <= n,
                n == self@.len(),
                rows_view(d@) == rows_view(self@).take(i as int),
            decreases n - i,
        {
            let row = copy_row(&self[i]);
            let ghost before = d@;
            d.push(row);
            proof {
                assert(rows_view(self@).take(i + 1) =~= rows_view(self@).take(i as int).push(row@));
                assert(rows_view(d@) =~= rows_view(before).push(row@));
            }
            i = i + 1;
        }
        assert(rows_view(self@).take(n as int) =~= rows_view(self@));
        Buffer { d, window: n, is_transposed: false }
    }
}

/// Transposing a buffer twice gives back its rows and its orientation, and
/// leaves its window equal to its number of rows; this holds of every buffer
/// whose rows are equally long and not empty.
pub proof fn law_transpose_twice<T>(b: Buffer<T>, once: Buffer<T>, twice: Buffer<T>)
    requires
        is_rectangular(b.rows()),
        b.rows().len() == 0 || b.rows()[0].len() > 0,
        once.rows() == transposed(b.rows()),
        once.is_transposed == !b.is_transposed,
        twice.rows() == transposed(once.rows()),
        twice.window == twice.d@.len(),
        twice.is_transposed == !once.is_transposed,
    ensures
        is_rectangular(once.rows()),
        twice.rows() == b.rows(),
        twice.is_transposed == b.is_transposed,
        twice.window == b.d@.len(),
{
    crate::matrix::lemma_transpose_involution(b.rows());
    assert(twice.rows().len() == twice.d@.len());
}

/// After rows arrive, the buffer holds as many rows as before or as arrived,
/// whichever is more, and its newest rows are the ones that arrived.
pub proof fn law_slid_window<A>(old: Seq<A>, new: Seq<A>)
    ensures
        slid(old, new).len() == if new.len() >= old.len() { new.len() } else { old.len() },
        slid(old, new).skip(slid(old, new).len() - new.len()) == new,
        new.len() < old.len() ==> slid(old, new).take(old.len() - new.len()) == old.skip(
            new.len() as int,
        ),
{
    let r = slid(old, new);
    assert(r.skip(r.len() - new.len()) =~= new);
    if new.len() < old.len() {
        assert(r.take(old.len() - new.len()) =~= old.skip(new.len() as int));
    }
}

/// Rolling a buffer on by one row is rolling it on by the run made of that
/// row alone: the oldest row leaves and the new one comes last.
pub proof fn law_update_is_single_extend<A>(old: Seq<A>, row: A)
    requires
        old.len() > 0,
    ensures
        slid(old, seq![row]) == old.skip(1).push(row),
{
    assert(slid(old, seq![row]) =~= old.skip(1).push(row));
}

/// While the rows that arrive fit in the window, rolling a buffer on by `a`
/// and then by `b` is rolling it on by `a` followed by `b` at once.
pub proof fn law_extend_compose<A>(old: Seq<A>, a: Seq<A>, b: Seq<A>)
    requires
        a.len() + b.len() <= old.len(),
    ensures
        slid(slid(old, a), b) == slid(old, a + b),
{
    if a.len() + b.len() == old.len() {
        assert(slid(slid(old, a), b) =~= slid(old, a + b));
    } else {
        assert(slid(slid(old, a), b) =~= slid(old, a + b));
    }
}

} // verus!
