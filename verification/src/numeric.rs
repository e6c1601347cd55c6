//! Arithmetic on values of any type. What an operation gives is up to the caller; the order in
//! which operations are carried out, and on what, is not.
use crate::arith::{lemma_next_row, lemma_rows_monotone};
use vstd::prelude::*;
use vstd::slice::slice_subrange;

verus! {

/// An operation on up to three values. Where it takes fewer, the others play no part.
#[derive(Debug, Clone, Copy, PartialEq, Eq, Structural)]
pub enum Op {
    /// The first value plus the product of the other two.
    MulAdd,
    /// The sum of two values.
    Plus,
    /// The first value less the second.
    Minus,
    /// The product of two values.
    Times,
    /// The first value divided by the second.
    Over,
    /// The larger of two values.
    Larger,
    /// The exponential of the first value less the second.
    Raise,
    /// The product of three values.
    Weigh,
    /// The first value times its own logistic, times the second.
    Gate,
    /// The first value plus the squared sine of its product with the second, over the second.
    Snake,
    /// Half the value, times one plus the error function of the value over the root of two.
    Gelu,
    /// The hyperbolic tangent of the value.
    Tanh,
    /// The root of the value.
    Root,
    /// The root of the value, or of a tiny number where the value is less.
    Length,
    /// The value divided by a count.
    OverCount(usize),
    /// The first value divided by one plus the exponential of its negative, times the second.
    GateOver,
    /// One over the root of: the value divided by a count, plus a small number given by its bits.
    NormScale(usize, u32),
    /// The value divided by the root of a size.
    HeadScale(usize),
    /// The value times a number given by its bits.
    ScaleBy(u32),
    /// One over the root of a count.
    RootOver(usize),
    /// The cosine of a position's angle: position, place in the head, size of the head, and base,
    /// which is given by its bits.
    Cos(usize, usize, usize, u32),
    /// The sine of a position's angle.
    Sin(usize, usize, usize, u32),
    /// The number with the given half-precision bits.
    Half(u16),
    /// The number with the given single-precision bits.
    Single(u32),
    /// A whole number divided by another one.
    Sample(i32, u32),
    /// The exponential of: the first value less the second, divided by a temperature given by its
    /// bits. Where the temperature is not above zero, one where the values are almost the same, and
    /// zero elsewhere.
    Temper(u32),
    /// The first value divided by the second, where the second is above zero; the first elsewhere.
    Share,
    /// A count of parts, of which two to the 53 make a unit, as a number below one.
    Draw(u64),
}

/// What carries out operations, and the value to start sums from.
pub struct Calc<T, F> {
    pub zero: T,
    pub op: F,
}

impl<T: Copy, F: Fn(Op, T, T, T) -> T> Calc<T, F> {
    /// Whether an operation on these values may give `r`.
    pub open spec fn gives(self, o: Op, a: T, b: T, c: T, r: T) -> bool {
        call_ensures(self.op, (o, a, b, c), r)
    }

    /// Whether every operation can be carried out on any values.
    pub open spec fn works(self) -> bool {
        forall|o: Op, a: T, b: T, c: T| call_requires(self.op, (o, a, b, c))
    }

    /// Whether every operation gives one result only.
    pub open spec fn settled(self) -> bool {
        forall|o: Op, a: T, b: T, c: T, x: T, y: T|
            #![trigger self.gives(o, a, b, c, x), self.gives(o, a, b, c, y)]
            self.gives(o, a, b, c, x) && self.gives(o, a, b, c, y) ==> x == y
    }

    /// Carries out an operation on three values.
    pub fn run(&self, o: Op, a: T, b: T, c: T) -> (r: T)
        requires
            self.works(),
        ensures
            self.gives(o, a, b, c, r),
    {
        let f = &self.op;
        f(o, a, b, c)
    }

    /// Carries out an operation on two values.
    pub fn two(&self, o: Op, a: T, b: T) -> (r: T)
        requires
            self.works(),
        ensures
            self.gives(o, a, b, self.zero, r),
    {
        self.run(o, a, b, self.zero)
    }

    /// Whether half-precision bits read as `r`.
    pub open spec fn reads_half(self, bits: u16, r: T) -> bool {
        self.gives(Op::Half(bits), self.zero, self.zero, self.zero, r)
    }

    /// Carries out an operation on no value.
    pub fn constant(&self, o: Op) -> (r: T)
        requires
            self.works(),
        ensures
            self.gives(o, self.zero, self.zero, self.zero, r),
    {
        self.run(o, self.zero, self.zero, self.zero)
    }

    /// Carries out an operation on one value.
    pub fn one(&self, o: Op, a: T) -> (r: T)
        requires
            self.works(),
        ensures
            self.gives(o, a, self.zero, self.zero, r),
    {
        self.run(o, a, self.zero, self.zero)
    }
}

/// Whether these are the sums along a list of terms, each made from the one before by one calc.
pub open spec fn sums_along<T: Copy, F: Fn(Op, T, T, T) -> T>(
    sums: Seq<T>,
    terms: Seq<(T, T)>,
    start: T,
    calc: Calc<T, F>,
) -> bool {
    &&& sums.len() == terms.len() + 1
    &&& sums[0] == start
    &&& forall|i: int|
        0 <= i < terms.len() ==> calc.gives(Op::MulAdd, #[trigger] sums[i], terms[i].0, terms[i].1, sums[i + 1])
}

/// Whether `r` comes out when the terms are taken in one after another, from `start` on.
pub open spec fn gathered<T: Copy, F: Fn(Op, T, T, T) -> T>(
    terms: Seq<(T, T)>,
    start: T,
    calc: Calc<T, F>,
    r: T,
) -> bool {
    exists|sums: Seq<T>| #[trigger] sums_along(sums, terms, start, calc) && sums.last() == r
}

/// Nothing is taken in: the sum is where it started.
pub proof fn lemma_gather_none<T: Copy, F: Fn(Op, T, T, T) -> T>(terms: Seq<(T, T)>, start: T, calc: Calc<T, F>)
    requires
        terms.len() == 0,
    ensures
        gathered(terms, start, calc, start),
{
    assert(sums_along(seq![start], terms, start, calc));
    assert(seq![start].last() == start);
}

/// One more term is taken in.
pub proof fn lemma_gather_one<T: Copy, F: Fn(Op, T, T, T) -> T>(
    terms: Seq<(T, T)>,
    start: T,
    calc: Calc<T, F>,
    p: T,
    a: T,
    b: T,
    r: T,
)
    requires
        gathered(terms, start, calc, p),
        calc.gives(Op::MulAdd, p, a, b, r),
    ensures
        gathered(terms.push((a, b)), start, calc, r),
{
    let more = terms.push((a, b));
    let sums = choose|sums: Seq<T>|
        #[trigger] sums_along(sums, terms, start, calc) && sums.last() == p;
    let longer = sums.push(r);
    assert forall|i: int| 0 <= i < more.len() implies calc.gives(Op::MulAdd, #[trigger] longer[i], more[i].0, more[i].1, longer[i + 1]) by {
        if i < terms.len() {
            assert(longer[i] == sums[i]);
            assert(longer[i + 1] == sums[i + 1]);
        }
    }
    assert(sums_along(longer, more, start, calc));
    assert(longer.last() == r);
}

/// A sum over a list can be taken in two parts: the first part from the start, the second from
/// where the first ended.
pub proof fn sums_go_on_where_they_ended<T: Copy, F: Fn(Op, T, T, T) -> T>(
    first: Seq<(T, T)>,
    second: Seq<(T, T)>,
    start: T,
    calc: Calc<T, F>,
    middle: T,
    r: T,
)
    requires
        gathered(first, start, calc, middle),
        gathered(second, middle, calc, r),
    ensures
        gathered(first + second, start, calc, r),
{
    let n = first.len() as int;
    let a = choose|sums: Seq<T>|
        #[trigger] sums_along(sums, first, start, calc) && sums.last() == middle;
    let b = choose|sums: Seq<T>|
        #[trigger] sums_along(sums, second, middle, calc) && sums.last() == r;
    let all = a + b.skip(1);
    let terms = first + second;
    assert forall|i: int| 0 <= i < terms.len() implies calc.gives(Op::MulAdd, #[trigger] all[i], terms[i].0, terms[i].1, all[i + 1]) by {
        if i < n {
            assert(all[i] == a[i]);
            assert(all[i + 1] == a[i + 1]);
        } else {
            assert(all[i] == b[i - n]);
            assert(all[i + 1] == b[i - n + 1]);
        }
    }
    assert(sums_along(all, terms, start, calc));
    assert(all.last() == r);
}

/// Where every calc has one outcome, so has every sum.
pub proof fn sums_are_unique<T: Copy, F: Fn(Op, T, T, T) -> T>(
    terms: Seq<(T, T)>,
    start: T,
    calc: Calc<T, F>,
    x: T,
    y: T,
)
    requires
        calc.settled(),
        gathered(terms, start, calc, x),
        gathered(terms, start, calc, y),
    ensures
        x == y,
{
    let a = choose|sums: Seq<T>|
        #[trigger] sums_along(sums, terms, start, calc) && sums.last() == x;
    let b = choose|sums: Seq<T>|
        #[trigger] sums_along(sums, terms, start, calc) && sums.last() == y;
    lemma_same_sums(terms, start, calc, a, b, terms.len() as int);
}

proof fn lemma_same_sums<T: Copy, F: Fn(Op, T, T, T) -> T>(
    terms: Seq<(T, T)>,
    start: T,
    calc: Calc<T, F>,
    a: Seq<T>,
    b: Seq<T>,
    n: int,
)
    requires
        calc.settled(),
        sums_along(a, terms, start, calc),
        sums_along(b, terms, start, calc),
        0 <= n <= terms.len(),
    ensures
        a[n] == b[n],
    decreases n,
{
    if n > 0 {
        lemma_same_sums(terms, start, calc, a, b, n - 1);
        assert(calc.gives(Op::MulAdd, a[n - 1], terms[n - 1].0, terms[n - 1].1, a[n]));
        assert(calc.gives(Op::MulAdd, b[n - 1], terms[n - 1].0, terms[n - 1].1, b[n]));
    }
}

/// The pairs of values that stand at the same place.
pub open spec fn pairs<T>(a: Seq<T>, b: Seq<T>) -> Seq<(T, T)> {
    Seq::new(
        if a.len() <= b.len() {
            a.len()
        } else {
            b.len()
        },
        |i: int| (a[i], b[i]),
    )
}

/// The sum of products of two lists, as far as both go.
pub fn dot<T: Copy, F: Fn(Op, T, T, T) -> T>(a: &[T], b: &[T], calc: &Calc<T, F>) -> (r: T)
    requires
        calc.works(),
    ensures
        gathered(pairs(a@, b@), calc.zero, *calc, r),
{
    let count: usize = if a.len() <= b.len() {
        a.len()
    } else {
        b.len()
    };
    let mut sum: T = calc.zero;
    let mut i: usize = 0;
    proof {
        lemma_gather_none(pairs(a@, b@).take(0), calc.zero, *calc);
    }
    while i < count
        invariant
            i <= count <= a@.len(),
            count <= b@.len(),
            count == pairs(a@, b@).len(),
            calc.works(),
            gathered(pairs(a@, b@).take(i as int), calc.zero, *calc, sum),
        decreases count - i,
    {
        let next: T = calc.run(Op::MulAdd, sum, a[i], b[i]);
        proof {
            let all = pairs(a@, b@);
            lemma_gather_one(
                all.take(i as int),
                calc.zero,
                *calc,
                sum,
                a@[i as int],
                b@[i as int],
                next,
            );
            assert(all.take(i as int).push((a@[i as int], b@[i as int])) =~= all.take(
                i as int + 1,
            ));
        }
        sum = next;
        i = i + 1;
    }
    assert(pairs(a@, b@).take(i as int) =~= pairs(a@, b@));
    sum
}

/// The row of a table whose rows have the given width.
pub open spec fn row<T>(table: Seq<T>, i: int, width: int) -> Seq<T> {
    table.subrange(i * width, (i + 1) * width)
}

/// Adding to the end of a table leaves its rows, and makes the new row where one was added.
pub proof fn lemma_rows_of_longer<T>(table: Seq<T>, more: Seq<T>, count: int, width: int)
    requires
        0 <= count,
        0 <= width,
        table.len() == count * width,
    ensures
        forall|k: int| 0 <= k < count ==> #[trigger] row(table + more, k, width) == row(table, k, width),
        more.len() == width ==> row(table + more, count, width) == more,
{
    assert forall|k: int| 0 <= k < count implies #[trigger] row(table + more, k, width) == row(
        table,
        k,
        width,
    ) by {
        lemma_rows_monotone(k + 1, count, width);
        lemma_rows_monotone(0, k, width);
        lemma_next_row(k, width);
        assert(row(table + more, k, width) =~= row(table, k, width));
    }
    if more.len() == width {
        lemma_next_row(count, width);
        assert(row(table + more, count, width) =~= more);
    }
}

/// Reads a row of a table.
pub(crate) fn row_of<T>(table: &[T], i: usize, width: usize, count: Ghost<int>) -> (r: &[T])
    requires
        i < count@,
        table@.len() == count@ * width,
        table@.len() <= usize::MAX,
    ensures
        r@ == row(table@, i as int, width as int),
{
    proof {
        lemma_rows_monotone(i as int + 1, count@, width as int);
        lemma_next_row(i as int, width as int);
        vstd::arithmetic::mul::lemma_mul_nonnegative(i as int, width as int);
    }
    let start: usize = i * width;
    slice_subrange(table, start, start + width)
}

/// The products of a vector with every row of a table.
pub open spec fn is_linear<T: Copy, F: Fn(Op, T, T, T) -> T>(
    input: Seq<T>,
    table: Seq<T>,
    calc: Calc<T, F>,
    out: Seq<T>,
) -> bool {
    forall|o: int|
        0 <= o < out.len() ==> gathered(
            pairs(input, row(table, o, input.len() as int)),
            calc.zero,
            calc,
            #[trigger] out[o],
        )
}

} // verus!
