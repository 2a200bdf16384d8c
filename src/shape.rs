use vstd::prelude::*;

verus! {

/// Number of elements of a tensor whose dimension sizes are `dims`.
pub open spec fn product(dims: Seq<usize>) -> nat
    decreases dims.len(),
{
    if dims.len() == 0 {
        1
    } else {
        product(dims.drop_last()) * (dims.last() as nat)
    }
}

/// Row-major flat position of the multi-index `idx` in a tensor of sizes `dims`.
pub open spec fn ravel(dims: Seq<usize>, idx: Seq<int>) -> int
    decreases dims.len(),
{
    if dims.len() == 0 || idx.len() == 0 {
        0
    } else {
        ravel(dims.drop_last(), idx.drop_last()) * (dims.last() as int) + idx.last()
    }
}

/// Multi-index of the flat position `j` in a tensor of sizes `dims` (row-major).
pub open spec fn unravel(dims: Seq<usize>, j: int) -> Seq<int>
    decreases dims.len(),
{
    if dims.len() == 0 {
        seq![]
    } else {
        unravel(dims.drop_last(), j / (dims.last() as int)).push(j % (dims.last() as int))
    }
}

/// Every component of `idx` lies within the matching dimension size.
pub open spec fn in_bounds(dims: Seq<usize>, idx: Seq<int>) -> bool {
    &&& idx.len() == dims.len()
    &&& forall|a: int| 0 <= a < dims.len() ==> 0 <= #[trigger] idx[a] < dims[a]
}

/// Where a tensor's storage lives.
#[derive(Clone, Copy, Debug, PartialEq, Eq, Structural)]
pub enum Device {
    Cpu,
    /// An indexed accelerator unit.
    Unit(usize),
}

/// The shape of a tensor: one size per axis.
pub struct Shape {
    pub dims: Vec<usize>,
}

impl Shape {
    /// A shape is well formed when its element count fits in memory indexing.
    pub open spec fn wf(&self) -> bool {
        product(self.dims@) <= usize::MAX
    }

    pub open spec fn num_elements_spec(&self) -> nat {
        product(self.dims@)
    }

    pub fn new(dims: Vec<usize>) -> (r: Shape)
        requires
            product(dims@) <= usize::MAX,
        ensures
            r.dims@ == dims@,
            r.wf(),
    {
        Shape { dims }
    }

    pub fn rank(&self) -> (r: usize)
        ensures
            r == self.dims@.len(),
    {
        self.dims.len()
    }

    /// Total number of elements (the product of the dimension sizes).
    pub fn num_elements(&self) -> (r: usize)
        requires
            self.wf(),
        ensures
            r == self.num_elements_spec(),
    {
        num_elements_of(&self.dims)
    }

    pub fn clone_shape(&self) -> (r: Shape)
        ensures
            r.dims@ == self.dims@,
    {
        Shape { dims: self.dims.clone() }
    }
}

pub proof fn lemma_product_step(dims: Seq<usize>, a: int)
    requires
        0 <= a < dims.len(),
    ensures
        product(dims.subrange(0, a + 1)) == product(dims.subrange(0, a)) * (dims[a] as nat),
{
    let p = dims.subrange(0, a + 1);
    assert(p.drop_last() =~= dims.subrange(0, a));
}

pub proof fn lemma_product_zero(dims: Seq<usize>)
    requires
        exists|a: int| 0 <= a < dims.len() && dims[a] == 0,
    ensures
        product(dims) == 0,
    decreases dims.len(),
{
    let a = choose|a: int| 0 <= a < dims.len() && dims[a] == 0;
    assert(product(dims) == product(dims.drop_last()) * (dims.last() as nat));
    if a == dims.len() - 1 {
        assert(dims.last() == 0);
    } else {
        assert(dims.drop_last()[a] == 0);
        lemma_product_zero(dims.drop_last());
    }
}

/// A non-empty tensor has no zero-sized axis.
pub proof fn lemma_product_positive(dims: Seq<usize>)
    requires
        product(dims) > 0,
    ensures
        forall|a: int| 0 <= a < dims.len() ==> #[trigger] dims[a] > 0,
{
    assert forall|a: int| 0 <= a < dims.len() implies #[trigger] dims[a] > 0 by {
        if dims[a] == 0 {
            lemma_product_zero(dims);
        }
    }
}

/// The element count of a prefix of the axes never exceeds that of all axes,
/// unless some axis is empty.
pub proof fn lemma_product_prefix_le(dims: Seq<usize>, a: int)
    requires
        0 <= a <= dims.len(),
        product(dims) > 0,
    ensures
        product(dims.subrange(0, a)) <= product(dims),
        product(dims.subrange(0, a)) > 0,
    decreases dims.len() - a,
{
    lemma_product_positive(dims);
    if a == dims.len() {
        assert(dims.subrange(0, a) =~= dims);
    } else {
        lemma_product_prefix_le(dims, a + 1);
        lemma_product_step(dims, a);
        let p = product(dims.subrange(0, a));
        let q = dims[a] as nat;
        assert(p * q >= p) by (nonlinear_arith)
            requires
                q >= 1,
        ;
        assert(p * q > 0 ==> p > 0) by (nonlinear_arith);
    }
}

/// The multi-index of a flat position in range lies in bounds.
pub proof fn lemma_unravel_in_bounds(dims: Seq<usize>, j: int)
    requires
        0 <= j < product(dims),
    ensures
        in_bounds(dims, unravel(dims, j)),
    decreases dims.len(),
{
    if dims.len() > 0 {
        let d = dims.last() as int;
        let rest = dims.drop_last();
        let p = product(rest) as int;
        assert(product(dims) == p * d);
        assert(d > 0 && p > 0 && 0 <= j / d < p) by (nonlinear_arith)
            requires
                0 <= j < p * d,
                p >= 0,
                d >= 0,
        ;
        lemma_unravel_in_bounds(rest, j / d);
        let u = unravel(dims, j);
        assert forall|a: int| 0 <= a < dims.len() implies 0 <= #[trigger] u[a] < dims[a] by {
            if a < dims.len() - 1 {
                assert(u[a] == unravel(rest, j / d)[a]);
                assert(rest[a] == dims[a]);
            }
        }
    }
}

/// Without an empty axis, the element count is positive.
pub proof fn lemma_product_nonzero(dims: Seq<usize>)
    requires
        forall|a: int| 0 <= a < dims.len() ==> #[trigger] dims[a] > 0,
    ensures
        product(dims) > 0,
    decreases dims.len(),
{
    if dims.len() > 0 {
        let rest = dims.drop_last();
        assert forall|a: int| 0 <= a < rest.len() implies #[trigger] rest[a] > 0 by {
            assert(rest[a] == dims[a]);
        }
        lemma_product_nonzero(rest);
        let p = product(rest);
        let d = dims.last() as nat;
        assert(d > 0);
        assert(p * d > 0) by (nonlinear_arith)
            requires
                p > 0,
                d > 0,
        ;
    }
}

/// Element count of `dims`, computed without overflow for a well-formed shape.
pub fn num_elements_of(dims: &Vec<usize>) -> (r: usize)
    requires
        product(dims@) <= usize::MAX,
    ensures
        r == product(dims@),
{
    let mut z: usize = 0;
    while z < dims.len()
        invariant
            z <= dims@.len(),
            forall|a: int| 0 <= a < z ==> #[trigger] dims@[a] > 0,
        decreases dims@.len() - z,
    {
        if dims[z] == 0 {
            proof {
                lemma_product_zero(dims@);
            }
            return 0;
        }
        z = z + 1;
    }
    proof {
        lemma_product_nonzero(dims@);
    }
    let mut acc: usize = 1;
    let mut a: usize = 0;
    while a < dims.len()
        invariant
            a <= dims@.len(),
            0 < product(dims@) <= usize::MAX,
            acc == product(dims@.subrange(0, a as int)),
        decreases dims@.len() - a,
    {
        proof {
            lemma_product_step(dims@, a as int);
            lemma_product_prefix_le(dims@, a as int + 1);
        }
        acc = acc * dims[a];
        a = a + 1;
    }
    assert(dims@.subrange(0, dims@.len() as int) =~= dims@);
    acc
}

/// A single axis holds as many elements as its size.
pub proof fn lemma_product_single(n: usize)
    ensures
        product(seq![n]) == n,
{
    let s = seq![n];
    assert(s.drop_last() =~= Seq::<usize>::empty());
    assert(product(s.drop_last()) == 1);
    assert(s.last() == n);
    assert(product(s) == product(s.drop_last()) * (s.last() as nat));
}

/// Replacing one size scales the element count accordingly.
pub proof fn lemma_product_update(dims: Seq<usize>, i: int, x: usize)
    requires
        0 <= i < dims.len(),
    ensures
        product(dims.update(i, x)) * (dims[i] as nat) == product(dims) * (x as nat),
    decreases dims.len(),
{
    let u = dims.update(i, x);
    let last = dims.last() as nat;
    if i == dims.len() - 1 {
        assert(u.drop_last() =~= dims.drop_last());
        let p = product(dims.drop_last());
        assert(p * (x as nat) * last == p * last * (x as nat)) by (nonlinear_arith);
    } else {
        assert(u.drop_last() =~= dims.drop_last().update(i, x));
        lemma_product_update(dims.drop_last(), i, x);
        let p = product(dims.drop_last().update(i, x));
        let q = product(dims.drop_last());
        let di = dims[i] as nat;
        assert(p * di == q * (x as nat));
        assert(p * last * di == q * last * (x as nat)) by (nonlinear_arith)
            requires
                p * di == q * (x as nat),
        ;
    }
}

/// `s` with the entries at `a` and `b` exchanged.
pub open spec fn swap_axes<A>(s: Seq<A>, a: int, b: int) -> Seq<A> {
    s.update(a, s[b]).update(b, s[a])
}

/// Exchanging two sizes keeps the element count.
pub proof fn lemma_product_swap(dims: Seq<usize>, a: int, b: int)
    requires
        0 <= a < dims.len(),
        0 <= b < dims.len(),
    ensures
        product(swap_axes(dims, a, b)) == product(dims),
{
    if a != b {
        let s1 = dims.update(a, dims[b]);
        let s2 = s1.update(b, dims[a]);
        lemma_product_update(dims, a, dims[b]);
        lemma_product_update(s1, b, dims[a]);
        assert(s1[b] == dims[b]);
        let p = product(dims);
        let p2 = product(s2);
        let db = dims[b] as nat;
        assert(p2 * db == p * db);
        if dims[b] == 0 {
            lemma_product_zero(dims);
            assert(s2[a] == 0);
            lemma_product_zero(s2);
        } else {
            assert(p2 == p) by (nonlinear_arith)
                requires
                    p2 * db == p * db,
                    db > 0,
            ;
        }
    } else {
        assert(swap_axes(dims, a, b) =~= dims);
    }
}

/// A multi-index held as machine integers, seen as mathematical integers.
pub open spec fn as_index(v: Seq<usize>) -> Seq<int> {
    Seq::new(v.len(), |a: int| v[a] as int)
}

/// The multi-index of flat position `j` in a tensor of sizes `dims`.
pub fn unravel_index(dims: &Vec<usize>, j: usize) -> (r: Vec<usize>)
    requires
        j < product(dims@),
    ensures
        as_index(r@) == unravel(dims@, j as int),
        in_bounds(dims@, as_index(r@)),
{
    proof {
        lemma_product_positive(dims@);
        lemma_unravel_in_bounds(dims@, j as int);
    }
    let n = dims.len();
    let mut r: Vec<usize> = Vec::new();
    let mut k: usize = 0;
    while k < n
        invariant
            k <= n,
            n == dims@.len(),
            r@.len() == k,
        decreases n - k,
    {
        r.push(0);
        k = k + 1;
    }
    let mut a: usize = n;
    let mut rem: usize = j;
    assert(dims@.subrange(0, n as int) =~= dims@);
    assert(as_index(r@).subrange(n as int, n as int) =~= seq![]);
    assert(unravel(dims@, j as int) =~= unravel(dims@, j as int) + seq![]);
    while a > 0
        invariant
            a <= n,
            n == dims@.len(),
            r@.len() == n,
            forall|b: int| 0 <= b < n ==> #[trigger] dims@[b] > 0,
            unravel(dims@, j as int) == unravel(dims@.subrange(0, a as int), rem as int) + as_index(
                r@,
            ).subrange(a as int, n as int),
        decreases a,
    {
        let d = dims[a - 1];
        let ghost pre = dims@.subrange(0, a as int);
        let ghost old_r = r@;
        assert(pre.drop_last() =~= dims@.subrange(0, a - 1));
        r.set(a - 1, rem % d);
        assert(as_index(r@).subrange(a - 1, n as int) =~= seq![(rem % d) as int] + as_index(
            old_r,
        ).subrange(a as int, n as int));
        rem = rem / d;
        a = a - 1;
    }
    assert(as_index(r@).subrange(0, n as int) =~= as_index(r@));
    r
}

/// The flat position of the in-bounds multi-index `idx` in a tensor of sizes `dims`.
pub fn ravel_index(dims: &Vec<usize>, idx: &Vec<usize>) -> (r: usize)
    requires
        in_bounds(dims@, as_index(idx@)),
        product(dims@) <= usize::MAX,
    ensures
        r == ravel(dims@, as_index(idx@)),
        r < product(dims@),
{
    let ghost iv = as_index(idx@);
    proof {
        assert forall|b: int| 0 <= b < dims@.len() implies #[trigger] dims@[b] > 0 by {
            assert(0 <= iv[b] < dims@[b]);
        }
        lemma_product_nonzero(dims@);
    }
    let n = dims.len();
    let mut acc: usize = 0;
    let mut a: usize = 0;
    while a < n
        invariant
            a <= n,
            n == dims@.len(),
            iv == as_index(idx@),
            in_bounds(dims@, iv),
            0 < product(dims@) <= usize::MAX,
            acc == ravel(dims@.subrange(0, a as int), iv.subrange(0, a as int)),
            acc < product(dims@.subrange(0, a as int)),
        decreases n - a,
    {
        let d = dims[a];
        let i = idx[a];
        proof {
            lemma_product_step(dims@, a as int);
            lemma_product_prefix_le(dims@, a as int + 1);
            let p = product(dims@.subrange(0, a as int)) as int;
            assert(0 <= iv[a as int] < d);
            assert(acc * d + i < p * d) by (nonlinear_arith)
                requires
                    acc < p,
                    i < d,
            ;
            assert(dims@.subrange(0, a + 1).drop_last() =~= dims@.subrange(0, a as int));
            assert(iv.subrange(0, a + 1).drop_last() =~= iv.subrange(0, a as int));
        }
        acc = acc * d + i;
        a = a + 1;
    }
    proof {
        assert(dims@.subrange(0, n as int) =~= dims@);
        assert(iv.subrange(0, n as int) =~= iv);
    }
    acc
}

} // verus!
