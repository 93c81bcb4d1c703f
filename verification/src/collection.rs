//! Aggregates over the children of a node.
use crate::node::{max, max_of, well_formed, Node, MAX_EXTENT};
use vstd::prelude::*;

verus! {

/// Every node of the list is well formed.
pub open spec fn all_well_formed<N: Node>(nodes: Seq<N>) -> bool {
    forall|i: int| 0 <= i < nodes.len() ==> #[trigger] well_formed(&nodes[i])
}

/// The largest entry height of the nodes, zero where there are none.
pub open spec fn max_entry_height<N: Node>(nodes: Seq<N>) -> int
    decreases nodes.len(),
{
    if nodes.len() == 0 {
        0
    } else if nodes.len() == 1 {
        nodes.last().spec_entry_height()
    } else {
        max(max_entry_height(nodes.drop_last()), nodes.last().spec_entry_height())
    }
}

/// The largest height of the nodes, zero where there are none.
pub open spec fn max_height<N: Node>(nodes: Seq<N>) -> int
    decreases nodes.len(),
{
    if nodes.len() == 0 {
        0
    } else if nodes.len() == 1 {
        nodes.last().spec_height()
    } else {
        max(max_height(nodes.drop_last()), nodes.last().spec_height())
    }
}

/// The largest height below the entry line of the nodes, zero where there
/// are none.
pub open spec fn max_height_below_entry<N: Node>(nodes: Seq<N>) -> int
    decreases nodes.len(),
{
    if nodes.len() == 0 {
        0
    } else if nodes.len() == 1 {
        nodes.last().spec_height() - nodes.last().spec_entry_height()
    } else {
        max(
            max_height_below_entry(nodes.drop_last()),
            nodes.last().spec_height() - nodes.last().spec_entry_height(),
        )
    }
}

/// The largest width of the nodes, zero where there are none.
pub open spec fn max_width<N: Node>(nodes: Seq<N>) -> int
    decreases nodes.len(),
{
    if nodes.len() == 0 {
        0
    } else if nodes.len() == 1 {
        nodes.last().spec_width()
    } else {
        max(max_width(nodes.drop_last()), nodes.last().spec_width())
    }
}

/// The sum of the widths of the nodes.
pub open spec fn total_width<N: Node>(nodes: Seq<N>) -> int
    decreases nodes.len(),
{
    if nodes.len() == 0 {
        0
    } else {
        total_width(nodes.drop_last()) + nodes.last().spec_width()
    }
}

/// The sum of the heights of the nodes.
pub open spec fn total_height<N: Node>(nodes: Seq<N>) -> int
    decreases nodes.len(),
{
    if nodes.len() == 0 {
        0
    } else {
        total_height(nodes.drop_last()) + nodes.last().spec_height()
    }
}

/// The first nodes of a well-formed list are a well-formed list.
pub proof fn lemma_take_well_formed<N: Node>(nodes: Seq<N>, n: int)
    requires
        all_well_formed(nodes),
        0 <= n <= nodes.len(),
    ensures
        all_well_formed(nodes.take(n)),
{
    assert forall|i: int| 0 <= i < nodes.take(n).len() implies #[trigger] well_formed(
        &nodes.take(n)[i],
    ) by {
        assert(well_formed(&nodes[i]));
    }
}

/// Each maximum is at least what every node has, and lies between zero
/// and `MAX_EXTENT`.
pub proof fn lemma_maxima<N: Node>(nodes: Seq<N>)
    requires
        all_well_formed(nodes),
    ensures
        0 <= max_entry_height(nodes) <= MAX_EXTENT,
        0 <= max_height(nodes) <= MAX_EXTENT,
        0 <= max_height_below_entry(nodes) <= MAX_EXTENT,
        0 <= max_width(nodes) <= MAX_EXTENT,
        forall|i: int|
            0 <= i < nodes.len() ==> (#[trigger] nodes[i]).spec_entry_height() <= max_entry_height(
                nodes,
            ) && nodes[i].spec_height() <= max_height(nodes) && nodes[i].spec_height()
                - nodes[i].spec_entry_height() <= max_height_below_entry(nodes)
                && nodes[i].spec_width() <= max_width(nodes),
    decreases nodes.len(),
{
    if nodes.len() > 0 {
        let front = nodes.drop_last();
        lemma_take_well_formed(nodes, nodes.len() - 1);
        lemma_maxima(front);
        assert(well_formed(&nodes[nodes.len() - 1]));
        assert forall|i: int| 0 <= i < nodes.len() implies (#[trigger] nodes[i]).spec_entry_height()
            <= max_entry_height(nodes) && nodes[i].spec_height() <= max_height(nodes)
            && nodes[i].spec_height() - nodes[i].spec_entry_height() <= max_height_below_entry(
            nodes,
        ) && nodes[i].spec_width() <= max_width(nodes) by {
            if i < front.len() {
                assert(front[i] == nodes[i]);
            }
        }
    }
}

/// The sums are not negative, and the sum over the first nodes is at most
/// the sum over all.
pub proof fn lemma_totals<N: Node>(nodes: Seq<N>, n: int)
    requires
        all_well_formed(nodes),
        0 <= n <= nodes.len(),
    ensures
        0 <= total_width(nodes.take(n)) <= total_width(nodes),
        0 <= total_height(nodes.take(n)) <= total_height(nodes),
    decreases nodes.len(),
{
    if nodes.len() == 0 {
        assert(nodes.take(n) =~= nodes);
    } else if n == nodes.len() {
        assert(nodes.take(n) =~= nodes);
        lemma_take_well_formed(nodes, nodes.len() - 1);
        lemma_totals(nodes.drop_last(), n - 1);
        assert(well_formed(&nodes[nodes.len() - 1]));
    } else {
        lemma_take_well_formed(nodes, nodes.len() - 1);
        lemma_totals(nodes.drop_last(), n);
        assert(nodes.drop_last().take(n) =~= nodes.take(n));
        assert(well_formed(&nodes[nodes.len() - 1]));
    }
}

/// The sums over the first `n + 1` nodes are the sums over the first `n`
/// and what the next node adds.
pub proof fn lemma_totals_step<N: Node>(nodes: Seq<N>, n: int)
    requires
        0 <= n < nodes.len(),
    ensures
        total_width(nodes.take(n + 1)) == total_width(nodes.take(n)) + nodes[n].spec_width(),
        total_height(nodes.take(n + 1)) == total_height(nodes.take(n)) + nodes[n].spec_height(),
{
    assert(nodes.take(n + 1).drop_last() =~= nodes.take(n));
}

/// The maxima over the first `n + 1` well-formed nodes are the larger of
/// the maxima over the first `n` and what the next node has.
pub proof fn lemma_maxima_step<N: Node>(nodes: Seq<N>, n: int)
    requires
        all_well_formed(nodes),
        0 <= n < nodes.len(),
    ensures
        max_entry_height(nodes.take(n + 1)) == max(
            max_entry_height(nodes.take(n)),
            nodes[n].spec_entry_height(),
        ),
        max_height(nodes.take(n + 1)) == max(max_height(nodes.take(n)), nodes[n].spec_height()),
        max_height_below_entry(nodes.take(n + 1)) == max(
            max_height_below_entry(nodes.take(n)),
            nodes[n].spec_height() - nodes[n].spec_entry_height(),
        ),
        max_width(nodes.take(n + 1)) == max(max_width(nodes.take(n)), nodes[n].spec_width()),
{
    assert(nodes.take(n + 1).drop_last() =~= nodes.take(n));
    assert(well_formed(&nodes[n]));
    lemma_take_well_formed(nodes, n);
    lemma_maxima(nodes.take(n));
}

/// The room that the gaps between `n` elements take.
pub open spec fn gaps(n: int, spacing: int) -> int {
    (max(1, n) - 1) * spacing
}

/// The gaps between the first elements take no more room than the gaps
/// between all.
pub proof fn lemma_gaps(i: int, n: int, spacing: int)
    requires
        0 <= i < n,
        0 <= spacing,
    ensures
        0 <= i * spacing <= gaps(n, spacing),
        gaps(i + 1, spacing) == i * spacing,
{
    assert(0 <= i * spacing && i * spacing <= (n - 1) * spacing) by (nonlinear_arith)
        requires
            0 <= i <= n - 1,
            0 <= spacing,
    ;
}

/// The room that the gaps between `n` elements take, where it is at most
/// `MAX_EXTENT`.
pub fn checked_gaps(n: usize, spacing: i64) -> (r: Option<i64>)
    requires
        0 <= spacing <= MAX_EXTENT,
    ensures
        0 <= gaps(n as int, spacing as int),
        r == (if gaps(n as int, spacing as int) <= MAX_EXTENT {
            Some(gaps(n as int, spacing as int) as i64)
        } else {
            None
        }),
{
    if n <= 1 || spacing == 0 {
        assert(gaps(n as int, spacing as int) == 0) by (nonlinear_arith)
            requires
                n <= 1 || spacing == 0,
        ;
        return Some(0);
    }
    let k = (n - 1) as u64;
    let limit = (MAX_EXTENT / spacing) as u64;
    proof {
        let m = MAX_EXTENT as int;
        let q = m / (spacing as int);
        vstd::arithmetic::div_mod::lemma_fundamental_div_mod(m, spacing as int);
        vstd::arithmetic::div_mod::lemma_mod_pos_bound(m, spacing as int);
        assert(m == q * spacing + m % (spacing as int)) by (nonlinear_arith)
            requires
                m == spacing * q + m % (spacing as int),
        ;
        if k <= limit {
            vstd::arithmetic::mul::lemma_mul_inequality(k as int, q, spacing as int);
        } else {
            vstd::arithmetic::mul::lemma_mul_inequality(q + 1, k as int, spacing as int);
            assert((q + 1) * spacing == q * spacing + spacing) by (nonlinear_arith);
        }
        assert(0 <= k * spacing) by (nonlinear_arith)
            requires
                0 <= k,
                0 <= spacing,
        ;
    }
    if k > limit {
        None
    } else {
        Some((k as i64) * spacing)
    }
}

/// Whether every node of the list is valid.
pub fn are_valid<N: Node>(nodes: &Vec<N>) -> (ok: bool)
    ensures
        ok == all_well_formed(nodes@),
{
    let mut i: usize = 0;
    while i < nodes.len()
        invariant
            i <= nodes.len(),
            forall|j: int| 0 <= j < i ==> #[trigger] well_formed(&nodes@[j]),
        decreases nodes.len() - i,
    {
        if !nodes[i].is_valid() {
            assert(!well_formed(&nodes@[i as int]));
            return false;
        }
        i += 1;
    }
    true
}

/// The sum of the widths of the nodes, where it is at most `MAX_EXTENT`.
pub fn checked_total_width<N: Node>(nodes: &Vec<N>) -> (r: Option<i64>)
    requires
        all_well_formed(nodes@),
    ensures
        0 <= total_width(nodes@),
        r == (if total_width(nodes@) <= MAX_EXTENT {
            Some(total_width(nodes@) as i64)
        } else {
            None
        }),
{
    let mut sum: i64 = 0;
    let mut i: usize = 0;
    proof {
        lemma_totals(nodes@, 0);
        lemma_totals(nodes@, nodes@.len() as int);
        assert(nodes@.take(nodes@.len() as int) =~= nodes@);
    }
    while i < nodes.len()
        invariant
            i <= nodes.len(),
            all_well_formed(nodes@),
            sum == total_width(nodes@.take(i as int)),
            0 <= sum <= MAX_EXTENT,
        decreases nodes.len() - i,
    {
        proof {
            lemma_totals_step(nodes@, i as int);
            lemma_totals(nodes@, i + 1);
            assert(well_formed(&nodes@[i as int]));
        }
        sum = sum + nodes[i].width();
        if sum > MAX_EXTENT {
            return None;
        }
        i += 1;
    }
    assert(nodes@.take(i as int) =~= nodes@);
    Some(sum)
}

/// The sum of the heights of the nodes, where it is at most `MAX_EXTENT`.
pub fn checked_total_height<N: Node>(nodes: &Vec<N>) -> (r: Option<i64>)
    requires
        all_well_formed(nodes@),
    ensures
        0 <= total_height(nodes@),
        r == (if total_height(nodes@) <= MAX_EXTENT {
            Some(total_height(nodes@) as i64)
        } else {
            None
        }),
{
    let mut sum: i64 = 0;
    let mut i: usize = 0;
    proof {
        lemma_totals(nodes@, 0);
        lemma_totals(nodes@, nodes@.len() as int);
        assert(nodes@.take(nodes@.len() as int) =~= nodes@);
    }
    while i < nodes.len()
        invariant
            i <= nodes.len(),
            all_well_formed(nodes@),
            sum == total_height(nodes@.take(i as int)),
            0 <= sum <= MAX_EXTENT,
        decreases nodes.len() - i,
    {
        proof {
            lemma_totals_step(nodes@, i as int);
            lemma_totals(nodes@, i + 1);
            assert(well_formed(&nodes@[i as int]));
        }
        sum = sum + nodes[i].height();
        if sum > MAX_EXTENT {
            return None;
        }
        i += 1;
    }
    assert(nodes@.take(i as int) =~= nodes@);
    Some(sum)
}

/// Helper trait for collections of nodes.
pub trait NodeCollection {
    /// Every node of the collection is well formed.
    spec fn all_valid(&self) -> bool;

    /// The maximum `entry_height()`-value.
    spec fn spec_max_entry_height(&self) -> int;

    /// The maximum `height()`-value.
    spec fn spec_max_height(&self) -> int;

    /// The maximum `height_below_entry()`-value.
    spec fn spec_max_height_below_entry(&self) -> int;

    /// The maximum `width()`-value.
    spec fn spec_max_width(&self) -> int;

    /// The sum of all `width()`-values.
    spec fn spec_total_width(&self) -> int;

    /// The sum of all `height()`-values.
    spec fn spec_total_height(&self) -> int;

    /// The maximum `entry_height()`-value.
    fn max_entry_height(&self) -> (r: i64)
        requires
            self.all_valid(),
        ensures
            r == self.spec_max_entry_height(),
            0 <= r <= MAX_EXTENT,
    ;

    /// The maximum `height()`-value.
    fn max_height(&self) -> (r: i64)
        requires
            self.all_valid(),
        ensures
            r == self.spec_max_height(),
            0 <= r <= MAX_EXTENT,
    ;

    /// The maximum `height_below_entry()`-value.
    fn max_height_below_entry(&self) -> (r: i64)
        requires
            self.all_valid(),
        ensures
            r == self.spec_max_height_below_entry(),
            0 <= r <= MAX_EXTENT,
    ;

    /// The maximum `width()`-value.
    fn max_width(&self) -> (r: i64)
        requires
            self.all_valid(),
        ensures
            r == self.spec_max_width(),
            0 <= r <= MAX_EXTENT,
    ;

    /// The sum of all `width()`-values, which has to be at most `MAX_EXTENT`.
    fn total_width(&self) -> (r: i64)
        requires
            self.all_valid(),
            self.spec_total_width() <= MAX_EXTENT,
        ensures
            r == self.spec_total_width(),
            0 <= r,
    ;

    /// The sum of all `height()`-values, which has to be at most `MAX_EXTENT`.
    fn total_height(&self) -> (r: i64)
        requires
            self.all_valid(),
            self.spec_total_height() <= MAX_EXTENT,
        ensures
            r == self.spec_total_height(),
            0 <= r,
    ;
}

impl<N: Node> NodeCollection for Vec<N> {
    open spec fn all_valid(&self) -> bool {
        all_well_formed(self@)
    }

    open spec fn spec_max_entry_height(&self) -> int {
        max_entry_height(self@)
    }

    open spec fn spec_max_height(&self) -> int {
        max_height(self@)
    }

    open spec fn spec_max_height_below_entry(&self) -> int {
        max_height_below_entry(self@)
    }

    open spec fn spec_max_width(&self) -> int {
        max_width(self@)
    }

    open spec fn spec_total_width(&self) -> int {
        total_width(self@)
    }

    open spec fn spec_total_height(&self) -> int {
        total_height(self@)
    }

    fn max_entry_height(&self) -> (r: i64) {
        let mut r: i64 = 0;
        let mut i: usize = 0;
        while i < self.len()
            invariant
                i <= self.len(),
                all_well_formed(self@),
                r == max_entry_height(self@.take(i as int)),
                0 <= r <= MAX_EXTENT,
            decreases self.len() - i,
        {
            proof {
                lemma_maxima_step(self@, i as int);
                assert(well_formed(&self@[i as int]));
            }
            r = max_of(r, self[i].entry_height());
            i += 1;
        }
        assert(self@.take(i as int) =~= self@);
        r
    }

    fn max_height(&self) -> (r: i64) {
        let mut r: i64 = 0;
        let mut i: usize = 0;
        while i < self.len()
            invariant
                i <= self.len(),
                all_well_formed(self@),
                r == max_height(self@.take(i as int)),
                0 <= r <= MAX_EXTENT,
            decreases self.len() - i,
        {
            proof {
                lemma_maxima_step(self@, i as int);
                assert(well_formed(&self@[i as int]));
            }
            r = max_of(r, self[i].height());
            i += 1;
        }
        assert(self@.take(i as int) =~= self@);
        r
    }

    fn max_height_below_entry(&self) -> (r: i64) {
        let mut r: i64 = 0;
        let mut i: usize = 0;
        while i < self.len()
            invariant
                i <= self.len(),
                all_well_formed(self@),
                r == max_height_below_entry(self@.take(i as int)),
                0 <= r <= MAX_EXTENT,
            decreases self.len() - i,
        {
            proof {
                lemma_maxima_step(self@, i as int);
                assert(well_formed(&self@[i as int]));
            }
            r = max_of(r, self[i].height_below_entry());
            i += 1;
        }
        assert(self@.take(i as int) =~= self@);
        r
    }

    fn max_width(&self) -> (r: i64) {
        let mut r: i64 = 0;
        let mut i: usize = 0;
        while i < self.len()
            invariant
                i <= self.len(),
                all_well_formed(self@),
                r == max_width(self@.take(i as int)),
                0 <= r <= MAX_EXTENT,
            decreases self.len() - i,
        {
            proof {
                lemma_maxima_step(self@, i as int);
                assert(well_formed(&self@[i as int]));
            }
            r = max_of(r, self[i].width());
            i += 1;
        }
        assert(self@.take(i as int) =~= self@);
        r
    }

    fn total_width(&self) -> (r: i64) {
        let mut r: i64 = 0;
        let mut i: usize = 0;
        while i < self.len()
            invariant
                i <= self.len(),
                all_well_formed(self@),
                total_width(self@) <= MAX_EXTENT,
                r == total_width(self@.take(i as int)),
                0 <= r <= MAX_EXTENT,
            decreases self.len() - i,
        {
            proof {
                lemma_totals_step(self@, i as int);
                lemma_totals(self@, i + 1);
                assert(well_formed(&self@[i as int]));
            }
            r = r + self[i].width();
            i += 1;
        }
        assert(self@.take(i as int) =~= self@);
        r
    }

    fn total_height(&self) -> (r: i64) {
        let mut r: i64 = 0;
        let mut i: usize = 0;
        assert(self.all_valid() && self.spec_total_height() == total_height(self@));
        while i < self.len()
            invariant
                i <= self.len(),
                all_well_formed(self@),
                total_height(self@) <= MAX_EXTENT,
                r == total_height(self@.take(i as int)),
                0 <= r <= MAX_EXTENT,
            decreases self.len() - i,
        {
            proof {
                lemma_totals_step(self@, i as int);
                lemma_totals(self@, i + 1);
                assert(well_formed(&self@[i as int]));
            }
            r = r + self[i].height();
            i += 1;
        }
        assert(self@.take(i as int) =~= self@);
        r
    }
}

} // verus!
