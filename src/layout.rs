use vstd::prelude::*;

verus! {

/// Number of generalized coordinates a body contributes: its angle, and its
/// length when the body is elastic.
pub open spec fn spec_coordinate_count(elastic: bool) -> nat {
    if elastic { 2 } else { 1 }
}

/// Total number of generalized coordinates of a chain, given each body's
/// elasticity in chain order.
pub open spec fn coordinate_total(elastic: Seq<bool>) -> nat
    decreases elastic.len(),
{
    if elastic.len() == 0 {
        0
    } else {
        coordinate_total(elastic.drop_last()) + spec_coordinate_count(elastic.last())
    }
}

/// Index of the first generalized coordinate (the angle) of body `i`.
pub open spec fn coordinate_offset(elastic: Seq<bool>, i: int) -> nat {
    coordinate_total(elastic.take(i))
}

/// Number of generalized coordinates of one body.
pub fn coordinate_count(elastic: bool) -> (r: usize)
    ensures
        r == spec_coordinate_count(elastic),
{
    if elastic { 2 } else { 1 }
}

/// Each body has one or two coordinates.
pub proof fn lemma_total_bounds(elastic: Seq<bool>)
    ensures
        elastic.len() <= coordinate_total(elastic) <= 2 * elastic.len(),
    decreases elastic.len(),
{
    if elastic.len() > 0 {
        lemma_total_bounds(elastic.drop_last());
    }
}

/// Extending a prefix of the chain by one body adds that body's coordinates.
pub proof fn lemma_total_step(elastic: Seq<bool>, i: int)
    requires
        0 <= i < elastic.len(),
    ensures
        coordinate_total(elastic.take(i + 1)) == coordinate_total(elastic.take(i))
            + spec_coordinate_count(elastic[i]),
{
    assert(elastic.take(i + 1).drop_last() =~= elastic.take(i));
}

/// A prefix of the chain has no more coordinates than the whole chain.
pub proof fn lemma_total_prefix(elastic: Seq<bool>, i: int)
    requires
        0 <= i <= elastic.len(),
    ensures
        coordinate_total(elastic.take(i)) <= coordinate_total(elastic),
    decreases elastic.len() - i,
{
    if i < elastic.len() {
        lemma_total_step(elastic, i);
        lemma_total_prefix(elastic, i + 1);
    } else {
        assert(elastic.take(i) =~= elastic);
    }
}

/// Total number of generalized coordinates of the chain.
pub fn total_coordinates(elastic: &Vec<bool>) -> (r: usize)
    requires
        2 * elastic.len() <= usize::MAX,
    ensures
        r == coordinate_total(elastic@),
{
    let mut total: usize = 0;
    let mut i: usize = 0;
    while i < elastic.len()
        invariant
            i <= elastic.len(),
            2 * elastic.len() <= usize::MAX,
            total == coordinate_total(elastic@.take(i as int)),
        decreases elastic.len() - i,
    {
        proof {
            lemma_total_step(elastic@, i as int);
            lemma_total_bounds(elastic@.take(i as int + 1));
        }
        total = total + coordinate_count(elastic[i]);
        i = i + 1;
    }
    assert(elastic@.take(i as int) =~= elastic@);
    total
}

/// Whether each per-body pair carries a second (length) entry.
pub open spec fn pair_flags<A, B>(pairs: Seq<(A, Option<B>)>) -> Seq<bool> {
    pairs.map_values(|p: (A, Option<B>)| p.1 is Some)
}

/// Per-body pairs stacked into one sequence: each body's first entry, then its
/// second one where it has one.
pub open spec fn stacked<T>(pairs: Seq<(T, Option<T>)>) -> Seq<T>
    decreases pairs.len(),
{
    if pairs.len() == 0 {
        seq![]
    } else {
        let p = pairs.last();
        let with_first = stacked(pairs.drop_last()).push(p.0);
        match p.1 {
            Some(v) => with_first.push(v),
            None => with_first,
        }
    }
}

/// Stacked per-body values have one entry per generalized coordinate.
pub proof fn lemma_stacked_len<T>(pairs: Seq<(T, Option<T>)>)
    ensures
        stacked(pairs).len() == coordinate_total(pair_flags(pairs)),
    decreases pairs.len(),
{
    if pairs.len() > 0 {
        lemma_stacked_len(pairs.drop_last());
        assert(pair_flags(pairs).drop_last() =~= pair_flags(pairs.drop_last()));
    }
}

/// Stacks per-body values (such as generalized velocities or spring forces,
/// given as an angle entry and an optional length entry) into one vector.
pub fn stack_pairs<T: Copy>(pairs: &Vec<(T, Option<T>)>) -> (r: Vec<T>)
    ensures
        r@ == stacked(pairs@),
{
    let mut r: Vec<T> = Vec::new();
    let mut i: usize = 0;
    while i < pairs.len()
        invariant
            i <= pairs.len(),
            r@ == stacked(pairs@.take(i as int)),
        decreases pairs.len() - i,
    {
        assert(pairs@.take(i as int + 1).drop_last() =~= pairs@.take(i as int));
        let p = pairs[i];
        r.push(p.0);
        match p.1 {
            Some(v) => r.push(v),
            None => {},
        }
        i = i + 1;
    }
    assert(pairs@.take(i as int) =~= pairs@);
    r
}

/// A column of `2 * count` Cartesian rows (x and y of each body's tip, in chain
/// order) for a coordinate of body `from`: the coordinate moves the tips of its
/// own body and of every body after it by `xy`, and no other tip.
pub open spec fn tip_column_spec<T>(from: int, count: nat, xy: (T, T), zero: T) -> Seq<T> {
    Seq::new(
        2 * count,
        |j: int|
            if j / 2 >= from {
                if j % 2 == 0 {
                    xy.0
                } else {
                    xy.1
                }
            } else {
                zero
            },
    )
}

/// Builds the column of a coordinate of body `from` in a chain of `count`
/// bodies, whose tip partials are `xy`.
pub fn tip_column<T: Copy>(from: usize, count: usize, xy: (T, T), zero: T) -> (r: Vec<T>)
    requires
        2 * count <= usize::MAX,
    ensures
        r@ == tip_column_spec(from as int, count as nat, xy, zero),
{
    let mut r: Vec<T> = Vec::new();
    let mut i: usize = 0;
    while i < count
        invariant
            i <= count,
            2 * count <= usize::MAX,
            r.len() == 2 * i,
            forall|j: int|
                0 <= j < r.len() ==> r[j] == tip_column_spec(from as int, count as nat, xy, zero)[j],
        decreases count - i,
    {
        if i >= from {
            r.push(xy.0);
            r.push(xy.1);
        } else {
            r.push(zero);
            r.push(zero);
        }
        i = i + 1;
    }
    assert(r@ =~= tip_column_spec(from as int, count as nat, xy, zero));
    r
}

/// The columns of every body: for body `i`, its angle column and, when the body
/// is elastic, its length column, from the tip partials of each coordinate.
pub open spec fn body_columns<T>(partials: Seq<((T, T), Option<(T, T)>)>, zero: T) -> Seq<
    (Seq<T>, Option<Seq<T>>),
> {
    Seq::new(
        partials.len(),
        |i: int|
            (
                tip_column_spec(i, partials.len(), partials[i].0, zero),
                match partials[i].1 {
                    Some(l) => Some(tip_column_spec(i, partials.len(), l, zero)),
                    None => None,
                },
            ),
    )
}

/// Assembles the system matrix column by column from each body's tip partials
/// with respect to its angle and, for an elastic body, its length. The same
/// assembly gives the constraint Jacobian and its time derivative.
pub fn assemble_columns<T: Copy>(partials: &Vec<((T, T), Option<(T, T)>)>, zero: T) -> (r: Vec<
    Vec<T>,
>)
    requires
        2 * partials.len() <= usize::MAX,
    ensures
        r@.map_values(|c: Vec<T>| c@) == stacked(body_columns(partials@, zero)),
        r.len() == coordinate_total(pair_flags(partials@)),
        forall|k: int| 0 <= k < r.len() ==> (#[trigger] r[k]).len() == 2 * partials.len(),
{
    let ghost cols = body_columns(partials@, zero);
    let n = partials.len();
    let mut r: Vec<Vec<T>> = Vec::new();
    let mut i: usize = 0;
    while i < n
        invariant
            i <= n,
            n == partials.len(),
            2 * n <= usize::MAX,
            cols == body_columns(partials@, zero),
            r@.map_values(|c: Vec<T>| c@) == stacked(cols.take(i as int)),
            forall|k: int| 0 <= k < r.len() ==> (#[trigger] r[k]).len() == 2 * n,
        decreases n - i,
    {
        assert(cols.take(i as int + 1).drop_last() =~= cols.take(i as int));
        let p = partials[i];
        let angle_column = tip_column(i, n, p.0, zero);
        r.push(angle_column);
        match p.1 {
            Some(l) => {
                let length_column = tip_column(i, n, l, zero);
                r.push(length_column);
            },
            None => {},
        }
        assert(r@.map_values(|c: Vec<T>| c@) =~= stacked(cols.take(i as int + 1)));
        i = i + 1;
    }
    assert(cols.take(i as int) =~= cols);
    proof {
        lemma_stacked_len(cols);
        assert(pair_flags(cols) =~= pair_flags(partials@));
    }
    r
}

/// Splits the solved generalized accelerations back into one pair per body:
/// its angle entry and its length entry, or `rigid` for a body whose length is
/// fixed.
pub fn split_accelerations<T: Copy>(elastic: &Vec<bool>, solved: &Vec<T>, rigid: T) -> (r: Vec<
    (T, T),
>)
    requires
        2 * elastic.len() <= usize::MAX,
        solved.len() == coordinate_total(elastic@),
    ensures
        r.len() == elastic.len(),
        forall|i: int|
            0 <= i < r.len() ==> #[trigger] r[i] == (
                solved[coordinate_offset(elastic@, i) as int],
                if elastic[i] {
                    solved[coordinate_offset(elastic@, i) + 1int]
                } else {
                    rigid
                },
            ),
{
    let mut r: Vec<(T, T)> = Vec::new();
    let mut offset: usize = 0;
    let mut i: usize = 0;
    while i < elastic.len()
        invariant
            i <= elastic.len(),
            2 * elastic.len() <= usize::MAX,
            solved.len() == coordinate_total(elastic@),
            offset == coordinate_offset(elastic@, i as int),
            r.len() == i,
            forall|k: int|
                0 <= k < i ==> #[trigger] r[k] == (
                    solved[coordinate_offset(elastic@, k) as int],
                    if elastic[k] {
                        solved[coordinate_offset(elastic@, k) + 1int]
                    } else {
                        rigid
                    },
                ),
        decreases elastic.len() - i,
    {
        proof {
            lemma_total_step(elastic@, i as int);
            lemma_total_prefix(elastic@, i as int + 1);
        }
        if elastic[i] {
            r.push((solved[offset], solved[offset + 1]));
            offset = offset + 2;
        } else {
            r.push((solved[offset], rigid));
            offset = offset + 1;
        }
        i = i + 1;
    }
    r
}

/// Each value twice in a row: the diagonal of the mass matrix, where every
/// body's mass stands once for each Cartesian axis.
pub fn doubled<T: Copy>(values: &Vec<T>) -> (r: Vec<T>)
    requires
        2 * values.len() <= usize::MAX,
    ensures
        r.len() == 2 * values.len(),
        forall|j: int| 0 <= j < r.len() ==> #[trigger] r[j] == values[j / 2],
{
    let mut r: Vec<T> = Vec::new();
    let mut i: usize = 0;
    while i < values.len()
        invariant
            i <= values.len(),
            r.len() == 2 * i,
            forall|j: int| 0 <= j < r.len() ==> #[trigger] r[j] == values[j / 2],
        decreases values.len() - i,
    {
        r.push(values[i]);
        r.push(values[i]);
        i = i + 1;
    }
    r
}

proof fn lemma_stacked_lengths<T>(pairs: Seq<(Seq<T>, Option<Seq<T>>)>, len: nat)
    requires
        forall|i: int|
            0 <= i < pairs.len() ==> {
                &&& (#[trigger] pairs[i]).0.len() == len
                &&& pairs[i].1 is Some ==> pairs[i].1->0.len() == len
            },
    ensures
        forall|k: int| 0 <= k < stacked(pairs).len() ==> (#[trigger] stacked(pairs)[k]).len() == len,
    decreases pairs.len(),
{
    if pairs.len() > 0 {
        let prefix = pairs.drop_last();
        assert forall|i: int| 0 <= i < prefix.len() implies {
            &&& (#[trigger] prefix[i]).0.len() == len
            &&& prefix[i].1 is Some ==> prefix[i].1->0.len() == len
        } by {
            assert(prefix[i] == pairs[i]);
        }
        lemma_stacked_lengths(prefix, len);
        let with_first = stacked(prefix).push(pairs.last().0);
        assert forall|k: int| 0 <= k < stacked(pairs).len() implies (#[trigger] stacked(
            pairs,
        )[k]).len() == len by {
            if k < with_first.len() {
                assert(with_first[k] == stacked(pairs)[k]);
                if k < stacked(prefix).len() {
                    assert(with_first[k] == stacked(prefix)[k]);
                }
            }
        }
    }
}

/// Dimensions of the assembled system for a chain of one to six bodies: the
/// Jacobian and its time derivative have two rows per body (the x and y of its
/// tip) and one column per generalized coordinate, that is one column for a
/// rigid body and two for an elastic one; the stacked velocities and spring
/// forces have one entry per column. No matrix of the system is larger than 12
/// by 12.
pub proof fn lemma_system_dimensions<T>(
    partials: Seq<((T, T), Option<(T, T)>)>,
    values: Seq<(T, Option<T>)>,
    zero: T,
)
    requires
        1 <= partials.len() <= 6,
        pair_flags(values) == pair_flags(partials),
    ensures
        ({
            let n = partials.len();
            let columns = stacked(body_columns(partials, zero));
            &&& columns.len() == coordinate_total(pair_flags(partials))
            &&& n <= columns.len() <= 2 * n <= 12
            &&& forall|k: int| 0 <= k < columns.len() ==> (#[trigger] columns[k]).len() == 2 * n
            &&& stacked(values).len() == columns.len()
        }),
{
    let n = partials.len();
    let cols = body_columns(partials, zero);
    lemma_stacked_len(cols);
    assert(pair_flags(cols) =~= pair_flags(partials));
    lemma_stacked_len(values);
    lemma_total_bounds(pair_flags(partials));
    lemma_stacked_lengths(cols, 2 * n);
}

/// Stacking and the coordinate offsets agree: in the stacked vector, body
/// `i`'s first entry stands at its coordinate offset and its second entry, if
/// any, right after it. So splitting a stacked vector by the bodies'
/// elasticity gives each body back its own entries.
pub proof fn lemma_stacked_at_offsets<T>(pairs: Seq<(T, Option<T>)>, i: int)
    requires
        0 <= i < pairs.len(),
    ensures
        ({
            let at = coordinate_offset(pair_flags(pairs), i) as int;
            &&& at < stacked(pairs).len()
            &&& stacked(pairs)[at] == pairs[i].0
            &&& pairs[i].1 is Some ==> at + 1 < stacked(pairs).len() && stacked(pairs)[at + 1]
                == pairs[i].1->0
        }),
    decreases pairs.len(),
{
    let prefix = pairs.drop_last();
    let flags = pair_flags(pairs);
    let with_first = stacked(prefix).push(pairs.last().0);
    assert(flags.drop_last() =~= pair_flags(prefix));
    if i < pairs.len() - 1 {
        lemma_stacked_at_offsets(prefix, i);
        assert(flags.take(i) =~= pair_flags(prefix).take(i));
        assert(prefix[i] == pairs[i]);
        let at = coordinate_offset(flags, i) as int;
        assert(with_first[at] == stacked(pairs)[at]);
        if pairs[i].1 is Some {
            assert(with_first[at + 1] == stacked(pairs)[at + 1]);
        }
    } else {
        lemma_stacked_len(prefix);
        assert(flags.take(i) =~= pair_flags(prefix));
    }
}

} // verus!
