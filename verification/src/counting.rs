use vstd::prelude::*;
use crate::entity::EntityRef;

verus! {

/// The number of present (`Some`) entries.
pub open spec fn count_some<A>(s: Seq<Option<A>>) -> nat
    decreases s.len(),
{
    if s.len() == 0 {
        0
    } else {
        count_some(s.drop_last()) + if s.last() is Some { 1nat } else { 0nat }
    }
}

/// The number of grass cells in one row.
pub open spec fn count_grass_row(row: Seq<EntityRef>) -> nat
    decreases row.len(),
{
    if row.len() == 0 {
        0
    } else {
        count_grass_row(row.drop_last()) + if row.last() == EntityRef::Grass { 1nat } else { 0nat }
    }
}

/// The number of grass cells in a grid.
pub open spec fn count_grass(g: Seq<Seq<EntityRef>>) -> nat
    decreases g.len(),
{
    if g.len() == 0 {
        0
    } else {
        count_grass(g.drop_last()) + count_grass_row(g.last())
    }
}

pub proof fn lemma_count_some_bound<A>(s: Seq<Option<A>>)
    ensures
        count_some(s) <= s.len(),
    decreases s.len(),
{
    if s.len() > 0 {
        lemma_count_some_bound(s.drop_last());
    }
}

pub proof fn lemma_count_some_push<A>(s: Seq<Option<A>>, a: Option<A>)
    ensures
        count_some(s.push(a)) == count_some(s) + if a is Some { 1nat } else { 0nat },
{
    assert(s.push(a).drop_last() =~= s);
}

pub proof fn lemma_count_some_update<A>(s: Seq<Option<A>>, i: int, a: Option<A>)
    requires
        0 <= i < s.len(),
    ensures
        count_some(s.update(i, a)) + (if s[i] is Some { 1int } else { 0int })
            == count_some(s) + (if a is Some { 1int } else { 0int }),
    decreases s.len(),
{
    if i == s.len() - 1 {
        assert(s.update(i, a).drop_last() =~= s.drop_last());
    } else {
        lemma_count_some_update(s.drop_last(), i, a);
        assert(s.update(i, a).drop_last() =~= s.drop_last().update(i, a));
    }
}

/// A sequence with a present entry counts at least one.
pub proof fn lemma_count_some_positive<A>(s: Seq<Option<A>>, i: int)
    requires
        0 <= i < s.len(),
        s[i] is Some,
    ensures
        count_some(s) >= 1,
    decreases s.len(),
{
    if i < s.len() - 1 {
        lemma_count_some_positive(s.drop_last(), i);
    }
}

/// A sequence whose count is positive has a present entry.
pub proof fn lemma_count_some_witness<A>(s: Seq<Option<A>>) -> (i: int)
    requires
        count_some(s) > 0,
    ensures
        0 <= i < s.len(),
        s[i] is Some,
    decreases s.len(),
{
    if s.last() is Some {
        s.len() - 1
    } else {
        lemma_count_some_witness(s.drop_last())
    }
}

/// A sequence whose present entries are all present in another of the same
/// length counts no more.
pub proof fn lemma_count_some_monotone<A, B>(s: Seq<Option<A>>, t: Seq<Option<B>>)
    requires
        s.len() == t.len(),
        forall|i: int| 0 <= i < s.len() && #[trigger] s[i] is Some ==> t[i] is Some,
    ensures
        count_some(s) <= count_some(t),
    decreases s.len(),
{
    if s.len() > 0 {
        assert forall|i: int| 0 <= i < s.drop_last().len() && #[trigger] s.drop_last()[i] is Some
            implies t.drop_last()[i] is Some by {
            assert(s[i] is Some);
        }
        lemma_count_some_monotone(s.drop_last(), t.drop_last());
    }
}

pub proof fn lemma_count_grass_row_update(row: Seq<EntityRef>, x: int, e: EntityRef)
    requires
        0 <= x < row.len(),
    ensures
        count_grass_row(row.update(x, e)) + (if row[x] == EntityRef::Grass { 1int } else { 0int })
            == count_grass_row(row) + (if e == EntityRef::Grass { 1int } else { 0int }),
    decreases row.len(),
{
    if x == row.len() - 1 {
        assert(row.update(x, e).drop_last() =~= row.drop_last());
    } else {
        lemma_count_grass_row_update(row.drop_last(), x, e);
        assert(row.update(x, e).drop_last() =~= row.drop_last().update(x, e));
    }
}

pub proof fn lemma_count_grass_update(g: Seq<Seq<EntityRef>>, x: int, y: int, e: EntityRef)
    requires
        0 <= y < g.len(),
        0 <= x < g[y].len(),
    ensures
        count_grass(g.update(y, g[y].update(x, e))) + (if g[y][x] == EntityRef::Grass { 1int } else { 0int })
            == count_grass(g) + (if e == EntityRef::Grass { 1int } else { 0int }),
    decreases g.len(),
{
    lemma_count_grass_row_update(g[y], x, e);
    let g2 = g.update(y, g[y].update(x, e));
    if y == g.len() - 1 {
        assert(g2.drop_last() =~= g.drop_last());
    } else {
        lemma_count_grass_update(g.drop_last(), x, y, e);
        assert(g2.drop_last() =~= g.drop_last().update(y, g[y].update(x, e)));
    }
}

pub proof fn lemma_count_grass_positive(g: Seq<Seq<EntityRef>>, x: int, y: int)
    requires
        0 <= y < g.len(),
        0 <= x < g[y].len(),
        g[y][x] == EntityRef::Grass,
    ensures
        count_grass(g) >= 1,
{
    lemma_count_grass_update(g, x, y, EntityRef::Empty);
}

} // verus!
