//! Grid cells covered by inclusive rectangles of cells, listed once each in
//! the order they are first met.
use vstd::prelude::*;

verus! {

/// An inclusive rectangle of grid cells; empty when a maximum is below its
/// minimum.
#[derive(Clone, Copy, Debug, PartialEq, Eq, Structural)]
pub struct CellRange {
    pub min_x: i32,
    pub min_z: i32,
    pub max_x: i32,
    pub max_z: i32,
}

/// Whether `r` covers cell (`x`, `z`).
pub open spec fn covers(r: CellRange, x: int, z: int) -> bool {
    r.min_x <= x <= r.max_x && r.min_z <= z <= r.max_z
}

/// The cells of row `z` from `x0` up to, not including, `xend`, in order.
pub open spec fn row_cells(z: int, x0: int, xend: int) -> Seq<(i32, i32)>
    decreases xend - x0,
{
    if xend <= x0 {
        Seq::empty()
    } else {
        row_cells(z, x0, xend - 1).push(((xend - 1) as i32, z as i32))
    }
}

/// The cells of the rows of `r` below `zend`, row by row, each from its
/// smallest `x`.
pub open spec fn range_cells_upto(r: CellRange, zend: int) -> Seq<(i32, i32)>
    decreases zend - r.min_z,
{
    if zend <= r.min_z {
        Seq::empty()
    } else {
        range_cells_upto(r, zend - 1) + row_cells(zend - 1, r.min_x as int, r.max_x + 1)
    }
}

/// The cells of `r`, row by row.
pub open spec fn range_cells(r: CellRange) -> Seq<(i32, i32)> {
    range_cells_upto(r, r.max_z + 1)
}

/// The cells of every range of `rs`, range after range.
pub open spec fn ranges_cells(rs: Seq<CellRange>) -> Seq<(i32, i32)>
    decreases rs.len(),
{
    if rs.len() == 0 {
        Seq::empty()
    } else {
        ranges_cells(rs.drop_last()) + range_cells(rs.last())
    }
}

/// `s` without repetitions: each element where it first occurs.
pub open spec fn first_occurrences<A>(s: Seq<A>) -> Seq<A>
    decreases s.len(),
{
    if s.len() == 0 {
        Seq::empty()
    } else {
        let p = first_occurrences(s.drop_last());
        if p.contains(s.last()) {
            p
        } else {
            p.push(s.last())
        }
    }
}

/// The first occurrences hold each element of `s` exactly once.
pub proof fn lemma_first_occurrences<A>(s: Seq<A>)
    ensures
        first_occurrences(s).no_duplicates(),
        forall|a: A| first_occurrences(s).contains(a) <==> s.contains(a),
    decreases s.len(),
{
    if s.len() > 0 {
        let t = s.drop_last();
        lemma_first_occurrences(t);
        assert(s == t.push(s.last()));
        let p = first_occurrences(t);
        assert forall|a: A| first_occurrences(s).contains(a) <==> s.contains(a) by {
            if s.contains(a) && a != s.last() {
                let i = choose|i: int| 0 <= i < s.len() && s[i] == a;
                assert(t[i] == a);
            }
            if t.contains(a) {
                let i = choose|i: int| 0 <= i < t.len() && t[i] == a;
                assert(s[i] == a);
            }
            if !p.contains(s.last()) {
                assert(p.push(s.last())[p.len() as int] == s.last());
                if p.contains(a) {
                    let i = choose|i: int| 0 <= i < p.len() && p[i] == a;
                    assert(p.push(s.last())[i] == a);
                }
                if p.push(s.last()).contains(a) && a != s.last() {
                    let i = choose|i: int| 0 <= i < p.len() + 1 && p.push(s.last())[i] == a;
                    assert(p[i] == a);
                }
            }
            assert(s[s.len() - 1] == s.last());
        }
    }
}

/// Row `z` from `x0` holds exactly the cells of that row below `xend`.
pub proof fn lemma_row_cells(z: int, x0: int, xend: int)
    requires
        i32::MIN <= z <= i32::MAX,
        i32::MIN <= x0,
        xend <= i32::MAX + 1,
    ensures
        forall|x: i32, zz: i32|
            row_cells(z, x0, xend).contains((x, zz)) <==> (zz == z && x0 <= x < xend),
    decreases xend - x0,
{
    if xend > x0 {
        lemma_row_cells(z, x0, xend - 1);
        let p = row_cells(z, x0, xend - 1);
        let c = ((xend - 1) as i32, z as i32);
        assert forall|x: i32, zz: i32|
            row_cells(z, x0, xend).contains((x, zz)) <==> (zz == z && x0 <= x < xend) by {
            assert(p.push(c)[p.len() as int] == c);
            if p.contains((x, zz)) {
                let i = choose|i: int| 0 <= i < p.len() && p[i] == (x, zz);
                assert(p.push(c)[i] == (x, zz));
            }
            if p.push(c).contains((x, zz)) && (x, zz) != c {
                let i = choose|i: int| 0 <= i < p.len() + 1 && p.push(c)[i] == (x, zz);
                assert(p[i] == (x, zz));
            }
        }
    }
}

/// Concatenated sequences contain exactly what either part contains.
pub proof fn lemma_concat_contains<A>(a: Seq<A>, b: Seq<A>)
    ensures
        forall|v: A| (a + b).contains(v) <==> (a.contains(v) || b.contains(v)),
{
    assert forall|v: A| (a + b).contains(v) <==> (a.contains(v) || b.contains(v)) by {
        if a.contains(v) {
            let i = choose|i: int| 0 <= i < a.len() && a[i] == v;
            assert((a + b)[i] == v);
        }
        if b.contains(v) {
            let i = choose|i: int| 0 <= i < b.len() && b[i] == v;
            assert((a + b)[a.len() + i] == v);
        }
        if (a + b).contains(v) {
            let i = choose|i: int| 0 <= i < a.len() + b.len() && (a + b)[i] == v;
            if i < a.len() {
                assert(a[i] == v);
            } else {
                assert(b[i - a.len()] == v);
            }
        }
    }
}

/// The rows of `r` below `zend` hold exactly the cells of `r` below that row.
pub proof fn lemma_range_cells_upto(r: CellRange, zend: int)
    requires
        zend <= r.max_z + 1,
    ensures
        forall|x: i32, z: i32|
            range_cells_upto(r, zend).contains((x, z)) <==> (covers(r, x as int, z as int) && z
                < zend),
    decreases zend - r.min_z,
{
    if zend > r.min_z {
        lemma_range_cells_upto(r, zend - 1);
        lemma_row_cells(zend - 1, r.min_x as int, r.max_x + 1);
        lemma_concat_contains(
            range_cells_upto(r, zend - 1),
            row_cells(zend - 1, r.min_x as int, r.max_x + 1),
        );
    }
}

/// The cells of `rs` are exactly the cells that some range of `rs` covers.
pub proof fn lemma_ranges_cells(rs: Seq<CellRange>)
    ensures
        forall|x: i32, z: i32|
            ranges_cells(rs).contains((x, z)) <==> exists|k: int|
                0 <= k < rs.len() && #[trigger] covers(rs[k], x as int, z as int),
    decreases rs.len(),
{
    if rs.len() > 0 {
        let t = rs.drop_last();
        lemma_ranges_cells(t);
        lemma_range_cells_upto(rs.last(), rs.last().max_z + 1);
        lemma_concat_contains(ranges_cells(t), range_cells(rs.last()));
        assert forall|x: i32, z: i32|
            ranges_cells(rs).contains((x, z)) <==> exists|k: int|
                0 <= k < rs.len() && #[trigger] covers(rs[k], x as int, z as int) by {
            if exists|k: int| 0 <= k < rs.len() && #[trigger] covers(rs[k], x as int, z as int) {
                let k = choose|k: int|
                    0 <= k < rs.len() && #[trigger] covers(rs[k], x as int, z as int);
                if k < rs.len() - 1 {
                    assert(covers(t[k], x as int, z as int));
                }
            }
            if exists|k: int| 0 <= k < t.len() && #[trigger] covers(t[k], x as int, z as int) {
                let k = choose|k: int|
                    0 <= k < t.len() && #[trigger] covers(t[k], x as int, z as int);
                assert(covers(rs[k], x as int, z as int));
            }
            if covers(rs.last(), x as int, z as int) {
                assert(covers(rs[rs.len() - 1], x as int, z as int));
            }
        }
    }
}

/// Whether `cells` lists `c`.
fn listed(cells: &Vec<(i32, i32)>, c: (i32, i32)) -> (b: bool)
    ensures
        b == cells@.contains(c),
{
    let mut j: usize = 0;
    while j < cells.len()
        invariant
            j <= cells@.len(),
            forall|k: int| 0 <= k < j ==> cells@[k] != c,
        decreases cells.len() - j,
    {
        if cells[j].0 == c.0 && cells[j].1 == c.1 {
            assert(cells@[j as int] == c);
            return true;
        }
        j = j + 1;
    }
    false
}

/// The cells that `ranges` cover, each once, in the order met when walking
/// the ranges in turn, each row by row from its smallest `z` and each row
/// from its smallest `x`.
pub fn distinct_cells(ranges: &[CellRange]) -> (cells: Vec<(i32, i32)>)
    ensures
        cells@ == first_occurrences(ranges_cells(ranges@)),
{
    let mut cells: Vec<(i32, i32)> = Vec::new();
    let ghost mut seen: Seq<(i32, i32)> = Seq::empty();
    let mut k: usize = 0;
    while k < ranges.len()
        invariant
            k <= ranges@.len(),
            seen == ranges_cells(ranges@.take(k as int)),
            cells@ == first_occurrences(seen),
        decreases ranges.len() - k,
    {
        let r = ranges[k];
        let ghost done = seen;
        let mut z: i64 = r.min_z as i64;
        while z <= r.max_z as i64
            invariant
                r.min_z <= z <= r.max_z + 1 || (z == r.min_z && r.max_z < r.min_z),
                seen == done + range_cells_upto(r, z as int),
                cells@ == first_occurrences(seen),
            decreases r.max_z + 1 - z,
        {
            let ghost row_start = seen;
            let mut x: i64 = r.min_x as i64;
            while x <= r.max_x as i64
                invariant
                    r.min_z <= z <= r.max_z,
                    r.min_x <= x <= r.max_x + 1 || (x == r.min_x && r.max_x < r.min_x),
                    seen == row_start + row_cells(z as int, r.min_x as int, x as int),
                    cells@ == first_occurrences(seen),
                decreases r.max_x + 1 - x,
            {
                let c = (x as i32, z as i32);
                proof {
                    let s0 = seen;
                    seen = seen.push(c);
                    assert(seen.drop_last() == s0);
                    assert(seen =~= row_start + row_cells(z as int, r.min_x as int, x + 1));
                }
                if !listed(&cells, c) {
                    cells.push(c);
                }
                x = x + 1;
            }
            proof {
                if r.max_x < r.min_x {
                    assert(row_cells(z as int, r.min_x as int, r.max_x + 1) =~= Seq::empty());
                }
                assert(seen =~= done + range_cells_upto(r, z + 1));
            }
            z = z + 1;
        }
        proof {
            if r.max_z < r.min_z {
                assert(range_cells_upto(r, z as int) =~= Seq::empty());
                assert(range_cells(r) =~= Seq::empty());
            }
            assert(ranges@.take(k + 1).drop_last() =~= ranges@.take(k as int));
            assert(ranges@.take(k + 1).last() == r);
            assert(seen =~= ranges_cells(ranges@.take(k + 1)));
        }
        k = k + 1;
    }
    assert(ranges@.take(ranges@.len() as int) =~= ranges@);
    cells
}

/// What `distinct_cells` returns holds each covered cell exactly once.
pub proof fn lemma_distinct_cells(ranges: Seq<CellRange>)
    ensures
        first_occurrences(ranges_cells(ranges)).no_duplicates(),
        forall|x: i32, z: i32|
            first_occurrences(ranges_cells(ranges)).contains((x, z)) <==> exists|k: int|
                0 <= k < ranges.len() && #[trigger] covers(ranges[k], x as int, z as int),
{
    lemma_first_occurrences(ranges_cells(ranges));
    lemma_ranges_cells(ranges);
    assert forall|x: i32, z: i32|
        first_occurrences(ranges_cells(ranges)).contains((x, z)) <==> exists|k: int|
            0 <= k < ranges.len() && #[trigger] covers(ranges[k], x as int, z as int) by {
        assert(first_occurrences(ranges_cells(ranges)).contains((x, z)) <==> ranges_cells(
            ranges,
        ).contains((x, z)));
    }
}

} // verus!
