//! Boundary geometry: coordinate lists, fan triangulation of rings, and the
//! deduplicated union of the cells that the triangles cover.
use crate::text::{is_float_literal, is_float_text, split_words, string_views, words};
use vstd::prelude::*;

verus! {

/// One vertex, each coordinate kept as the literal text it was read from.
pub struct Point {
    pub latitude: String,
    pub longitude: String,
    pub altitude: String,
}

/// Geometry text that is not a list of coordinate triples.
#[derive(Debug, PartialEq, Eq, Structural)]
pub enum FormatError {
    /// A word of the text is not a floating-point literal.
    InvalidNumber,
    /// The number of values is not a multiple of three.
    NotTriples,
}

pub open spec fn point_view(p: Point) -> (Seq<char>, Seq<char>, Seq<char>) {
    (p.latitude@, p.longitude@, p.altitude@)
}

pub open spec fn points_view(ps: Seq<Point>) -> Seq<(Seq<char>, Seq<char>, Seq<char>)> {
    ps.map_values(|p: Point| point_view(p))
}

pub open spec fn all_float_literals(ws: Seq<Seq<char>>) -> bool {
    forall|i: int| 0 <= i < ws.len() ==> is_float_literal(#[trigger] ws[i])
}

/// The points read from the words `ws`, three values each, in order.
pub open spec fn triples(ws: Seq<Seq<char>>) -> Seq<(Seq<char>, Seq<char>, Seq<char>)> {
    Seq::new(ws.len() / 3, |i: int| (ws[3 * i], ws[3 * i + 1], ws[3 * i + 2]))
}

/// Reads whitespace-separated floating-point values as points, three values to a
/// point in the order latitude, longitude, altitude.
pub fn parse_points(input: &str) -> (r: Result<Vec<Point>, FormatError>)
    ensures
        match r {
            Ok(ps) => all_float_literals(words(input@)) && words(input@).len() % 3 == 0
                && points_view(ps@) == triples(words(input@)),
            Err(FormatError::InvalidNumber) => !all_float_literals(words(input@)),
            Err(FormatError::NotTriples) => all_float_literals(words(input@))
                && words(input@).len() % 3 != 0,
        },
{
    let ws = split_words(input);
    let ghost wv = words(input@);
    let mut i: usize = 0;
    while i < ws.len()
        invariant
            string_views(ws@) == wv,
            wv == words(input@),
            i <= ws@.len(),
            forall|j: int| 0 <= j < i ==> is_float_literal(#[trigger] wv[j]),
        decreases ws.len() - i,
    {
        if !is_float_text(ws[i].as_str()) {
            assert(!is_float_literal(wv[i as int]));
            return Err(FormatError::InvalidNumber);
        }
        i = i + 1;
    }
    if ws.len() % 3 != 0 {
        return Err(FormatError::NotTriples);
    }
    let mut ps: Vec<Point> = Vec::new();
    let mut k: usize = 0;
    while k < ws.len()
        invariant
            string_views(ws@) == wv,
            wv == words(input@),
            ws@.len() % 3 == 0,
            k % 3 == 0,
            k <= ws@.len(),
            ps@.len() == k / 3,
            forall|j: int|
                0 <= j < ps@.len() ==> #[trigger] point_view(ps@[j]) == (
                wv[3 * j],
                wv[3 * j + 1],
                wv[3 * j + 2],
            ),
        decreases ws.len() - k,
    {
        assert(k + 3 <= ws@.len()) by (nonlinear_arith)
            requires
                k % 3 == 0,
                ws@.len() % 3 == 0,
                k < ws@.len(),
        ;
        let p = Point {
            latitude: ws[k].clone(),
            longitude: ws[k + 1].clone(),
            altitude: ws[k + 2].clone(),
        };
        ps.push(p);
        k = k + 3;
    }
    assert(points_view(ps@) =~= triples(wv));
    Ok(ps)
}

/// Number of triangles in the fan of a ring of `n` points.
pub open spec fn fan_size(n: int) -> int {
    if n < 3 {
        0
    } else {
        n - 2
    }
}

/// The fan triangulation of a ring of `n` points, as vertex indices: every
/// triangle shares the first point and takes two consecutive others.
pub open spec fn fan(n: int) -> Seq<(usize, usize, usize)> {
    Seq::new(fan_size(n) as nat, |i: int| (0usize, (i + 1) as usize, (i + 2) as usize))
}

/// The triangles of the fan over `points`, as indices into it.
pub fn fan_triangles(points: &Vec<Point>) -> (r: Vec<(usize, usize, usize)>)
    ensures
        r@ == fan(points@.len() as int),
{
    let n = points.len();
    let mut out: Vec<(usize, usize, usize)> = Vec::new();
    if n < 3 {
        assert(out@ =~= fan(n as int));
        return out;
    }
    let mut i: usize = 1;
    while i + 1 < n
        invariant
            3 <= n == points@.len(),
            1 <= i < n,
            out@ == fan(n as int).take(i - 1),
        decreases n - i,
    {
        out.push((0, i, i + 1));
        i = i + 1;
        assert(out@ =~= fan(n as int).take(i - 1));
    }
    assert(out@ =~= fan(n as int));
    out
}

/// The cells of one batch, as a set of identifiers.
pub open spec fn cell_set(cells: Seq<String>) -> Set<Seq<char>> {
    string_views(cells).to_set()
}

/// The union of the cell sets of `batches`.
pub open spec fn union_all(batches: Seq<Vec<String>>) -> Set<Seq<char>>
    decreases batches.len(),
{
    if batches.len() == 0 {
        Set::empty()
    } else {
        union_all(batches.drop_last()).union(cell_set(batches.last()@))
    }
}

proof fn lemma_cell_set(cells: Seq<String>)
    ensures
        forall|i: int| 0 <= i < cells.len() ==> #[trigger] cell_set(cells).contains(cells[i]@),
        forall|x: Seq<char>|
            #[trigger] cell_set(cells).contains(x) ==> exists|i: int|
                0 <= i < cells.len() && cells[i]@ == x,
{
    assert forall|i: int| 0 <= i < cells.len() implies #[trigger] cell_set(cells).contains(
        cells[i]@,
    ) by {
        assert(string_views(cells)[i] == cells[i]@);
    }
    assert forall|x: Seq<char>| #[trigger] cell_set(cells).contains(x) implies exists|i: int|
        0 <= i < cells.len() && cells[i]@ == x by {
        let i = choose|i: int| 0 <= i < cells.len() && string_views(cells)[i] == x;
        assert(cells[i]@ == x);
    }
}

/// No identifier occurs twice.
pub open spec fn distinct(cells: Seq<String>) -> bool {
    forall|i: int, j: int| 0 <= i < j < cells.len() ==> cells[i]@ != cells[j]@
}

fn contains_text(cells: &Vec<String>, c: &String) -> (r: bool)
    ensures
        r == cell_set(cells@).contains(c@),
{
    let mut i: usize = 0;
    while i < cells.len()
        invariant
            i <= cells@.len(),
            forall|j: int| 0 <= j < i ==> cells@[j]@ != c@,
        decreases cells.len() - i,
    {
        if cells[i] == *c {
            assert(string_views(cells@)[i as int] == c@);
            return true;
        }
        i = i + 1;
    }
    assert(!string_views(cells@).contains(c@));
    false
}

/// Adds to `acc` each cell of `cells` that it does not hold yet.
pub fn add_cells(acc: &mut Vec<String>, cells: &Vec<String>)
    requires
        distinct(old(acc)@),
    ensures
        distinct(final(acc)@),
        cell_set(final(acc)@) == cell_set(old(acc)@).union(cell_set(cells@)),
{
    let ghost start = cell_set(acc@);
    let mut i: usize = 0;
    while i < cells.len()
        invariant
            i <= cells@.len(),
            distinct(acc@),
            cell_set(acc@) == start.union(cell_set(cells@.take(i as int))),
        decreases cells.len() - i,
    {
        let c = &cells[i];
        assert(string_views(cells@.take(i + 1)) =~= string_views(cells@.take(i as int)).push(c@));
        if !contains_text(acc, c) {
            let ghost before = acc@;
            proof {
                lemma_cell_set(before);
            }
            acc.push(c.clone());
            assert(string_views(acc@) =~= string_views(before).push(c@));
            proof {
                string_views(before).lemma_push_to_set_commute(c@);
            }
        }
        proof {
            string_views(cells@.take(i as int)).lemma_push_to_set_commute(c@);
        }
        i = i + 1;
        assert(cell_set(acc@) =~= start.union(cell_set(cells@.take(i as int))));
    }
    assert(cells@.take(cells@.len() as int) =~= cells@);
}

/// The cells of a ring: the union, without repetition, of the cells that each
/// triangle of its fan covers. `covers[i]` holds the cells of the `i`-th
/// triangle of `fan_triangles(points)`; a ring of fewer than three points has
/// none and covers nothing.
pub fn cells_for_ring(points: &Vec<Point>, covers: &Vec<Vec<String>>) -> (r: Vec<String>)
    requires
        covers@.len() == fan_size(points@.len() as int),
    ensures
        distinct(r@),
        cell_set(r@) == union_all(covers@),
        points@.len() < 3 ==> r@.len() == 0,
{
    let mut out: Vec<String> = Vec::new();
    let mut i: usize = 0;
    while i < covers.len()
        invariant
            i <= covers@.len(),
            distinct(out@),
            cell_set(out@) == union_all(covers@.take(i as int)),
        decreases covers.len() - i,
    {
        proof {
            assert(covers@.take(i + 1).drop_last() =~= covers@.take(i as int));
        }
        add_cells(&mut out, &covers[i]);
        i = i + 1;
    }
    assert(covers@.take(covers@.len() as int) =~= covers@);
    if covers.len() == 0 {
        assert(string_views(out@).to_set() =~= Set::empty());
        assert(out@.len() == 0) by {
            if out@.len() > 0 {
                lemma_cell_set(out@);
                assert(cell_set(out@).contains(out@[0]@));
            }
        }
    }
    out
}

/// The cells of a ring do not depend on the order in which each triangle's
/// cells were listed, nor on which of a triangle's two free vertices came
/// first, as far as the covering gives the same cells for both orders.
pub proof fn lemma_ring_cells_ignore_listing(a: Seq<Vec<String>>, b: Seq<Vec<String>>)
    requires
        a.len() == b.len(),
        forall|i: int| 0 <= i < a.len() ==> cell_set(#[trigger] a[i]@) == cell_set(b[i]@),
    ensures
        union_all(a) == union_all(b),
    decreases a.len(),
{
    if a.len() > 0 {
        lemma_ring_cells_ignore_listing(a.drop_last(), b.drop_last());
        assert(cell_set(a[a.len() - 1]@) == cell_set(b[b.len() - 1]@));
    }
}

} // verus!
