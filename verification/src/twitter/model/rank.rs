use vstd::prelude::*;

verus! {

/// Row `i` comes before row `j`: by its key, in the chosen direction, and
/// by its position where the keys are equal. Both rows have a key.
pub open spec fn precedes(keys: Seq<Option<i64>>, descending: bool, i: int, j: int) -> bool {
    let a = keys[i]->0;
    let b = keys[j]->0;
    if descending {
        a > b || (a == b && i < j)
    } else {
        a < b || (a == b && i < j)
    }
}

/// Row `j` stands in the list `r`.
pub open spec fn listed(r: Seq<usize>, j: int) -> bool {
    exists|k: int| 0 <= k < r.len() && r[k] == j
}

/// `r` lists the first rows in rank order, up to `limit` of them: only
/// rows that have a key, each before the next, and no row left out that
/// comes before a listed one. A list shorter than `limit` leaves no row
/// out at all.
pub open spec fn is_ranking(
    keys: Seq<Option<i64>>,
    descending: bool,
    limit: nat,
    r: Seq<usize>,
) -> bool {
    &&& r.len() <= limit
    &&& forall|k: int| 0 <= k < r.len() ==> r[k] < keys.len() && (#[trigger] keys[r[k] as int]) is Some
    &&& forall|k: int, l: int|
        0 <= k < l < r.len() ==> #[trigger] precedes(keys, descending, r[k] as int, r[l] as int)
    &&& forall|j: int, k: int|
        0 <= j < keys.len() && keys[j] is Some && !listed(r, j) && 0 <= k < r.len()
            ==> #[trigger] precedes(keys, descending, r[k] as int, j)
    &&& forall|j: int|
        0 <= j < keys.len() && keys[j] is Some && !#[trigger] listed(r, j) ==> r.len() == limit
}

/// Whether row `i` comes before row `j`.
pub fn comes_before(keys: &Vec<Option<i64>>, descending: bool, i: usize, j: usize) -> (r: bool)
    requires
        i < keys.len(),
        j < keys.len(),
        keys@[i as int] is Some,
        keys@[j as int] is Some,
    ensures
        r == precedes(keys@, descending, i as int, j as int),
{
    let a: i64 = match keys[i] {
        Some(a) => a,
        None => 0,
    };
    let b: i64 = match keys[j] {
        Some(b) => b,
        None => 0,
    };
    if descending {
        a > b || (a == b && i < j)
    } else {
        a < b || (a == b && i < j)
    }
}

/// The rows that have a key, in rank order, up to `limit` of them.
pub fn rank(keys: &Vec<Option<i64>>, descending: bool, limit: usize) -> (r: Vec<usize>)
    ensures
        is_ranking(keys@, descending, limit as nat, r@),
{
    let mut out: Vec<usize> = Vec::new();
    while out.len() < limit
        invariant
            out.len() <= limit,
            forall|k: int|
                0 <= k < out.len() ==> out@[k] < keys.len() && (#[trigger] keys@[out@[k] as int])
                    is Some,
            forall|k: int, l: int|
                0 <= k < l < out.len() ==> #[trigger] precedes(
                    keys@,
                    descending,
                    out@[k] as int,
                    out@[l] as int,
                ),
            forall|j: int, k: int|
                0 <= j < keys.len() && keys@[j] is Some && !listed(out@, j) && 0 <= k < out.len()
                    ==> #[trigger] precedes(keys@, descending, out@[k] as int, j),
        ensures
            is_ranking(keys@, descending, limit as nat, out@),
        decreases limit - out.len(),
    {
        let mut best: Option<usize> = None;
        let mut j: usize = 0;
        while j < keys.len()
            invariant
                j <= keys.len(),
                forall|k: int|
                    0 <= k < out.len() ==> out@[k] < keys.len() && (#[trigger] keys@[out@[k] as int])
                        is Some,
                match best {
                    Some(b) => {
                        &&& b < j
                        &&& keys@[b as int] is Some
                        &&& out.len() > 0 ==> precedes(
                            keys@,
                            descending,
                            out@[out.len() - 1] as int,
                            b as int,
                        )
                        &&& forall|i: int|
                            0 <= i < j && i != b && keys@[i] is Some && (out.len() > 0 ==> precedes(
                                keys@,
                                descending,
                                out@[out.len() - 1] as int,
                                i,
                            )) ==> #[trigger] precedes(keys@, descending, b as int, i)
                    },
                    None => forall|i: int|
                        0 <= i < j && (#[trigger] keys@[i]) is Some ==> out.len() > 0 && !precedes(
                            keys@,
                            descending,
                            out@[out.len() - 1] as int,
                            i,
                        ),
                },
            decreases keys.len() - j,
        {
            if keys[j].is_some() && (out.len() == 0 || comes_before(
                keys,
                descending,
                out[out.len() - 1],
                j,
            )) {
                match best {
                    None => { best = Some(j); },
                    Some(b) => {
                        if comes_before(keys, descending, j, b) {
                            proof {
                                assert forall|i: int|
                                    0 <= i < j && keys@[i] is Some && (out.len() > 0 ==> precedes(
                                        keys@,
                                        descending,
                                        out@[out.len() - 1] as int,
                                        i,
                                    )) implies #[trigger] precedes(
                                    keys@,
                                    descending,
                                    j as int,
                                    i,
                                ) by {
                                    if i != b {
                                        assert(precedes(keys@, descending, b as int, i));
                                    }
                                }
                            }
                            best = Some(j);
                        }
                    },
                }
            }
            j += 1;
        }
        match best {
            None => {
                proof {
                    assert forall|i: int|
                        0 <= i < keys.len() && keys@[i] is Some implies #[trigger] listed(
                        out@,
                        i,
                    ) by {
                        if !listed(out@, i) {
                            assert(precedes(keys@, descending, out@[out.len() - 1] as int, i));
                        }
                    }
                }
                break ;
            },
            Some(b) => {
                let ghost before = out@;
                out.push(b);
                proof {
                    assert forall|k: int, l: int| 0 <= k < l < out.len() implies #[trigger] precedes(
                        keys@,
                        descending,
                        out@[k] as int,
                        out@[l] as int,
                    ) by {
                        if l == before.len() {
                            let last = before.len() - 1;
                            if k < last {
                                assert(precedes(
                                    keys@,
                                    descending,
                                    before[k] as int,
                                    before[last] as int,
                                ));
                            }
                        } else {
                            assert(precedes(keys@, descending, before[k] as int, before[l] as int));
                        }
                    }
                    assert forall|i: int, k: int|
                        0 <= i < keys.len() && keys@[i] is Some && !listed(out@, i) && 0 <= k
                            < out.len() implies #[trigger] precedes(
                        keys@,
                        descending,
                        out@[k] as int,
                        i,
                    ) by {
                        assert(out@[before.len() as int] == b);
                        if listed(before, i) {
                            let w = choose|w: int| 0 <= w < before.len() && before[w] == i;
                            assert(out@[w] == i);
                        }
                        if k < before.len() {
                            assert(precedes(keys@, descending, before[k] as int, i));
                        } else {
                            if before.len() > 0 {
                                assert(precedes(
                                    keys@,
                                    descending,
                                    before[before.len() - 1] as int,
                                    i,
                                ));
                            }
                        }
                    }
                }
            },
        }
    }
    out
}

/// No two rows have the same key.
pub open spec fn distinct_keys(keys: Seq<Option<i64>>) -> bool {
    forall|i: int, j: int|
        0 <= i < keys.len() && 0 <= j < keys.len() && i != j && keys[i] is Some && keys[j] is Some
            ==> keys[i] != keys[j]
}

/// The keys that lie below a cursor; a row at or above it has none.
pub open spec fn below(keys: Seq<Option<i64>>, cursor: i64) -> Seq<Option<i64>> {
    Seq::new(
        keys.len(),
        |i: int|
            if keys[i] is Some && keys[i]->0 < cursor {
                keys[i]
            } else {
                None
            },
    )
}

/// There is one ranking only.
pub proof fn lemma_ranking_unique(
    keys: Seq<Option<i64>>,
    descending: bool,
    limit: nat,
    a: Seq<usize>,
    b: Seq<usize>,
)
    requires
        is_ranking(keys, descending, limit, a),
        is_ranking(keys, descending, limit, b),
    ensures
        a == b,
{
    lemma_ranking_prefix(keys, descending, limit, a, b, if a.len() <= b.len() {
        a.len()
    } else {
        b.len()
    });
    if a.len() <= b.len() {
        lemma_same_length(keys, descending, limit, a, b);
    } else {
        lemma_same_length(keys, descending, limit, b, a);
    }
    assert(a =~= b);
}

/// A ranking that agrees with a shorter one on all of the shorter one is
/// no longer than it.
proof fn lemma_same_length(
    keys: Seq<Option<i64>>,
    descending: bool,
    limit: nat,
    a: Seq<usize>,
    b: Seq<usize>,
)
    requires
        is_ranking(keys, descending, limit, a),
        is_ranking(keys, descending, limit, b),
        a.len() <= b.len(),
        forall|k: int| 0 <= k < a.len() ==> a[k] == b[k],
    ensures
        a.len() == b.len(),
{
    if a.len() < b.len() {
        let j = b[a.len() as int] as int;
        assert(keys[b[a.len() as int] as int] is Some);
        if listed(a, j) {
            let w = choose|w: int| 0 <= w < a.len() && a[w] == j;
            assert(precedes(keys, descending, b[w] as int, b[a.len() as int] as int));
        }
    }
}

proof fn lemma_ranking_prefix(
    keys: Seq<Option<i64>>,
    descending: bool,
    limit: nat,
    a: Seq<usize>,
    b: Seq<usize>,
    n: nat,
)
    requires
        is_ranking(keys, descending, limit, a),
        is_ranking(keys, descending, limit, b),
        n <= a.len(),
        n <= b.len(),
    ensures
        forall|k: int| 0 <= k < n ==> a[k] == b[k],
    decreases n,
{
    if n > 0 {
        lemma_ranking_prefix(keys, descending, limit, a, b, (n - 1) as nat);
        let k = n - 1;
        let x = a[k] as int;
        let y = b[k] as int;
        assert(keys[a[k] as int] is Some);
        assert(keys[b[k] as int] is Some);
        if x != y {
            lemma_not_listed_before(keys, descending, limit, a, b, k);
            lemma_not_listed_before(keys, descending, limit, b, a, k);
            if !listed(b, x) {
                assert(precedes(keys, descending, b[k] as int, x));
            }
            if !listed(a, y) {
                assert(precedes(keys, descending, a[k] as int, y));
            }
            if listed(b, x) {
                let w = choose|w: int| 0 <= w < b.len() && b[w] == x;
                assert(w > k);
                assert(precedes(keys, descending, b[k] as int, b[w] as int));
            }
            if listed(a, y) {
                let w = choose|w: int| 0 <= w < a.len() && a[w] == y;
                assert(w > k);
                assert(precedes(keys, descending, a[k] as int, a[w] as int));
            }
        }
    }
}

/// Where two rankings agree before position `k`, the row at `k` of the
/// one does not stand at or before `k` in the other, unless it is the same.
proof fn lemma_not_listed_before(
    keys: Seq<Option<i64>>,
    descending: bool,
    limit: nat,
    a: Seq<usize>,
    b: Seq<usize>,
    k: int,
)
    requires
        is_ranking(keys, descending, limit, a),
        is_ranking(keys, descending, limit, b),
        0 <= k < a.len(),
        k < b.len(),
        forall|i: int| 0 <= i < k ==> a[i] == b[i],
        a[k] != b[k],
    ensures
        forall|w: int| 0 <= w <= k ==> b[w] != a[k],
{
    assert forall|w: int| 0 <= w <= k implies b[w] != a[k] by {
        if w < k {
            assert(precedes(keys, descending, a[w] as int, a[k] as int));
        }
    }
}

/// The cursor with which page `p` of a walk is asked for: the first
/// cursor, then the key of the last row of the page before.
pub open spec fn cursor_at(
    keys: Seq<Option<i64>>,
    first_cursor: i64,
    pages: Seq<Seq<usize>>,
    p: int,
) -> i64 {
    if p <= 0 {
        first_cursor
    } else {
        keys[pages[p - 1].last() as int]->0
    }
}

/// `pages` is what a reader gets who asks for page after page, each time
/// with the key of the last row seen, until a page comes back short: each
/// page ranks, by falling key, the rows below its cursor.
pub open spec fn is_walk(
    keys: Seq<Option<i64>>,
    limit: nat,
    first_cursor: i64,
    pages: Seq<Seq<usize>>,
) -> bool {
    &&& pages.len() > 0
    &&& forall|p: int|
        0 <= p < pages.len() ==> is_ranking(
            below(keys, cursor_at(keys, first_cursor, pages, p)),
            true,
            limit,
            #[trigger] pages[p],
        )
    &&& forall|p: int| 0 <= p < pages.len() - 1 ==> (#[trigger] pages[p]).len() > 0
    &&& pages.last().len() < limit
}

/// A row of page `q` has a key below the page's cursor and, where another
/// page follows, at or above the next cursor.
proof fn lemma_page_bounds(
    keys: Seq<Option<i64>>,
    limit: nat,
    first_cursor: i64,
    pages: Seq<Seq<usize>>,
    q: int,
    l: int,
)
    requires
        is_walk(keys, limit, first_cursor, pages),
        0 <= q < pages.len(),
        0 <= l < pages[q].len(),
    ensures
        pages[q][l] < keys.len(),
        keys[pages[q][l] as int] is Some,
        keys[pages[q][l] as int]->0 < cursor_at(keys, first_cursor, pages, q),
        q + 1 < pages.len() ==> keys[pages[q][l] as int]->0 >= cursor_at(
            keys,
            first_cursor,
            pages,
            q + 1,
        ),
{
    let c = cursor_at(keys, first_cursor, pages, q);
    let page = pages[q];
    assert(is_ranking(below(keys, c), true, limit, page));
    assert(below(keys, c)[page[l] as int] is Some);
    let last = page.len() - 1;
    assert(below(keys, c)[page[last] as int] is Some);
    if l < last {
        assert(precedes(below(keys, c), true, page[l] as int, page[last] as int));
    }
}

/// Cursors never rise along a walk.
proof fn lemma_cursors_fall(
    keys: Seq<Option<i64>>,
    limit: nat,
    first_cursor: i64,
    pages: Seq<Seq<usize>>,
    p: int,
    q: int,
)
    requires
        is_walk(keys, limit, first_cursor, pages),
        0 <= p <= q < pages.len(),
    ensures
        cursor_at(keys, first_cursor, pages, q) <= cursor_at(keys, first_cursor, pages, p),
    decreases q - p,
{
    if p < q {
        lemma_cursors_fall(keys, limit, first_cursor, pages, p, q - 1);
        assert(pages[q - 1].len() > 0);
        lemma_page_bounds(keys, limit, first_cursor, pages, q - 1, pages[q - 1].len() - 1);
    }
}

/// A row below the first cursor stands in a page before `p`, or lies
/// below the cursor of page `p`.
proof fn lemma_cover(
    keys: Seq<Option<i64>>,
    limit: nat,
    first_cursor: i64,
    pages: Seq<Seq<usize>>,
    p: int,
    j: int,
)
    requires
        is_walk(keys, limit, first_cursor, pages),
        distinct_keys(keys),
        0 <= p < pages.len(),
        0 <= j < keys.len(),
        keys[j] is Some,
        keys[j]->0 < first_cursor,
    ensures
        (exists|q: int| 0 <= q < p && listed(pages[q], j)) || keys[j]->0 < cursor_at(
            keys,
            first_cursor,
            pages,
            p,
        ),
    decreases p,
{
    if p > 0 {
        lemma_cover(keys, limit, first_cursor, pages, p - 1, j);
        if exists|q: int| 0 <= q < p - 1 && listed(pages[q], j) {
            let q = choose|q: int| 0 <= q < p - 1 && listed(pages[q], j);
            assert(0 <= q < p && listed(pages[q], j));
        } else {
            let c = cursor_at(keys, first_cursor, pages, p - 1);
            let page = pages[p - 1];
            assert(is_ranking(below(keys, c), true, limit, page));
            if listed(page, j) {
                assert(0 <= p - 1 < p && listed(pages[p - 1], j));
            } else {
                assert(page.len() > 0);
                let last = page.len() - 1;
                assert(below(keys, c)[j] is Some);
                assert(precedes(below(keys, c), true, page[last] as int, j));
                assert(below(keys, c)[page[last] as int] is Some);
                assert(page[last] != j) by {
                    if page[last] == j {
                        assert(listed(page, j));
                    }
                }
            }
        }
    }
}

/// Paging is complete and free of repetition. Where no two rows have the
/// same key, the pages of a walk hold every row below the first cursor,
/// and their rows come with strictly falling keys, within a page and from
/// one page to the next: so no row comes twice. No page is longer than
/// the limit.
pub proof fn lemma_pages_enumerate(
    keys: Seq<Option<i64>>,
    limit: nat,
    first_cursor: i64,
    pages: Seq<Seq<usize>>,
)
    requires
        is_walk(keys, limit, first_cursor, pages),
        distinct_keys(keys),
    ensures
        forall|j: int|
            0 <= j < keys.len() && keys[j] is Some && keys[j]->0 < first_cursor ==> exists|q: int|
                0 <= q < pages.len() && #[trigger] listed(pages[q], j),
        forall|p: int, k: int, q: int, l: int|
            0 <= p < pages.len() && 0 <= q < pages.len() && 0 <= k < pages[p].len() && 0 <= l
                < pages[q].len() && (p < q || (p == q && k < l)) ==> (#[trigger] keys[pages[p][k] as int])->0
                > (#[trigger] keys[pages[q][l] as int])->0,
        forall|p: int| 0 <= p < pages.len() ==> (#[trigger] pages[p]).len() <= limit,
{
    let last_page = pages.len() - 1;
    assert forall|j: int|
        0 <= j < keys.len() && keys[j] is Some && keys[j]->0 < first_cursor implies exists|q: int|
        0 <= q < pages.len() && #[trigger] listed(pages[q], j) by {
        lemma_cover(keys, limit, first_cursor, pages, last_page, j);
        if exists|q: int| 0 <= q < last_page && listed(pages[q], j) {
            let q = choose|q: int| 0 <= q < last_page && listed(pages[q], j);
            assert(0 <= q < pages.len() && listed(pages[q], j));
        } else {
            let c = cursor_at(keys, first_cursor, pages, last_page);
            assert(is_ranking(below(keys, c), true, limit, pages[last_page]));
            assert(below(keys, c)[j] is Some);
            assert(listed(pages[last_page], j));
        }
    }
    assert forall|p: int, k: int, q: int, l: int|
        0 <= p < pages.len() && 0 <= q < pages.len() && 0 <= k < pages[p].len() && 0 <= l
            < pages[q].len() && (p < q || (p == q && k < l)) implies (#[trigger] keys[pages[p][k] as int])->0
        > (#[trigger] keys[pages[q][l] as int])->0 by {
        lemma_page_bounds(keys, limit, first_cursor, pages, p, k);
        lemma_page_bounds(keys, limit, first_cursor, pages, q, l);
        if p < q {
            lemma_cursors_fall(keys, limit, first_cursor, pages, p + 1, q);
        } else {
            let c = cursor_at(keys, first_cursor, pages, p);
            assert(is_ranking(below(keys, c), true, limit, pages[p]));
            assert(precedes(below(keys, c), true, pages[p][k] as int, pages[p][l] as int));
            assert(below(keys, c)[pages[p][k] as int] is Some);
            assert(below(keys, c)[pages[p][l] as int] is Some);
        }
    }
    assert forall|p: int| 0 <= p < pages.len() implies (#[trigger] pages[p]).len() <= limit by {
        let c = cursor_at(keys, first_cursor, pages, p);
        assert(is_ranking(below(keys, c), true, limit, pages[p]));
    }
}

/// A list without repetition of numbers from 0 up to `n`, `n` left out,
/// has at most `n` entries.
pub proof fn lemma_pigeonhole(r: Seq<int>, n: nat)
    requires
        forall|k: int| 0 <= k < r.len() ==> 0 <= (#[trigger] r[k]) < n,
        forall|k: int, l: int| 0 <= k < l < r.len() ==> r[k] != r[l],
    ensures
        r.len() <= n,
    decreases n,
{
    if r.len() > 0 {
        if n == 0 {
            assert(r[0] < n);
        } else {
            if exists|w: int| 0 <= w < r.len() && r[w] == n - 1 {
                let w = choose|w: int| 0 <= w < r.len() && r[w] == n - 1;
                let rest = r.remove(w);
                assert forall|k: int| 0 <= k < rest.len() implies 0 <= (#[trigger] rest[k]) < n
                    - 1 by {
                    if k < w {
                        assert(rest[k] == r[k]);
                        assert(r[k] != r[w]);
                    } else {
                        assert(rest[k] == r[k + 1]);
                        assert(r[w] != r[k + 1]);
                    }
                }
                assert forall|k: int, l: int| 0 <= k < l < rest.len() implies rest[k] != rest[l] by {
                    let a = if k < w {
                        k
                    } else {
                        k + 1
                    };
                    let b = if l < w {
                        l
                    } else {
                        l + 1
                    };
                    assert(rest[k] == r[a] && rest[l] == r[b]);
                }
                lemma_pigeonhole(rest, (n - 1) as nat);
            } else {
                assert forall|k: int| 0 <= k < r.len() implies 0 <= (#[trigger] r[k]) < n - 1 by {
                    assert(r[k] < n);
                }
                lemma_pigeonhole(r, (n - 1) as nat);
            }
        }
    }
}

/// `r` lists every row that has a key, in rank order.
pub open spec fn is_full_ranking(keys: Seq<Option<i64>>, descending: bool, r: Seq<usize>) -> bool {
    &&& is_ranking(keys, descending, keys.len(), r)
    &&& forall|j: int| 0 <= j < keys.len() && keys[j] is Some ==> #[trigger] listed(r, j)
}

/// A ranking with room for every row leaves none out.
pub proof fn lemma_ranking_is_full(keys: Seq<Option<i64>>, descending: bool, r: Seq<usize>)
    requires
        is_ranking(keys, descending, keys.len(), r),
    ensures
        is_full_ranking(keys, descending, r),
{
    assert forall|j: int| 0 <= j < keys.len() && keys[j] is Some implies #[trigger] listed(
        r,
        j,
    ) by {
        if !listed(r, j) {
            let longer = Seq::new(
                r.len() + 1,
                |k: int|
                    if k < r.len() {
                        r[k] as int
                    } else {
                        j
                    },
            );
            assert forall|k: int| 0 <= k < longer.len() implies 0 <= (#[trigger] longer[k])
                < keys.len() by {
                if k < r.len() {
                    assert(keys[r[k] as int] is Some);
                }
            }
            assert forall|k: int, l: int| 0 <= k < l < longer.len() implies longer[k]
                != longer[l] by {
                if l < r.len() {
                    assert(precedes(keys, descending, r[k] as int, r[l] as int));
                } else {
                    if longer[k] == j {
                        assert(r[k] == j);
                        assert(listed(r, j));
                    }
                }
            }
            lemma_pigeonhole(longer, keys.len());
        }
    }
}

/// Every row that has a key, in rank order.
pub fn rank_all(keys: &Vec<Option<i64>>, descending: bool) -> (r: Vec<usize>)
    ensures
        is_full_ranking(keys@, descending, r@),
{
    let r = rank(keys, descending, keys.len());
    proof {
        lemma_ranking_is_full(keys@, descending, r@);
    }
    r
}

/// `w` names `limit` different rows that have a key.
pub open spec fn page_worth(keys: Seq<Option<i64>>, limit: nat, w: Seq<int>) -> bool {
    &&& w.len() == limit
    &&& forall|j: int| 0 <= j < w.len() ==> 0 <= (#[trigger] w[j]) < keys.len() && keys[w[j]] is Some
    &&& forall|j: int, l: int| 0 <= j < l < w.len() ==> w[j] != w[l]
}

/// Where as many rows have a key as the limit allows, the ranking is full.
pub proof fn lemma_full_page(
    keys: Seq<Option<i64>>,
    descending: bool,
    limit: nat,
    r: Seq<usize>,
    w: Seq<int>,
)
    requires
        is_ranking(keys, descending, limit, r),
        page_worth(keys, limit, w),
    ensures
        r.len() == limit,
{
    if r.len() < limit {
        let at = Seq::new(w.len(), |j: int| choose|k: int| 0 <= k < r.len() && r[k] == w[j]);
        assert forall|j: int| 0 <= j < at.len() implies 0 <= (#[trigger] at[j]) < r.len() && r[at[j]]
            == w[j] by {
            assert(0 <= w[j] < keys.len() && keys[w[j]] is Some);
            assert(listed(r, w[j]));
        }
        assert forall|j: int, l: int| 0 <= j < l < at.len() implies at[j] != at[l] by {
            assert(r[at[j]] == w[j] && r[at[l]] == w[l]);
        }
        lemma_pigeonhole(at, r.len());
    }
}

} // verus!
