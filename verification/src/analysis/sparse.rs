use vstd::prelude::*;

verus! {

/// The structure of a compressed sparse row matrix assembled from entries
/// given by (row, column) keys: the distinct keys in row-major order, and the
/// stored entry each key adds into.  `slots[t]` is the position in
/// `col_indices` of the entry of key `t`.
pub struct SparsePattern {
    pub row_offsets: Vec<usize>,
    pub col_indices: Vec<usize>,
    pub slots: Vec<usize>,
}

pub open spec fn strictly_increasing(s: Seq<usize>) -> bool {
    forall|p: int, q: int| 0 <= p < q < s.len() ==> s[p] < s[q]
}

/// The stored columns of row `r`.
pub open spec fn row_columns(offsets: Seq<usize>, cols: Seq<usize>, r: int) -> Seq<usize> {
    cols.subrange(offsets[r] as int, offsets[r + 1] as int)
}

/// `offsets` and `cols` describe the rows of an `n` by `n` matrix: row `r`
/// stores the columns `cols[offsets[r]..offsets[r + 1]]`, strictly increasing.
pub open spec fn is_compressed_rows(offsets: Seq<usize>, cols: Seq<usize>, n: int) -> bool {
    &&& offsets.len() == n + 1
    &&& offsets[0] == 0
    &&& offsets[n] == cols.len()
    &&& forall|a: int, b: int| 0 <= a <= b <= n ==> #[trigger] offsets[a] <= #[trigger] offsets[b]
    &&& forall|r: int| 0 <= r < n ==> strictly_increasing(#[trigger] row_columns(offsets, cols, r))
    &&& forall|p: int| 0 <= p < cols.len() ==> #[trigger] cols[p] < n
}

/// The stored entry at `slot` is the one of `key`: it lies in the key's row and
/// has the key's column.
pub open spec fn holds_key(offsets: Seq<usize>, cols: Seq<usize>, key: (usize, usize), slot: int) -> bool {
    &&& key.0 + 1 < offsets.len()
    &&& offsets[key.0 as int] <= slot < offsets[key.0 + 1]
    &&& cols[slot] == key.1
}

/// `offsets`, `cols` and `slots` are the pattern of `keys`: every key is held
/// by its slot, and every stored entry is the slot of some key.
pub open spec fn is_pattern_of(
    keys: Seq<(usize, usize)>,
    n: int,
    offsets: Seq<usize>,
    cols: Seq<usize>,
    slots: Seq<usize>,
) -> bool {
    &&& is_compressed_rows(offsets, cols, n)
    &&& slots.len() == keys.len()
    &&& forall|t: int| 0 <= t < keys.len() ==> holds_key(offsets, cols, keys[t], #[trigger] slots[t] as int)
    &&& forall|p: int| 0 <= p < cols.len() ==> #[trigger] is_slot(slots, p)
}

/// Some key's stored entry is at position `p`.
pub open spec fn is_slot(slots: Seq<usize>, p: int) -> bool {
    exists|t: int| 0 <= t < slots.len() && #[trigger] slots[t] == p
}

/// Some key among the first `bound` has row `r` and column `c`.
pub open spec fn key_present(keys: Seq<(usize, usize)>, bound: int, r: int, c: usize) -> bool {
    exists|t: int| 0 <= t < bound && #[trigger] keys[t] == (r as usize, c)
}

/// Total number of entries of a list of rows.
pub open spec fn total_len(rows: Seq<Vec<usize>>) -> nat
    decreases rows.len(),
{
    if rows.len() == 0 {
        0
    } else {
        total_len(rows.drop_last()) + rows.last()@.len()
    }
}

proof fn lemma_total_len_update(rows: Seq<Vec<usize>>, r: int, v: Vec<usize>)
    requires
        0 <= r < rows.len(),
    ensures
        total_len(rows.update(r, v)) == total_len(rows) - rows[r]@.len() + v@.len(),
    decreases rows.len(),
{
    if r < rows.len() - 1 {
        lemma_total_len_update(rows.drop_last(), r, v);
        assert(rows.update(r, v).drop_last() =~= rows.drop_last().update(r, v));
    } else {
        assert(rows.update(r, v).drop_last() =~= rows.drop_last());
    }
}

proof fn lemma_total_len_take(rows: Seq<Vec<usize>>, k: int)
    requires
        0 <= k < rows.len(),
    ensures
        total_len(rows.take(k + 1)) == total_len(rows.take(k)) + rows[k]@.len(),
        total_len(rows.take(k)) <= total_len(rows),
    decreases rows.len(),
{
    assert(rows.take(k + 1).drop_last() =~= rows.take(k));
    if k < rows.len() - 1 {
        lemma_total_len_take(rows.drop_last(), k);
        assert(rows.drop_last().take(k) =~= rows.take(k));
        assert(rows.drop_last().take(k + 1) =~= rows.take(k + 1));
    } else {
        assert(rows.take(k + 1) =~= rows);
    }
}

/// Position in the strictly increasing `row` where `c` is or would go: the
/// number of entries below `c`, and whether `c` is there.
fn locate(row: &Vec<usize>, c: usize) -> (r: (usize, bool))
    requires
        strictly_increasing(row@),
    ensures
        r.0 <= row@.len(),
        forall|q: int| 0 <= q < r.0 ==> row@[q] < c,
        forall|q: int| r.0 <= q < row@.len() ==> row@[q] >= c,
        r.1 == (r.0 < row@.len() && row@[r.0 as int] == c),
        r.1 == row@.contains(c),
{
    let mut k: usize = 0;
    while k < row.len() && row[k] < c
        invariant
            k <= row@.len(),
            strictly_increasing(row@),
            forall|q: int| 0 <= q < k ==> row@[q] < c,
        decreases row@.len() - k,
    {
        k += 1;
    }
    let found = k < row.len() && row[k] == c;
    proof {
        assert forall|q: int| k <= q < row@.len() implies row@[q] >= c by {
            if q > k {
                assert(row@[k as int] < row@[q]);
            }
        }
        if row@.contains(c) {
            let q = choose|q: int| 0 <= q < row@.len() && row@[q] == c;
            assert(q >= k);
            if q > k {
                assert(row@[k as int] < row@[q]);
            }
        }
    }
    (k, found)
}


/// Row by row, the distinct columns of the keys of each row, increasing.
fn distinct_columns_by_row(keys: &Vec<(usize, usize)>, n: usize) -> (rows: Vec<Vec<usize>>)
    requires
        forall|t: int| 0 <= t < keys@.len() ==> (#[trigger] keys@[t]).0 < n && keys@[t].1 < n,
    ensures
        rows@.len() == n,
        total_len(rows@) <= keys@.len(),
        forall|r: int| 0 <= r < n ==> strictly_increasing(#[trigger] rows@[r]@),
        forall|r: int, q: int|
            0 <= r < n && 0 <= q < rows@[r]@.len() ==> #[trigger] rows@[r]@[q] < n,
        forall|t: int|
            0 <= t < keys@.len() ==> rows@[(#[trigger] keys@[t]).0 as int]@.contains(keys@[t].1),
        forall|r: int, q: int|
            0 <= r < n && 0 <= q < rows@[r]@.len() ==> key_present(
                keys@,
                keys@.len() as int,
                r,
                #[trigger] rows@[r]@[q],
            ),
{
    let mut rows: Vec<Vec<usize>> = Vec::new();
    let mut r: usize = 0;
    while r < n
        invariant
            r <= n,
            rows@.len() == r,
            forall|k: int| 0 <= k < r ==> (#[trigger] rows@[k])@.len() == 0,
        decreases n - r,
    {
        rows.push(Vec::new());
        r += 1;
    }
    proof {
        assert forall|k: int| 0 <= k <= rows@.len() implies total_len(#[trigger] rows@.take(k)) == 0 by {
            lemma_total_len_zero(rows@, k);
        }
        assert(rows@.take(rows@.len() as int) =~= rows@);
    }
    let mut i: usize = 0;
    while i < keys.len()
        invariant
            i <= keys@.len(),
            rows@.len() == n,
            forall|t: int| 0 <= t < keys@.len() ==> (#[trigger] keys@[t]).0 < n && keys@[t].1 < n,
            total_len(rows@) <= i,
            forall|r: int| 0 <= r < n ==> strictly_increasing(#[trigger] rows@[r]@),
            forall|r: int, q: int|
                0 <= r < n && 0 <= q < rows@[r]@.len() ==> #[trigger] rows@[r]@[q] < n,
            forall|t: int|
                0 <= t < i ==> rows@[(#[trigger] keys@[t]).0 as int]@.contains(keys@[t].1),
            forall|r: int, q: int|
                0 <= r < n && 0 <= q < rows@[r]@.len() ==> key_present(
                    keys@,
                    i as int,
                    r,
                    #[trigger] rows@[r]@[q],
                ),
        decreases keys@.len() - i,
    {
        let (row, c) = keys[i];
        let ghost old_rows = rows@;
        let (pos, found) = locate(&rows[row], c);
        if !found {
            proof {
                lemma_total_len_update(rows@, row as int, rows@[row as int]);
            }
            rows[row].insert(pos, c);
            proof {
                let old_row = old_rows[row as int]@;
                let new_row = rows@[row as int]@;
                assert(new_row == old_row.insert(pos as int, c));
                assert(rows@ == old_rows.update(row as int, rows@[row as int]));
                lemma_total_len_update(old_rows, row as int, rows@[row as int]);
                assert forall|p: int, q: int| 0 <= p < q < new_row.len() implies new_row[p]
                    < new_row[q] by {
                    if q < pos {
                    } else if q == pos {
                    } else if p < pos {
                        assert(new_row[q] == old_row[q - 1]);
                        assert(old_row[q - 1] >= c);
                    } else if p == pos {
                        assert(new_row[q] == old_row[q - 1]);
                        assert(old_row[q - 1] != c);
                    } else {
                        assert(new_row[p] == old_row[p - 1]);
                        assert(new_row[q] == old_row[q - 1]);
                    }
                }
                assert forall|r: int| 0 <= r < n implies strictly_increasing(#[trigger] rows@[r]@) by {
                    if r != row {
                        assert(rows@[r] == old_rows[r]);
                    }
                }
                assert forall|r: int, q: int|
                    0 <= r < n && 0 <= q < rows@[r]@.len() implies #[trigger] rows@[r]@[q] < n by {
                    if r == row {
                        if q < pos {
                            assert(rows@[r]@[q] == old_row[q]);
                        } else if q > pos {
                            assert(rows@[r]@[q] == old_row[q - 1]);
                        }
                    } else {
                        assert(rows@[r] == old_rows[r]);
                    }
                }
                assert forall|t: int|
                    0 <= t < i + 1 implies rows@[(#[trigger] keys@[t]).0 as int]@.contains(
                    keys@[t].1,
                ) by {
                    if t == i {
                        assert(new_row[pos as int] == c);
                    } else if keys@[t].0 == row {
                        let q = choose|q: int| 0 <= q < old_row.len() && old_row[q] == keys@[t].1;
                        if q < pos {
                            assert(new_row[q] == old_row[q]);
                        } else {
                            assert(new_row[q + 1] == old_row[q]);
                        }
                    } else {
                        assert(rows@[keys@[t].0 as int] == old_rows[keys@[t].0 as int]);
                    }
                }
                assert forall|r: int, q: int|
                    0 <= r < n && 0 <= q < rows@[r]@.len() implies key_present(
                    keys@,
                    i + 1,
                    r,
                    #[trigger] rows@[r]@[q],
                ) by {
                    if r == row {
                        if q < pos {
                            assert(rows@[r]@[q] == old_row[q]);
                            assert(old_rows[r]@[q] == old_row[q]);
                            assert(key_present(keys@, i as int, r, old_rows[r]@[q]));
                        } else if q == pos {
                            assert(keys@[i as int] == (r as usize, rows@[r]@[q]));
                        } else {
                            assert(rows@[r]@[q] == old_row[q - 1]);
                            assert(old_rows[r]@[q - 1] == old_row[q - 1]);
                            assert(key_present(keys@, i as int, r, old_rows[r]@[q - 1]));
                        }
                    } else {
                        assert(rows@[r] == old_rows[r]);
                        assert(old_rows[r]@[q] == rows@[r]@[q]);
                        assert(key_present(keys@, i as int, r, old_rows[r]@[q]));
                    }
                }
            }
        } else {
            proof {
                assert(rows@[row as int]@.contains(keys@[i as int].1));
            }
        }
        i += 1;
    }
    rows
}

proof fn lemma_total_len_zero(rows: Seq<Vec<usize>>, k: int)
    requires
        0 <= k <= rows.len(),
        forall|j: int| 0 <= j < rows.len() ==> (#[trigger] rows[j])@.len() == 0,
    ensures
        total_len(rows.take(k)) == 0,
    decreases k,
{
    if k > 0 {
        lemma_total_len_zero(rows, k - 1);
        assert(rows.take(k).drop_last() =~= rows.take(k - 1));
    }
}


/// The row whose range of stored entries contains position `p`.
proof fn lemma_row_of(offsets: Seq<usize>, m: int, p: int) -> (r: int)
    requires
        0 < m < offsets.len(),
        offsets[0] <= p < offsets[m],
    ensures
        0 <= r < m,
        offsets[r] <= p < offsets[r + 1],
    decreases m,
{
    if offsets[m - 1] <= p {
        m - 1
    } else {
        lemma_row_of(offsets, m - 1, p)
    }
}

/// The compressed sparse row pattern of the entries keyed by `keys` in an `n`
/// by `n` matrix: the distinct keys, row by row in increasing column order,
/// and for each key the position of its stored entry.  Entries with the same
/// key share one stored entry, whose value is the sum of theirs.
pub fn compress(keys: &Vec<(usize, usize)>, n: usize) -> (p: SparsePattern)
    requires
        forall|t: int| 0 <= t < keys@.len() ==> (#[trigger] keys@[t]).0 < n && keys@[t].1 < n,
    ensures
        is_pattern_of(keys@, n as int, p.row_offsets@, p.col_indices@, p.slots@),
{
    let rows = distinct_columns_by_row(keys, n);
    let mut offsets: Vec<usize> = Vec::new();
    offsets.push(0);
    let mut cols: Vec<usize> = Vec::new();
    let mut r: usize = 0;
    proof {
        assert(rows@.take(0) =~= Seq::<Vec<usize>>::empty());
    }
    while r < n
        invariant
            r <= n,
            rows@.len() == n,
            total_len(rows@) <= keys@.len(),
            forall|k: int, q: int|
                0 <= k < n && 0 <= q < rows@[k]@.len() ==> #[trigger] rows@[k]@[q] < n,
            offsets@.len() == r + 1,
            offsets@[0] == 0,
            offsets@[r as int] == cols@.len(),
            cols@.len() == total_len(rows@.take(r as int)),
            forall|a: int, b: int|
                0 <= a <= b <= r ==> #[trigger] offsets@[a] <= #[trigger] offsets@[b],
            forall|k: int| 0 <= k < r ==> #[trigger] row_columns(offsets@, cols@, k) == rows@[k]@,
            forall|p: int| 0 <= p < cols@.len() ==> #[trigger] cols@[p] < n,
        decreases n - r,
    {
        let ghost cols0 = cols@;
        let ghost offsets0 = offsets@;
        proof {
            lemma_total_len_take(rows@, r as int);
            if r + 1 < n {
                lemma_total_len_take(rows@, r + 1);
            } else {
                assert(rows@.take(r + 1) =~= rows@);
            }
        }
        let mut q: usize = 0;
        while q < rows[r].len()
            invariant
                r < n,
                rows@.len() == n,
                q <= rows@[r as int]@.len(),
                cols0.len() + rows@[r as int]@.len() <= keys@.len(),
                cols@ == cols0 + rows@[r as int]@.take(q as int),
                forall|k: int, j: int|
                    0 <= k < n && 0 <= j < rows@[k]@.len() ==> #[trigger] rows@[k]@[j] < n,
            decreases rows@[r as int]@.len() - q,
        {
            cols.push(rows[r][q]);
            proof {
                assert(rows@[r as int]@.take(q + 1) =~= rows@[r as int]@.take(q as int).push(
                    rows@[r as int]@[q as int],
                ));
            }
            q += 1;
        }
        proof {
            assert(rows@[r as int]@.take(q as int) =~= rows@[r as int]@);
        }
        offsets.push(cols.len());
        proof {
            assert forall|k: int| 0 <= k < r + 1 implies #[trigger] row_columns(offsets@, cols@, k)
                == rows@[k]@ by {
                if k < r {
                    assert(offsets@[k] == offsets0[k]);
                    assert(offsets@[k + 1] == offsets0[k + 1]);
                    assert(offsets0[k + 1] <= offsets0[r as int]);
                    assert(row_columns(offsets0, cols0, k) == rows@[k]@);
                    assert(row_columns(offsets@, cols@, k) =~= row_columns(offsets0, cols0, k));
                } else {
                    assert(row_columns(offsets@, cols@, k) =~= rows@[k]@);
                }
            }
            assert forall|a: int, b: int|
                0 <= a <= b <= r + 1 implies #[trigger] offsets@[a] <= #[trigger] offsets@[b] by {
                if b == r + 1 && a <= r {
                    assert(offsets0[a] <= offsets0[r as int]);
                }
            }
            assert forall|p: int| 0 <= p < cols@.len() implies #[trigger] cols@[p] < n by {
                if p >= cols0.len() {
                    assert(cols@[p] == rows@[r as int]@[p - cols0.len()]);
                }
            }
        }
        r += 1;
    }
    proof {
        assert(rows@.take(n as int) =~= rows@);
        assert forall|k: int| 0 <= k < n implies strictly_increasing(
            #[trigger] row_columns(offsets@, cols@, k),
        ) by {
            assert(row_columns(offsets@, cols@, k) == rows@[k]@);
        }
    }
    let mut slots: Vec<usize> = Vec::new();
    let mut t: usize = 0;
    while t < keys.len()
        invariant
            t <= keys@.len(),
            rows@.len() == n,
            forall|u: int| 0 <= u < keys@.len() ==> (#[trigger] keys@[u]).0 < n && keys@[u].1 < n,
            forall|u: int|
                0 <= u < keys@.len() ==> rows@[(#[trigger] keys@[u]).0 as int]@.contains(
                    keys@[u].1,
                ),
            forall|k: int| 0 <= k < n ==> strictly_increasing(#[trigger] rows@[k]@),
            is_compressed_rows(offsets@, cols@, n as int),
            forall|k: int| 0 <= k < n ==> #[trigger] row_columns(offsets@, cols@, k) == rows@[k]@,
            slots@.len() == t,
            forall|u: int|
                0 <= u < t ==> holds_key(offsets@, cols@, keys@[u], #[trigger] slots@[u] as int),
        decreases keys@.len() - t,
    {
        let (row, c) = keys[t];
        proof {
            assert(keys@[t as int] == (row, c));
        }
        let (pos, found) = locate(&rows[row], c);
        proof {
            assert(row_columns(offsets@, cols@, row as int) == rows@[row as int]@);
            assert(offsets@[row as int] <= offsets@[row + 1]);
            assert(offsets@[row + 1] <= offsets@[n as int]);
            assert(cols@[offsets@[row as int] + pos] == rows@[row as int]@[pos as int]);
        }
        slots.push(offsets[row] + pos);
        t += 1;
    }
    proof {
        let o = offsets@;
        let cs = cols@;
        assert forall|p: int| 0 <= p < cs.len() implies #[trigger] is_slot(slots@, p) by {
            assert(o[0] <= p < o[n as int]);
            let k = lemma_row_of(o, n as int, p);
            let j = p - o[k];
            assert(row_columns(o, cs, k) == rows@[k]@);
            assert(cs[p] == rows@[k]@[j]);
            assert(key_present(keys@, keys@.len() as int, k, rows@[k]@[j]));
            let u = choose|u: int|
                0 <= u < keys@.len() && #[trigger] keys@[u] == (k as usize, rows@[k]@[j]);
            assert(holds_key(o, cs, keys@[u], slots@[u] as int));
            let s = slots@[u] as int;
            let row = row_columns(o, cs, k);
            assert(row[s - o[k]] == row[j]);
            if s - o[k] < j {
                assert(row[s - o[k]] < row[j]);
            } else if s - o[k] > j {
                assert(row[j] < row[s - o[k]]);
            }
            assert(slots@[u] == p);
        }
        assert(is_compressed_rows(o, cs, n as int));
        assert(slots@.len() == keys@.len());
        assert(forall|u: int|
            0 <= u < keys@.len() ==> holds_key(o, cs, keys@[u], #[trigger] slots@[u] as int));
    }
    SparsePattern { row_offsets: offsets, col_indices: cols, slots }
}


/// Two keys share a stored entry exactly when they are the same key: the
/// stored value at a position is the sum of the entries of one key, and of all
/// of them.
pub proof fn lemma_slots_identify_keys(
    keys: Seq<(usize, usize)>,
    n: int,
    offsets: Seq<usize>,
    cols: Seq<usize>,
    slots: Seq<usize>,
    t: int,
    u: int,
)
    requires
        is_pattern_of(keys, n, offsets, cols, slots),
        0 <= t < keys.len(),
        0 <= u < keys.len(),
    ensures
        (slots[t] == slots[u]) <==> (keys[t] == keys[u]),
{
    assert(holds_key(offsets, cols, keys[t], slots[t] as int));
    assert(holds_key(offsets, cols, keys[u], slots[u] as int));
    let (rt, ct) = keys[t];
    let (ru, cu) = keys[u];
    if keys[t] == keys[u] {
        let row = row_columns(offsets, cols, rt as int);
        assert(strictly_increasing(row));
        let a = slots[t] - offsets[rt as int];
        let b = slots[u] - offsets[rt as int];
        assert(row[a] == ct);
        assert(row[b] == ct);
        if a < b {
            assert(row[a] < row[b]);
        } else if b < a {
            assert(row[b] < row[a]);
        }
    }
    if slots[t] == slots[u] {
        if rt < ru {
            assert(offsets[rt + 1] <= offsets[ru as int]);
        } else if ru < rt {
            assert(offsets[ru + 1] <= offsets[rt as int]);
        }
    }
}

/// Looking up a key in the pattern of a list of keys finds the entry that the
/// key was given: a stored entry in the key's row with the key's column is
/// the key's slot, and a row that stores no entry at a column has no key
/// there.
pub proof fn lemma_lookup_finds_slot(
    keys: Seq<(usize, usize)>,
    n: int,
    offsets: Seq<usize>,
    cols: Seq<usize>,
    slots: Seq<usize>,
    t: int,
    p: int,
)
    requires
        is_pattern_of(keys, n, offsets, cols, slots),
        0 <= t < keys.len(),
    ensures
        offsets[keys[t].0 as int] <= p < offsets[keys[t].0 + 1] && cols[p] == keys[t].1 ==> p == slots[t],
        row_columns(offsets, cols, keys[t].0 as int).contains(keys[t].1),
{
    assert(holds_key(offsets, cols, keys[t], slots[t] as int));
    let (r, c) = keys[t];
    let row = row_columns(offsets, cols, r as int);
    assert(r < n);
    assert(strictly_increasing(row));
    let b = slots[t] - offsets[r as int];
    assert(row[b] == c);
    if offsets[r as int] <= p < offsets[r + 1] && cols[p] == c {
        let a = p - offsets[r as int];
        assert(row[a] == c);
        if a < b {
            assert(row[a] < row[b]);
        } else if b < a {
            assert(row[b] < row[a]);
        }
    }
}

/// The position of the stored entry at (`row`, `col`), if there is one.
pub fn find_entry(offsets: &Vec<usize>, cols: &Vec<usize>, n: usize, row: usize, col: usize) -> (r: Option<usize>)
    requires
        is_compressed_rows(offsets@, cols@, n as int),
        row < n,
    ensures
        r matches Some(p) ==> offsets@[row as int] <= p < offsets@[row + 1] && cols@[p as int] == col,
        r is None ==> !row_columns(offsets@, cols@, row as int).contains(col),
{
    proof {
        assert(offsets@[row as int] <= offsets@[row + 1]);
        assert(offsets@[row + 1] <= offsets@[n as int]);
    }
    let mut p = offsets[row];
    let end = offsets[row + 1];
    while p < end
        invariant
            offsets@[row as int] <= p <= end,
            end == offsets@[row + 1],
            end <= cols@.len(),
            forall|k: int| offsets@[row as int] <= k < p ==> cols@[k] != col,
        decreases end - p,
    {
        if cols[p] == col {
            return Some(p);
        }
        p += 1;
    }
    proof {
        let rc = row_columns(offsets@, cols@, row as int);
        assert forall|k: int| 0 <= k < rc.len() implies rc[k] != col by {
            assert(rc[k] == cols@[offsets@[row as int] + k]);
        }
    }
    None
}

} // verus!
