//! Stable sorting by composite keys.
//!
//! Pages list people and rewards in an order built from several stable sorts by
//! string and integer keys. A sort key here is a sequence of parts compared
//! lexicographically; the sort returns the order in which the rows are to be shown,
//! as indices into the input, so that it works for rows of any type.
use vstd::prelude::*;
use crate::text::{text_order, lemma_text_order_basics, lemma_text_order_transitive, compare_text};

verus! {

/// One component of a sort key.
pub enum KeyPart {
    Num(i64),
    Text(String),
}

/// Order of two key parts: numbers numerically, texts as `str` orders them,
/// and a number before a text.
pub open spec fn part_order(a: KeyPart, b: KeyPart) -> int {
    match a {
        KeyPart::Num(x) => match b {
            KeyPart::Num(y) => if x < y { -1 } else if x > y { 1 } else { 0 },
            KeyPart::Text(_) => -1,
        },
        KeyPart::Text(x) => match b {
            KeyPart::Num(_) => 1,
            KeyPart::Text(y) => text_order(x@, y@),
        },
    }
}

/// Lexicographic order of keys: the first differing part decides, and a key that is
/// a proper prefix of another comes first.
pub open spec fn key_order(a: Seq<KeyPart>, b: Seq<KeyPart>) -> int
    decreases a.len(),
{
    if a.len() == 0 && b.len() == 0 {
        0
    } else if a.len() == 0 {
        -1
    } else if b.len() == 0 {
        1
    } else if part_order(a[0], b[0]) != 0 {
        part_order(a[0], b[0])
    } else {
        key_order(a.drop_first(), b.drop_first())
    }
}

/// The keys of a list of rows, as sequences.
pub open spec fn key_views(keys: Seq<Vec<KeyPart>>) -> Seq<Seq<KeyPart>> {
    keys.map_values(|k: Vec<KeyPart>| k@)
}

/// `p` lists every index of `keys` once, in ascending key order, and rows with equal
/// keys keep their relative order (the result of a stable sort).
pub open spec fn is_stable_order(keys: Seq<Seq<KeyPart>>, p: Seq<usize>) -> bool {
    &&& p.len() == keys.len()
    &&& forall|i: int| 0 <= i < p.len() ==> (p[i] as int) < keys.len()
    &&& forall|i: int, j: int| 0 <= i < p.len() && 0 <= j < p.len() && i != j ==> p[i] != p[j]
    &&& forall|i: int| 0 <= i < p.len() - 1 ==> key_order(
        #[trigger] keys[p[i] as int],
        keys[p[i + 1] as int],
    ) <= 0
    &&& forall|i: int| 0 <= i < p.len() - 1 && key_order(
        #[trigger] keys[p[i] as int],
        keys[p[i + 1] as int],
    ) == 0 ==> p[i] < p[i + 1]
}

proof fn lemma_part_order_basics(a: KeyPart, b: KeyPart)
    ensures
        part_order(a, b) == -part_order(b, a),
        -1 <= part_order(a, b) <= 1,
{
    match a {
        KeyPart::Text(x) => match b {
            KeyPart::Text(y) => lemma_text_order_basics(x@, y@),
            _ => {},
        },
        _ => {},
    }
}

proof fn lemma_part_order_transitive(a: KeyPart, b: KeyPart, c: KeyPart)
    requires
        part_order(a, b) <= 0,
        part_order(b, c) <= 0,
    ensures
        part_order(a, c) <= 0,
        part_order(a, b) == 0 && part_order(b, c) == 0 ==> part_order(a, c) == 0,
        part_order(a, b) < 0 || part_order(b, c) < 0 ==> part_order(a, c) < 0,
{
    match a {
        KeyPart::Text(x) => match b {
            KeyPart::Text(y) => match c {
                KeyPart::Text(z) => {
                    lemma_text_order_transitive(x@, y@, z@);
                    lemma_text_order_basics(x@, y@);
                    lemma_text_order_basics(y@, z@);
                    lemma_text_order_basics(x@, z@);
                    if text_order(x@, z@) == 0 {
                        lemma_text_order_transitive(z@, x@, y@);
                    }
                },
                _ => {},
            },
            _ => {},
        },
        _ => {},
    }
}

/// `key_order` is antisymmetric.
pub proof fn lemma_key_order_antisymmetric(a: Seq<KeyPart>, b: Seq<KeyPart>)
    ensures
        key_order(a, b) == -key_order(b, a),
        -1 <= key_order(a, b) <= 1,
    decreases a.len(),
{
    if a.len() > 0 && b.len() > 0 {
        lemma_part_order_basics(a[0], b[0]);
        lemma_key_order_antisymmetric(a.drop_first(), b.drop_first());
    }
}

/// `key_order` is transitive.
pub proof fn lemma_key_order_transitive(a: Seq<KeyPart>, b: Seq<KeyPart>, c: Seq<KeyPart>)
    requires
        key_order(a, b) <= 0,
        key_order(b, c) <= 0,
    ensures
        key_order(a, c) <= 0,
        key_order(a, b) < 0 || key_order(b, c) < 0 ==> key_order(a, c) < 0,
    decreases a.len(),
{
    lemma_key_order_antisymmetric(a, b);
    lemma_key_order_antisymmetric(b, c);
    lemma_key_order_antisymmetric(a, c);
    if a.len() > 0 && b.len() > 0 && c.len() > 0 {
        lemma_part_order_basics(a[0], b[0]);
        lemma_part_order_basics(b[0], c[0]);
        lemma_part_order_basics(a[0], c[0]);
        if part_order(a[0], b[0]) <= 0 && part_order(b[0], c[0]) <= 0 {
            lemma_part_order_transitive(a[0], b[0], c[0]);
        }
        if part_order(a[0], b[0]) == 0 && part_order(b[0], c[0]) == 0 {
            lemma_key_order_transitive(a.drop_first(), b.drop_first(), c.drop_first());
        }
    }
}

/// In a stable order, any earlier row's key is at most any later row's key.
pub proof fn lemma_stable_order_sorted(keys: Seq<Seq<KeyPart>>, p: Seq<usize>, i: int, j: int)
    requires
        is_stable_order(keys, p),
        0 <= i <= j < p.len(),
    ensures
        key_order(keys[p[i] as int], keys[p[j] as int]) <= 0,
        key_order(keys[p[i] as int], keys[p[j] as int]) == 0 ==> p[i] <= p[j],
    decreases j - i,
{
    if i == j {
        lemma_key_order_reflexive(keys[p[i] as int]);
    } else {
        lemma_stable_order_sorted(keys, p, i + 1, j);
        let a = keys[p[i] as int];
        let b = keys[p[i + 1] as int];
        let c = keys[p[j] as int];
        assert(key_order(a, b) <= 0);
        lemma_key_order_transitive(a, b, c);
    }
}

/// Every key is equal to itself.
pub proof fn lemma_key_order_reflexive(a: Seq<KeyPart>)
    ensures
        key_order(a, a) == 0,
    decreases a.len(),
{
    if a.len() > 0 {
        lemma_part_order_basics(a[0], a[0]);
        lemma_key_order_reflexive(a.drop_first());
    }
}

/// Compares two key parts.
pub fn compare_parts(a: &KeyPart, b: &KeyPart) -> (r: i8)
    ensures
        r as int == part_order(*a, *b),
{
    match a {
        KeyPart::Num(x) => match b {
            KeyPart::Num(y) => if *x < *y { -1 } else if *x > *y { 1 } else { 0 },
            KeyPart::Text(_) => -1,
        },
        KeyPart::Text(x) => match b {
            KeyPart::Num(_) => 1,
            KeyPart::Text(y) => compare_text(x.as_str(), y.as_str()),
        },
    }
}

/// Compares two keys lexicographically.
pub fn compare_keys(a: &Vec<KeyPart>, b: &Vec<KeyPart>) -> (r: i8)
    ensures
        r as int == key_order(a@, b@),
{
    let mut i: usize = 0;
    assert(a@.skip(0) =~= a@);
    assert(b@.skip(0) =~= b@);
    while i < a.len() && i < b.len()
        invariant
            i <= a@.len(),
            i <= b@.len(),
            key_order(a@, b@) == key_order(a@.skip(i as int), b@.skip(i as int)),
        decreases a@.len() - i,
    {
        let c = compare_parts(&a[i], &b[i]);
        assert(a@.skip(i as int)[0] == a@[i as int]);
        assert(b@.skip(i as int)[0] == b@[i as int]);
        if c != 0 {
            return c;
        }
        assert(a@.skip(i as int).drop_first() =~= a@.skip(i + 1));
        assert(b@.skip(i as int).drop_first() =~= b@.skip(i + 1));
        i = i + 1;
    }
    if i < a.len() {
        1
    } else if i < b.len() {
        -1
    } else {
        0
    }
}

/// `p` is a stable order of the first `j` rows of `ks`.
pub open spec fn is_stable_prefix_order(ks: Seq<Seq<KeyPart>>, p: Seq<usize>, j: int) -> bool {
    &&& p.len() == j
    &&& forall|i: int| 0 <= i < p.len() ==> (p[i] as int) < j
    &&& forall|a: int, b: int| 0 <= a < p.len() && 0 <= b < p.len() && a != b ==> p[a] != p[b]
    &&& forall|i: int| 0 <= i < p.len() - 1 ==> key_order(
        #[trigger] ks[p[i] as int],
        ks[p[i + 1] as int],
    ) <= 0
    &&& forall|i: int| 0 <= i < p.len() - 1 && key_order(
        #[trigger] ks[p[i] as int],
        ks[p[i + 1] as int],
    ) == 0 ==> p[i] < p[i + 1]
}

proof fn lemma_insert_keeps_order(ks: Seq<Seq<KeyPart>>, p: Seq<usize>, j: usize, pos: int)
    requires
        is_stable_prefix_order(ks, p, j as int),
        0 <= pos <= p.len(),
        pos > 0 ==> key_order(ks[p[pos - 1] as int], ks[j as int]) <= 0,
        forall|k: int| pos <= k < p.len() ==> key_order(ks[p[k] as int], ks[j as int]) > 0,
    ensures
        is_stable_prefix_order(ks, p.insert(pos, j), j + 1),
{
    let q = p.insert(pos, j);
    if pos < p.len() {
        lemma_key_order_antisymmetric(ks[p[pos] as int], ks[j as int]);
    }
    assert forall|i: int| 0 <= i < q.len() - 1 implies key_order(
        #[trigger] ks[q[i] as int],
        ks[q[i + 1] as int],
    ) <= 0 && (key_order(ks[q[i] as int], ks[q[i + 1] as int]) == 0 ==> q[i] < q[i + 1]) by {
        if i < pos - 1 {
            assert(q[i] == p[i] && q[i + 1] == p[i + 1]);
        } else if i == pos - 1 {
            assert(q[i] == p[i] && q[i + 1] == j);
        } else if i == pos {
            assert(q[i] == j && q[i + 1] == p[i]);
        } else {
            assert(q[i] == p[i - 1] && q[i + 1] == p[i]);
        }
    }
    assert forall|a: int, b: int| 0 <= a < q.len() && 0 <= b < q.len() && a != b implies q[a] != q[b] by {
        if a < pos && b < pos {
        } else if a > pos && b > pos {
            assert(q[a] == p[a - 1] && q[b] == p[b - 1]);
        } else if a < pos && b > pos {
            assert(q[b] == p[b - 1]);
        } else if a > pos && b < pos {
            assert(q[a] == p[a - 1]);
        }
    }
    assert forall|i: int| 0 <= i < q.len() implies (q[i] as int) < j + 1 by {
        if i > pos {
            assert(q[i] == p[i - 1]);
        }
    }
}

/// The order in which a stable sort by `keys` puts the rows: `result[k]` is the index
/// of the row that comes `k`-th.
pub fn stable_sort_order(keys: &Vec<Vec<KeyPart>>) -> (p: Vec<usize>)
    ensures
        is_stable_order(key_views(keys@), p@),
{
    let ghost ks = key_views(keys@);
    let mut p: Vec<usize> = Vec::new();
    let mut j: usize = 0;
    while j < keys.len()
        invariant
            j <= keys@.len(),
            ks == key_views(keys@),
            is_stable_prefix_order(ks, p@, j as int),
        decreases keys@.len() - j,
    {
        let mut pos: usize = p.len();
        while pos > 0 && compare_keys(&keys[p[pos - 1]], &keys[j]) > 0
            invariant
                pos <= p@.len(),
                j < keys@.len(),
                ks == key_views(keys@),
                is_stable_prefix_order(ks, p@, j as int),
                forall|k: int| pos <= k < p@.len() ==> key_order(ks[p@[k] as int], ks[j as int]) > 0,
            decreases pos,
        {
            pos = pos - 1;
        }
        let ghost old_p = p@;
        proof {
            lemma_insert_keeps_order(ks, old_p, j, pos as int);
        }
        p.insert(pos, j);
        j = j + 1;
    }
    p
}

} // verus!
