//! The canonical order of key identifiers: the order of the name table
//! (modifiers win, ctrl, alt, shift; letters; digits; F1 to F12; navigation
//! and editing keys; mouse buttons 1 to 5). A binding is kept and rendered
//! in this order, whatever order its keys were given in.
use vstd::prelude::*;
use crate::keys::is_table_key;

verus! {

/// Number of keys in the table.
pub const TABLE_SIZE: u32 = 72;

/// The key at position `r` of the table (`0 <= r < TABLE_SIZE`).
pub open spec fn key_at(r: int) -> i32 {
    if r == 0 {
        0x5B
    } else if r == 1 {
        0x11
    } else if r == 2 {
        0x12
    } else if r == 3 {
        0x10
    } else if r < 30 {
        (0x41 + (r - 4)) as i32
    } else if r < 40 {
        (0x30 + (r - 30)) as i32
    } else if r < 52 {
        (0x70 + (r - 40)) as i32
    } else if r == 52 {
        0x20
    } else if r == 53 {
        0x0D
    } else if r == 54 {
        0x1B
    } else if r == 55 {
        0x09
    } else if r == 56 {
        0x08
    } else if r == 57 {
        0x2E
    } else if r == 58 {
        0x2D
    } else if r == 59 {
        0x24
    } else if r == 60 {
        0x23
    } else if r == 61 {
        0x21
    } else if r == 62 {
        0x22
    } else if r == 63 {
        0x26
    } else if r == 64 {
        0x28
    } else if r == 65 {
        0x25
    } else if r == 66 {
        0x27
    } else if r == 67 {
        0x01
    } else if r == 68 {
        0x02
    } else if r == 69 {
        0x04
    } else if r == 70 {
        0x05
    } else {
        0x06
    }
}

/// The position of a key in the table; `TABLE_SIZE` for a key outside it.
pub open spec fn rank_of(vk: i32) -> int {
    if vk == 0x5B {
        0
    } else if vk == 0x11 {
        1
    } else if vk == 0x12 {
        2
    } else if vk == 0x10 {
        3
    } else if 0x41 <= vk <= 0x5A {
        4 + (vk - 0x41)
    } else if 0x30 <= vk <= 0x39 {
        30 + (vk - 0x30)
    } else if 0x70 <= vk <= 0x7B {
        40 + (vk - 0x70)
    } else if vk == 0x20 {
        52
    } else if vk == 0x0D {
        53
    } else if vk == 0x1B {
        54
    } else if vk == 0x09 {
        55
    } else if vk == 0x08 {
        56
    } else if vk == 0x2E {
        57
    } else if vk == 0x2D {
        58
    } else if vk == 0x24 {
        59
    } else if vk == 0x23 {
        60
    } else if vk == 0x21 {
        61
    } else if vk == 0x22 {
        62
    } else if vk == 0x26 {
        63
    } else if vk == 0x28 {
        64
    } else if vk == 0x25 {
        65
    } else if vk == 0x27 {
        66
    } else if vk == 0x01 {
        67
    } else if vk == 0x02 {
        68
    } else if vk == 0x04 {
        69
    } else if vk == 0x05 {
        70
    } else if vk == 0x06 {
        71
    } else {
        TABLE_SIZE as int
    }
}

/// Every position holds a table key, and the key's rank is that position.
pub proof fn lemma_key_at_rank(r: int)
    requires
        0 <= r < TABLE_SIZE,
    ensures
        rank_of(key_at(r)) == r,
        is_table_key(key_at(r)),
{
}

/// A table key has a position, and sits there.
pub proof fn lemma_rank_of_table_key(vk: i32)
    requires
        is_table_key(vk),
    ensures
        0 <= rank_of(vk) < TABLE_SIZE,
        key_at(rank_of(vk)) == vk,
{
}

/// The keys at positions below `n` that `keys` holds, in table order.
pub open spec fn ordered_below(keys: Seq<i32>, n: int) -> Seq<i32>
    decreases n,
{
    if n <= 0 {
        Seq::empty()
    } else {
        let prev = ordered_below(keys, n - 1);
        if keys.contains(key_at(n - 1)) {
            prev.push(key_at(n - 1))
        } else {
            prev
        }
    }
}

/// The table keys that `keys` holds, each once, in table order.
pub open spec fn in_table_order(keys: Seq<i32>) -> Seq<i32> {
    ordered_below(keys, TABLE_SIZE as int)
}

/// The keys of `keys` that are not in the table, in their given order.
pub open spec fn outside_table(keys: Seq<i32>) -> Seq<i32>
    decreases keys.len(),
{
    if keys.len() == 0 {
        Seq::empty()
    } else {
        let prev = outside_table(keys.drop_last());
        if is_table_key(keys.last()) {
            prev
        } else {
            prev.push(keys.last())
        }
    }
}

/// The order keys are rendered in: the table keys in table order, each once,
/// then any keys outside the table as given.
pub open spec fn canonical_order(keys: Seq<i32>) -> Seq<i32> {
    in_table_order(keys) + outside_table(keys)
}

/// Table keys with strictly increasing positions, all below `n`.
pub open spec fn is_table_ordered(q: Seq<i32>, n: int) -> bool {
    &&& forall|i: int| 0 <= i < q.len() ==> 0 <= rank_of(#[trigger] q[i]) < n && key_at(rank_of(q[i])) == q[i]
    &&& forall|i: int, j: int| 0 <= i < j < q.len() ==> rank_of(#[trigger] q[i]) < rank_of(#[trigger] q[j])
}

/// What `ordered_below` gives is in table order and holds only keys of `keys`.
pub proof fn lemma_ordered_below_props(keys: Seq<i32>, n: int)
    requires
        n <= TABLE_SIZE,
    ensures
        is_table_ordered(ordered_below(keys, n), if n < 0 { 0 } else { n }),
        forall|i: int| 0 <= i < ordered_below(keys, n).len() ==> keys.contains(#[trigger] ordered_below(keys, n)[i]),
    decreases n,
{
    if n > 0 {
        lemma_ordered_below_props(keys, n - 1);
        lemma_key_at_rank(n - 1);
    }
}

/// `ordered_below` looks at `keys` only through which table keys it holds.
pub proof fn lemma_ordered_below_members(k1: Seq<i32>, k2: Seq<i32>, n: int)
    requires
        forall|r: int| 0 <= r < n ==> (k1.contains(key_at(r)) <==> k2.contains(key_at(r))),
    ensures
        ordered_below(k1, n) == ordered_below(k2, n),
    decreases n,
{
    if n > 0 {
        lemma_ordered_below_members(k1, k2, n - 1);
    }
}

/// Keys already in table order stay as they are.
pub proof fn lemma_ordered_below_stable(q: Seq<i32>, n: int)
    requires
        0 <= n <= TABLE_SIZE,
        is_table_ordered(q, n),
    ensures
        ordered_below(q, n) == q,
    decreases n,
{
    if n == 0 {
        assert(q.len() == 0) by {
            if q.len() > 0 {
                let x = q[0];
                assert(0 <= rank_of(x) < n);
            }
        }
        assert(q =~= Seq::<i32>::empty());
    } else {
        lemma_key_at_rank(n - 1);
        let top = key_at(n - 1);
        if q.len() > 0 && rank_of(q.last()) == n - 1 {
            let rest = q.drop_last();
            assert forall|r: int| 0 <= r < n - 1 implies (q.contains(key_at(r)) <==> rest.contains(key_at(r))) by {
                lemma_key_at_rank(r);
                if q.contains(key_at(r)) {
                    let i = choose|i: int| 0 <= i < q.len() && q[i] == key_at(r);
                    if i == q.len() - 1 {
                        assert(rank_of(q[i]) == n - 1);
                    } else {
                        assert(rest[i] == key_at(r));
                    }
                }
                if rest.contains(key_at(r)) {
                    let i = choose|i: int| 0 <= i < rest.len() && rest[i] == key_at(r);
                    assert(q[i] == key_at(r));
                }
            }
            assert(is_table_ordered(rest, n - 1)) by {
                assert forall|i: int| 0 <= i < rest.len() implies 0 <= rank_of(#[trigger] rest[i]) < n - 1 by {
                    assert(rest[i] == q[i]);
                    assert(rank_of(q[i]) < rank_of(q[q.len() - 1]));
                }
                assert forall|i: int, j: int| 0 <= i < j < rest.len() implies rank_of(#[trigger] rest[i]) < rank_of(
                    #[trigger] rest[j],
                ) by {
                    assert(rest[i] == q[i] && rest[j] == q[j]);
                }
            }
            lemma_ordered_below_members(q, rest, n - 1);
            lemma_ordered_below_stable(rest, n - 1);
            assert(key_at(n - 1) == q.last());
            assert(q.contains(q.last()));
            assert(rest.push(q.last()) =~= q);
        } else {
            assert(!q.contains(top)) by {
                if q.contains(top) {
                    let i = choose|i: int| 0 <= i < q.len() && q[i] == top;
                    assert(rank_of(q[i]) == n - 1);
                    if i < q.len() - 1 {
                        assert(rank_of(q[i]) < rank_of(q[q.len() - 1]));
                    }
                }
            }
            assert(is_table_ordered(q, n - 1)) by {
                assert forall|i: int| 0 <= i < q.len() implies 0 <= rank_of(#[trigger] q[i]) < n - 1 by {
                    if rank_of(q[i]) == n - 1 {
                        assert(q[i] == top);
                        assert(q.contains(top));
                    }
                }
            }
            lemma_ordered_below_stable(q, n - 1);
        }
    }
}

/// Nothing is outside the table in a list of table keys.
pub proof fn lemma_outside_table_empty(keys: Seq<i32>)
    requires
        forall|i: int| 0 <= i < keys.len() ==> is_table_key(#[trigger] keys[i]),
    ensures
        outside_table(keys) == Seq::<i32>::empty(),
    decreases keys.len(),
{
    if keys.len() > 0 {
        let rest = keys.drop_last();
        assert forall|i: int| 0 <= i < rest.len() implies is_table_key(#[trigger] rest[i]) by {
            assert(rest[i] == keys[i]);
        }
        lemma_outside_table_empty(rest);
        assert(is_table_key(keys[keys.len() - 1]));
    }
}

/// Two lists of table keys that hold the same keys, in whatever order and
/// however often, are put in the same canonical order.
pub proof fn lemma_canonical_order_ignores_order(k1: Seq<i32>, k2: Seq<i32>)
    requires
        forall|i: int| 0 <= i < k1.len() ==> is_table_key(#[trigger] k1[i]),
        forall|i: int| 0 <= i < k2.len() ==> is_table_key(#[trigger] k2[i]),
        forall|x: i32| k1.contains(x) <==> k2.contains(x),
    ensures
        canonical_order(k1) == canonical_order(k2),
{
    lemma_ordered_below_members(k1, k2, TABLE_SIZE as int);
    lemma_outside_table_empty(k1);
    lemma_outside_table_empty(k2);
}

fn table_key_at(r: u32) -> (vk: i32)
    requires
        r < TABLE_SIZE,
    ensures
        vk == key_at(r as int),
{
    if r == 0 {
        0x5B
    } else if r == 1 {
        0x11
    } else if r == 2 {
        0x12
    } else if r == 3 {
        0x10
    } else if r < 30 {
        0x41 + (r as i32 - 4)
    } else if r < 40 {
        0x30 + (r as i32 - 30)
    } else if r < 52 {
        0x70 + (r as i32 - 40)
    } else if r == 52 {
        0x20
    } else if r == 53 {
        0x0D
    } else if r == 54 {
        0x1B
    } else if r == 55 {
        0x09
    } else if r == 56 {
        0x08
    } else if r == 57 {
        0x2E
    } else if r == 58 {
        0x2D
    } else if r == 59 {
        0x24
    } else if r == 60 {
        0x23
    } else if r == 61 {
        0x21
    } else if r == 62 {
        0x22
    } else if r == 63 {
        0x26
    } else if r == 64 {
        0x28
    } else if r == 65 {
        0x25
    } else if r == 66 {
        0x27
    } else if r == 67 {
        0x01
    } else if r == 68 {
        0x02
    } else if r == 69 {
        0x04
    } else if r == 70 {
        0x05
    } else {
        0x06
    }
}

fn holds_key(keys: &[i32], vk: i32) -> (r: bool)
    ensures
        r == keys@.contains(vk),
{
    let mut i: usize = 0;
    while i < keys.len()
        invariant
            i <= keys@.len(),
            forall|j: int| 0 <= j < i ==> keys@[j] != vk,
        decreases keys.len() - i,
    {
        if keys[i] == vk {
            return true;
        }
        i += 1;
    }
    false
}

fn is_table_key_exec(vk: i32) -> (r: bool)
    ensures
        r == is_table_key(vk),
{
    vk == 0x5B || vk == 0x11 || vk == 0x12 || vk == 0x10 || (0x41 <= vk && vk <= 0x5A) || (0x30 <= vk && vk
        <= 0x39) || (0x70 <= vk && vk <= 0x7B) || vk == 0x20 || vk == 0x0D || vk == 0x1B || vk == 0x09 || vk
        == 0x08 || vk == 0x2E || vk == 0x2D || vk == 0x24 || vk == 0x23 || vk == 0x21 || vk == 0x22 || vk == 0x26
        || vk == 0x28 || vk == 0x25 || vk == 0x27 || vk == 0x01 || vk == 0x02 || vk == 0x04 || vk == 0x05 || vk
        == 0x06
}

/// The table keys of `keys`, each once, in table order.
pub fn table_order_of(keys: &[i32]) -> (r: Vec<i32>)
    ensures
        r@ == in_table_order(keys@),
{
    let mut out: Vec<i32> = Vec::new();
    let mut r: u32 = 0;
    while r < TABLE_SIZE
        invariant
            r <= TABLE_SIZE,
            out@ == ordered_below(keys@, r as int),
        decreases TABLE_SIZE - r,
    {
        let vk = table_key_at(r);
        if holds_key(keys, vk) {
            out.push(vk);
        }
        r += 1;
    }
    out
}

/// The keys in the order they are rendered: table keys in table order, each
/// once, then the keys outside the table as given.
pub fn canonical_order_of(keys: &[i32]) -> (r: Vec<i32>)
    ensures
        r@ == canonical_order(keys@),
{
    let mut out = table_order_of(keys);
    let ghost ordered = out@;
    let mut i: usize = 0;
    assert(keys@.subrange(0, 0) =~= Seq::<i32>::empty());
    while i < keys.len()
        invariant
            i <= keys@.len(),
            out@ == ordered + outside_table(keys@.subrange(0, i as int)),
        decreases keys.len() - i,
    {
        assert(keys@.subrange(0, i + 1).drop_last() =~= keys@.subrange(0, i as int));
        if !is_table_key_exec(keys[i]) {
            out.push(keys[i]);
        }
        i += 1;
    }
    assert(keys@.subrange(0, keys@.len() as int) =~= keys@);
    out
}

} // verus!
