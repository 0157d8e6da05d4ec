//! The order of texts by their characters, as a database orders text columns,
//! and listings sorted by creation time under it.

use vstd::prelude::*;

verus! {

/// `a` comes no later than `b`, comparing characters from position `i` on.
pub open spec fn text_le_from(a: Seq<char>, b: Seq<char>, i: int) -> bool
    decreases a.len() - i,
{
    if i >= a.len() {
        true
    } else if i >= b.len() {
        false
    } else if (a[i] as u32) != (b[i] as u32) {
        (a[i] as u32) < (b[i] as u32)
    } else {
        text_le_from(a, b, i + 1)
    }
}

/// `a` comes no later than `b` in the order of their characters (a prefix
/// comes first).
pub open spec fn text_le(a: Seq<char>, b: Seq<char>) -> bool {
    text_le_from(a, b, 0)
}

pub proof fn lemma_text_le_transitive(a: Seq<char>, b: Seq<char>, c: Seq<char>, i: int)
    requires
        0 <= i,
        text_le_from(a, b, i),
        text_le_from(b, c, i),
    ensures
        text_le_from(a, c, i),
    decreases a.len() - i,
{
    if i < a.len() && i < b.len() && i < c.len() && (a[i] as u32) == (b[i] as u32) && (b[i] as u32)
        == (c[i] as u32) {
        lemma_text_le_transitive(a, b, c, i + 1);
    }
}

pub proof fn lemma_text_le_total(a: Seq<char>, b: Seq<char>, i: int)
    requires
        0 <= i,
    ensures
        text_le_from(a, b, i) || text_le_from(b, a, i),
    decreases a.len() - i,
{
    if i < a.len() && i < b.len() && (a[i] as u32) == (b[i] as u32) {
        lemma_text_le_total(a, b, i + 1);
    }
}

/// Whether `a` comes no later than `b` (see `text_le`).
pub fn text_le_exec(a: &str, b: &str) -> (r: bool)
    ensures
        r == text_le(a@, b@),
{
    let la = a.unicode_len();
    let lb = b.unicode_len();
    let mut i: usize = 0;
    while i < la
        invariant
            la == a@.len(),
            lb == b@.len(),
            i <= la,
            text_le_from(a@, b@, 0) == text_le_from(a@, b@, i as int),
        decreases la - i,
    {
        if i >= lb {
            return false;
        }
        let ca = a.get_char(i);
        let cb = b.get_char(i);
        if (ca as u32) != (cb as u32) {
            return (ca as u32) < (cb as u32);
        }
        i = i + 1;
    }
    true
}

/// The characters of each text.
pub open spec fn texts(s: Seq<String>) -> Seq<Seq<char>> {
    s.map_values(|k: String| k@)
}

/// Ordered newest first: no row is created later than a row before it.
pub open spec fn newest_first(keys: Seq<Seq<char>>) -> bool {
    forall|i: int, j: int| 0 <= i < j < keys.len() ==> text_le(#[trigger] keys[j], #[trigger] keys[i])
}

/// Where a row created at `key` goes in a listing ordered newest first:
/// after every row created later, before the others.
pub fn insert_position(keys: &Vec<String>, key: &str) -> (j: usize)
    requires
        newest_first(texts(keys@)),
    ensures
        j <= keys@.len(),
        forall|k: int| 0 <= k < j ==> text_le(key@, (#[trigger] keys@[k])@),
        forall|k: int| j <= k < keys@.len() ==> text_le((#[trigger] keys@[k])@, key@),
{
    let ghost view = texts(keys@);
    let mut j: usize = 0;
    while j < keys.len()
        invariant
            j <= keys@.len(),
            view == texts(keys@),
            newest_first(view),
            forall|k: int| 0 <= k < j ==> text_le(key@, (#[trigger] keys@[k])@),
        decreases keys@.len() - j,
    {
        if text_le_exec(keys[j].as_str(), key) {
            proof {
                assert forall|k: int| j <= k < keys@.len() implies text_le(
                    (#[trigger] keys@[k])@,
                    key@,
                ) by {
                    if k > j {
                        assert(view[k] == keys@[k]@ && view[j as int] == keys@[j as int]@);
                        lemma_text_le_transitive(keys@[k]@, keys@[j as int]@, key@, 0);
                    }
                }
            }
            return j;
        }
        proof {
            lemma_text_le_total(keys@[j as int]@, key@, 0);
        }
        j = j + 1;
    }
    j
}

/// Inserting a key at its place keeps a listing ordered newest first.
pub proof fn lemma_insert_keeps_order(keys: Seq<Seq<char>>, key: Seq<char>, j: int)
    requires
        newest_first(keys),
        0 <= j <= keys.len(),
        forall|k: int| 0 <= k < j ==> text_le(key, #[trigger] keys[k]),
        forall|k: int| j <= k < keys.len() ==> text_le(#[trigger] keys[k], key),
    ensures
        newest_first(keys.insert(j, key)),
{
    keys.insert_ensures(j, key);
    let n = keys.insert(j, key);
    assert forall|a: int, b: int| 0 <= a < b < n.len() implies text_le(
        #[trigger] n[b],
        #[trigger] n[a],
    ) by {
        if b < j {
        } else if b == j {
        } else if a < j {
            assert(n[b] == keys[b - 1]);
            lemma_text_le_transitive(keys[b - 1], key, keys[a], 0);
        } else if a == j {
            assert(n[b] == keys[b - 1]);
        } else {
            assert(n[b] == keys[b - 1] && n[a] == keys[a - 1]);
        }
    }
}

} // verus!
