//! The order in which channels are listed: by type, then by shown name.
use vstd::prelude::*;
use crate::models::{Channel, display_name_of};

verus! {

/// Whether `a` comes no later than `b`, comparing characters by their code.
pub open spec fn text_le(a: Seq<char>, b: Seq<char>) -> bool
    decreases a.len(),
{
    if a.len() == 0 {
        true
    } else if b.len() == 0 {
        false
    } else if (a[0] as u32) != (b[0] as u32) {
        (a[0] as u32) < (b[0] as u32)
    } else {
        text_le(a.subrange(1, a.len() as int), b.subrange(1, b.len() as int))
    }
}

/// Any two texts are ordered one way or the other.
pub proof fn lemma_text_le_total(a: Seq<char>, b: Seq<char>)
    ensures
        text_le(a, b) || text_le(b, a),
    decreases a.len(),
{
    if a.len() > 0 && b.len() > 0 && (a[0] as u32) == (b[0] as u32) {
        lemma_text_le_total(a.subrange(1, a.len() as int), b.subrange(1, b.len() as int));
    }
}

/// The order of texts is transitive.
pub proof fn lemma_text_le_transitive(a: Seq<char>, b: Seq<char>, c: Seq<char>)
    requires
        text_le(a, b),
        text_le(b, c),
    ensures
        text_le(a, c),
    decreases a.len(),
{
    if a.len() > 0 && b.len() > 0 && c.len() > 0 && (a[0] as u32) == (b[0] as u32) && (b[0] as u32) == (c[0] as u32) {
        lemma_text_le_transitive(
            a.subrange(1, a.len() as int),
            b.subrange(1, b.len() as int),
            c.subrange(1, c.len() as int),
        );
    }
}

/// Compares two texts character by character.
pub fn text_le_exec(a: &str, b: &str) -> (r: bool)
    ensures
        r == text_le(a@, b@),
{
    let la = a.unicode_len();
    let lb = b.unicode_len();
    let mut i: usize = 0;
    assert(a@.subrange(0, la as int) =~= a@);
    assert(b@.subrange(0, lb as int) =~= b@);
    while i < la && i < lb
        invariant
            i <= la,
            i <= lb,
            la == a@.len(),
            lb == b@.len(),
            text_le(a@, b@) == text_le(a@.subrange(i as int, la as int), b@.subrange(i as int, lb as int)),
        decreases la - i,
    {
        let x = a.get_char(i);
        let y = b.get_char(i);
        let ghost sa = a@.subrange(i as int, la as int);
        let ghost sb = b@.subrange(i as int, lb as int);
        assert(sa[0] == x && sb[0] == y);
        if (x as u32) != (y as u32) {
            return (x as u32) < (y as u32);
        }
        assert(sa.subrange(1, sa.len() as int) =~= a@.subrange(i + 1, la as int));
        assert(sb.subrange(1, sb.len() as int) =~= b@.subrange(i + 1, lb as int));
        i = i + 1;
    }
    i == la
}

/// Whether channel `a` is listed no later than channel `b`.
pub open spec fn channel_le(a: Channel, b: Channel) -> bool {
    a.channel_type < b.channel_type || (a.channel_type == b.channel_type
        && text_le(display_name_of(a), display_name_of(b)))
}

/// Whether the channels at positions `idx` of `cs` are listed in order.
pub open spec fn listed_in_order(cs: Seq<Channel>, idx: Seq<usize>) -> bool {
    forall|k: int| 0 <= k < idx.len() - 1 ==> #[trigger] channel_le(cs[idx[k] as int], cs[idx[k + 1] as int])
}

/// The listing order of channels is transitive.
pub proof fn lemma_channel_le_transitive(a: Channel, b: Channel, c: Channel)
    requires
        channel_le(a, b),
        channel_le(b, c),
    ensures
        channel_le(a, c),
{
    if a.channel_type == b.channel_type && b.channel_type == c.channel_type {
        lemma_text_le_transitive(display_name_of(a), display_name_of(b), display_name_of(c));
    }
}

/// In a listing in order, the first channel comes no later than any other.
pub proof fn lemma_first_is_least(cs: Seq<Channel>, idx: Seq<usize>, j: int)
    requires
        listed_in_order(cs, idx),
        0 <= j < idx.len(),
    ensures
        channel_le(cs[idx[0] as int], cs[idx[j] as int]),
    decreases j,
{
    if j == 0 {
        lemma_text_le_total(display_name_of(cs[idx[0] as int]), display_name_of(cs[idx[0] as int]));
    } else {
        lemma_first_is_least(cs, idx, j - 1);
        let i = j - 1;
        assert(channel_le(cs[idx[i] as int], cs[idx[i + 1] as int]));
        lemma_channel_le_transitive(cs[idx[0] as int], cs[idx[j - 1] as int], cs[idx[j] as int]);
    }
}

/// Compares two channels in listing order.
pub fn channel_le_exec(a: &Channel, b: &Channel) -> (r: bool)
    ensures
        r == channel_le(*a, *b),
{
    if a.channel_type != b.channel_type {
        return a.channel_type < b.channel_type;
    }
    let na = a.display_name();
    let nb = b.display_name();
    text_le_exec(na.as_str(), nb.as_str())
}

/// The positions `idx` of `cs` rearranged into listing order; channels
/// that compare equal keep their relative order.
pub fn sort_positions(cs: &Vec<Channel>, idx: &Vec<usize>) -> (r: Vec<usize>)
    requires
        forall|k: int| 0 <= k < idx@.len() ==> idx@[k] < cs@.len(),
    ensures
        r@.to_multiset() == idx@.to_multiset(),
        listed_in_order(cs@, r@),
        forall|k: int| 0 <= k < r@.len() ==> r@[k] < cs@.len(),
{
    let mut out: Vec<usize> = Vec::new();
    let mut i: usize = 0;
    assert(out@ =~= idx@.subrange(0, 0));
    while i < idx.len()
        invariant
            i <= idx@.len(),
            forall|k: int| 0 <= k < idx@.len() ==> idx@[k] < cs@.len(),
            forall|k: int| 0 <= k < out@.len() ==> out@[k] < cs@.len(),
            out@.to_multiset() == idx@.subrange(0, i as int).to_multiset(),
            listed_in_order(cs@, out@),
        decreases idx.len() - i,
    {
        let x = idx[i];
        let mut p: usize = 0;
        while p < out.len() && channel_le_exec(&cs[out[p]], &cs[x])
            invariant
                p <= out@.len(),
                x < cs@.len(),
                forall|k: int| 0 <= k < out@.len() ==> out@[k] < cs@.len(),
                p > 0 ==> channel_le(cs@[out@[p - 1] as int], cs@[x as int]),
            decreases out.len() - p,
        {
            p = p + 1;
        }
        let ghost before = out@;
        proof {
            if p < out@.len() {
                lemma_text_le_total(display_name_of(cs@[out@[p as int] as int]), display_name_of(cs@[x as int]));
            }
            before.to_multiset_ensures();
            idx@.subrange(0, i as int).to_multiset_ensures();
            assert(idx@.subrange(0, i + 1) =~= idx@.subrange(0, i as int).push(x));
            vstd::seq_lib::lemma_multiset_commutative(before.subrange(0, p as int), before.subrange(p as int, before.len() as int));
        }
        out.insert(p, x);
        proof {
            assert(out@ =~= before.subrange(0, p as int).push(x) + before.subrange(p as int, before.len() as int));
            assert(before =~= before.subrange(0, p as int) + before.subrange(p as int, before.len() as int));
            vstd::seq_lib::lemma_multiset_commutative(before.subrange(0, p as int).push(x), before.subrange(p as int, before.len() as int));
            before.subrange(0, p as int).to_multiset_ensures();
            assert forall|k: int| 0 <= k < out@.len() - 1 implies #[trigger] channel_le(cs@[out@[k] as int], cs@[out@[k + 1] as int]) by {
                if k < p - 1 {
                    assert(channel_le(cs@[before[k] as int], cs@[before[k + 1] as int]));
                } else if k == p - 1 {
                } else if k == p {
                } else {
                    let j = k - 1;
                    assert(channel_le(cs@[before[j] as int], cs@[before[j + 1] as int]));
                }
            }
        }
        i = i + 1;
    }
    assert(idx@.subrange(0, idx@.len() as int) =~= idx@);
    out
}

} // verus!
