use vstd::prelude::*;

verus! {

/// Strictly ascending order: sorted, and no address occurs twice.
pub open spec fn ascending(s: Seq<u16>) -> bool {
    forall|i: int, j: int| 0 <= i < j < s.len() ==> s[i] < s[j]
}

/// The set of addresses that occur in `s`.
pub open spec fn addr_set(s: Seq<u16>) -> Set<u16> {
    Set::new(|a: u16| s.contains(a))
}

/// The number of entries of `v` that are less than `addr`; with `v` ascending
/// that is the place where `addr` stands or would stand.
pub fn lower_bound(v: &Vec<u16>, addr: u16) -> (at: usize)
    requires
        ascending(v@),
    ensures
        at <= v@.len(),
        forall|i: int| 0 <= i < at ==> v@[i] < addr,
        forall|i: int| at <= i < v@.len() ==> v@[i] >= addr,
{
    let mut lo: usize = 0;
    let mut hi: usize = v.len();
    while lo < hi
        invariant
            lo <= hi <= v@.len(),
            ascending(v@),
            forall|i: int| 0 <= i < lo ==> v@[i] < addr,
            forall|i: int| hi <= i < v@.len() ==> v@[i] >= addr,
        decreases hi - lo,
    {
        let mid: usize = lo + (hi - lo) / 2;
        if v[mid] < addr {
            lo = mid + 1;
        } else {
            hi = mid;
        }
    }
    lo
}

/// Adds `addr` to an ascending list, once.
pub fn insert_sorted(v: &mut Vec<u16>, addr: u16)
    requires
        ascending(old(v)@),
    ensures
        ascending(final(v)@),
        addr_set(final(v)@) == addr_set(old(v)@).insert(addr),
{
    let at: usize = lower_bound(v, addr);
    let ghost before = v@;
    if at < v.len() && v[at] == addr {
        proof {
            assert(before.contains(addr)) by {
                assert(before[at as int] == addr);
            }
            assert(addr_set(before) =~= addr_set(before).insert(addr));
        }
        return;
    }
    v.insert(at, addr);
    proof {
        let after = v@;
        assert forall|i: int, j: int| 0 <= i < j < after.len() implies after[i] < after[j] by {
            if i < at {
                assert(after[i] == before[i]);
            }
            if j > at {
                assert(after[j] == before[j - 1]);
            }
            if i > at {
                assert(after[i] == before[i - 1]);
            }
            if j < at {
                assert(after[j] == before[j]);
            }
        }
        assert forall|a: u16| after.contains(a) == (before.contains(a) || a == addr) by {
            if before.contains(a) {
                let k = choose|k: int| 0 <= k < before.len() && before[k] == a;
                if k < at {
                    assert(after[k] == a);
                } else {
                    assert(after[k + 1] == a);
                }
            }
            if a == addr {
                assert(after[at as int] == a);
            }
            if after.contains(a) {
                let k = choose|k: int| 0 <= k < after.len() && after[k] == a;
                if k < at {
                    assert(before[k] == a);
                } else if k > at {
                    assert(before[k - 1] == a);
                }
            }
        }
        assert(addr_set(after) =~= addr_set(before).insert(addr));
    }
}

/// An ascending list is determined by the set of its entries.
pub proof fn lemma_ascending_unique(s: Seq<u16>, t: Seq<u16>)
    requires
        ascending(s),
        ascending(t),
        addr_set(s) == addr_set(t),
    ensures
        s == t,
    decreases s.len(),
{
    if s.len() == 0 {
        if t.len() > 0 {
            assert(addr_set(t).contains(t[0]));
            assert(addr_set(s).contains(t[0]));
        }
    } else {
        let last = s[s.len() - 1];
        assert(addr_set(s).contains(last));
        assert(addr_set(t).contains(last));
        let k = choose|k: int| 0 <= k < t.len() && t[k] == last;
        let tl = t[t.len() - 1];
        assert(addr_set(t).contains(tl));
        assert(addr_set(s).contains(tl));
        let j = choose|j: int| 0 <= j < s.len() && s[j] == tl;
        assert(tl == last);
        let s1 = s.drop_last();
        let t1 = t.drop_last();
        assert forall|a: u16| addr_set(s1).contains(a) == addr_set(t1).contains(a) by {
            lemma_drop_last_set(s, a);
            lemma_drop_last_set(t, a);
            assert(addr_set(s).contains(a) == addr_set(t).contains(a));
        }
        assert(addr_set(s1) =~= addr_set(t1));
        lemma_ascending_unique(s1, t1);
        assert(s =~= s1.push(last));
        assert(t =~= t1.push(last));
    }
}

proof fn lemma_drop_last_set(s: Seq<u16>, a: u16)
    requires
        s.len() > 0,
        ascending(s),
    ensures
        addr_set(s.drop_last()).contains(a) == (addr_set(s).contains(a) && a != s[s.len() - 1]),
{
    if addr_set(s).contains(a) && a != s[s.len() - 1] {
        let k = choose|k: int| 0 <= k < s.len() && s[k] == a;
        assert(s.drop_last()[k] == a);
    }
    if addr_set(s.drop_last()).contains(a) {
        let k = choose|k: int| 0 <= k < s.len() - 1 && s.drop_last()[k] == a;
        assert(s[k] == a);
    }
}

} // verus!
