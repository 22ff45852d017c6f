//! Lists without repetitions.
use vstd::prelude::*;

verus! {

/// The first occurrences in a list, in order.
pub open spec fn first_occurrences<T>(s: Seq<T>) -> Seq<T>
    decreases s.len(),
{
    if s.len() == 0 {
        s
    } else {
        let r = first_occurrences(s.drop_last());
        if r.contains(s.last()) {
            r
        } else {
            r.push(s.last())
        }
    }
}

/// Dropping repetitions keeps every entry once and loses none.
pub proof fn law_first_occurrences_distinct_and_complete<T>(s: Seq<T>)
    ensures
        first_occurrences(s).no_duplicates(),
        forall|x: T| #[trigger] first_occurrences(s).contains(x) <==> s.contains(x),
    decreases s.len(),
{
    if s.len() > 0 {
        let init = s.drop_last();
        law_first_occurrences_distinct_and_complete(init);
        let r = first_occurrences(init);
        assert forall|x: T| #[trigger] first_occurrences(s).contains(x) <==> s.contains(x) by {
            if s.contains(x) {
                let k = choose|k: int| 0 <= k < s.len() && s[k] == x;
                if k < init.len() {
                    assert(init[k] == x);
                    assert(init.contains(x));
                    assert(r.contains(x));
                    let m = choose|m: int| 0 <= m < r.len() && r[m] == x;
                    assert(first_occurrences(s)[m] == x);
                } else if !r.contains(x) {
                    assert(first_occurrences(s)[r.len() as int] == x);
                }
            }
            if first_occurrences(s).contains(x) {
                let m = choose|m: int|
                    0 <= m < first_occurrences(s).len() && first_occurrences(s)[m] == x;
                if m < r.len() {
                    assert(r[m] == x);
                    assert(first_occurrences(init).contains(x));
                    let k = choose|k: int| 0 <= k < init.len() && init[k] == x;
                    assert(s[k] == x);
                } else {
                    assert(s[s.len() - 1] == x);
                }
            }
        }
    }
}

/// The bytes of some keys.
pub open spec fn keys(v: Seq<[u8; 32]>) -> Seq<Seq<u8>> {
    Seq::new(v.len(), |i: int| v[i]@)
}

/// Whether two keys hold the same bytes.
pub fn same_key(a: &[u8; 32], b: &[u8; 32]) -> (r: bool)
    ensures
        r == (a@ == b@),
{
    let mut i: usize = 0;
    while i < 32
        invariant
            i <= 32,
            forall|k: int| 0 <= k < i ==> a@[k] == b@[k],
        decreases 32 - i,
    {
        if a[i] != b[i] {
            return false;
        }
        i += 1;
    }
    proof {
        assert(a@ =~= b@);
    }
    true
}

/// The first position of a key in a list.
pub fn position_of_key(v: &Vec<[u8; 32]>, key: &[u8; 32]) -> (r: Option<usize>)
    ensures
        match r {
            Some(i) => i < v.len() && v@[i as int]@ == key@ && forall|k: int|
                0 <= k < i ==> (#[trigger] v@[k])@ != key@,
            None => !keys(v@).contains(key@),
        },
{
    let mut i: usize = 0;
    while i < v.len()
        invariant
            i <= v.len(),
            forall|k: int| 0 <= k < i ==> (#[trigger] v@[k])@ != key@,
        decreases v.len() - i,
    {
        if same_key(&v[i], key) {
            return Some(i);
        }
        i += 1;
    }
    proof {
        if keys(v@).contains(key@) {
            let k = choose|k: int| 0 <= k < keys(v@).len() && keys(v@)[k] == key@;
            assert(v@[k]@ == key@);
        }
    }
    None
}

/// The first occurrences of the keys in a list, in order.
pub fn distinct_keys(v: &[[u8; 32]]) -> (r: Vec<[u8; 32]>)
    ensures
        keys(r@) == first_occurrences(keys(v@)),
{
    let mut r: Vec<[u8; 32]> = Vec::new();
    let mut i: usize = 0;
    proof {
        assert(keys(r@) =~= keys(v@).take(0));
    }
    while i < v.len()
        invariant
            i <= v@.len(),
            keys(r@) == first_occurrences(keys(v@).take(i as int)),
        decreases v@.len() - i,
    {
        let ghost before = r@;
        let known = position_of_key(&r, &v[i]);
        proof {
            assert(keys(v@).take(i + 1).drop_last() =~= keys(v@).take(i as int));
            assert(keys(v@).take(i + 1).last() == v@[i as int]@);
            if known is Some {
                assert(keys(before)[known->0 as int] == v@[i as int]@);
            }
        }
        if known.is_none() {
            r.push(v[i]);
            proof {
                assert(keys(r@) =~= keys(before).push(v@[i as int]@));
            }
        }
        i += 1;
    }
    proof {
        assert(keys(v@).take(v@.len() as int) =~= keys(v@));
    }
    r
}

/// What comes later in a list does not change which came first before it.
pub proof fn law_first_occurrences_keep_their_order<T>(s: Seq<T>, later: Seq<T>)
    ensures
        first_occurrences(s).is_prefix_of(first_occurrences(s + later)),
        s.no_duplicates() ==> first_occurrences(s) == s,
    decreases s.len() + later.len(),
{
    if later.len() == 0 {
        assert(s + later =~= s);
        assert(first_occurrences(s).take(first_occurrences(s).len() as int) =~= first_occurrences(s));
    } else {
        let less = later.drop_last();
        assert((s + later).drop_last() =~= s + less);
        law_first_occurrences_keep_their_order(s, less);
        let a = first_occurrences(s);
        let b = first_occurrences(s + later);
        let n = a.len() as int;
        assert(b.take(n) =~= first_occurrences(s + less).take(n));
    }
    if s.no_duplicates() && s.len() > 0 {
        let front = s.drop_last();
        law_first_occurrences_keep_their_order(front, Seq::empty());
        assert(!front.contains(s.last()));
        assert(front.push(s.last()) =~= s);
    }
}

} // verus!
