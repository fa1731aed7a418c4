use vstd::prelude::*;

verus! {

/// The character sequences of a list of strings.
pub open spec fn strs(v: Seq<String>) -> Seq<Seq<char>> {
    v.map_values(|s: String| s@)
}

/// Whether two lists of strings hold the same strings in the same order.
pub fn strings_equal(a: &Vec<String>, b: &Vec<String>) -> (r: bool)
    ensures
        r == (strs(a@) == strs(b@)),
{
    if a.len() != b.len() {
        assert(strs(a@).len() != strs(b@).len());
        return false;
    }
    let mut i: usize = 0;
    while i < a.len()
        invariant
            i <= a.len(),
            a.len() == b.len(),
            forall|k: int| 0 <= k < i ==> #[trigger] a@[k]@ == b@[k]@,
        decreases a.len() - i,
    {
        if a[i] != b[i] {
            assert(strs(a@)[i as int] != strs(b@)[i as int]);
            return false;
        }
        i = i + 1;
    }
    assert(strs(a@) =~= strs(b@));
    true
}

/// A copy of a list of strings.
pub fn clone_strings(v: &Vec<String>) -> (r: Vec<String>)
    ensures
        strs(r@) == strs(v@),
        r.len() == v.len(),
        forall|k: int| 0 <= k < v.len() ==> #[trigger] r@[k]@ == v@[k]@,
{
    let mut r: Vec<String> = Vec::new();
    let mut i: usize = 0;
    while i < v.len()
        invariant
            i <= v.len(),
            r.len() == i,
            forall|k: int| 0 <= k < i ==> #[trigger] r@[k]@ == v@[k]@,
        decreases v.len() - i,
    {
        r.push(v[i].clone());
        i = i + 1;
    }
    assert(strs(r@) =~= strs(v@));
    r
}

/// `a` followed by `b`.
pub fn concat_strings(a: &Vec<String>, b: &Vec<String>) -> (r: Vec<String>)
    ensures
        strs(r@) == strs(a@) + strs(b@),
{
    let mut r = clone_strings(a);
    let mut i: usize = 0;
    while i < b.len()
        invariant
            i <= b.len(),
            r.len() == a.len() + i,
            forall|k: int| 0 <= k < a.len() ==> #[trigger] r@[k]@ == a@[k]@,
            forall|k: int| 0 <= k < i ==> #[trigger] r@[a.len() + k]@ == b@[k]@,
        decreases b.len() - i,
    {
        r.push(b[i].clone());
        i = i + 1;
    }
    assert forall|k: int| 0 <= k < r.len() implies #[trigger] strs(r@)[k] == (strs(a@) + strs(b@))[k] by {
        if k >= a.len() {
            assert(r@[a.len() + (k - a.len())]@ == b@[k - a.len()]@);
        }
    }
    assert(strs(r@) =~= strs(a@) + strs(b@));
    r
}

/// Whether two strings hold the same characters.
pub fn same_text(a: &str, b: &str) -> (r: bool)
    ensures
        r == (a@ == b@),
{
    let x = a.to_owned();
    let y = b.to_owned();
    x == y
}

/// Appends copies of the strings of `src` to `dst`.
pub fn append_strings(dst: &mut Vec<String>, src: &Vec<String>)
    ensures
        strs(final(dst)@) == strs(old(dst)@) + strs(src@),
{
    let ghost start = dst@;
    let mut i: usize = 0;
    while i < src.len()
        invariant
            i <= src.len(),
            dst@.len() == start.len() + i,
            forall|k: int| 0 <= k < start.len() ==> #[trigger] dst@[k] == start[k],
            forall|k: int| 0 <= k < i ==> #[trigger] dst@[start.len() + k]@ == src@[k]@,
        decreases src.len() - i,
    {
        dst.push(src[i].clone());
        i = i + 1;
    }
    assert forall|k: int| 0 <= k < dst@.len() implies #[trigger] strs(dst@)[k] == (strs(start) + strs(src@))[k] by {
        if k >= start.len() {
            assert(dst@[start.len() + (k - start.len())]@ == src@[k - start.len()]@);
        }
    }
    assert(strs(dst@) =~= strs(start) + strs(src@));
}

} // verus!
