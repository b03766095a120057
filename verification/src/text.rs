use vstd::prelude::*;

verus! {

/// Whether two string slices hold the same characters.
pub fn str_equal(a: &str, b: &str) -> (r: bool)
    ensures
        r == (a@ == b@),
{
    let x: String = a.to_owned();
    let y: String = b.to_owned();
    x == y
}

/// A new string that holds `a` followed by `b`.
pub fn concat(a: &str, b: &str) -> (r: String)
    ensures
        r@ == a@ + b@,
{
    let mut s: String = a.to_owned();
    s.append(b);
    s
}

/// Whether some string of `v` holds exactly the characters of `s`.
pub fn contains_str(v: &[String], s: &str) -> (r: bool)
    ensures
        r == (exists|i: int| 0 <= i < v@.len() && #[trigger] v@[i]@ == s@),
{
    let mut i: usize = 0;
    while i < v.len()
        invariant
            i <= v@.len(),
            forall|j: int| 0 <= j < i ==> #[trigger] v@[j]@ != s@,
        decreases v@.len() - i,
    {
        if str_equal(v[i].as_str(), s) {
            return true;
        }
        i = i + 1;
    }
    false
}

} // verus!
