//! Small helpers on texts.

use vstd::prelude::*;
use vstd::string::*;

verus! {

/// Whether two texts hold the same characters.
pub fn same_text(a: &str, b: &str) -> (r: bool)
    ensures
        r == (a@ == b@),
{
    String::from_str(a) == String::from_str(b)
}

/// The texts `a` and `b`, one behind the other.
pub fn concat2(a: &str, b: &str) -> (r: String)
    ensures
        r@ == a@ + b@,
{
    let mut r = String::from_str(a);
    r.append(b);
    r
}

/// The texts `a`, `b` and `c`, one behind the other.
pub fn concat3(a: &str, b: &str, c: &str) -> (r: String)
    ensures
        r@ == a@ + b@ + c@,
{
    let mut r = String::from_str(a);
    r.append(b);
    r.append(c);
    r
}

/// The texts of a list of strings.
pub open spec fn texts_of(list: Seq<String>) -> Seq<Seq<char>> {
    Seq::new(list.len(), |i: int| list[i]@)
}

/// Appends copies of the texts of `more` to `list`.
pub fn extend_texts(list: &mut Vec<String>, more: &Vec<String>)
    ensures
        texts_of(final(list)@) == texts_of(old(list)@) + texts_of(more@),
{
    let ghost before = list@;
    let mut i: usize = 0;
    while i < more.len()
        invariant
            i <= more@.len(),
            list@.len() == before.len() + i,
            forall|j: int| 0 <= j < before.len() ==> #[trigger] list@[j]@ == before[j]@,
            forall|k: int|
                before.len() <= k < before.len() + i ==> #[trigger] list@[k]@ == more@[k - before.len()]@,
        decreases more@.len() - i,
    {
        list.push(more[i].clone());
        i += 1;
    }
    assert(texts_of(list@) =~= texts_of(before) + texts_of(more@));
}

} // verus!
