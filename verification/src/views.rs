//! Views of results.

use vstd::prelude::*;

verus! {

/// A result with its value and its error taken by their deep views.
pub open spec fn outcome<T: DeepView, E: DeepView>(r: Result<T, E>) -> Result<T::V, E::V> {
    match r {
        Ok(v) => Ok(v.deep_view()),
        Err(e) => Err(e.deep_view()),
    }
}

/// A copy of a list of texts.
pub fn cloned(list: &Vec<String>) -> (res: Vec<String>)
    ensures
        res.deep_view() == list.deep_view(),
{
    let mut out: Vec<String> = Vec::new();
    let n: usize = list.len();
    let mut i: usize = 0;
    while i < n
        invariant
            n == list@.len(),
            i <= n,
            out.deep_view() =~= list.deep_view().take(i as int),
        decreases n - i,
    {
        let ghost before = out.deep_view();
        out.push(list[i].clone());
        assert(out.deep_view() =~= before.push(list@[i as int]@));
        i = i + 1;
    }
    assert(list.deep_view().take(n as int) =~= list.deep_view());
    out
}

/// What a filter keeps is what it found and what satisfies it, and it keeps all of that.
pub proof fn lemma_filtered<A>(s: Seq<A>, f: spec_fn(A) -> bool)
    ensures
        forall|x: A| #[trigger] s.filter(f).contains(x) <==> s.contains(x) && f(x),
    decreases s.len(),
{
    reveal(Seq::filter);
    if s.len() > 0 {
        let before = s.drop_last();
        lemma_filtered(before, f);
        let kept = before.filter(f);
        assert forall|x: A| #[trigger] s.filter(f).contains(x) <==> s.contains(x) && f(x) by {
            if s.filter(f).contains(x) {
                let k = choose|k: int| 0 <= k < s.filter(f).len() && s.filter(f)[k] == x;
                if k < kept.len() {
                    assert(kept[k] == x);
                    assert(kept.contains(x));
                    let i = choose|i: int| 0 <= i < before.len() && before[i] == x;
                    assert(s[i] == x);
                } else {
                    assert(s[s.len() - 1] == x);
                }
            }
            if s.contains(x) && f(x) {
                let i = choose|i: int| 0 <= i < s.len() && s[i] == x;
                if i < before.len() {
                    assert(before[i] == x);
                    assert(kept.contains(x));
                    let k = choose|k: int| 0 <= k < kept.len() && kept[k] == x;
                    assert(s.filter(f)[k] == x);
                } else {
                    assert(s.filter(f)[s.filter(f).len() - 1] == x);
                }
            }
        }
    }
}

} // verus!
