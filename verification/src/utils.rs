//! Transposition of a rectangular grid from cell-major to line-major
//! order.

use vstd::prelude::*;

verus! {

/// Transposes a rectangular grid: element `[i][j]` of the input becomes
/// element `[j][i]` of the result.  A grid with no inner elements is handed
/// back unchanged.
pub fn transpose<T>(v: Vec<Vec<T>>) -> (r: Vec<Vec<T>>)
    requires
        forall|i: int| 0 <= i < v@.len() ==> (#[trigger] v@[i])@.len() == v@[0]@.len(),
    ensures
        v@.len() == 0 || v@[0]@.len() == 0 ==> r == v,
        v@.len() > 0 && v@[0]@.len() > 0 ==> {
            &&& r@.len() == v@[0]@.len()
            &&& forall|l: int| 0 <= l < r@.len() ==> (#[trigger] r@[l])@.len() == v@.len()
            &&& forall|l: int, j: int|
                0 <= l < r@.len() && 0 <= j < v@.len() ==> r@[l]@[j] == v@[j]@[l]
        },
{
    if v.len() == 0 {
        return v;
    }
    let height = v[0].len();
    if height == 0 {
        return v;
    }
    let columns = v.len();
    let ghost orig = v@;
    let mut rem = v;
    let mut out: Vec<Vec<T>> = Vec::new();
    let mut l: usize = 0;
    proof {
        assert(forall|k: int| 0 <= k < columns ==> (#[trigger] rem@[k])@ =~= orig[k]@.skip(0));
    }
    while l < height
        invariant
            0 < height,
            orig.len() == columns,
            forall|i: int| 0 <= i < columns ==> (#[trigger] orig[i])@.len() == height,
            l <= height,
            rem@.len() == columns,
            forall|k: int| 0 <= k < columns ==> (#[trigger] rem@[k])@ == orig[k]@.skip(l as int),
            out@.len() == l,
            forall|m: int| 0 <= m < l ==> (#[trigger] out@[m])@.len() == columns,
            forall|m: int, j: int|
                0 <= m < l && 0 <= j < columns ==> out@[m]@[j] == orig[j]@[m],
        decreases height - l,
    {
        let mut line: Vec<T> = Vec::new();
        let mut rest: Vec<Vec<T>> = Vec::new();
        while rem.len() > 0
            invariant
                0 < height,
                orig.len() == columns,
                forall|i: int| 0 <= i < columns ==> (#[trigger] orig[i])@.len() == height,
                l < height,
                rest@.len() + rem@.len() == columns,
                line@.len() == rest@.len(),
                forall|k: int|
                    0 <= k < rem@.len() ==> (#[trigger] rem@[k])@ == orig[
                        rest@.len() + k
                    ]@.skip(l as int),
                forall|k: int|
                    0 <= k < rest@.len() ==> (#[trigger] rest@[k])@ == orig[k]@.skip(l + 1),
                forall|k: int| 0 <= k < line@.len() ==> line@[k] == orig[k]@[l as int],
            decreases rem@.len(),
        {
            let mut col = rem.remove(0);
            proof {
                assert(col@ == orig[rest@.len() as int]@.skip(l as int));
                assert(col@[0] == orig[rest@.len() as int]@[l as int]);
                assert(col@.skip(1) =~= orig[rest@.len() as int]@.skip(l + 1));
            }
            let x = col.remove(0);
            line.push(x);
            rest.push(col);
        }
        rem = rest;
        out.push(line);
        l = l + 1;
    }
    out
}

} // verus!
