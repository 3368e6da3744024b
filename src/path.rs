use vstd::prelude::*;

verus! {

/// Index of the first `/` in `p` at or after `i`, or `p.len()`.
pub open spec fn next_slash(p: Seq<u8>, i: int) -> int
    decreases p.len() - i,
{
    if i >= p.len() {
        p.len() as int
    } else if p[i] == 47u8 {
        i
    } else {
        next_slash(p, i + 1)
    }
}

/// The non-empty `/`-separated components of a path, in order.
pub open spec fn components(p: Seq<u8>) -> Seq<Seq<u8>>
    decreases p.len(),
    via components_decreases
{
    if p.len() == 0 {
        seq![]
    } else {
        let k = next_slash(p, 0);
        let head = p.subrange(0, k);
        let rest = if k < p.len() {
            components(p.subrange(k + 1, p.len() as int))
        } else {
            seq![]
        };
        if head.len() == 0 {
            rest
        } else {
            seq![head] + rest
        }
    }
}

proof fn lemma_next_slash_bounds(p: Seq<u8>, i: int)
    requires
        0 <= i <= p.len(),
    ensures
        i <= next_slash(p, i) <= p.len(),
    decreases p.len() - i,
{
    if i < p.len() && p[i] != 47u8 {
        lemma_next_slash_bounds(p, i + 1);
    }
}

#[via_fn]
proof fn components_decreases(p: Seq<u8>) {
    if p.len() > 0 {
        lemma_next_slash_bounds(p, 0);
    }
}

fn find_slash(p: &[u8]) -> (r: usize)
    ensures
        r as int == next_slash(p@, 0),
        r <= p@.len(),
{
    let mut j: usize = 0;
    while j < p.len() && p[j] != 47u8
        invariant
            j <= p@.len(),
            next_slash(p@, 0) == next_slash(p@, j as int),
        decreases p@.len() - j,
    {
        j = j + 1;
    }
    j
}

pub open spec fn views_of(v: Seq<Vec<u8>>) -> Seq<Seq<u8>> {
    v.map_values(|x: Vec<u8>| x@)
}

/// Splits a path into its non-empty components.
pub fn split_path(path: &[u8]) -> (r: Vec<Vec<u8>>)
    ensures
        views_of(r@) == components(path@),
{
    let mut out: Vec<Vec<u8>> = Vec::new();
    let mut rest: &[u8] = path;
    while rest.len() > 0
        invariant
            components(path@) == views_of(out@) + components(rest@),
        decreases rest@.len(),
    {
        let k = find_slash(rest);
        let head = vstd::slice::slice_to_vec(vstd::slice::slice_subrange(rest, 0, k));
        let ghost old_out = out@;
        let ghost old_rest = rest@;
        if k > 0 {
            out.push(head);
        }
        if k < rest.len() {
            rest = vstd::slice::slice_subrange(rest, k + 1, rest.len());
        } else {
            rest = vstd::slice::slice_subrange(rest, 0, 0);
        }
        proof {
            assert(components(rest@) == (if k < old_rest.len() {
                components(old_rest.subrange(k + 1, old_rest.len() as int))
            } else {
                seq![]
            })) by {
                if k >= old_rest.len() {
                    assert(rest@.len() == 0);
                }
            }
            if k > 0 {
                assert(views_of(out@) =~= views_of(old_out) + seq![head@]);
            } else {
                assert(views_of(out@) =~= views_of(old_out));
            }
        }
    }
    assert(components(rest@) =~= seq![]);
    assert(views_of(out@) + seq![] =~= views_of(out@));
    out
}

} // verus!
