//! Pre-order, depth-first traversal of a policy tree.

use vstd::prelude::*;
use crate::definition::Policy;
use crate::policy::OperationSwitchCase;

verus! {

/// The policies of a list in pre-order: each policy, then the policies
/// nested in it, then the rest of the list.
pub open spec fn preorder(ps: Seq<Policy>) -> Seq<Policy>
    decreases ps,
{
    if ps.len() == 0 {
        Seq::empty()
    } else {
        proof {
            assert(decreases_to!(ps => ps[0]));
            assert(decreases_to!(ps => ps.subrange(1, ps.len() as int)));
        }
        seq![ps[0]] + nested(ps[0]) + preorder(ps.subrange(1, ps.len() as int))
    }
}

/// The policies nested in one policy, in pre-order: those of an `if` body,
/// or those of each switch case in declaration order.
pub open spec fn nested(p: Policy) -> Seq<Policy>
    decreases p,
{
    match p {
        Policy::If { policy } => {
            proof {
                assert(decreases_to!(p => policy));
                assert(decreases_to!(policy => policy.execute));
                assert(decreases_to!(policy.execute => policy.execute@));
            }
            preorder(policy.execute@)
        },
        Policy::OperationSwitch { policy } => {
            proof {
                assert(decreases_to!(p => policy));
                assert(decreases_to!(policy => policy.cases));
                assert(decreases_to!(policy.cases => policy.cases@));
            }
            cases_preorder(policy.cases@)
        },
        _ => Seq::empty(),
    }
}

/// The policies of switch cases in pre-order, case by case.
pub open spec fn cases_preorder(cs: Seq<OperationSwitchCase>) -> Seq<Policy>
    decreases cs,
{
    if cs.len() == 0 {
        Seq::empty()
    } else {
        proof {
            assert(decreases_to!(cs => cs[0]));
            assert(decreases_to!(cs[0] => cs[0].execute));
            assert(decreases_to!(cs[0].execute => cs[0].execute@));
            assert(decreases_to!(cs => cs.subrange(1, cs.len() as int)));
        }
        preorder(cs[0].execute@) + cases_preorder(cs.subrange(1, cs.len() as int))
    }
}

/// The policies that a sequence of references points at.
pub open spec fn derefs(s: Seq<&Policy>) -> Seq<Policy> {
    s.map_values(|r: &Policy| *r)
}

fn collect_list<'a>(ps: &'a Vec<Policy>, out: &mut Vec<&'a Policy>)
    ensures
        derefs(final(out)@) == derefs(old(out)@) + preorder(ps@),
    decreases ps,
{
    broadcast use vstd::std_specs::vec::axiom_vec_index_decreases;

    let mut k: usize = 0;
    assert(ps@.subrange(0, ps@.len() as int) == ps@);
    while k < ps.len()
        invariant
            k <= ps@.len(),
            derefs(old(out)@) + preorder(ps@) == derefs(out@) + preorder(ps@.subrange(k as int, ps@.len() as int)),
        decreases ps@.len() - k,
    {
        let ghost rest = ps@.subrange(k as int, ps@.len() as int);
        assert(rest[0] == ps@[k as int]);
        assert(rest.subrange(1, rest.len() as int) == ps@.subrange(k as int + 1, ps@.len() as int));
        let ghost before = out@;
        out.push(&ps[k]);
        assert(derefs(out@) == derefs(before) + seq![ps@[k as int]]);
        proof {
            assert(decreases_to!(*ps => ps[k as int]));
        }
        collect_nested(&ps[k], out);
        k = k + 1;
    }
    assert(ps@.subrange(k as int, ps@.len() as int) == Seq::<Policy>::empty());
}

fn collect_nested<'a>(p: &'a Policy, out: &mut Vec<&'a Policy>)
    ensures
        derefs(final(out)@) == derefs(old(out)@) + nested(*p),
    decreases p,
{
    match p {
        Policy::If { policy } => {
            proof {
                assert(decreases_to!(*p => *policy));
                assert(decreases_to!(*policy => policy.execute));
            }
            collect_list(&policy.execute, out);
        },
        Policy::OperationSwitch { policy } => {
            proof {
                assert(decreases_to!(*p => *policy));
                assert(decreases_to!(*policy => policy.cases));
            }
            collect_cases(&policy.cases, out);
        },
        _ => {
            assert(derefs(out@) == derefs(out@) + Seq::<Policy>::empty());
        },
    }
}

fn collect_cases<'a>(cs: &'a Vec<OperationSwitchCase>, out: &mut Vec<&'a Policy>)
    ensures
        derefs(final(out)@) == derefs(old(out)@) + cases_preorder(cs@),
    decreases cs,
{
    broadcast use vstd::std_specs::vec::axiom_vec_index_decreases;

    let mut k: usize = 0;
    assert(cs@.subrange(0, cs@.len() as int) == cs@);
    while k < cs.len()
        invariant
            k <= cs@.len(),
            derefs(old(out)@) + cases_preorder(cs@) == derefs(out@) + cases_preorder(cs@.subrange(k as int, cs@.len() as int)),
        decreases cs@.len() - k,
    {
        let ghost rest = cs@.subrange(k as int, cs@.len() as int);
        assert(rest[0] == cs@[k as int]);
        assert(rest.subrange(1, rest.len() as int) == cs@.subrange(k as int + 1, cs@.len() as int));
        proof {
            assert(decreases_to!(*cs => cs[k as int]));
            assert(decreases_to!(cs[k as int] => cs[k as int].execute));
        }
        collect_list(&cs[k].execute, out);
        k = k + 1;
    }
    assert(cs@.subrange(k as int, cs@.len() as int) == Seq::<OperationSwitchCase>::empty());
}

/// Every policy of a list, nested ones included, in pre-order depth-first
/// order: a policy comes before the policies nested in it, an `if` body and
/// switch cases are walked in declaration order.
pub fn for_each_policy<'a>(ps: &'a Vec<Policy>) -> (r: Vec<&'a Policy>)
    ensures
        derefs(r@) == preorder(ps@),
{
    let mut out: Vec<&'a Policy> = Vec::new();
    assert(derefs(out@) == Seq::<Policy>::empty());
    collect_list(ps, &mut out);
    assert(Seq::<Policy>::empty() + preorder(ps@) == preorder(ps@));
    out
}

} // verus!
