//! Checks that are made in order, of which the first fault counts.

use vstd::prelude::*;

verus! {

/// What a check reports: nothing, or the fault that it found.
pub open spec fn fault_of<E: View>(r: Result<(), E>) -> Option<E::V> {
    match r {
        Ok(()) => None,
        Err(e) => Some(e@),
    }
}

/// What a sequence of checks reports, one by one.
pub open spec fn faults<E: View>(results: Seq<Result<(), E>>) -> Seq<Option<E::V>> {
    results.map_values(|r: Result<(), E>| fault_of(r))
}

/// The first fault in a sequence of reports.
pub open spec fn first_fault<F>(reports: Seq<Option<F>>) -> Option<F>
    decreases reports.len(),
{
    if reports.len() == 0 {
        None
    } else if reports[0] is Some {
        reports[0]
    } else {
        first_fault(reports.drop_first())
    }
}

/// No report holds a fault exactly where there is no first fault.
pub proof fn no_first_fault_means_none<F>(reports: Seq<Option<F>>)
    ensures
        first_fault(reports) is None <==> forall|i: int|
            0 <= i < reports.len() ==> #[trigger] reports[i] is None,
    decreases reports.len(),
{
    if reports.len() > 0 && reports[0] is None {
        let others = reports.drop_first();
        no_first_fault_means_none(others);
        if first_fault(others) is None {
            assert forall|i: int| 0 <= i < reports.len() implies #[trigger] reports[i] is None by {
                if i > 0 {
                    assert(others[i - 1] == reports[i]);
                }
            }
        } else {
            let j = choose|j: int| 0 <= j < others.len() && #[trigger] others[j] is Some;
            assert(reports[j + 1] == others[j]);
        }
    }
}

/// A first fault is one of the reports, and nothing is reported before it.
pub proof fn first_fault_is_reported<F>(reports: Seq<Option<F>>) -> (i: int)
    requires
        first_fault(reports) is Some,
    ensures
        0 <= i < reports.len(),
        reports[i] == first_fault(reports),
        forall|j: int| 0 <= j < i ==> #[trigger] reports[j] is None,
    decreases reports.len(),
{
    if reports[0] is Some {
        0
    } else {
        let others = reports.drop_first();
        let k = first_fault_is_reported(others);
        assert(reports[k + 1] == others[k]);
        assert forall|j: int| 0 <= j < k + 1 implies #[trigger] reports[j] is None by {
            if j > 0 {
                assert(others[j - 1] == reports[j]);
            }
        }
        k + 1
    }
}

/// Reports after others count where the others hold no fault.
pub proof fn first_fault_of_both<F>(a: Seq<Option<F>>, b: Seq<Option<F>>)
    ensures
        first_fault(a + b) == if first_fault(a) is Some {
            first_fault(a)
        } else {
            first_fault(b)
        },
    decreases a.len(),
{
    if a.len() == 0 {
        assert(a + b =~= b);
    } else {
        assert((a + b)[0] == a[0]);
        assert((a + b).drop_first() =~= a.drop_first() + b);
        first_fault_of_both(a.drop_first(), b);
    }
}

/// The first error among results that were gathered in order.
pub(crate) fn first_error<E: View>(results: Vec<Result<(), E>>) -> (r: Result<(), E>)
    ensures
        fault_of(r) == first_fault(faults(results@)),
{
    let ghost all = faults(results@);
    let mut left: Vec<Result<(), E>> = results;
    let mut r: Result<(), E> = Ok(());
    proof {
        assert(all.skip(all.len() as int) =~= Seq::<Option<E::V>>::empty());
    }
    while left.len() > 0
        invariant
            left.len() <= all.len(),
            faults(left@) == all.take(left.len() as int),
            fault_of(r) == first_fault(all.skip(left.len() as int)),
        decreases left.len(),
    {
        let ghost n = left.len() as int;
        let ghost last = left@[n - 1];
        proof {
            assert(faults(left@)[n - 1] == fault_of(last));
            assert(all[n - 1] == all.take(n)[n - 1]);
            assert(all.skip(n - 1).drop_first() =~= all.skip(n));
            assert(all.skip(n - 1)[0] == all[n - 1]);
        }
        match left.pop() {
            Some(Err(e)) => {
                r = Err(e);
            },
            _ => {},
        }
        proof {
            assert(faults(left@) =~= all.take(n - 1));
        }
    }
    proof {
        assert(all.skip(0) =~= all);
    }
    r
}

/// One more report, where the reports so far are the first ones of `rules`.
pub(crate) proof fn faults_grow<E: View>(
    results: Seq<Result<(), E>>,
    result: Result<(), E>,
    rules: Seq<Option<E::V>>,
    i: int,
)
    requires
        0 <= i < rules.len(),
        faults(results) == rules.take(i),
        fault_of(result) == rules[i],
    ensures
        faults(results.push(result)) == rules.take(i + 1),
{
    assert(faults(results.push(result)) =~= faults(results).push(fault_of(result)));
    assert(rules.take(i + 1) =~= rules.take(i).push(rules[i]));
}

} // verus!
