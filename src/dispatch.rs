//! Offering a discovered device to the registered handlers, in registration
//! order, until one claims it. The caller asks `next_offer` what to do with
//! the answers gathered so far, asks the handler it names, and appends the
//! answer.
use vstd::prelude::*;
use crate::registry::Registry;

verus! {

#[derive(PartialEq, Eq, Structural, Clone, Copy, Debug)]
pub enum DispatchStep {
    /// Ask handler `i` whether it claims the device.
    Offer(usize),
    /// Handler `i` claimed the device; ask no one else.
    Claimed(usize),
    /// No handler claimed the device.
    Unclaimed,
}

/// The first handler that claimed the device, given the answers so far.
pub open spec fn first_claim(answers: Seq<bool>) -> Option<int>
    decreases answers.len(),
{
    if answers.len() == 0 {
        None
    } else if answers[0] {
        Some(0)
    } else {
        match first_claim(answers.drop_first()) {
            Some(i) => Some(i + 1),
            None => None,
        }
    }
}

pub open spec fn next_offer_spec(n: nat, answers: Seq<bool>) -> DispatchStep {
    match first_claim(answers) {
        Some(i) => DispatchStep::Claimed(i as usize),
        None => if answers.len() < n {
            DispatchStep::Offer(answers.len() as usize)
        } else {
            DispatchStep::Unclaimed
        },
    }
}

proof fn lemma_first_claim_bounds(answers: Seq<bool>)
    ensures
        match first_claim(answers) {
            Some(i) => 0 <= i < answers.len() && answers[i] && forall|j: int| 0 <= j < i ==> !answers[j],
            None => forall|j: int| 0 <= j < answers.len() ==> !answers[j],
        },
    decreases answers.len(),
{
    if answers.len() > 0 {
        lemma_first_claim_bounds(answers.drop_first());
        assert forall|j: int| 1 <= j < answers.len() implies answers[j] == answers.drop_first()[j - 1] by {}
    }
}

/// What to do next for `n` handlers after the answers `answers` (answer `i`
/// is that of handler `i`).
pub fn next_offer(n: usize, answers: &Vec<bool>) -> (r: DispatchStep)
    ensures
        r == next_offer_spec(n as nat, answers@),
{
    let mut i: usize = 0;
    while i < answers.len()
        invariant
            i <= answers@.len(),
            forall|j: int| 0 <= j < i ==> !answers@[j],
        decreases answers@.len() - i,
    {
        if answers[i] {
            proof {
                lemma_first_claim_bounds(answers@);
                lemma_first_claim_unique(answers@, i as int);
            }
            return DispatchStep::Claimed(i);
        }
        i = i + 1;
    }
    proof {
        lemma_first_claim_bounds(answers@);
        if first_claim(answers@) is Some {
            let k = first_claim(answers@)->Some_0;
            assert(answers@[k]);
        }
    }
    if answers.len() < n {
        DispatchStep::Offer(answers.len())
    } else {
        DispatchStep::Unclaimed
    }
}

proof fn lemma_first_claim_unique(answers: Seq<bool>, i: int)
    requires
        0 <= i < answers.len(),
        answers[i],
        forall|j: int| 0 <= j < i ==> !answers[j],
    ensures
        first_claim(answers) == Some(i),
{
    lemma_first_claim_bounds(answers);
    match first_claim(answers) {
        Some(k) => {
            assert(!(k < i));
            assert(!(i < k));
        },
        None => {
            assert(!answers[i]);
        },
    }
}

/// The handlers asked, in order, and the final step, when `n` handlers answer
/// as `claims` says, starting from the answers `answers`.
pub open spec fn dispatch_run(n: nat, claims: Seq<bool>, answers: Seq<bool>) -> (Seq<int>, DispatchStep)
    decreases n - answers.len(),
{
    match next_offer_spec(n, answers) {
        DispatchStep::Offer(i) => if answers.len() < n && i < claims.len() {
            let (asked, last) = dispatch_run(n, claims, answers.push(claims[i as int]));
            (seq![i as int] + asked, last)
        } else {
            (Seq::empty(), DispatchStep::Offer(i))
        },
        other => (Seq::empty(), other),
    }
}

proof fn lemma_dispatch_from(n: nat, claims: Seq<bool>, k: int, a: int)
    requires
        claims.len() == n,
        n <= usize::MAX,
        0 <= k < n,
        0 <= a <= k,
        claims[k],
        forall|j: int| 0 <= j < n && j != k ==> !claims[j],
    ensures
        dispatch_run(n, claims, claims.subrange(0, a)) == (
            Seq::new((k - a + 1) as nat, |j: int| a + j),
            DispatchStep::Claimed(k as usize),
        ),
    decreases k - a,
{
    let ans = claims.subrange(0, a);
    lemma_first_claim_bounds(ans);
    assert(first_claim(ans).is_none()) by {
        if first_claim(ans) is Some {
            let c = first_claim(ans)->Some_0;
            assert(ans[c] == claims[c]);
        }
    }
    assert(next_offer_spec(n, ans) == DispatchStep::Offer(a as usize));
    let ans2 = ans.push(claims[a]);
    assert(ans2 =~= claims.subrange(0, a + 1));
    let rest = dispatch_run(n, claims, ans2);
    assert(dispatch_run(n, claims, ans) == (seq![a] + rest.0, rest.1));
    if a < k {
        lemma_dispatch_from(n, claims, k, a + 1);
        assert(seq![a] + Seq::new((k - a) as nat, |j: int| a + 1 + j) =~= Seq::new((k - a + 1) as nat, |j: int| a + j));
    } else {
        assert forall|j: int| 0 <= j < a implies !ans2[j] by {
            assert(ans2[j] == claims[j]);
        }
        lemma_first_claim_unique(ans2, a);
        assert(seq![a] =~= Seq::new(1, |j: int| a + j));
        assert(seq![a] + Seq::<int>::empty() =~= seq![a]);
    }
}

/// With `n` handlers of which only handler `k` claims the device, handlers
/// `0` to `k` are asked, in that order, handler `k` claims it, and no handler
/// after `k` is asked.
pub proof fn lemma_only_claimant_wins(n: nat, claims: Seq<bool>, k: int)
    requires
        claims.len() == n,
        n <= usize::MAX,
        0 <= k < n,
        claims[k],
        forall|j: int| 0 <= j < n && j != k ==> !claims[j],
    ensures
        dispatch_run(n, claims, Seq::empty()) == (
            Seq::new((k + 1) as nat, |j: int| j),
            DispatchStep::Claimed(k as usize),
        ),
{
    lemma_dispatch_from(n, claims, k, 0);
    assert(claims.subrange(0, 0) =~= Seq::<bool>::empty());
    assert(Seq::new((k + 1) as nat, |j: int| 0 + j) =~= Seq::new((k + 1) as nat, |j: int| j));
}

/// A service event named an id that the registry does not hold.
pub struct MissingService {
    pub id: String,
}

/// A service reported as started must already be registered.
pub fn service_started<T>(services: &Registry<T>, id: &str) -> (r: Result<(), MissingService>)
    requires
        services.wf(),
    ensures
        r is Ok <==> services.has(id@),
        r matches Err(e) ==> e.id@ == id@,
{
    if services.contains(id) {
        Ok(())
    } else {
        Err(MissingService { id: String::from_str(id) })
    }
}

/// A service reported as stopped leaves the registry; it must be there.
pub fn service_stopped<T>(services: &mut Registry<T>, id: &str) -> (r: Result<T, MissingService>)
    requires
        old(services).wf(),
    ensures
        final(services).wf(),
        !final(services).has(id@),
        forall|k: Seq<char>| k != id@ ==> final(services).get(k) == old(services).get(k),
        final(services).len_spec() == old(services).len_spec() - if old(services).has(id@) { 1int } else { 0int },
        match r {
            Ok(v) => old(services).get(id@) == Some(v),
            Err(e) => !old(services).has(id@) && e.id@ == id@,
        },
{
    match services.remove(id) {
        Some(v) => Ok(v),
        None => Err(MissingService { id: String::from_str(id) }),
    }
}

} // verus!
