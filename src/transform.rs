use vstd::prelude::*;

use crate::model::{ObjectChange, ObjectId, ObjectSnapshot, PastObjectRequest, StepStatus};

verus! {

/// What the chain reports for an object asked for at one version.
#[derive(Clone, Debug)]
pub enum PastObjectResponse<O> {
    VersionFound(O),
    ObjectDeleted { object_id: ObjectId, version: u64 },
    ObjectNotExists(ObjectId),
    VersionNotFound(ObjectId, u64),
    VersionTooHigh { object_id: ObjectId, asked_version: u64, latest_version: u64 },
}

/// A single-object fetch that failed as a call (not a "no object" answer).
#[derive(Clone, Copy, Debug, PartialEq, Eq)]
pub struct FetchFailed;

/// The bulk answer does not have one entry per request: the remote API no
/// longer keeps its contract, and the batch cannot be matched up.
#[derive(Clone, Copy, Debug, PartialEq, Eq)]
pub struct BulkLengthMismatch {
    pub requested: usize,
    pub received: usize,
}

pub open spec fn resolved<O>(res: PastObjectResponse<O>) -> Option<O> {
    match res {
        PastObjectResponse::VersionFound(o) => Some(o),
        _ => None,
    }
}

pub open spec fn with_object<O>(s: ObjectSnapshot<O>, o: O) -> ObjectSnapshot<O> {
    ObjectSnapshot { digest: s.digest, change: s.change, object: Some(o) }
}

pub open spec fn skips_fetch<O>(s: ObjectSnapshot<O>) -> bool {
    !s.change.needs_fetch_spec()
}

pub open spec fn needs_fetch<O>(s: ObjectSnapshot<O>) -> bool {
    s.change.needs_fetch_spec()
}

/// The items of a batch that pass through unchanged, each with success.
pub open spec fn passed_through<O>(chunk: Seq<ObjectSnapshot<O>>) -> Seq<(StepStatus, ObjectSnapshot<O>)> {
    chunk.filter(|s: ObjectSnapshot<O>| skips_fetch(s)).map_values(
        |s: ObjectSnapshot<O>| (StepStatus::Succeeded, s),
    )
}

/// What one item yields once its object answer is known: the item with its
/// object, or nothing when the chain has no object for it.
pub open spec fn resolved_outcome<O>(s: ObjectSnapshot<O>, res: PastObjectResponse<O>) -> Seq<
    (StepStatus, ObjectSnapshot<O>),
> {
    match resolved(res) {
        Some(o) => seq![(StepStatus::Succeeded, with_object(s, o))],
        None => Seq::empty(),
    }
}

/// What one item yields from its own single fetch.
pub open spec fn individual_outcome<O>(
    s: ObjectSnapshot<O>,
    res: Result<PastObjectResponse<O>, FetchFailed>,
) -> Seq<(StepStatus, ObjectSnapshot<O>)> {
    match res {
        Ok(r) => resolved_outcome(s, r),
        Err(_) => seq![(StepStatus::Failed, s)],
    }
}

/// The outcomes of a bulk answer, item by item in request order.
pub open spec fn bulk_outcomes<O>(
    items: Seq<ObjectSnapshot<O>>,
    answers: Seq<PastObjectResponse<O>>,
) -> Seq<(StepStatus, ObjectSnapshot<O>)>
    decreases items.len(),
{
    if items.len() == 0 || answers.len() == 0 {
        Seq::empty()
    } else {
        bulk_outcomes(items.drop_last(), answers.drop_last()) + resolved_outcome(
            items.last(),
            answers.last(),
        )
    }
}

/// The outcomes of fetching every item on its own, in order.
pub open spec fn fallback_outcomes<O>(
    items: Seq<ObjectSnapshot<O>>,
    results: Seq<Result<PastObjectResponse<O>, FetchFailed>>,
) -> Seq<(StepStatus, ObjectSnapshot<O>)>
    decreases items.len(),
{
    if items.len() == 0 || results.len() == 0 {
        Seq::empty()
    } else {
        fallback_outcomes(items.drop_last(), results.drop_last()) + individual_outcome(
            items.last(),
            results.last(),
        )
    }
}

/// Splits a batch: the items that need no fetch, each paired with success, in
/// batch order; then the items whose object must be fetched, in batch order.
pub fn split_batch<O>(chunk: Vec<ObjectSnapshot<O>>) -> (r: (
    Vec<(StepStatus, ObjectSnapshot<O>)>,
    Vec<ObjectSnapshot<O>>,
))
    ensures
        r.0@ == passed_through(chunk@),
        r.1@ == chunk@.filter(|s: ObjectSnapshot<O>| needs_fetch(s)),
{
    let ghost whole = chunk@;
    assert(whole.len() == chunk.len());
    let mut passed: Vec<(StepStatus, ObjectSnapshot<O>)> = Vec::new();
    let mut fetch: Vec<ObjectSnapshot<O>> = Vec::new();
    let mut rest = chunk;
    proof {
        assert(whole.skip(0) =~= whole);
    }
    let mut i: usize = 0;
    proof {
        reveal(Seq::filter);
    }
    while rest.len() > 0
        invariant
            i + rest@.len() == whole.len(),
            whole.len() <= usize::MAX,
            rest@ == whole.skip(i as int),
            passed@ == whole.take(i as int).filter(|s: ObjectSnapshot<O>| skips_fetch(s)).map_values(
                |s: ObjectSnapshot<O>| (StepStatus::Succeeded, s),
            ),
            fetch@ == whole.take(i as int).filter(|s: ObjectSnapshot<O>| needs_fetch(s)),
        decreases rest.len(),
    {
        let item = rest.remove(0);
        proof {
            assert(item == whole[i as int]);
            assert(whole.take(i + 1).drop_last() =~= whole.take(i as int));
            reveal(Seq::filter);
        }
        if item.skip_fetching_object() {
            passed.push((StepStatus::Succeeded, item));
        } else {
            fetch.push(item);
        }
        i = i + 1;
        proof {
            assert(passed@ =~= whole.take(i as int).filter(|s: ObjectSnapshot<O>| skips_fetch(s)).map_values(
                |s: ObjectSnapshot<O>| (StepStatus::Succeeded, s),
            ));
        }
    }
    proof {
        assert(whole.take(i as int) =~= whole);
    }
    (passed, fetch)
}

/// The requests for the objects of the given items, in item order.
pub fn past_object_requests<O>(items: &Vec<ObjectSnapshot<O>>) -> (r: Vec<PastObjectRequest>)
    ensures
        r@.len() == items@.len(),
        forall|k: int|
            0 <= k < items@.len() ==> r@[k].object_id == (#[trigger] items@[k]).change.id_spec()
                && r@[k].version == items@[k].change.version_spec(),
{
    let mut r: Vec<PastObjectRequest> = Vec::new();
    for i in 0..items.len()
        invariant
            r@.len() == i,
            forall|k: int|
                0 <= k < i ==> r@[k].object_id == (#[trigger] items@[k]).change.id_spec()
                    && r@[k].version == items@[k].change.version_spec(),
    {
        r.push(items[i].get_past_object_request());
    }
    r
}

/// The object of an answer, if the chain found one at the asked version. Every
/// other answer (deleted, unknown object, unknown version, version too high)
/// gives none.
pub fn parse_past_object_response<O>(res: PastObjectResponse<O>) -> (r: Option<O>)
    ensures
        r == resolved(res),
{
    match res {
        PastObjectResponse::VersionFound(o) => Some(o),
        _ => None,
    }
}

pub open spec fn as_seq<A>(o: Option<A>) -> Seq<A> {
    match o {
        Some(a) => seq![a],
        None => Seq::empty(),
    }
}

/// Resolves one item from its answer: the item with its object and success,
/// or nothing when the chain has no object for it.
pub fn resolve_answer<O>(item: ObjectSnapshot<O>, res: PastObjectResponse<O>) -> (r: Option<
    (StepStatus, ObjectSnapshot<O>),
>)
    ensures
        as_seq(r) == resolved_outcome(item, res),
{
    match parse_past_object_response(res) {
        Some(o) => {
            let out = ObjectSnapshot { digest: item.digest, change: item.change, object: Some(o) };
            Some((StepStatus::Succeeded, out))
        },
        None => None,
    }
}

/// Resolves one item from its own fetch: a failed call gives the item back
/// with failure.
pub fn resolve_individual<O>(
    item: ObjectSnapshot<O>,
    res: Result<PastObjectResponse<O>, FetchFailed>,
) -> (r: Option<(StepStatus, ObjectSnapshot<O>)>)
    ensures
        as_seq(r) == individual_outcome(item, res),
{
    match res {
        Ok(answer) => resolve_answer(item, answer),
        Err(_) => Some((StepStatus::Failed, item)),
    }
}

/// Pairs the items with the bulk answer, which must hold one entry per item in
/// request order. A bulk answer of another length is refused whole.
pub fn resolve_bulk<O>(items: Vec<ObjectSnapshot<O>>, answers: Vec<PastObjectResponse<O>>) -> (r:
    Result<Vec<(StepStatus, ObjectSnapshot<O>)>, BulkLengthMismatch>)
    ensures
        r is Err <==> items@.len() != answers@.len(),
        r matches Ok(v) ==> v@ == bulk_outcomes(items@, answers@),
        r matches Err(e) ==> e.requested == items@.len() && e.received == answers@.len(),
{
    if items.len() != answers.len() {
        return Err(BulkLengthMismatch { requested: items.len(), received: answers.len() });
    }
    let ghost whole_items = items@;
    let ghost whole_answers = answers@;
    let mut out: Vec<(StepStatus, ObjectSnapshot<O>)> = Vec::new();
    let mut items = items;
    let mut answers = answers;
    let mut i: usize = 0;
    proof {
        assert(whole_items.skip(0) =~= whole_items);
        assert(whole_answers.skip(0) =~= whole_answers);
        assert(whole_items.take(0) =~= Seq::<ObjectSnapshot<O>>::empty());
    }
    while items.len() > 0
        invariant
            i + items@.len() == whole_items.len(),
            whole_items.len() == whole_answers.len(),
            whole_items.len() <= usize::MAX,
            items@ == whole_items.skip(i as int),
            answers@ == whole_answers.skip(i as int),
            out@ == bulk_outcomes(whole_items.take(i as int), whole_answers.take(i as int)),
        decreases items.len(),
    {
        let item = items.remove(0);
        let answer = answers.remove(0);
        proof {
            assert(whole_items.take(i + 1).drop_last() =~= whole_items.take(i as int));
            assert(whole_answers.take(i + 1).drop_last() =~= whole_answers.take(i as int));
            assert(whole_items.take(i + 1).last() == item);
            assert(whole_answers.take(i + 1).last() == answer);
        }
        let r = resolve_answer(item, answer);
        match r {
            Some(x) => {
                out.push(x);
            },
            None => {},
        }
        i = i + 1;
        proof {
            assert(out@ =~= bulk_outcomes(whole_items.take(i as int), whole_answers.take(i as int)));
            assert(items@ =~= whole_items.skip(i as int));
            assert(answers@ =~= whole_answers.skip(i as int));
        }
    }
    proof {
        assert(whole_items.take(i as int) =~= whole_items);
        assert(whole_answers.take(i as int) =~= whole_answers);
    }
    Ok(out)
}

/// Resolves every item from its own fetch, in item order; `results` holds one
/// fetch result per item.
pub fn resolve_fallback<O>(
    items: Vec<ObjectSnapshot<O>>,
    results: Vec<Result<PastObjectResponse<O>, FetchFailed>>,
) -> (r: Vec<(StepStatus, ObjectSnapshot<O>)>)
    requires
        items@.len() == results@.len(),
    ensures
        r@ == fallback_outcomes(items@, results@),
{
    let ghost whole_items = items@;
    let ghost whole_results = results@;
    assert(whole_items.len() == items.len());
    let mut out: Vec<(StepStatus, ObjectSnapshot<O>)> = Vec::new();
    let mut items = items;
    let mut results = results;
    let mut i: usize = 0;
    proof {
        assert(whole_items.skip(0) =~= whole_items);
        assert(whole_results.skip(0) =~= whole_results);
    }
    while items.len() > 0
        invariant
            i + items@.len() == whole_items.len(),
            whole_items.len() == whole_results.len(),
            whole_items.len() <= usize::MAX,
            items@ == whole_items.skip(i as int),
            results@ == whole_results.skip(i as int),
            out@ == fallback_outcomes(whole_items.take(i as int), whole_results.take(i as int)),
        decreases items.len(),
    {
        let item = items.remove(0);
        let res = results.remove(0);
        proof {
            assert(whole_items.take(i + 1).drop_last() =~= whole_items.take(i as int));
            assert(whole_results.take(i + 1).drop_last() =~= whole_results.take(i as int));
            assert(whole_items.take(i + 1).last() == item);
            assert(whole_results.take(i + 1).last() == res);
        }
        let r = resolve_individual(item, res);
        match r {
            Some(x) => {
                out.push(x);
            },
            None => {},
        }
        i = i + 1;
        proof {
            assert(out@ =~= fallback_outcomes(whole_items.take(i as int), whole_results.take(i as int)));
            assert(items@ =~= whole_items.skip(i as int));
            assert(results@ =~= whole_results.skip(i as int));
        }
    }
    proof {
        assert(whole_items.take(i as int) =~= whole_items);
        assert(whole_results.take(i as int) =~= whole_results);
    }
    out
}

/// Fetching each item on its own gives the same outcomes as one bulk call
/// would: where every single fetch returns the answer the bulk call holds for
/// that item, the fallback yields exactly the bulk outcomes.
pub proof fn lemma_fallback_matches_bulk<O>(
    items: Seq<ObjectSnapshot<O>>,
    answers: Seq<PastObjectResponse<O>>,
)
    requires
        items.len() == answers.len(),
    ensures
        fallback_outcomes(
            items,
            answers.map_values(|a: PastObjectResponse<O>| Ok::<PastObjectResponse<O>, FetchFailed>(a)),
        ) == bulk_outcomes(items, answers),
    decreases items.len(),
{
    let results = answers.map_values(
        |a: PastObjectResponse<O>| Ok::<PastObjectResponse<O>, FetchFailed>(a),
    );
    if items.len() > 0 {
        lemma_fallback_matches_bulk(items.drop_last(), answers.drop_last());
        assert(results.drop_last() =~= answers.drop_last().map_values(
            |a: PastObjectResponse<O>| Ok::<PastObjectResponse<O>, FetchFailed>(a),
        ));
    }
}

/// Enrichment never emits an item without its object on success: every item
/// that resolution reports as a success carries an object, and every failure
/// gives back the item as it was.
pub proof fn lemma_successes_carry_objects<O>(
    items: Seq<ObjectSnapshot<O>>,
    answers: Seq<PastObjectResponse<O>>,
    results: Seq<Result<PastObjectResponse<O>, FetchFailed>>,
)
    ensures
        forall|k: int|
            0 <= k < bulk_outcomes(items, answers).len() ==> (#[trigger] bulk_outcomes(
                items,
                answers,
            )[k]).0 is Succeeded && bulk_outcomes(items, answers)[k].1.object is Some,
        forall|k: int|
            0 <= k < fallback_outcomes(items, results).len() && (#[trigger] fallback_outcomes(
                items,
                results,
            )[k]).0 is Succeeded ==> fallback_outcomes(items, results)[k].1.object is Some,
        forall|k: int|
            0 <= k < fallback_outcomes(items, results).len() && (#[trigger] fallback_outcomes(
                items,
                results,
            )[k]).0 is Failed ==> items.contains(fallback_outcomes(items, results)[k].1),
    decreases items.len(),
{
    if items.len() > 0 && answers.len() > 0 {
        lemma_successes_carry_objects(items.drop_last(), answers.drop_last(), results);
        let a = bulk_outcomes(items.drop_last(), answers.drop_last());
        let b = resolved_outcome(items.last(), answers.last());
        assert forall|k: int| 0 <= k < (a + b).len() implies (#[trigger] (a + b)[k]).0 is Succeeded
            && (a + b)[k].1.object is Some by {
            if k >= a.len() {
                assert((a + b)[k] == b[k - a.len()]);
            }
        }
    }
    if items.len() > 0 && results.len() > 0 {
        lemma_successes_carry_objects(items.drop_last(), answers, results.drop_last());
        let a = fallback_outcomes(items.drop_last(), results.drop_last());
        let b = individual_outcome(items.last(), results.last());
        assert forall|k: int| 0 <= k < (a + b).len() && (#[trigger] (a + b)[k]).0 is Succeeded implies (a
            + b)[k].1.object is Some by {
            if k >= a.len() {
                assert((a + b)[k] == b[k - a.len()]);
            }
        }
        assert forall|k: int| 0 <= k < (a + b).len() && (#[trigger] (a + b)[k]).0 is Failed implies items.contains(
            (a + b)[k].1,
        ) by {
            if k >= a.len() {
                assert((a + b)[k] == b[k - a.len()]);
                assert(items[items.len() - 1] == items.last());
            } else {
                let j = choose|j: int| 0 <= j < items.drop_last().len() && items.drop_last()[j] == a[k].1;
                assert(items[j] == items.drop_last()[j]);
            }
        }
    }
}

} // verus!
