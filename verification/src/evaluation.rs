//! What is decided about a trained classifier from plain numbers: how many
//! of its predictions are right, which depth did best, and the order of the
//! features by their importance.

use std::collections::HashMap;
use vstd::prelude::*;
use vstd::relations::*;
use vstd::seq_lib::*;

verus! {

/// The positions at which a prediction and a target can be compared.
pub open spec fn compared(predictions: Seq<usize>, targets: Seq<usize>) -> nat {
    if predictions.len() <= targets.len() {
        predictions.len()
    } else {
        targets.len()
    }
}

/// The number of positions among the first `upto` at which the prediction
/// is the target.
pub open spec fn agreements(predictions: Seq<usize>, targets: Seq<usize>, upto: nat) -> nat
    recommends
        upto <= compared(predictions, targets),
    decreases upto,
{
    if upto == 0 {
        0
    } else {
        let earlier = agreements(predictions, targets, (upto - 1) as nat);
        if predictions[upto - 1] == targets[upto - 1] {
            earlier + 1
        } else {
            earlier
        }
    }
}

/// The number of correct predictions: the positions, as far as both
/// sequences reach, at which the prediction is the target.
pub open spec fn correct_predictions(predictions: Seq<usize>, targets: Seq<usize>) -> nat {
    agreements(predictions, targets, compared(predictions, targets))
}

/// Returns the number of predictions that are the target at their position.
pub fn evaluate_decision_tree(predictions: &[usize], test_targets: &[usize]) -> (correct: usize)
    ensures
        correct == correct_predictions(predictions@, test_targets@),
        correct <= test_targets@.len(),
{
    let n = if predictions.len() <= test_targets.len() {
        predictions.len()
    } else {
        test_targets.len()
    };
    let mut correct: usize = 0;
    let mut i: usize = 0;
    while i < n
        invariant
            i <= n,
            n == compared(predictions@, test_targets@),
            correct == agreements(predictions@, test_targets@, i as nat),
            correct <= i,
        decreases n - i,
    {
        if predictions[i] == test_targets[i] {
            correct = correct + 1;
        }
        i = i + 1;
    }
    correct
}

/// A depth that was tried, with the number of correct predictions of the
/// tree of that depth.
#[derive(Debug, Clone, Copy, PartialEq, Eq, Structural)]
pub struct DepthTrial {
    pub depth: usize,
    pub correct: usize,
}

/// Trial `i` did best: it has a correct prediction, more of them than any
/// trial before it, and no trial after it has more.
pub open spec fn is_best_trial(trials: Seq<DepthTrial>, i: int) -> bool {
    &&& 0 <= i < trials.len()
    &&& trials[i].correct > 0
    &&& forall|j: int| 0 <= j < i ==> (#[trigger] trials[j]).correct < trials[i].correct
    &&& forall|j: int| i < j < trials.len() ==> (#[trigger] trials[j]).correct <= trials[i].correct
}

/// No trial has a correct prediction.
pub open spec fn none_correct(trials: Seq<DepthTrial>) -> bool {
    forall|j: int| 0 <= j < trials.len() ==> (#[trigger] trials[j]).correct == 0
}

/// Returns the position of the trial with the most correct predictions, the
/// first such trial where several have as many, or `None` where no trial has
/// a correct prediction.
pub fn find_best_trial(trials: &[DepthTrial]) -> (best: Option<usize>)
    ensures
        match best {
            Some(i) => is_best_trial(trials@, i as int),
            None => none_correct(trials@),
        },
{
    let mut best: Option<usize> = None;
    let mut best_correct: usize = 0;
    let mut i: usize = 0;
    while i < trials.len()
        invariant
            i <= trials.len(),
            best is None ==> best_correct == 0,
            best matches Some(b) ==> b < i && best_correct == trials@[b as int].correct
                && best_correct > 0 && forall|j: int|
                0 <= j < b ==> (#[trigger] trials@[j]).correct < best_correct,
            forall|j: int| 0 <= j < i ==> (#[trigger] trials@[j]).correct <= best_correct,
        decreases trials.len() - i,
    {
        if trials[i].correct > best_correct {
            best_correct = trials[i].correct;
            best = Some(i);
        }
        i = i + 1;
    }
    best
}

/// Returns the depth of the trial with the most correct predictions, the
/// first such trial where several have as many. Where no trial has a
/// correct prediction, or none was made, it returns 0.
pub fn find_best_max_depth(trials: &[DepthTrial]) -> (best_depth: usize)
    ensures
        none_correct(trials@) ==> best_depth == 0,
        !none_correct(trials@) ==> exists|i: int|
            is_best_trial(trials@, i) && best_depth == trials@[i].depth,
{
    match find_best_trial(trials) {
        Some(i) => {
            assert(trials@[i as int].correct > 0);
            trials[i].depth
        },
        None => 0,
    }
}

/// At most one trial did best.
pub proof fn lemma_best_trial_unique(trials: Seq<DepthTrial>, i: int, j: int)
    requires
        is_best_trial(trials, i),
        is_best_trial(trials, j),
    ensures
        i == j,
{
    if i < j {
        assert(trials[i].correct < trials[j].correct);
        assert(trials[j].correct <= trials[i].correct);
    } else if j < i {
        assert(trials[j].correct < trials[i].correct);
        assert(trials[i].correct <= trials[j].correct);
    }
}

/// A feature, by its position among the features, with its importance.
#[derive(Debug, Clone, Copy, PartialEq, Eq, Structural)]
pub struct RankedFeature {
    pub index: usize,
    pub importance: u64,
}

/// `a` stands before `b` in a ranking: it is more important, or as
/// important and earlier among the features.
pub open spec fn ranks_before(a: RankedFeature, b: RankedFeature) -> bool {
    a.importance > b.importance || (a.importance == b.importance && a.index < b.index)
}

/// Each feature with its importance, in the order of the features.
pub open spec fn features_of(importance: Seq<u64>) -> Seq<RankedFeature> {
    Seq::new(
        importance.len(),
        |i: int| RankedFeature { index: i as usize, importance: importance[i] },
    )
}

/// `ranked` holds the features of `importance`, each once, the most
/// important first, and features of one importance in their own order.
pub open spec fn is_ranking(ranked: Seq<RankedFeature>, importance: Seq<u64>) -> bool {
    &&& ranked.to_multiset() == features_of(importance).to_multiset()
    &&& forall|k: int, l: int|
        0 <= k < l < ranked.len() ==> ranks_before(#[trigger] ranked[k], #[trigger] ranked[l])
}

/// The features of `importance` have one ranking only.
pub proof fn lemma_ranking_unique(
    one: Seq<RankedFeature>,
    other: Seq<RankedFeature>,
    importance: Seq<u64>,
)
    requires
        is_ranking(one, importance),
        is_ranking(other, importance),
    ensures
        one == other,
{
    let not_after = |a: RankedFeature, b: RankedFeature| a == b || ranks_before(a, b);
    assert(total_ordering(not_after));
    assert(sorted_by(one, not_after)) by {
        assert forall|k: int, l: int| 0 <= k < l < one.len() implies #[trigger] not_after(
            one[k],
            one[l],
        ) by {
            assert(ranks_before(one[k], one[l]));
        }
    }
    assert(sorted_by(other, not_after)) by {
        assert forall|k: int, l: int| 0 <= k < l < other.len() implies #[trigger] not_after(
            other[k],
            other[l],
        ) by {
            assert(ranks_before(other[k], other[l]));
        }
    }
    lemma_sorted_unique(one, other, not_after);
}

/// Returns the features ordered by falling importance, each with its
/// position among the features. Features of one importance keep their
/// order. Without features the ranking is empty.
pub fn get_decision_tree_feature_importance(feature_importance: &[u64]) -> (ranked: Vec<
    RankedFeature,
>)
    ensures
        is_ranking(ranked@, feature_importance@),
        ranked@.len() == feature_importance@.len(),
{
    broadcast use group_to_multiset_ensures;

    let ghost all = features_of(feature_importance@);
    let mut ranked: Vec<RankedFeature> = Vec::new();
    let mut i: usize = 0;
    assert(all.take(0) =~= ranked@);
    while i < feature_importance.len()
        invariant
            i <= feature_importance.len(),
            all == features_of(feature_importance@),
            ranked@.len() == i,
            ranked@.to_multiset() == all.take(i as int).to_multiset(),
            forall|k: int| 0 <= k < ranked@.len() ==> (#[trigger] ranked@[k]).index < i,
            forall|k: int, l: int|
                0 <= k < l < ranked@.len() ==> ranks_before(
                    #[trigger] ranked@[k],
                    #[trigger] ranked@[l],
                ),
        decreases feature_importance.len() - i,
    {
        let feature = RankedFeature { index: i, importance: feature_importance[i] };
        let mut at: usize = 0;
        while at < ranked.len() && ranked[at].importance >= feature.importance
            invariant
                at <= ranked@.len(),
                forall|k: int|
                    0 <= k < at ==> (#[trigger] ranked@[k]).importance >= feature.importance,
            decreases ranked@.len() - at,
        {
            at = at + 1;
        }
        let ghost before = ranked@;
        proof {
            assert forall|k: int| at <= k < before.len() implies (#[trigger] before[k]).importance
                < feature.importance by {
                if k > at {
                    assert(ranks_before(before[at as int], before[k]));
                }
            }
        }
        ranked.insert(at, feature);
        proof {
            to_multiset_insert(before, at as int, feature);
            to_multiset_build(all.take(i as int), feature);
            assert(all.take(i + 1) =~= all.take(i as int).push(feature));
            assert forall|k: int, l: int| 0 <= k < l < ranked@.len() implies ranks_before(
                #[trigger] ranked@[k],
                #[trigger] ranked@[l],
            ) by {
                if l < at {
                    assert(ranks_before(before[k], before[l]));
                } else if l == at {
                    assert(before[k].importance >= feature.importance);
                } else if k < at {
                    assert(ranks_before(before[k], before[l - 1]));
                } else if k == at {
                    assert(before[l - 1].importance < feature.importance);
                } else {
                    assert(ranks_before(before[k - 1], before[l - 1]));
                }
            }
        }
        i = i + 1;
    }
    assert(all.take(i as int) =~= all);
    ranked
}

/// The names of the features, by their position.
pub open spec fn feature_names() -> Map<usize, Seq<char>> {
    map![
        0usize => "neighbourhood_encoded"@,
        1usize => "room_type_encoded"@,
        2usize => "minimum_nights"@,
        3usize => "number_of_reviews"@,
    ]
}

/// Returns the names of the features, by their position.
pub fn get_feature_names() -> (names: HashMap<usize, &'static str>)
    ensures
        names@.dom() == feature_names().dom(),
        forall|i: usize| feature_names().dom().contains(i) ==> (#[trigger] names@[i])@
            == feature_names()[i],
{
    let mut names: HashMap<usize, &'static str> = HashMap::new();
    names.insert(0, "neighbourhood_encoded");
    names.insert(1, "room_type_encoded");
    names.insert(2, "minimum_nights");
    names.insert(3, "number_of_reviews");
    assert(names@.dom() =~= feature_names().dom());
    names
}

} // verus!
