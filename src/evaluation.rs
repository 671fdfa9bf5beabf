//! Scoring a classifier against labelled samples: a confusion matrix.
use vstd::prelude::*;

verus! {

/// Counts of a confusion matrix, "positive" meaning toxic.
#[derive(Clone, Copy, Debug, PartialEq, Eq, Structural)]
pub struct Metrics {
    pub tp: u32,
    pub tn: u32,
    pub fp: u32,
    pub fn_: u32,
}

/// A sample is predicted toxic when its score is under the threshold.
pub open spec fn predicted_toxic(score: u32, threshold: u32) -> bool {
    score < threshold
}

/// A sample is toxic when its label is positive.
pub open spec fn labelled_toxic(label: u32) -> bool {
    label > 0
}

/// How many of the first `n` samples were classified (their score is
/// present) with the given prediction and the given label.
pub open spec fn tally(
    scores: Seq<Option<u32>>,
    labels: Seq<u32>,
    threshold: u32,
    n: int,
    predicted: bool,
    actual: bool,
) -> nat
    decreases n,
{
    if n <= 0 {
        0
    } else {
        tally(scores, labels, threshold, n - 1, predicted, actual) + match scores[n - 1] {
            Some(s) => if predicted_toxic(s, threshold) == predicted && labelled_toxic(
                labels[n - 1],
            ) == actual {
                1nat
            } else {
                0nat
            },
            None => 0nat,
        }
    }
}

proof fn lemma_tally_bound(
    scores: Seq<Option<u32>>,
    labels: Seq<u32>,
    threshold: u32,
    n: int,
    predicted: bool,
    actual: bool,
)
    requires
        n >= 0,
    ensures
        tally(scores, labels, threshold, n, predicted, actual) <= n,
    decreases n,
{
    if n > 0 {
        lemma_tally_bound(scores, labels, threshold, n - 1, predicted, actual);
    }
}

impl Metrics {
    /// All counts zero.
    pub fn new() -> (r: Metrics)
        ensures
            r == (Metrics { tp: 0, tn: 0, fp: 0, fn_: 0 }),
    {
        Metrics { tp: 0, tn: 0, fp: 0, fn_: 0 }
    }

    /// Counts one classified sample in the cell of its prediction and label.
    pub fn record(&mut self, predicted: bool, actual: bool)
        requires
            old(self).tp < u32::MAX,
            old(self).tn < u32::MAX,
            old(self).fp < u32::MAX,
            old(self).fn_ < u32::MAX,
        ensures
            final(self).tp == old(self).tp + if predicted && actual {
                1int
            } else {
                0int
            },
            final(self).tn == old(self).tn + if !predicted && !actual {
                1int
            } else {
                0int
            },
            final(self).fp == old(self).fp + if predicted && !actual {
                1int
            } else {
                0int
            },
            final(self).fn_ == old(self).fn_ + if !predicted && actual {
                1int
            } else {
                0int
            },
    {
        if predicted && actual {
            self.tp = self.tp + 1;
        } else if !predicted && !actual {
            self.tn = self.tn + 1;
        } else if predicted {
            self.fp = self.fp + 1;
        } else {
            self.fn_ = self.fn_ + 1;
        }
    }
}

/// The confusion matrix of a run: `scores[i]` is the classifier's score of
/// sample `i` in millionths, or `None` where classification failed (such a
/// sample is not counted); `labels[i]` is its label.
pub fn evaluate(scores: &Vec<Option<u32>>, labels: &Vec<u32>, threshold: u32) -> (r: Metrics)
    requires
        scores.len() == labels.len(),
        scores.len() <= u32::MAX,
    ensures
        r.tp == tally(scores@, labels@, threshold, scores.len() as int, true, true),
        r.tn == tally(scores@, labels@, threshold, scores.len() as int, false, false),
        r.fp == tally(scores@, labels@, threshold, scores.len() as int, true, false),
        r.fn_ == tally(scores@, labels@, threshold, scores.len() as int, false, true),
{
    let mut m = Metrics::new();
    let mut i: usize = 0;
    while i < scores.len()
        invariant
            scores.len() == labels.len(),
            scores.len() <= u32::MAX,
            i <= scores.len(),
            m.tp == tally(scores@, labels@, threshold, i as int, true, true),
            m.tn == tally(scores@, labels@, threshold, i as int, false, false),
            m.fp == tally(scores@, labels@, threshold, i as int, true, false),
            m.fn_ == tally(scores@, labels@, threshold, i as int, false, true),
        decreases scores.len() - i,
    {
        proof {
            lemma_tally_bound(scores@, labels@, threshold, i as int, true, true);
            lemma_tally_bound(scores@, labels@, threshold, i as int, false, false);
            lemma_tally_bound(scores@, labels@, threshold, i as int, true, false);
            lemma_tally_bound(scores@, labels@, threshold, i as int, false, true);
        }
        if let Some(score) = scores[i] {
            m.record(score < threshold, labels[i] > 0);
        }
        i = i + 1;
    }
    m
}

} // verus!
