//! Content policy: a forbidden-word gate, then a sentiment gate fed by a
//! remote classifier or the local model, failing open when classification
//! is not to be had.
use vstd::prelude::*;

use crate::text::{
    chars_of, contains, lower_of, lowercase, occurs_in, same_chars, split_from, string_from_chars,
    trim_chars, trimmed,
};

verus! {

/// Sentiment scores are fixed-point numbers: millionths of the unit
/// interval, 0 the most negative and `SCORE_SCALE` the most positive.
pub const SCORE_SCALE: u32 = 1_000_000;

/// Fixed cutoff under which the local model's score counts as hate
/// speech (0.3). It is independent of the configured soft threshold.
pub const HATE_SPEECH_CUTOFF: u32 = 300_000;

/// Score given when no classification could be made (0.5).
pub const NEUTRAL_SCORE: u32 = 500_000;

/// Why a submission was refused.
#[derive(Clone, Copy, Debug, PartialEq, Eq, Structural)]
pub enum BlockReason {
    /// An entry of the denylist occurs in the content.
    Spam,
    /// The remote classifier flagged hate speech.
    HateSpeech,
    /// The local model's score fell under `HATE_SPEECH_CUTOFF`.
    NegativeSentiment,
}

impl BlockReason {
    /// The fixed message shown to the submitter; it never echoes the
    /// content or what matched.
    pub fn message(&self) -> (r: &'static str)
        ensures
            *self == BlockReason::Spam ==> r@ == "Spam detected - this content won't be posted."@,
            *self == BlockReason::HateSpeech ==> r@ == "Content contains hate speech"@,
            *self == BlockReason::NegativeSentiment ==> r@ == "Content sentiment too negative"@,
    {
        match self {
            BlockReason::Spam => "Spam detected - this content won't be posted.",
            BlockReason::HateSpeech => "Content contains hate speech",
            BlockReason::NegativeSentiment => "Content sentiment too negative",
        }
    }
}

/// Where a classification came from.
#[derive(Clone, Copy, Debug, PartialEq, Eq, Structural)]
pub enum Reasoning {
    /// A classifier answered.
    ModelInference,
    /// The remote classifier could not be reached.
    FallbackUnavailable,
    /// The local model failed.
    FallbackError,
}

/// The outcome of classifying one submission.
#[derive(Clone, Copy, Debug, PartialEq, Eq, Structural)]
pub struct Classification {
    /// Positivity, in millionths.
    pub sentiment_score: u32,
    pub is_hate_speech: bool,
    pub reasoning: Reasoning,
}

/// The policy settings, fixed for the life of the process.
#[derive(Clone, Copy, Debug, PartialEq, Eq, Structural)]
pub struct PolicyConfig {
    /// Classify with the remote classifier.
    pub enable_llm: bool,
    /// Classify with the local model (when the remote one is not enabled).
    pub enable_tract: bool,
    /// Soft threshold, in millionths: a lower score is flagged, not blocked.
    pub sentiment_score_threshold: u32,
}

/// The verdict on a submission.
#[derive(Clone, Copy, Debug, PartialEq, Eq, Structural)]
pub enum PolicyDecision {
    /// Forward the submission; `flagged` marks a score under the soft
    /// threshold.
    Allow { flagged: bool },
    /// Refuse the submission.
    Block { reason: BlockReason },
}

/// What the first gate decides, and what it asks for next.
#[derive(Clone, Copy, Debug, PartialEq, Eq, Structural)]
pub enum Screening {
    /// Refused without classification.
    Blocked { reason: BlockReason },
    /// Classify with the remote classifier, then call `finish_remote`.
    ClassifyRemotely,
    /// Classify with the local model, then call `finish_local`.
    ClassifyLocally,
    /// No classifier is enabled: forward as it is.
    Pass,
}

/// What came back from the remote classifier.
#[derive(Clone, Copy, Debug, PartialEq, Eq, Structural)]
pub enum RemoteReply {
    /// The request could not be sent or was not answered.
    Unreachable,
    /// An answer came that holds no classification.
    Unparsable,
    /// A classification, its score in millionths.
    Verdict { sentiment_score: u32, has_hate_speech: bool },
}

/// The entries of a comma-separated denylist.
pub open spec fn denylist_entries(list: Seq<char>) -> Seq<Seq<char>> {
    split_from(list, ',', 0, seq![])
}

/// An entry, trimmed and lower-cased, is not empty and occurs in the
/// lower-cased content.
pub open spec fn entry_hits(entry: Seq<char>, lowered_content: Seq<char>) -> bool {
    let w = lower_of(trimmed(entry));
    w.len() > 0 && occurs_in(w, lowered_content)
}

/// Some entry of the denylist occurs in the content, case aside.
pub open spec fn is_denied(content: Seq<char>, list: Seq<char>) -> bool {
    exists|k: int|
        0 <= k < denylist_entries(list).len() && entry_hits(
            #[trigger] denylist_entries(list)[k],
            lower_of(content),
        )
}

/// The first gate's verdict.
pub open spec fn screening_of(denied: bool, config: PolicyConfig) -> Screening {
    if denied {
        Screening::Blocked { reason: BlockReason::Spam }
    } else if config.enable_llm {
        Screening::ClassifyRemotely
    } else if config.enable_tract {
        Screening::ClassifyLocally
    } else {
        Screening::Pass
    }
}

/// The classification given when none could be made.
pub open spec fn fallback(reasoning: Reasoning) -> Classification {
    Classification { sentiment_score: NEUTRAL_SCORE, is_hate_speech: false, reasoning }
}

/// The classification from the local model's score, or the fail-open
/// fallback where the model failed.
pub open spec fn local_classification(inference: Option<u32>) -> Classification {
    match inference {
        Some(score) => Classification {
            sentiment_score: score,
            is_hate_speech: score < HATE_SPEECH_CUTOFF,
            reasoning: Reasoning::ModelInference,
        },
        None => fallback(Reasoning::FallbackError),
    }
}

/// The classification from the remote classifier's reply; none where the
/// reply could not be read.
pub open spec fn remote_classification(reply: RemoteReply) -> Option<Classification> {
    match reply {
        RemoteReply::Unreachable => Some(fallback(Reasoning::FallbackUnavailable)),
        RemoteReply::Unparsable => None,
        RemoteReply::Verdict { sentiment_score, has_hate_speech } => Some(
            Classification {
                sentiment_score,
                is_hate_speech: has_hate_speech,
                reasoning: Reasoning::ModelInference,
            },
        ),
    }
}

/// The sentiment gate: block on hate speech only; a score under the soft
/// threshold is flagged and allowed; no classification allows.
pub open spec fn decision_for(
    config: PolicyConfig,
    c: Option<Classification>,
    reason: BlockReason,
) -> PolicyDecision {
    match c {
        None => PolicyDecision::Allow { flagged: false },
        Some(c) => if c.is_hate_speech {
            PolicyDecision::Block { reason }
        } else {
            PolicyDecision::Allow { flagged: c.sentiment_score < config.sentiment_score_threshold }
        },
    }
}

/// Whether one denylist entry occurs in the lower-cased content.
fn entry_matches(entry: &Vec<char>, lowered: &str) -> (r: bool)
    ensures
        r == entry_hits(entry@, lowered@),
{
    let t = trim_chars(entry);
    let ts = string_from_chars(&t);
    let w = lowercase(ts.as_str());
    !w.as_str().is_empty() && contains(lowered, w.as_str())
}

/// Whether some entry of the comma-separated denylist occurs in the
/// content, compared in lower case.
fn denied(content: &str, list: &str) -> (r: bool)
    ensures
        r == is_denied(content@, list@),
{
    let lowered = lowercase(content);
    let chars = chars_of(list);
    let ghost s = chars@;
    let ghost mut done: Seq<Seq<char>> = seq![];
    let mut cur: Vec<char> = Vec::new();
    let mut i: usize = 0;
    proof {
        assert(cur@ =~= seq![]);
        assert(denylist_entries(s) =~= done + split_from(s, ',', 0, cur@));
    }
    while i < chars.len()
        invariant
            s == chars@,
            s == list@,
            i <= s.len(),
            lowered@ == lower_of(content@),
            denylist_entries(s) == done + split_from(s, ',', i as int, cur@),
            forall|k: int| 0 <= k < done.len() ==> !entry_hits(#[trigger] done[k], lowered@),
        decreases s.len() - i,
    {
        let c = chars[i];
        if c == ',' {
            proof {
                assert(split_from(s, ',', i as int, cur@) == seq![cur@] + split_from(s, ',',
                    i + 1,
                    seq![],
                ));
                assert(denylist_entries(s)[done.len() as int] == cur@);
            }
            if entry_matches(&cur, lowered.as_str()) {
                return true;
            }
            proof {
                assert(done + (seq![cur@] + split_from(s, ',', i + 1, seq![])) =~= done.push(cur@)
                    + split_from(s, ',', i + 1, seq![]));
                done = done.push(cur@);
            }
            cur = Vec::new();
            proof {
                assert(cur@ =~= seq![]);
            }
        } else {
            proof {
                assert(split_from(s, ',', i as int, cur@) == split_from(s, ',', i + 1, cur@.push(c)));
            }
            cur.push(c);
        }
        i = i + 1;
    }
    proof {
        assert(split_from(s, ',', i as int, cur@) == seq![cur@]);
        assert(denylist_entries(s) =~= done.push(cur@));
        assert(denylist_entries(s)[done.len() as int] == cur@);
    }
    let hit = entry_matches(&cur, lowered.as_str());
    proof {
        if !hit {
            assert forall|k: int| 0 <= k < denylist_entries(s).len() implies !entry_hits(
                #[trigger] denylist_entries(s)[k],
                lower_of(content@),
            ) by {
                if k < done.len() {
                    assert(denylist_entries(s)[k] == done[k]);
                }
            }
        }
    }
    hit
}

/// The forbidden-word gate: `Spam` where some entry of the
/// comma-separated denylist, trimmed and lower-cased, is non-empty and
/// occurs in the lower-cased content. No denylist means no gate.
pub fn contains_forbidden_content(content: &str, forbidden_words: Option<&str>) -> (r: Option<
    BlockReason,
>)
    ensures
        r is Some <==> (forbidden_words matches Some(l) && is_denied(content@, l@)),
        r matches Some(x) ==> x == BlockReason::Spam,
{
    match forbidden_words {
        Some(list) => if denied(content, list) {
            Some(BlockReason::Spam)
        } else {
            None
        },
        None => None,
    }
}

/// The first step of moderation: the forbidden-word gate, and, where it
/// lets the content through, which classifier (if any) is to be asked.
/// A denied content is blocked here, before any classifier is asked.
pub fn screen(content: &str, forbidden_words: Option<&str>, config: &PolicyConfig) -> (r:
    Screening)
    ensures
        r == screening_of(
            forbidden_words matches Some(l) && is_denied(content@, l@),
            *config,
        ),
{
    match contains_forbidden_content(content, forbidden_words) {
        Some(reason) => Screening::Blocked { reason },
        None => if config.enable_llm {
            Screening::ClassifyRemotely
        } else if config.enable_tract {
            Screening::ClassifyLocally
        } else {
            Screening::Pass
        },
    }
}

/// The classification from the local model: its score, with hate speech
/// under `HATE_SPEECH_CUTOFF`; where inference failed (`None`), a neutral
/// score that is not hate speech.
pub fn classify_with_tract(inference: Option<u32>) -> (r: Classification)
    ensures
        r == local_classification(inference),
{
    match inference {
        Some(score) => Classification {
            sentiment_score: score,
            is_hate_speech: score < HATE_SPEECH_CUTOFF,
            reasoning: Reasoning::ModelInference,
        },
        None => Classification {
            sentiment_score: NEUTRAL_SCORE,
            is_hate_speech: false,
            reasoning: Reasoning::FallbackError,
        },
    }
}

/// The classification from the remote classifier's reply: its verdict; a
/// neutral one where it could not be reached; none where its answer could
/// not be read.
pub fn classify_with_llm(reply: RemoteReply) -> (r: Option<Classification>)
    ensures
        r == remote_classification(reply),
{
    match reply {
        RemoteReply::Unreachable => Some(
            Classification {
                sentiment_score: NEUTRAL_SCORE,
                is_hate_speech: false,
                reasoning: Reasoning::FallbackUnavailable,
            },
        ),
        RemoteReply::Unparsable => None,
        RemoteReply::Verdict { sentiment_score, has_hate_speech } => Some(
            Classification {
                sentiment_score,
                is_hate_speech: has_hate_speech,
                reasoning: Reasoning::ModelInference,
            },
        ),
    }
}

/// The sentiment gate: block with `reason` on hate speech only; allow
/// otherwise, flagging a score under the soft threshold; allow where there
/// is no classification.
pub fn decide(config: &PolicyConfig, classification: Option<Classification>, reason: BlockReason) -> (r:
    PolicyDecision)
    ensures
        r == decision_for(*config, classification, reason),
{
    match classification {
        None => PolicyDecision::Allow { flagged: false },
        Some(c) => if c.is_hate_speech {
            PolicyDecision::Block { reason }
        } else {
            PolicyDecision::Allow { flagged: c.sentiment_score < config.sentiment_score_threshold }
        },
    }
}

/// The second step after `Screening::ClassifyLocally`: the decision from
/// the local model's score, or from the fail-open fallback where inference
/// failed (`None`).
pub fn finish_local(config: &PolicyConfig, inference: Option<u32>) -> (r: PolicyDecision)
    ensures
        r == decision_for(
            *config,
            Some(local_classification(inference)),
            BlockReason::NegativeSentiment,
        ),
{
    let c = classify_with_tract(inference);
    decide(config, Some(c), BlockReason::NegativeSentiment)
}

/// The second step after `Screening::ClassifyRemotely`: the decision from
/// the remote classifier's reply.
pub fn finish_remote(config: &PolicyConfig, reply: RemoteReply) -> (r: PolicyDecision)
    ensures
        r == decision_for(*config, remote_classification(reply), BlockReason::HateSpeech),
{
    let c = classify_with_llm(reply);
    decide(config, c, BlockReason::HateSpeech)
}

/// `p` is a prefix of `s`.
pub open spec fn starts_with(s: Seq<char>, p: Seq<char>) -> bool {
    p.len() <= s.len() && s.subrange(0, p.len() as int) == p
}

/// Requests whose body is moderated: `POST` under `/posts` and `PUT`
/// under `/posts/`.
pub open spec fn moderated(method: Seq<char>, path: Seq<char>) -> bool {
    (method == seq!['P', 'O', 'S', 'T'] && starts_with(path, seq!['/', 'p', 'o', 's', 't', 's']))
        || (method == seq!['P', 'U', 'T'] && starts_with(
        path,
        seq!['/', 'p', 'o', 's', 't', 's', '/'],
    ))
}

/// Whether `p` is a prefix of `s`.
fn has_prefix(s: &Vec<char>, p: &Vec<char>) -> (r: bool)
    ensures
        r == starts_with(s@, p@),
{
    if p.len() > s.len() {
        return false;
    }
    let mut i: usize = 0;
    while i < p.len()
        invariant
            p.len() <= s.len(),
            i <= p.len(),
            forall|j: int| 0 <= j < i ==> s@[j] == p@[j],
        decreases p.len() - i,
    {
        if s[i] != p[i] {
            return false;
        }
        i = i + 1;
    }
    assert(s@.subrange(0, p.len() as int) =~= p@);
    true
}

/// Whether a request with this method and path carries content to
/// moderate.
pub fn is_moderated_request(method: &str, path: &str) -> (r: bool)
    ensures
        r == moderated(method@, path@),
{
    let m = chars_of(method);
    let p = chars_of(path);
    let post: Vec<char> = vec!['P', 'O', 'S', 'T'];
    let put: Vec<char> = vec!['P', 'U', 'T'];
    let posts: Vec<char> = vec!['/', 'p', 'o', 's', 't', 's'];
    let posts_slash: Vec<char> = vec!['/', 'p', 'o', 's', 't', 's', '/'];
    proof {
        assert(post@ =~= seq!['P', 'O', 'S', 'T']);
        assert(put@ =~= seq!['P', 'U', 'T']);
        assert(posts@ =~= seq!['/', 'p', 'o', 's', 't', 's']);
        assert(posts_slash@ =~= seq!['/', 'p', 'o', 's', 't', 's', '/']);
    }
    (same_chars(&m, &post) && has_prefix(&p, &posts)) || (same_chars(&m, &put) && has_prefix(
        &p,
        &posts_slash,
    ))
}

/// Fail-open: where the local model fails, the classification is the
/// neutral score, not hate speech, with reasoning `FallbackError`, and the
/// submission is allowed, whatever the configuration.
pub proof fn lemma_fail_open(config: PolicyConfig)
    ensures
        local_classification(None).sentiment_score == NEUTRAL_SCORE,
        !local_classification(None).is_hate_speech,
        local_classification(None).reasoning == Reasoning::FallbackError,
        decision_for(
            config,
            Some(local_classification(None)),
            BlockReason::NegativeSentiment,
        ) is Allow,
{
}

/// A content that the denylist catches is blocked as spam by the first
/// gate, whatever the configuration: no classifier is asked.
pub proof fn lemma_forbidden_short_circuit(content: Seq<char>, list: Seq<char>, config: PolicyConfig)
    requires
        is_denied(content, list),
    ensures
        screening_of(is_denied(content, list), config) == (Screening::Blocked {
            reason: BlockReason::Spam,
        }),
{
}

/// The local model blocks on the fixed cutoff alone: a score under
/// `HATE_SPEECH_CUTOFF` is blocked, and any other score is allowed, flagged
/// when under the configured threshold.
pub proof fn lemma_threshold_asymmetry(config: PolicyConfig, score: u32)
    ensures
        score < HATE_SPEECH_CUTOFF ==> decision_for(
            config,
            Some(local_classification(Some(score))),
            BlockReason::NegativeSentiment,
        ) == (PolicyDecision::Block { reason: BlockReason::NegativeSentiment }),
        score >= HATE_SPEECH_CUTOFF ==> decision_for(
            config,
            Some(local_classification(Some(score))),
            BlockReason::NegativeSentiment,
        ) == (PolicyDecision::Allow { flagged: score < config.sentiment_score_threshold }),
{
}

} // verus!
