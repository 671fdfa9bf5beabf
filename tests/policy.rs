use bord::policy::{
    classify_with_llm, classify_with_tract, contains_forbidden_content, decide, finish_local,
    finish_remote, is_moderated_request, screen, BlockReason, Classification, PolicyConfig,
    PolicyDecision, Reasoning, RemoteReply, Screening, HATE_SPEECH_CUTOFF, NEUTRAL_SCORE,
};

fn local_config(threshold: u32) -> PolicyConfig {
    PolicyConfig { enable_llm: false, enable_tract: true, sentiment_score_threshold: threshold }
}

/// Millionths of sigmoid(x), as the caller converts a score.
fn millionths_of_sigmoid(x: f64) -> u32 {
    ((1.0 / (1.0 + (-x).exp())) * 1_000_000.0).floor() as u32
}

#[test]
fn forbidden_word_found_case_insensitively() {
    assert_eq!(
        contains_forbidden_content("this is SPAM", Some("spam,scam")),
        Some(BlockReason::Spam)
    );
}

#[test]
fn denylist_entries_are_trimmed_and_lowercased() {
    assert_eq!(
        contains_forbidden_content("what a scam here", Some("foo,  SCAM ")),
        Some(BlockReason::Spam)
    );
}

#[test]
fn no_denylist_or_empty_entries_block_nothing() {
    assert_eq!(contains_forbidden_content("spam", None), None);
    assert_eq!(contains_forbidden_content("spam", Some("")), None);
    assert_eq!(contains_forbidden_content("spam", Some(" , ,")), None);
    assert_eq!(contains_forbidden_content("hello", Some("spam,scam")), None);
}

#[test]
fn forbidden_word_blocks_before_any_classifier() {
    let s = screen("this is SPAM", Some("spam,scam"), &local_config(400_000));
    assert_eq!(s, Screening::Blocked { reason: BlockReason::Spam });
    let remote = PolicyConfig { enable_llm: true, enable_tract: true, sentiment_score_threshold: 0 };
    assert_eq!(
        screen("this is SPAM", Some("spam,scam"), &remote),
        Screening::Blocked { reason: BlockReason::Spam }
    );
}

#[test]
fn screening_picks_the_enabled_classifier() {
    let both = PolicyConfig { enable_llm: true, enable_tract: true, sentiment_score_threshold: 0 };
    assert_eq!(screen("fine", None, &both), Screening::ClassifyRemotely);
    assert_eq!(screen("fine", Some("spam"), &local_config(0)), Screening::ClassifyLocally);
    let none = PolicyConfig { enable_llm: false, enable_tract: false, sentiment_score_threshold: 0 };
    assert_eq!(screen("fine", None, &none), Screening::Pass);
}

#[test]
fn score_under_fixed_cutoff_blocks() {
    assert_eq!(
        finish_local(&local_config(400_000), Some(250_000)),
        PolicyDecision::Block { reason: BlockReason::NegativeSentiment }
    );
}

#[test]
fn score_under_soft_threshold_only_flags() {
    assert_eq!(
        finish_local(&local_config(400_000), Some(350_000)),
        PolicyDecision::Allow { flagged: true }
    );
    assert_eq!(
        finish_local(&local_config(400_000), Some(HATE_SPEECH_CUTOFF)),
        PolicyDecision::Allow { flagged: true }
    );
}

#[test]
fn strongly_negative_logits_block() {
    let score = millionths_of_sigmoid(-2.0 - 2.0);
    assert_eq!(score, 17_986);
    let c = classify_with_tract(Some(score));
    assert!(c.is_hate_speech);
    assert_eq!(
        finish_local(&local_config(300_000), Some(score)),
        PolicyDecision::Block { reason: BlockReason::NegativeSentiment }
    );
}

#[test]
fn equal_logits_allow() {
    let score = millionths_of_sigmoid(0.0 - 0.0);
    assert_eq!(score, 500_000);
    assert_eq!(finish_local(&local_config(300_000), Some(score)), PolicyDecision::Allow { flagged: false });
    assert_eq!(finish_local(&local_config(400_000), Some(score)), PolicyDecision::Allow { flagged: false });
}

#[test]
fn failed_inference_fails_open() {
    let c = classify_with_tract(None);
    assert_eq!(
        c,
        Classification {
            sentiment_score: NEUTRAL_SCORE,
            is_hate_speech: false,
            reasoning: Reasoning::FallbackError
        }
    );
    assert_eq!(finish_local(&local_config(400_000), None), PolicyDecision::Allow { flagged: false });
    assert_eq!(finish_local(&local_config(600_000), None), PolicyDecision::Allow { flagged: true });
}

#[test]
fn model_score_is_classified_with_inference_reasoning() {
    let c = classify_with_tract(Some(800_000));
    assert_eq!(c.sentiment_score, 800_000);
    assert!(!c.is_hate_speech);
    assert_eq!(c.reasoning, Reasoning::ModelInference);
}

#[test]
fn remote_replies_map_to_classifications() {
    assert_eq!(
        classify_with_llm(RemoteReply::Unreachable),
        Some(Classification {
            sentiment_score: 500_000,
            is_hate_speech: false,
            reasoning: Reasoning::FallbackUnavailable
        })
    );
    assert_eq!(classify_with_llm(RemoteReply::Unparsable), None);
    assert_eq!(
        classify_with_llm(RemoteReply::Verdict { sentiment_score: 100_000, has_hate_speech: false }),
        Some(Classification {
            sentiment_score: 100_000,
            is_hate_speech: false,
            reasoning: Reasoning::ModelInference
        })
    );
}

#[test]
fn remote_path_blocks_on_flag_alone() {
    let cfg = PolicyConfig { enable_llm: true, enable_tract: false, sentiment_score_threshold: 400_000 };
    assert_eq!(
        finish_remote(&cfg, RemoteReply::Verdict { sentiment_score: 900_000, has_hate_speech: true }),
        PolicyDecision::Block { reason: BlockReason::HateSpeech }
    );
    assert_eq!(
        finish_remote(&cfg, RemoteReply::Verdict { sentiment_score: 100_000, has_hate_speech: false }),
        PolicyDecision::Allow { flagged: true }
    );
    assert_eq!(finish_remote(&cfg, RemoteReply::Unparsable), PolicyDecision::Allow { flagged: false });
    assert_eq!(finish_remote(&cfg, RemoteReply::Unreachable), PolicyDecision::Allow { flagged: false });
}

#[test]
fn decide_without_classification_allows() {
    assert_eq!(
        decide(&local_config(900_000), None, BlockReason::HateSpeech),
        PolicyDecision::Allow { flagged: false }
    );
}

#[test]
fn block_messages_are_fixed() {
    assert_eq!(BlockReason::Spam.message(), "Spam detected - this content won't be posted.");
    assert_eq!(BlockReason::HateSpeech.message(), "Content contains hate speech");
    assert_eq!(BlockReason::NegativeSentiment.message(), "Content sentiment too negative");
}

#[test]
fn only_post_and_put_under_posts_are_moderated() {
    assert!(is_moderated_request("POST", "/posts"));
    assert!(is_moderated_request("POST", "/posts?x=1"));
    assert!(is_moderated_request("PUT", "/posts/abc"));
    assert!(!is_moderated_request("PUT", "/posts"));
    assert!(!is_moderated_request("GET", "/posts"));
    assert!(!is_moderated_request("POST", "/users"));
    assert!(!is_moderated_request("post", "/posts"));
}
