use ltengine::llm::{
    chat_message, context_positions, context_rejection, count_reasoning_tokens, lock_prompt,
    mtp_mode, nextn_key, output_ceiling, parse_nextn_layers, pick_n_ubatch, plan_load, plan_prompt,
    reasoning_kwargs, retry_draft_layers, select_self_mtp, validate_mtp_n_max, validate_mtp_pair,
    Attempt, Generation, LLMError, LayerSearch, LockDecision, ModelShape, MtpMode, PromptPlan,
    Reasoning, SearchStep, TokenUsage,
};
use ltengine::llm_decode::{DecodeNext, DecodeSession, MtpSession};
use ltengine::llm_output::{clean_output, strip_thinking_block};
use ltengine::responses_profile::ResponsesApi;

#[test]
fn ph8_06_absent_ceiling_is_three_times_the_prompt() {
    assert_eq!(output_ceiling(100, None), 300);
    assert_eq!(context_positions(100, None, 0), 300);
    assert_eq!(context_positions(100, None, 4), 304);
    assert_eq!(Generation::default().max_output_tokens, None);
}

#[test]
fn ph8_05_ceiling_is_one_less_than_the_exclusive_budget() {
    assert_eq!(output_ceiling(100, Some(1)), 100);
    assert_eq!(output_ceiling(100, Some(50)), 149);
    assert_eq!(context_positions(100, Some(1), 0), 101);
}

#[test]
fn ph8_04_context_rejection_names_max_output_tokens() {
    assert_eq!(output_ceiling(100, Some(50)), 149);
    assert_eq!(context_positions(100, Some(50), 4), 154);
    assert!(context_rejection(100, Some(50), 0, 150).is_none());
    let message = context_rejection(100, Some(50), 0, 149).expect("over the training context");
    assert!(message.contains("max_output_tokens"), "{message}");
    assert!(message.contains("150"), "{message}");
    assert!(context_rejection(100, Some(50), 4, 150).is_some());
    assert!(context_rejection(100, None, 4, 1).is_none());
    assert_eq!(
        message,
        "`max_output_tokens` 50 needs 150 context positions (prompt 100 plus margin 0), but the model's training context is 149"
    );
}

#[test]
fn selects_self_mtp_only_for_a_baked_in_head() {
    assert_eq!(mtp_mode(true, 0), MtpMode::DraftFile);
    assert_eq!(mtp_mode(true, 4), MtpMode::DraftFile);
    assert_eq!(mtp_mode(false, 1), MtpMode::SelfMtp);
    assert_eq!(mtp_mode(false, 0), MtpMode::Off);
    assert_eq!(mtp_mode(false, -1), MtpMode::Off);
}

#[test]
fn parses_the_nextn_layer_count() {
    assert_eq!(parse_nextn_layers(Some("1")), 1);
    assert_eq!(parse_nextn_layers(Some(" 2 ")), 2);
    assert_eq!(parse_nextn_layers(Some("junk")), 0);
    assert_eq!(parse_nextn_layers(Some("")), 0);
    assert_eq!(parse_nextn_layers(None), 0);
    assert_eq!(parse_nextn_layers(Some("-3")), -3);
    assert_eq!(parse_nextn_layers(Some("2147483648")), 0);
    assert_eq!(nextn_key(" qwen3 "), "qwen3.nextn_predict_layers");
}

#[test]
fn usage_total_is_the_exact_sum_and_eog_is_not_counted() {
    let mut usage = TokenUsage { input_tokens: 5, output_tokens: 0, ..Default::default() };
    assert_eq!(usage.total_tokens(), 5);
    usage.record_output(false);
    usage.record_output(true);
    assert_eq!(usage.output_tokens, 1);
    assert_eq!(usage.total_tokens(), 6);
}

#[test]
fn validates_mtp_draft_count() {
    assert!(validate_mtp_n_max(1).is_ok());
    assert!(validate_mtp_n_max(16).is_ok());
    assert!(validate_mtp_n_max(0).is_err());
    assert!(validate_mtp_n_max(17).is_err());
}

#[test]
fn removes_gemma_thinking_output() {
    assert_eq!(
        clean_output("<|channel>thought\nreason<channel|>answer".into(), false).unwrap().0,
        "answer"
    );
    assert_eq!(
        clean_output("<|channel>thought answer<end_of_turn>".into(), false).unwrap().0,
        "answer"
    );
}

#[test]
fn removes_a_leading_thinking_block() {
    assert_eq!(
        clean_output("<think>\nreasoning here\n</think>\nThe answer.".into(), false).unwrap().0,
        "The answer."
    );
    assert_eq!(
        clean_output("<think>reasoning</think>Answer".into(), false).unwrap().0,
        "Answer"
    );
}

#[test]
fn rejects_output_that_is_only_a_thinking_block() {
    assert!(clean_output("<think>reasoning without an end".into(), false).is_err());
}

#[test]
fn keeps_output_without_a_thinking_block() {
    assert_eq!(clean_output("plain answer".into(), false).unwrap().0, "plain answer");
}

#[test]
fn ac1_strips_a_trace_ended_by_a_bare_close_marker() {
    assert_eq!(
        clean_output("The user asks X.\n</think>\n\nOK".into(), true).unwrap().0,
        "OK"
    );
}

#[test]
fn ac2_strips_a_leading_close_marker() {
    assert_eq!(clean_output("</think>\n\nOK".into(), true).unwrap().0, "OK");
}

#[test]
fn ac3_rejects_output_that_is_only_a_trace() {
    assert!(clean_output("reasoning\n</think>".into(), true).is_err());
}

#[test]
fn ac4_strips_only_through_the_first_close_marker() {
    assert_eq!(
        clean_output("trace</think>answer</think>more".into(), true).unwrap().0,
        "answer</think>more"
    );
}

#[test]
fn ac5_keeps_a_close_marker_when_thinking_was_not_requested() {
    assert_eq!(
        clean_output("text </think> more".into(), false).unwrap().0,
        "text </think> more"
    );
}

#[test]
fn ac6_strips_a_leading_block_for_both_values() {
    for thinking in [false, true] {
        assert_eq!(
            clean_output("<think>\nreasoning\n</think>\nAnswer.".into(), thinking).unwrap().0,
            "Answer."
        );
    }
}

#[test]
fn encodes_the_reasoning_effort_as_json() {
    assert_eq!(
        reasoning_kwargs(&Reasoning { thinking: true, effort: Some("low") }),
        vec![("reasoning_effort", "\"low\"".to_string())]
    );
    assert!(reasoning_kwargs(&Reasoning { thinking: true, effort: None }).is_empty());
}

#[test]
fn a_removed_trace_comes_back() {
    assert_eq!(
        strip_thinking_block("  <think>a</think> b".to_string(), false),
        ("b".to_string(), "<think>a</think>".to_string())
    );
    assert_eq!(
        clean_output("<think>a</think><|channel>thought\nb<channel|> c ".into(), false).unwrap(),
        ("c".to_string(), "<think>a</think><|channel>thought\nb<channel|>".to_string())
    );
    assert_eq!(
        clean_output("<|channel>thought \n x".into(), false).unwrap(),
        ("x".to_string(), "<|channel>thought".to_string())
    );
    assert_eq!(clean_output(" \n".into(), false).unwrap_err(), "Model produced empty output");
}

fn plan(count: usize, max: Option<u32>, mtp: Option<i32>, train: u32) -> PromptPlan {
    plan_prompt(count, max, mtp, train).expect("a plan")
}

#[test]
fn a_prompt_is_planned_with_its_margin() {
    assert_eq!(
        plan(100, Some(50), None, 4096),
        PromptPlan { input_tokens: 100, ceiling: 149, context_size: 150 }
    );
    assert_eq!(
        plan(100, Some(50), Some(4), 4096),
        PromptPlan { input_tokens: 100, ceiling: 149, context_size: 155 }
    );
    assert_eq!(
        plan(100, None, Some(4), 1),
        PromptPlan { input_tokens: 100, ceiling: 300, context_size: 305 }
    );
    let failed = plan_prompt(100, Some(50), None, 149).unwrap_err();
    assert!(matches!(failed.cause, Some(LLMError::OutputTokensExceedContext(_))));
    let failed = plan_prompt(1 << 33, None, None, 149).unwrap_err();
    assert!(failed.cause.is_none());
    assert_eq!(failed.message, "prompt token count does not fit in u32");
}

#[test]
fn positions_saturate() {
    assert_eq!(output_ceiling(i32::MAX, Some(5)), i32::MAX - 1);
    assert_eq!(output_ceiling(1_000_000_000, None), i32::MAX);
    assert_eq!(context_positions(i32::MAX, None, 3), i32::MAX);
    assert_eq!(output_ceiling(100, Some(u32::MAX)), i32::MAX - 1);
}

#[test]
fn errors_have_their_wording() {
    assert_eq!(LLMError::Busy.message(), "Server busy, please try again later");
    assert_eq!(LLMError::Cancelled.message(), "Generation was cancelled");
    assert_eq!(LLMError::OutputTokensExceedContext("m".to_string()).message(), "m");
}

#[test]
fn the_lock_is_decided_in_order() {
    assert_eq!(lock_prompt(true, true, true), LockDecision::Cancelled);
    assert_eq!(lock_prompt(false, true, true), LockDecision::Held);
    assert_eq!(lock_prompt(false, false, true), LockDecision::Busy);
    assert_eq!(lock_prompt(false, false, false), LockDecision::TryAgain);
}

#[test]
fn small_choices_of_a_model() {
    assert_eq!(chat_message("a", "b"), "a\n\nb");
    assert_eq!(count_reasoning_tokens("", 9, 5), 0);
    assert_eq!(count_reasoning_tokens("x", 3, 5), 3);
    assert_eq!(count_reasoning_tokens("x", 9, 5), 5);
    assert_eq!(pick_n_ubatch(true, Some(6143), 512), 128);
    assert_eq!(pick_n_ubatch(true, Some(6144), 512), 512);
    assert_eq!(pick_n_ubatch(true, None, 512), 512);
    assert_eq!(pick_n_ubatch(false, Some(1), 512), 512);
    assert_eq!(plan_load(true, 4), Ok(false));
    assert_eq!(plan_load(false, 0), Ok(true));
    assert!(plan_load(true, 0).is_err());
    assert_eq!(select_self_mtp(false, 1, 4), Ok(true));
    assert_eq!(select_self_mtp(true, 1, 0), Ok(false));
    assert!(select_self_mtp(false, 1, 0).is_err());
}

#[test]
fn a_draft_model_has_to_fit() {
    let shape = |n_vocab: i32| ModelShape {
        n_vocab,
        vocab_type: "BPE".to_string(),
        bos: "LlamaToken(1)".to_string(),
        n_embd_out: 64,
    };
    assert!(validate_mtp_pair(&shape(10), &shape(10)).is_ok());
    assert_eq!(
        validate_mtp_pair(&shape(10), &shape(11)).unwrap_err(),
        "MTP model is not compatible with the target model: vocab=10/11, type=BPE/BPE, BOS=LlamaToken(1)/LlamaToken(1), embedding=64/64"
    );
}

#[test]
fn the_layer_search_goes_down() {
    let search = LayerSearch::new();
    assert!(matches!(
        search.step(Attempt::LoadFailed),
        SearchStep::Try(LayerSearch { layers: 64 })
    ));
    assert!(matches!(
        search.step(Attempt::ProbeFailed(40)),
        SearchStep::Try(LayerSearch { layers: 36 })
    ));
    assert!(matches!(search.step(Attempt::Works(40)), SearchStep::Found(None)));
    let few = LayerSearch { layers: 5 };
    assert!(matches!(few.step(Attempt::Works(40)), SearchStep::Found(Some(5))));
    assert!(matches!(
        few.step(Attempt::ProbeFailed(40)),
        SearchStep::Try(LayerSearch { layers: 4 })
    ));
    let one = LayerSearch { layers: 1 };
    match one.step(Attempt::LoadFailed) {
        SearchStep::GiveUp(message) => {
            assert_eq!(message, "Unable to load model even with 0 GPU layers")
        }
        other => panic!("{other:?}"),
    }
    match one.step(Attempt::ProbeFailed(40)) {
        SearchStep::GiveUp(message) => {
            assert_eq!(message, "GPU inference failed even with 0 layers")
        }
        other => panic!("{other:?}"),
    }
    assert_eq!(retry_draft_layers(true, 9999), Some(64));
    assert_eq!(retry_draft_layers(true, 1), Some(0));
    assert_eq!(retry_draft_layers(true, 0), None);
    assert_eq!(retry_draft_layers(false, 7), None);
}

#[test]
fn a_session_generates_exactly_the_requested_tokens() {
    let mut session = DecodeSession::new(10, output_ceiling(10, Some(3)));
    let mut positions = Vec::new();
    while session.next(false) == DecodeNext::GoOn {
        let (next, position) = session.take(false, b"a".to_vec());
        session = next;
        positions.push(position.expect("a position"));
    }
    assert_eq!(positions, [10, 11, 12]);
    assert_eq!(session.finish(), ("aaa".to_string(), 3));
}

#[test]
fn a_session_ends_at_the_end_token_or_a_cancellation() {
    let session = DecodeSession::new(10, 30);
    assert_eq!(session.next(true), DecodeNext::Cancelled);
    let (session, _) = session.take(false, b"a".to_vec());
    let (session, position) = session.take(true, b"</s>".to_vec());
    assert_eq!(position, None);
    assert_eq!(session.next(true), DecodeNext::Finish);
    assert_eq!(session.finish(), ("a".to_string(), 1));
}

#[test]
fn a_character_can_come_in_pieces() {
    let session = DecodeSession::new(1, 9);
    let (session, _) = session.take(false, vec![0xe2, 0x82]);
    let (session, _) = session.take(false, vec![0xac, b'!']);
    let (session, _) = session.take(false, vec![0xff]);
    assert_eq!(session.finish(), ("\u{20ac}!\u{fffd}".to_string(), 3));
}

/// Decodes with drafts where the model samples `truth` and the drafts are
/// `drafts` at each round; 0 ends the generation.
fn speculate(truth: &[i32], drafts: &[&[i32]], prompt: i32, limit: i32) -> (Vec<u8>, u32, i32) {
    let mut sampled: usize = 1;
    let mut round_index: usize = 0;
    let mut session = MtpSession::new(prompt, limit, truth[0], truth[0] == 0);
    while session.next(false) == DecodeNext::GoOn {
        let offered = drafts.get(round_index).map(|d| d.to_vec()).unwrap_or_default();
        round_index += 1;
        let piece = vec![b'a' + session.token() as u8];
        let mut round = session.begin_round(piece, offered);
        loop {
            let token = truth[sampled];
            sampled += 1;
            let (next, place) = round.verify(token, token == 0);
            round = next;
            if place.is_none() {
                break;
            }
        }
        let kept = round.kept_drafts();
        let pieces: Vec<Vec<u8>> =
            round.drafts()[..kept].iter().map(|t| vec![b'a' + *t as u8]).collect();
        session = round.end_round(pieces);
    }
    let position = session.position();
    let (text, count) = session.finish();
    (text.into_bytes(), count, position)
}

#[test]
fn drafts_do_not_change_what_is_generated() {
    let truth = [1, 2, 3, 4, 5, 0, 9, 9, 9, 9];
    let plain = speculate(&truth, &[], 10, 30);
    assert_eq!(plain, (b"bcdef".to_vec(), 5, 15));
    for drafts in [
        vec![&[2, 3][..], &[5][..]],
        vec![&[7, 8][..], &[3, 9][..]],
        vec![&[2, 3, 4, 5, 0, 6][..]],
    ] {
        let (text, count, _) = speculate(&truth, &drafts, 10, 30);
        assert_eq!(text, plain.0);
        assert_eq!(count, 5);
    }
}

#[test]
fn drafts_stay_in_the_limit() {
    let truth = [1, 2, 3, 4, 5, 6, 7, 8];
    let limit = output_ceiling(10, Some(3));
    let (text, count, position) = speculate(&truth, &[&[2, 3, 4, 5, 6]], 10, limit);
    assert_eq!(text, b"bcd".to_vec());
    assert_eq!(count, 3);
    assert_eq!(position, limit + 1);
}

#[test]
fn a_round_reports_rollback_and_acceptance() {
    let session = MtpSession::new(10, 30, 1, false);
    assert_eq!(session.position(), 10);
    let round = session.begin_round(b"x".to_vec(), vec![2, 3, 4]);
    let (round, place) = round.verify(2, false);
    assert_eq!(place, Some(1));
    let (round, place) = round.verify(9, false);
    assert_eq!(place, None);
    assert_eq!(round.rollback(), Some(12));
    assert_eq!(round.acceptance(), Some(1));
    let session = round.end_round(vec![b"y".to_vec()]);
    assert_eq!(session.position(), 12);
    assert_eq!(session.token(), 9);
    assert_eq!(session.totals(), (3, 1));
    let round = session.begin_round(b"z".to_vec(), Vec::new());
    let (round, _) = round.verify(0, true);
    assert_eq!(round.rollback(), None);
    assert_eq!(round.acceptance(), None);
    let session = round.end_round(Vec::new());
    assert_eq!(session.next(true), DecodeNext::Cancelled);
    assert_eq!(session.next(false), DecodeNext::Finish);
    assert_eq!(session.finish(), ("xyz".to_string(), 3));
}

#[test]
fn ph8_29_deepseek_maps_effort() {
    for profile in [ResponsesApi::Openai, ResponsesApi::OpenResponses] {
        for value in ["minimal", "medium", "xhigh", "low"] {
            assert_eq!(profile.map_effort(value), value);
        }
    }
    assert_eq!(ResponsesApi::Deepseek.map_effort("minimal"), "low");
    assert_eq!(ResponsesApi::Deepseek.map_effort("medium"), "high");
    assert_eq!(ResponsesApi::Deepseek.map_effort("xhigh"), "high");
    assert_eq!(ResponsesApi::Deepseek.map_effort("low"), "low");
    assert_eq!(ResponsesApi::Deepseek.map_effort("none"), "none");
}

#[test]
fn ph8_29_deepseek_clamps_thinking_sampling() {
    let requested = Generation {
        temperature: 1.5f64.to_bits(),
        top_p: 0.4f64.to_bits(),
        max_output_tokens: Some(9),
    };
    let clamped = ResponsesApi::Deepseek.sampling(true, requested);
    assert_eq!(f64::from_bits(clamped.temperature) as f32, 0.0);
    assert_eq!(f64::from_bits(clamped.top_p) as f32, 0.95);
    assert_eq!(clamped.max_output_tokens, Some(9));
    assert_eq!(ResponsesApi::Deepseek.sampling(false, requested), requested);
    assert_eq!(ResponsesApi::Openai.sampling(true, requested), requested);
    assert_eq!(ResponsesApi::OpenResponses.sampling(true, requested), requested);
    let high = Generation { top_p: 0.99f64.to_bits(), ..requested };
    assert_eq!(
        f64::from_bits(ResponsesApi::Deepseek.sampling(true, high).top_p) as f32,
        0.99
    );
    let negative_zero = Generation { top_p: (-0.0f64).to_bits(), ..requested };
    assert_eq!(
        f64::from_bits(ResponsesApi::Deepseek.sampling(true, negative_zero).top_p) as f32,
        0.95
    );
    for bits in [f64::NAN.to_bits(), 0x7FF0_0000_0000_0001, u64::MAX, (-1.0f64).to_bits()] {
        let odd = Generation { top_p: bits, ..requested };
        assert_eq!(
            f64::from_bits(ResponsesApi::Deepseek.sampling(true, odd).top_p) as f32,
            (f64::from_bits(bits) as f32).max(0.95)
        );
    }
    let endless = Generation { top_p: f64::INFINITY.to_bits(), ..requested };
    assert_eq!(ResponsesApi::Deepseek.sampling(true, endless).top_p, endless.top_p);
}

#[test]
fn ph8_29_only_deepseek_skips_the_directive() {
    assert!(ResponsesApi::Openai.applies_verbosity_directive());
    assert!(ResponsesApi::OpenResponses.applies_verbosity_directive());
    assert!(!ResponsesApi::Deepseek.applies_verbosity_directive());
}

#[test]
fn ph8_26_only_deepseek_ignores_unsupported_fields() {
    assert!(ResponsesApi::Deepseek.ignores_unsupported_fields());
    assert!(!ResponsesApi::Openai.ignores_unsupported_fields());
    assert!(!ResponsesApi::OpenResponses.ignores_unsupported_fields());
}
