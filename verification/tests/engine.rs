use git_ca::error::{EngineError, LoadFailure};
use git_ca::inference::{build_prompt_batch, BatchEntry, Inference, Phase, Request, StopReason};
use git_ca::ranking::{rank, top_candidates, Candidate};
use git_ca::sampler::{
    highest_value, keep_above, key_of_score, nucleus_cut, nucleus_of, pick, sample_token,
    select_token, sum_weights, units_of_weight, weigh_candidates, SamplingConfig,
};
use git_ca::session::{
    check_model_path, first_stage, next_stage, release_after_failure, release_on_drop,
    reports_log_level, thread_count_of, LlamaSession, OpenStage, Resource,
};
use git_ca::text::{char_is_space, shape_of};
use git_ca::tokenizer::{
    begin_encode, begin_piece, continue_encode, continue_piece, fragment_from, keep_reported,
    EncodeStep, PieceStep,
};
use git_ca::window::{prompt_limit_of, truncate_to_window};

fn c(token: i32, value: u32) -> Candidate {
    Candidate { token, value }
}

fn tokens(v: &Vec<Candidate>) -> Vec<i32> {
    v.iter().map(|c| c.token).collect()
}

#[test]
fn window_keeps_short_prompts() {
    let prompt: Vec<i32> = (0..100).collect();
    assert_eq!(truncate_to_window(prompt.clone(), 1024), prompt);
    let at_limit: Vec<i32> = (0..992).collect();
    assert_eq!(truncate_to_window(at_limit.clone(), 1024), at_limit);
    assert_eq!(truncate_to_window(vec![], 1024), Vec::<i32>::new());
}

#[test]
fn window_drops_oldest_tokens() {
    let prompt: Vec<i32> = (0..1000).collect();
    let kept = truncate_to_window(prompt, 1024);
    assert_eq!(kept.len(), 992);
    assert_eq!(kept[0], 8);
    assert_eq!(kept[991], 999);
}

#[test]
fn window_keeps_one_token_at_least() {
    assert_eq!(prompt_limit_of(1024), 992);
    assert_eq!(prompt_limit_of(33), 1);
    assert_eq!(prompt_limit_of(32), 1);
    assert_eq!(prompt_limit_of(16), 1);
    assert_eq!(prompt_limit_of(0), 1);
    assert_eq!(prompt_limit_of(-5), 1);
    assert_eq!(prompt_limit_of(i32::MAX), 2147483615);
    assert_eq!(truncate_to_window(vec![1, 2, 3], 16), vec![3]);
    assert_eq!(truncate_to_window(vec![1, 2, 3], 32), vec![3]);
}

#[test]
fn encode_buffer_starts_with_slack_and_doubles() {
    assert_eq!(begin_encode(0), EncodeStep::Attempt(9));
    assert_eq!(begin_encode(1), EncodeStep::Attempt(9));
    assert_eq!(begin_encode(5), EncodeStep::Attempt(13));
    assert_eq!(begin_encode(2147483639), EncodeStep::Attempt(2147483647));
    assert_eq!(begin_encode(2147483640), EncodeStep::Overflow);
    assert_eq!(begin_encode(usize::MAX), EncodeStep::Overflow);
    assert_eq!(continue_encode(13, 4), EncodeStep::Done(4));
    assert_eq!(continue_encode(13, 0), EncodeStep::Done(0));
    assert_eq!(continue_encode(13, -20), EncodeStep::Attempt(26));
    assert_eq!(continue_encode(1073741823, -1), EncodeStep::Attempt(2147483646));
    assert_eq!(continue_encode(1073741824, -1), EncodeStep::Overflow);
    assert_eq!(continue_encode(13, i32::MIN), EncodeStep::Attempt(26));
}

#[test]
fn encode_doubling_converges() {
    let required: i32 = 100_000;
    let mut step = begin_encode(3);
    let mut attempts = 0;
    loop {
        match step {
            EncodeStep::Attempt(capacity) => {
                attempts += 1;
                let reported = if capacity >= required as usize { required } else { -required };
                step = continue_encode(capacity, reported);
            }
            EncodeStep::Done(count) => {
                assert_eq!(count, 100_000);
                break;
            }
            EncodeStep::Overflow => panic!("overflow"),
        }
    }
    assert_eq!(attempts, 15);
}

#[test]
fn encode_keeps_reported_tokens() {
    assert_eq!(keep_reported(vec![7, 8, 9, 0, 0], 3), vec![7, 8, 9]);
    assert_eq!(keep_reported(vec![7, 8], 5), vec![7, 8]);
    assert_eq!(keep_reported(vec![7, 8], 0), Vec::<i32>::new());
}

#[test]
fn piece_buffer_doubles_up_to_ceiling() {
    assert_eq!(begin_piece(), PieceStep::Attempt(64));
    assert_eq!(continue_piece(64, 5), PieceStep::Done(5));
    assert_eq!(continue_piece(64, 0), PieceStep::Done(0));
    assert_eq!(continue_piece(64, 64), PieceStep::Attempt(128));
    assert_eq!(continue_piece(64, -70), PieceStep::Attempt(128));
    assert_eq!(continue_piece(4096, -1), PieceStep::Attempt(8192));
    assert_eq!(continue_piece(8192, -1), PieceStep::Dropped);
    assert_eq!(continue_piece(8192, 8191), PieceStep::Done(8191));
}

#[test]
fn fragments_are_valid_text_or_empty() {
    assert_eq!(fragment_from(b"hello\0\0".to_vec(), 5), "hello");
    assert_eq!(fragment_from("更新".as_bytes().to_vec(), 6), "更新");
    assert_eq!(fragment_from("更新".as_bytes().to_vec(), 4), "");
    assert_eq!(fragment_from(vec![0xff, 0x41], 2), "");
    assert_eq!(fragment_from(vec![0x41, 0x42], 9), "AB");
    assert_eq!(fragment_from(vec![], 0), "");
}

#[test]
fn fragments_concatenate_to_valid_text() {
    let pieces: Vec<Vec<u8>> =
        vec![b"feat".to_vec(), vec![0xe6, 0x9b], "更".as_bytes().to_vec(), vec![0x80], b"!".to_vec()];
    let mut out = String::new();
    for p in pieces {
        let n = p.len();
        out.push_str(&fragment_from(p, n));
    }
    assert_eq!(out, "feat更!");
}

#[test]
fn white_space_is_the_unicode_property() {
    for ch in (0u32..0x11000).filter_map(char::from_u32) {
        assert_eq!(char_is_space(ch), ch.is_whitespace(), "{:?}", ch);
    }
}

#[test]
fn text_shapes() {
    let s = shape_of("");
    assert!(s.blank && s.newlines == 0 && !s.ends_in_newline && !s.has_nul);
    let s = shape_of(" \n\u{3000}\t");
    assert!(s.blank && s.newlines == 1 && !s.ends_in_newline);
    let s = shape_of("a\nb\nc\n");
    assert!(!s.blank && s.newlines == 2 && s.ends_in_newline);
    let s = shape_of("a\0b");
    assert!(s.has_nul && !s.blank);
}

#[test]
fn error_messages() {
    assert_eq!(EngineError::ModelLoad(LoadFailure::Rejected).message(), "Failed to load GGUF model");
    assert_eq!(EngineError::ModelLoad(LoadFailure::FileMissing).message(), "Model file not found");
    assert_eq!(
        EngineError::ModelLoad(LoadFailure::PathNotUtf8).message(),
        "Model path contains invalid UTF-8 characters"
    );
    assert_eq!(
        EngineError::ModelLoad(LoadFailure::PathHasNul).message(),
        "Model path contains interior null bytes"
    );
    assert_eq!(EngineError::VocabularyResolution.message(), "Failed to resolve model vocabulary");
    assert_eq!(EngineError::ContextCreation.message(), "Failed to create llama.cpp context");
    assert_eq!(
        EngineError::InvalidPrompt.message(),
        "Prompt contains interior null bytes which cannot be processed"
    );
    assert_eq!(EngineError::TokenizationOverflow.message(), "Prompt too long for llama.cpp tokenizer");
    assert_eq!(
        EngineError::PromptDecodeFailure.message(),
        "Model evaluation failed during prompt ingestion"
    );
    assert_eq!(
        EngineError::GenerationDecodeFailure.message(),
        "Model evaluation failed during generation"
    );
}

#[test]
fn session_opens_stage_by_stage() {
    assert_eq!(first_stage(), OpenStage::LoadModel);
    assert_eq!(next_stage(OpenStage::LoadModel, true), Ok(Some(OpenStage::ResolveVocabulary)));
    assert_eq!(next_stage(OpenStage::ResolveVocabulary, true), Ok(Some(OpenStage::CreateContext)));
    assert_eq!(next_stage(OpenStage::CreateContext, true), Ok(None));
    assert_eq!(
        next_stage(OpenStage::LoadModel, false),
        Err(EngineError::ModelLoad(LoadFailure::Rejected))
    );
    assert_eq!(next_stage(OpenStage::ResolveVocabulary, false), Err(EngineError::VocabularyResolution));
    assert_eq!(next_stage(OpenStage::CreateContext, false), Err(EngineError::ContextCreation));
}

#[test]
fn session_releases_in_order() {
    assert_eq!(release_after_failure(OpenStage::LoadModel), vec![Resource::Backend]);
    assert_eq!(
        release_after_failure(OpenStage::ResolveVocabulary),
        vec![Resource::Model, Resource::Backend]
    );
    assert_eq!(
        release_after_failure(OpenStage::CreateContext),
        vec![Resource::Model, Resource::Backend]
    );
    assert_eq!(release_on_drop(), vec![Resource::Context, Resource::Model, Resource::Backend]);
}

#[test]
fn session_checks_model_path() {
    assert_eq!(
        check_model_path(false, Some("m.gguf")),
        Err(EngineError::ModelLoad(LoadFailure::FileMissing))
    );
    assert_eq!(check_model_path(false, None), Err(EngineError::ModelLoad(LoadFailure::FileMissing)));
    assert_eq!(check_model_path(true, None), Err(EngineError::ModelLoad(LoadFailure::PathNotUtf8)));
    assert_eq!(
        check_model_path(true, Some("m\0.gguf")),
        Err(EngineError::ModelLoad(LoadFailure::PathHasNul))
    );
    assert_eq!(check_model_path(true, Some("m.gguf")), Ok(()));
}

#[test]
fn session_sizes_its_context() {
    assert_eq!(thread_count_of(None), 4);
    assert_eq!(thread_count_of(Some(0)), 1);
    assert_eq!(thread_count_of(Some(12)), 12);
    assert_eq!(thread_count_of(Some(usize::MAX)), i32::MAX);
    let session = LlamaSession::new(1024, Some(8)).expect("session");
    assert_eq!(session.n_ctx(), 1024);
    let p = session.params();
    assert_eq!((p.n_ctx, p.n_batch, p.n_ubatch, p.n_seq_max), (1024, 1024, 1024, 1));
    assert_eq!((p.n_threads, p.n_threads_batch), (8, 8));
    assert!(matches!(LlamaSession::new(0, None), Err(EngineError::ContextCreation)));
    assert!(matches!(LlamaSession::new(-3, None), Err(EngineError::ContextCreation)));
    assert!(reports_log_level(4) && reports_log_level(5));
    assert!(!reports_log_level(3) && !reports_log_level(0));
}

#[test]
fn prompt_batches_flag_the_last_token() {
    let prompt = vec![10, 11, 12, 13, 14];
    let first = build_prompt_batch(&prompt, 0, 0, 3);
    assert_eq!(
        first,
        vec![
            BatchEntry { token: 10, position: 0, sequence: 0, wants_scores: false },
            BatchEntry { token: 11, position: 1, sequence: 0, wants_scores: false },
            BatchEntry { token: 12, position: 2, sequence: 0, wants_scores: false },
        ]
    );
    let second = build_prompt_batch(&prompt, 0, 3, 2);
    assert_eq!(
        second,
        vec![
            BatchEntry { token: 13, position: 3, sequence: 0, wants_scores: false },
            BatchEntry { token: 14, position: 4, sequence: 0, wants_scores: true },
        ]
    );
}

fn encoded(prompt_tokens: Vec<i32>, n_ctx: i32, max_tokens: usize, eos: i32) -> Inference {
    let session = LlamaSession::new(n_ctx, None).expect("session");
    let inference = session.infer("hello", max_tokens, eos);
    assert!(matches!(inference.request(), Request::ClearMemory));
    let inference = inference.cleared();
    let capacity = match inference.request() {
        Request::Tokenize(capacity) => capacity,
        other => panic!("unexpected {:?}", other),
    };
    assert_eq!(capacity, 13);
    let n = prompt_tokens.len() as i32;
    let mut buffer = prompt_tokens;
    buffer.resize(capacity.max(buffer.len()), 0);
    inference.tokenized(n, buffer)
}

fn step(inference: Inference, token: i32, fragment: &str, accepted: bool) -> Inference {
    assert!(matches!(inference.request(), Request::Sample));
    let inference = inference.sampled(token);
    match inference.request() {
        Request::Detokenize(t) => assert_eq!(t, token),
        other => panic!("unexpected {:?}", other),
    }
    let inference = inference.detokenized(fragment);
    match inference.request() {
        Request::Decode(batch) => {
            assert_eq!(batch.len(), 1);
            assert_eq!(batch[0].token, token);
            assert_eq!(batch[0].position, inference.position());
            assert!(batch[0].wants_scores);
        }
        other => panic!("unexpected {:?}", other),
    }
    inference.decoded(accepted)
}

#[test]
fn prompt_batches_count_from_the_first_position() {
    let prompt = vec![10, 11];
    assert_eq!(
        build_prompt_batch(&prompt, 100, 0, 2),
        vec![
            BatchEntry { token: 10, position: 100, sequence: 0, wants_scores: false },
            BatchEntry { token: 11, position: 101, sequence: 0, wants_scores: true },
        ]
    );
    assert_eq!(build_prompt_batch(&prompt, 0, 2, 0), vec![]);
}

#[test]
fn inference_rejects_nul_prompt() {
    let session = LlamaSession::new(1024, None).expect("session");
    let inference = session.infer("a\0b", 5, 2);
    assert_eq!(inference.phase(), Phase::Failed(EngineError::InvalidPrompt));
    assert!(matches!(inference.request(), Request::Done));
    assert_eq!(inference.finish(), Err(EngineError::InvalidPrompt));
}

#[test]
fn inference_grows_encode_buffer_until_overflow() {
    let session = LlamaSession::new(1024, None).expect("session");
    let mut inference = session.infer("hello", 5, 2).cleared();
    let mut capacities = vec![];
    loop {
        match inference.request() {
            Request::Tokenize(capacity) => {
                capacities.push(capacity);
                inference = inference.tokenized(-1, vec![]);
            }
            Request::Done => break,
            other => panic!("unexpected {:?}", other),
        }
    }
    assert_eq!(capacities[0], 13);
    assert_eq!(capacities[1], 26);
    assert_eq!(capacities.len(), 28);
    assert_eq!(inference.finish(), Err(EngineError::TokenizationOverflow));
}

#[test]
fn inference_ingests_in_chunks_with_backoff() {
    let prompt: Vec<i32> = (0..600).collect();
    let mut inference = encoded(prompt, 1024, 5, 2);
    let mut sizes = vec![];
    let mut script = vec![true, false, false, true, true, true, true, true, true, true, true].into_iter();
    loop {
        match inference.request() {
            Request::Decode(batch) => {
                assert_eq!(batch[0].position, inference.position());
                let flagged: Vec<bool> = batch.iter().map(|e| e.wants_scores).collect();
                let last_is_end = batch[batch.len() - 1].position == 599;
                assert_eq!(flagged.iter().filter(|f| **f).count(), if last_is_end { 1 } else { 0 });
                sizes.push(batch.len());
                inference = inference.decoded(script.next().unwrap());
            }
            Request::Sample => break,
            other => panic!("unexpected {:?}", other),
        }
    }
    assert_eq!(sizes, vec![256, 256, 128, 64, 64, 64, 64, 64, 24]);
    assert_eq!(inference.position(), 600);
    assert_eq!(inference.phase(), Phase::Sampling);
}

#[test]
fn inference_fails_ingestion_at_chunk_one() {
    let mut inference = encoded(vec![1, 2, 3], 1024, 5, 2);
    let mut sizes = vec![];
    loop {
        match inference.request() {
            Request::Decode(batch) => {
                sizes.push(batch.len());
                inference = inference.decoded(false);
            }
            Request::Done => break,
            other => panic!("unexpected {:?}", other),
        }
    }
    assert_eq!(sizes, vec![3, 3, 3, 3, 3, 3, 3, 2, 1]);
    assert_eq!(inference.finish(), Err(EngineError::PromptDecodeFailure));
}

#[test]
fn inference_truncates_prompt_to_window() {
    let prompt: Vec<i32> = (0..100).collect();
    let inference = encoded(prompt, 64, 5, 2);
    match inference.request() {
        Request::Decode(batch) => {
            assert_eq!(batch.len(), 32);
            assert_eq!(batch[0].token, 68);
            assert_eq!(batch[0].position, 0);
            assert!(batch[31].wants_scores);
        }
        other => panic!("unexpected {:?}", other),
    }
}

#[test]
fn inference_with_empty_prompt_goes_to_sampling() {
    let inference = encoded(vec![], 1024, 5, 2);
    assert_eq!(inference.phase(), Phase::Sampling);
    let inference = encoded(vec![], 1024, 0, 2);
    assert_eq!(inference.phase(), Phase::Stopped(StopReason::BudgetExhausted));
    assert_eq!(inference.finish(), Ok(String::new()));
}

#[test]
fn generation_stops_at_eos_without_appending() {
    let inference = encoded(vec![1], 1024, 5, 2).decoded(true);
    let inference = step(inference, 7, "feat: x", true);
    assert!(matches!(inference.request(), Request::Sample));
    let inference = inference.sampled(2);
    assert_eq!(inference.phase(), Phase::Stopped(StopReason::EosReached));
    assert_eq!(inference.output(), "feat: x");
    assert_eq!(inference.finish(), Ok("feat: x".to_string()));
}

#[test]
fn generation_ignores_double_newline_while_blank() {
    let mut inference = encoded(vec![1], 1024, 4, 2).decoded(true);
    for _ in 0..3 {
        inference = step(inference, 9, "\n\n", true);
        assert_eq!(inference.phase(), Phase::Sampling);
    }
    inference = step(inference, 9, "\n", true);
    assert_eq!(inference.phase(), Phase::Stopped(StopReason::BudgetExhausted));
    assert_eq!(inference.finish(), Ok("\n\n\n\n\n\n\n".to_string()));
}

#[test]
fn generation_stops_on_double_newline_after_content() {
    let mut inference = encoded(vec![1], 1024, 10, 2).decoded(true);
    inference = step(inference, 9, "\n", true);
    assert_eq!(inference.phase(), Phase::Sampling);
    inference = step(inference, 9, "fix: y", true);
    assert_eq!(inference.phase(), Phase::Sampling);
    inference = step(inference, 9, "\n", true);
    assert_eq!(inference.phase(), Phase::Stopped(StopReason::DoubleNewline));
    assert_eq!(inference.position(), 4);
    assert_eq!(inference.finish(), Ok("\nfix: y\n".to_string()));
}

#[test]
fn generation_goes_on_after_one_line() {
    let mut inference = encoded(vec![1], 1024, 10, 2).decoded(true);
    inference = step(inference, 9, "fix: y\n", true);
    assert_eq!(inference.phase(), Phase::Sampling);
    inference = step(inference, 9, "body", true);
    assert_eq!(inference.phase(), Phase::Sampling);
    inference = step(inference, 9, "\n", true);
    assert_eq!(inference.phase(), Phase::Stopped(StopReason::DoubleNewline));
}

#[test]
fn decode_failure_after_output_returns_partial_text() {
    let mut inference = encoded(vec![1], 1024, 10, 2).decoded(true);
    inference = step(inference, 9, "feat", true);
    inference = step(inference, 9, ": x", false);
    assert_eq!(inference.phase(), Phase::Stopped(StopReason::DecodeFailed));
    assert_eq!(inference.finish(), Ok("feat: x".to_string()));
}

#[test]
fn decode_failure_before_output_is_an_error() {
    let inference = encoded(vec![1], 1024, 10, 2).decoded(true);
    let inference = step(inference, 9, "", false);
    assert_eq!(inference.phase(), Phase::Failed(EngineError::GenerationDecodeFailure));
    assert_eq!(inference.finish(), Err(EngineError::GenerationDecodeFailure));
    let inference = encoded(vec![1], 1024, 10, 2).decoded(true);
    let inference = step(inference, 9, "", true);
    let inference = step(inference, 9, "", false);
    assert_eq!(inference.finish(), Err(EngineError::GenerationDecodeFailure));
}

#[test]
fn decode_failure_after_white_space_returns_it() {
    let inference = encoded(vec![1], 1024, 10, 2).decoded(true);
    let inference = step(inference, 9, " \n", false);
    assert_eq!(inference.phase(), Phase::Stopped(StopReason::DecodeFailed));
    assert_eq!(inference.finish(), Ok(" \n".to_string()));
    let mut inference = encoded(vec![1], 1024, 10, 2).decoded(true);
    inference = step(inference, 9, "\n", true);
    assert_eq!(inference.phase(), Phase::Sampling);
    inference = step(inference, 9, "\n", false);
    assert_eq!(inference.phase(), Phase::Stopped(StopReason::DecodeFailed));
    assert!(matches!(inference.request(), Request::Done));
    assert_eq!(inference.finish(), Ok("\n\n".to_string()));
}

#[test]
fn generation_ends_on_budget() {
    let mut inference = encoded(vec![1, 2], 1024, 3, 2).decoded(true);
    for i in 0..3 {
        assert_eq!(inference.position(), 2 + i);
        inference = step(inference, 9, "ab", true);
    }
    assert_eq!(inference.phase(), Phase::Stopped(StopReason::BudgetExhausted));
    assert!(matches!(inference.request(), Request::Done));
    assert_eq!(inference.finish(), Ok("ababab".to_string()));
}

#[test]
fn reports_out_of_turn_change_nothing() {
    let inference = encoded(vec![1], 1024, 3, 2);
    let inference = inference.sampled(5).detokenized("x").cleared().tokenized(3, vec![1, 2, 3]);
    assert_eq!(inference.phase(), Phase::Ingesting);
    assert_eq!(inference.output(), "");
    assert_eq!(inference.position(), 0);
}

#[test]
fn score_keys_order_like_the_numbers() {
    let values = [
        f32::NEG_INFINITY,
        -1.0e30,
        -3.5,
        -1.0e-40,
        0.0,
        1.0e-40,
        0.25,
        3.5,
        1.0e30,
        f32::INFINITY,
    ];
    for w in values.windows(2) {
        assert!(key_of_score(w[0].to_bits()) < key_of_score(w[1].to_bits()), "{:?}", w);
    }
    assert_eq!(key_of_score((-0.0f32).to_bits()), key_of_score(0.0f32.to_bits()));
    assert_eq!(key_of_score(f32::NAN.to_bits()), 0);
    assert_eq!(key_of_score((-f32::NAN).to_bits()), 0);
    assert!(key_of_score(f32::NEG_INFINITY.to_bits()) > 0);
}

#[test]
fn weights_from_bit_patterns() {
    assert_eq!(units_of_weight(1.0f32.to_bits()), u32::MAX);
    assert_eq!(units_of_weight(2.5f32.to_bits()), u32::MAX);
    assert_eq!(units_of_weight(f32::MAX.to_bits()), u32::MAX);
    assert_eq!(units_of_weight(0.5f32.to_bits()), 1 << 31);
    assert_eq!(units_of_weight(0.25f32.to_bits()), 1 << 30);
    assert_eq!(units_of_weight(0.75f32.to_bits()), 3 << 30);
    assert_eq!(units_of_weight(0.0f32.to_bits()), 0);
    assert_eq!(units_of_weight((-0.0f32).to_bits()), 0);
    assert_eq!(units_of_weight((-1.0f32).to_bits()), 0);
    assert_eq!(units_of_weight(f32::INFINITY.to_bits()), 0);
    assert_eq!(units_of_weight(f32::NEG_INFINITY.to_bits()), 0);
    assert_eq!(units_of_weight(f32::NAN.to_bits()), 0);
    assert_eq!(units_of_weight(f32::MIN_POSITIVE.to_bits()), 1);
    assert_eq!(units_of_weight(1), 1);
    assert_eq!(units_of_weight(1.0e-20f32.to_bits()), 1);
    let mut bits: u32 = 0x2000_0000;
    while bits < 0x3f80_0000 {
        let w = f32::from_bits(bits);
        let want = ((w as f64) * 4294967296.0).floor().max(1.0).min(u32::MAX as f64) as u32;
        assert_eq!(units_of_weight(bits), want, "{}", w);
        bits += 0x0001_2345;
    }
}

#[test]
fn candidates_get_their_weights() {
    let ranking = vec![c(5, 900), c(2, 800), c(9, 700)];
    let patterns = vec![1.0f32.to_bits(), 0.5f32.to_bits()];
    assert_eq!(
        weigh_candidates(&ranking, &patterns),
        vec![c(5, u32::MAX), c(2, 1 << 31), c(9, 0)]
    );
    assert_eq!(weigh_candidates(&vec![], &patterns), vec![]);
}

#[test]
fn ranking_is_stable_and_bounded() {
    let items = vec![c(0, 5), c(1, 9), c(2, 5), c(3, 1), c(4, 9), c(5, 7)];
    assert_eq!(tokens(&rank(&items, 6)), vec![1, 4, 5, 0, 2, 3]);
    assert_eq!(tokens(&rank(&items, 3)), vec![1, 4, 5]);
    assert_eq!(tokens(&rank(&items, 0)), Vec::<i32>::new());
    assert_eq!(tokens(&rank(&items, 100)), vec![1, 4, 5, 0, 2, 3]);
}

#[test]
fn top_candidates_are_the_best_k() {
    let keys = vec![3, 8, 8, 1, 9, 0];
    assert_eq!(top_candidates(&keys, 3), vec![c(4, 9), c(1, 8), c(2, 8)]);
    assert_eq!(top_candidates(&keys, 0), vec![c(4, 9)]);
    assert_eq!(top_candidates(&keys, 40).len(), 6);
    assert_eq!(top_candidates(&vec![], 40), vec![]);
}

#[test]
fn top_p_cut_is_inclusive() {
    let weighted = vec![c(0, 5), c(1, 3), c(2, 2)];
    assert_eq!(nucleus_cut(&weighted, 600), 2);
    assert_eq!(tokens(&nucleus_of(&weighted, 600, 0)), vec![0, 1]);
    assert_eq!(nucleus_cut(&weighted, 500), 1);
    assert_eq!(nucleus_cut(&weighted, 501), 2);
    assert_eq!(nucleus_cut(&weighted, 800), 2);
    assert_eq!(nucleus_cut(&weighted, 801), 3);
    assert_eq!(nucleus_cut(&weighted, 1000), 3);
    assert_eq!(nucleus_cut(&weighted, 5000), 3);
    assert_eq!(nucleus_cut(&weighted, 0), 1);
    assert_eq!(nucleus_cut(&vec![], 600), 0);
}

#[test]
fn nucleus_drops_weightless_and_sorts() {
    let weighted = vec![c(0, 0), c(1, 2), c(2, 7), c(3, 0), c(4, 7)];
    assert_eq!(nucleus_of(&weighted, 1000, 0), vec![c(2, 7), c(4, 7), c(1, 2)]);
    assert_eq!(nucleus_of(&vec![c(0, 0), c(1, 0)], 900, 0), vec![]);
}

#[test]
fn min_p_floor() {
    let weighted = vec![c(0, 100), c(1, 50), c(2, 49), c(3, 1)];
    assert_eq!(tokens(&nucleus_of(&weighted, 1000, 500)), vec![0, 1]);
    assert_eq!(tokens(&nucleus_of(&weighted, 1000, 10)), vec![0, 1, 2, 3]);
    assert_eq!(tokens(&nucleus_of(&weighted, 1000, 11)), vec![0, 1, 2]);
    assert_eq!(tokens(&nucleus_of(&weighted, 1000, 1000)), vec![0]);
    assert_eq!(tokens(&nucleus_of(&weighted, 1000, 2000)), vec![0]);
}

#[test]
fn sums_and_maxima() {
    let weighted = vec![c(0, u32::MAX), c(1, u32::MAX), c(2, 5)];
    assert_eq!(sum_weights(&weighted), 2 * (u32::MAX as u128) + 5);
    assert_eq!(highest_value(&weighted), u32::MAX);
    assert_eq!(highest_value(&vec![]), 0);
    assert_eq!(sum_weights(&vec![]), 0);
    assert_eq!(keep_above(&vec![c(0, 1), c(1, 2), c(2, 3)], 2000), vec![c(1, 2), c(2, 3)]);
}

#[test]
fn weighted_walk() {
    let kept = vec![c(10, 5), c(11, 3), c(12, 2)];
    assert_eq!(pick(&kept, 0, -1), 10);
    assert_eq!(pick(&kept, 5, -1), 10);
    assert_eq!(pick(&kept, 6, -1), 11);
    assert_eq!(pick(&kept, 8, -1), 11);
    assert_eq!(pick(&kept, 9, -1), 12);
    assert_eq!(pick(&kept, 1000, -1), 12);
    assert_eq!(pick(&vec![], 3, -1), -1);
}

#[test]
fn sampler_falls_back_at_every_stage() {
    let config = SamplingConfig::standard();
    assert_eq!(select_token(&vec![], &config, 2, 0), 2);
    assert_eq!(select_token(&vec![c(7, 0), c(8, 0)], &config, 2, 5), 7);
    assert_eq!(select_token(&vec![c(7, 0), c(8, 3)], &config, 2, 2), 8);
    let all = SamplingConfig { top_p_permille: 1000, ..config };
    assert_eq!(select_token(&vec![c(7, 4), c(8, 3)], &all, 2, 5), 8);
    assert_eq!(select_token(&vec![c(7, 4), c(8, 3)], &all, 2, 4), 7);
    assert_eq!(select_token(&vec![c(7, 4), c(8, 3)], &all, 2, 700), 8);
}

#[test]
fn sampler_returns_a_candidate_for_any_weights() {
    let config = SamplingConfig::standard();
    let sets: Vec<Vec<Candidate>> = vec![
        vec![c(3, 0)],
        vec![c(3, u32::MAX), c(4, u32::MAX)],
        vec![c(3, 1), c(4, 0), c(5, 9)],
        (0..40).map(|i| c(i, (i as u32) * 1000)).collect(),
    ];
    for weighted in sets {
        for _ in 0..50 {
            let token = sample_token(&weighted, &config, -1);
            assert!(weighted.iter().any(|w| w.token == token));
        }
    }
    assert_eq!(sample_token(&vec![], &config, -1), -1);
}

#[test]
fn draws_stay_below_the_total_weight() {
    let all = SamplingConfig { top_p_permille: 1000, ..SamplingConfig::standard() };
    let weighted = vec![c(0, 1), c(1, 1)];
    for _ in 0..500 {
        assert_eq!(sample_token(&weighted, &all, -1), 0);
    }
}

#[test]
fn draws_reach_every_heavy_candidate() {
    let all = SamplingConfig { top_p_permille: 1000, ..SamplingConfig::standard() };
    let weighted = vec![c(0, 3 << 20), c(1, 1 << 20)];
    let mut seen = [0usize; 2];
    for _ in 0..2000 {
        seen[sample_token(&weighted, &all, -1) as usize] += 1;
    }
    assert!(seen[0] > 1200 && seen[1] > 300, "{:?}", seen);
}

#[test]
fn standard_parameters() {
    let config = SamplingConfig::standard();
    assert_eq!(config.temperature_permille, 800);
    assert_eq!(config.top_k, 40);
    assert_eq!(config.top_p_permille, 900);
    assert_eq!(config.min_p_permille, 0);
    assert_eq!(SamplingConfig::greedy().top_k, 1);
}

fn toy_scores(position: i32) -> Vec<f32> {
    (0..16).map(|t| (((t * 7 + position * 5) % 16) as f32) * 0.5 - 2.0).collect()
}

fn run_toy(max_tokens: usize) -> Result<String, EngineError> {
    let vocab = ["a", "b", "c", "d", "e", "f", "g", "h", "i", "j", "k", "l", "m", "n", "o", "p"];
    let config = SamplingConfig::greedy();
    let session = LlamaSession::new(1024, Some(1)).expect("session");
    let mut inference = session.infer("hello", max_tokens, 15);
    let mut scores: Vec<f32> = vec![];
    loop {
        inference = match inference.request() {
            Request::ClearMemory => inference.cleared(),
            Request::Tokenize(capacity) => {
                let mut buffer = vec![0; capacity];
                buffer[0] = 1;
                buffer[1] = 2;
                inference.tokenized(2, buffer)
            }
            Request::Decode(batch) => {
                let last = batch[batch.len() - 1];
                if last.wants_scores {
                    scores = toy_scores(last.position);
                }
                inference.decoded(true)
            }
            Request::Sample => {
                let keys: Vec<u32> = scores.iter().map(|s| key_of_score(s.to_bits())).collect();
                let ranked = top_candidates(&keys, config.top_k);
                let weighted: Vec<Candidate> =
                    ranked.iter().map(|r| Candidate { token: r.token, value: u32::MAX }).collect();
                inference.sampled(sample_token(&weighted, &config, 15))
            }
            Request::Detokenize(token) => inference.detokenized(vocab[token as usize]),
            Request::Done => break,
        };
    }
    inference.finish()
}

#[test]
fn greedy_generation_is_deterministic() {
    let first = run_toy(5);
    assert_eq!(first, Ok("gdank".to_string()));
    for _ in 0..20 {
        assert_eq!(run_toy(5), first);
    }
}
