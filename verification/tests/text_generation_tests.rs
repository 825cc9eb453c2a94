use candle_core::{DType, Device, Tensor};
use candle_nn::{Activation, VarBuilder, VarMap};
use candle_transformers::generation::LogitsProcessor;
use candle_transformers::models::gemma::{Config as Config1, Model as Model1};
use candle_transformers::models::gemma2::{Config as Config2, Model as Model2};
use candle_transformers::models::gemma3::{Config as Config3, Model as Model3};
use inference_engine::model::{
    Family, ForwardError, Model, ModelError, Which, MAX_LAYERS, MAX_WIDTH, MAX_WINDOW,
};
use inference_engine::text_generation::{
    append_text, can_sample, penalized, plan_penalty, plan_window, resolve_stop_ids,
    GenerationError, LoadError, Step, StopIds, TextGeneration, IDENTITY_PENALTY,
};
use inference_engine::token_output_stream::TokenOutputStream;
use std::cell::RefCell;
use std::collections::{HashMap, VecDeque};
use tokenizers::models::bpe::{Vocab, BPE};
use tokenizers::pre_tokenizers::byte_level::ByteLevel;
use tokenizers::decoders::bpe::BPEDecoder;
use tokenizers::decoders::strip::Strip;
use tokenizers::decoders::DecoderWrapper;
use tokenizers::processors::template::TemplateProcessing;
use tokenizers::{AddedToken, Tokenizer};

const VOCAB_SIZE: usize = 260;
const EOS: u32 = 256;
const EOT: u32 = 257;
// The bits of 1.1 as a 32-bit number.
const SOME_PENALTY: u32 = 0x3F8C_CCCD;

// A byte-level tokenizer without merges: the printable ASCII character `c` has
// the id `c - '!'`.
fn tokenizer_with(special: &[&str]) -> Tokenizer {
    let mut symbols: Vec<char> = ByteLevel::alphabet().into_iter().collect();
    symbols.sort();
    let vocab: Vocab = symbols
        .iter()
        .enumerate()
        .map(|(i, c)| (c.to_string(), i as u32))
        .collect();
    let bpe = BPE::builder().vocab_and_merges(vocab, vec![]).build().unwrap();
    let mut tokenizer = Tokenizer::new(bpe);
    tokenizer.with_pre_tokenizer(Some(ByteLevel::default()));
    tokenizer.with_decoder(Some(ByteLevel::default()));
    let added: Vec<AddedToken> = special.iter().map(|s| AddedToken::from(*s, true)).collect();
    tokenizer.add_special_tokens(&added);
    tokenizer
}

fn create_test_tokenizer() -> Tokenizer {
    tokenizer_with(&["<eos>", "<end_of_turn>"])
}

fn id_of(c: char) -> u32 {
    c as u32 - '!' as u32
}

// The names and shapes of a model's weights, each filled with zeros.
fn zeros_of(varmap: &VarMap) -> HashMap<String, Tensor> {
    varmap
        .data()
        .lock()
        .unwrap()
        .iter()
        .map(|(name, var)| (name.clone(), var.as_tensor().zeros_like().unwrap()))
        .collect()
}

fn first_config() -> Config1 {
    Config1 {
        attention_bias: false,
        head_dim: 4,
        hidden_act: Some(Activation::Gelu),
        hidden_activation: None,
        hidden_size: 8,
        intermediate_size: 16,
        num_attention_heads: 2,
        num_hidden_layers: 1,
        num_key_value_heads: 1,
        rms_norm_eps: 1e-6,
        rope_theta: 10000.,
        vocab_size: VOCAB_SIZE,
        max_position_embeddings: 64,
    }
}

fn second_config() -> Config2 {
    Config2 {
        attention_bias: false,
        head_dim: 4,
        hidden_activation: Activation::Gelu,
        hidden_size: 8,
        intermediate_size: 16,
        num_attention_heads: 2,
        num_hidden_layers: 1,
        num_key_value_heads: 1,
        rms_norm_eps: 1e-6,
        rope_theta: 10000.,
        vocab_size: VOCAB_SIZE,
        final_logit_softcapping: None,
        attn_logit_softcapping: None,
        query_pre_attn_scalar: 4,
        sliding_window: None,
        max_position_embeddings: 64,
    }
}

fn third_config() -> Config3 {
    Config3 {
        attention_bias: false,
        head_dim: 4,
        hidden_activation: Activation::Gelu,
        hidden_size: 8,
        intermediate_size: 16,
        num_attention_heads: 2,
        num_hidden_layers: 1,
        num_key_value_heads: 1,
        rms_norm_eps: 1e-6,
        rope_theta: 10000.,
        rope_local_base_freq: 10000.,
        vocab_size: VOCAB_SIZE,
        final_logit_softcapping: None,
        attn_logit_softcapping: None,
        query_pre_attn_scalar: 4,
        sliding_window: 16,
        sliding_window_pattern: 2,
        max_position_embeddings: 64,
    }
}

fn first_weights() -> HashMap<String, Tensor> {
    let varmap = VarMap::new();
    let vb = VarBuilder::from_varmap(&varmap, DType::F32, &Device::Cpu);
    Model1::new(false, &first_config(), vb).unwrap();
    zeros_of(&varmap)
}

fn second_weights() -> HashMap<String, Tensor> {
    let varmap = VarMap::new();
    let vb = VarBuilder::from_varmap(&varmap, DType::F32, &Device::Cpu);
    Model2::new(false, &second_config(), vb).unwrap();
    zeros_of(&varmap)
}

fn third_weights() -> HashMap<String, Tensor> {
    let varmap = VarMap::new();
    let vb = VarBuilder::from_varmap(&varmap, DType::F32, &Device::Cpu);
    Model3::new(false, &third_config(), vb).unwrap();
    zeros_of(&varmap)
}

// Models with all weights zero: every score is zero, and the sampler without
// a temperature picks the first of them, the id 0, which is "!".
fn first_family() -> Model {
    Model::load_gen1(&first_config(), first_weights(), DType::F32, &Device::Cpu).unwrap()
}

fn second_family() -> Model {
    Model::load_gen2(&second_config(), second_weights(), DType::F32, &Device::Cpu).unwrap()
}

fn third_family() -> Model {
    Model::load_gen3(&third_config(), third_weights(), DType::F32, &Device::Cpu).unwrap()
}

fn session(model: Model, penalty: u32, last_n: usize) -> TextGeneration {
    TextGeneration::new(
        model,
        create_test_tokenizer(),
        LogitsProcessor::new(42, None, None),
        penalty,
        last_n,
        Device::Cpu,
    )
    .unwrap()
}

fn tokenize(tokenizer: &Tokenizer, prompt: &str) -> Result<Vec<u32>, String> {
    match tokenizer.encode(prompt, true) {
        Ok(encoding) => Ok(encoding.get_ids().to_vec()),
        Err(e) => Err(e.to_string()),
    }
}
fn untouched(logits: Tensor, _bits: u32, _targets: &Vec<usize>) -> candle_core::Result<Tensor> {
    Ok(logits)
}

// Scores that make the sampler pick `id`.
fn peak_at(logits: &Tensor, id: u32) -> candle_core::Result<Tensor> {
    let mut scores = vec![0f32; logits.elem_count()];
    scores[id as usize] = 1.0;
    Tensor::new(scores.as_slice(), logits.device())
}

fn run_scripted(model: Model, prompt: &str, sample_len: usize, script: &[u32]) -> (String, TextGeneration) {
    let mut generation = session(model, SOME_PENALTY, 64);
    let script = RefCell::new(script.iter().copied().collect::<VecDeque<u32>>());
    let steer = |logits: Tensor, _bits: u32, _targets: &Vec<usize>| {
        let next = script.borrow_mut().pop_front().unwrap();
        peak_at(&logits, next)
    };
    let mut output = Vec::new();
    generation.run_with_output(prompt, sample_len, &mut output, &tokenize, &steer).unwrap();
    (String::from_utf8(output).unwrap(), generation)
}

#[test]
fn test_which_model_id() {
    assert_eq!(Which::Base2B.to_model_id(), "google/gemma-2b");
    assert_eq!(Which::Instruct7B.to_model_id(), "google/gemma-7b-it");
}

#[test]
fn test_which_is_instruct() {
    assert!(!Which::Base2B.is_instruct_model());
    assert!(Which::Instruct7B.is_instruct_model());
}

#[test]
fn test_which_is_v3() {
    assert!(!Which::Base2B.is_v3_model());
    assert!(Which::BaseV3_1B.is_v3_model());
}

#[test]
fn test_token_output_stream() {
    let tokenizer = create_test_tokenizer();
    let mut token_stream = TokenOutputStream::new(tokenizer).unwrap();

    let text = "Hello, world!";
    let encoded = token_stream.tokenizer().encode(text, true).unwrap();
    let token_ids = encoded.get_ids();

    for &token_id in token_ids {
        token_stream.next_token(token_id).unwrap();
    }

    let decoded = token_stream.decode_all().unwrap();
    assert_eq!(decoded.trim(), text);
}

#[test]
fn test_logits_processor() {
    let seed = 42;
    let temp = Some(0.8);
    let top_p = Some(0.9);
    let _logits_processor = LogitsProcessor::new(seed, temp, top_p);

    assert!(true);
}

#[test]
fn test_text_generation_constructor() {
    let generation = TextGeneration::new(
        first_family(),
        create_test_tokenizer(),
        LogitsProcessor::new(42, Some(0.8), Some(0.9)),
        SOME_PENALTY,
        64,
        Device::Cpu,
    );
    assert!(generation.is_ok());
    let generation = generation.unwrap();
    assert_eq!(
        generation.stop_ids(),
        StopIds { eos: EOS, eot: EOT, eot_is_fallback: false }
    );
    assert_eq!(generation.generated(), 0);
    assert!(generation.is_finished());
    assert_eq!(generation.stream().len(), 0);
    assert!(true);
}

#[test]
fn a_vocabulary_without_eos_is_refused() {
    let generation = TextGeneration::new(
        first_family(),
        tokenizer_with(&["<end_of_turn>"]),
        LogitsProcessor::new(42, None, None),
        IDENTITY_PENALTY,
        64,
        Device::Cpu,
    );
    assert!(matches!(generation, Err(LoadError::MissingEos)));
    let stream = TokenOutputStream::new(tokenizer_with(&[])).unwrap();
    assert_eq!(resolve_stop_ids(&stream), Err(LoadError::MissingEos));
}

#[test]
fn eos_stands_in_for_a_missing_end_of_turn() {
    let stream = TokenOutputStream::new(tokenizer_with(&["<eos>"])).unwrap();
    assert_eq!(
        resolve_stop_ids(&stream),
        Ok(StopIds { eos: 256, eot: 256, eot_is_fallback: true })
    );
    let stream = TokenOutputStream::new(tokenizer_with(&["<end_of_turn>", "<eos>"])).unwrap();
    assert_eq!(
        resolve_stop_ids(&stream),
        Ok(StopIds { eos: 257, eot: 256, eot_is_fallback: false })
    );
}

#[test]
fn stop_ids_stop_and_no_other() {
    let stop = StopIds { eos: 1, eot: 107, eot_is_fallback: false };
    assert!(stop.is_stop(1));
    assert!(stop.is_stop(107));
    assert!(!stop.is_stop(0));
    assert!(!stop.is_stop(2));
    assert!(!stop.is_stop(106));
}

#[test]
fn the_first_window_is_the_whole_sequence() {
    for family in [Family::Gen1, Family::Gen2, Family::Gen3] {
        assert_eq!(plan_window(family, 0, 7), 0);
        assert_eq!(plan_window(family, 0, 1), 0);
        assert_eq!(plan_window(family, 0, 0), 0);
    }
}

#[test]
fn a_later_window_is_the_newest_token() {
    for family in [Family::Gen1, Family::Gen2, Family::Gen3] {
        assert_eq!(plan_window(family, 1, 8), 7);
        assert_eq!(plan_window(family, 2, 9), 8);
        assert_eq!(plan_window(family, 5, 1), 0);
        assert_eq!(plan_window(family, 3, 0), 0);
        assert_eq!(plan_window(family, usize::MAX, usize::MAX), usize::MAX - 1);
    }
}

#[test]
fn the_penalty_rewrites_the_trailing_window() {
    let tokens = [5u32, 6, 7, 8, 9];
    assert_eq!(plan_penalty(SOME_PENALTY, 3, &tokens, 100), vec![7, 8, 9]);
    assert_eq!(plan_penalty(SOME_PENALTY, 5, &tokens, 100), vec![5, 6, 7, 8, 9]);
    assert_eq!(plan_penalty(SOME_PENALTY, 64, &tokens, 100), vec![5, 6, 7, 8, 9]);
    assert_eq!(plan_penalty(SOME_PENALTY, 1, &tokens, 100), vec![9]);
    assert_eq!(plan_penalty(SOME_PENALTY, 0, &tokens, 100), Vec::<usize>::new());
    assert_eq!(plan_penalty(SOME_PENALTY, 3, &[], 100), Vec::<usize>::new());
}

#[test]
fn the_penalty_skips_ids_beyond_the_scores() {
    let tokens = [5u32, 600, 7, 8, 8];
    assert_eq!(plan_penalty(SOME_PENALTY, 5, &tokens, 8), vec![5, 7]);
    assert_eq!(plan_penalty(SOME_PENALTY, 5, &tokens, 9), vec![5, 7, 8]);
    assert_eq!(plan_penalty(SOME_PENALTY, 5, &tokens, 0), Vec::<usize>::new());
    assert_eq!(plan_penalty(SOME_PENALTY, 5, &[u32::MAX], 10), Vec::<usize>::new());
}

#[test]
fn the_penalty_rewrites_a_repeated_id_once() {
    let tokens = [3u32, 4, 3, 3];
    assert_eq!(plan_penalty(SOME_PENALTY, 4, &tokens, 10), vec![3, 4]);
    assert_eq!(plan_penalty(0, 2, &tokens, 10), vec![3]);
    assert_eq!(plan_penalty(SOME_PENALTY, 2, &[5, 5], 10), vec![5]);
    // In the order in which the ids first occur in the window.
    assert_eq!(plan_penalty(SOME_PENALTY, 6, &[9, 2, 9, 7, 2, 1], 10), vec![9, 2, 7, 1]);
    assert_eq!(plan_penalty(SOME_PENALTY, 3, &[9, 2, 9, 7, 2, 1], 10), vec![7, 2, 1]);
}

#[test]
fn the_identity_penalty_rewrites_nothing() {
    assert_eq!(IDENTITY_PENALTY, 1.0f32.to_bits());
    let tokens = [5u32, 6, 7, 8, 9];
    assert_eq!(plan_penalty(IDENTITY_PENALTY, 3, &tokens, 100), Vec::<usize>::new());
    assert_eq!(plan_penalty(IDENTITY_PENALTY, 64, &tokens, 100), Vec::<usize>::new());
}

#[test]
fn the_identity_penalty_leaves_the_scores_alone() {
    // The kernel is not even called: the scores go to the sampler as they are.
    let mut generation = session(first_family(), IDENTITY_PENALTY, 64);
    let calls = RefCell::new(0usize);
    let count = |logits: Tensor, _bits: u32, _targets: &Vec<usize>| {
        *calls.borrow_mut() += 1;
        peak_at(&logits, id_of('x'))
    };
    let mut output = Vec::new();
    generation.run_with_output("Hi", 3, &mut output, &tokenize, &count).unwrap();
    assert_eq!(*calls.borrow(), 0);
    assert_eq!(String::from_utf8(output).unwrap(), " Hi!!!");
}

#[test]
fn the_kernel_gets_the_strength_and_the_window() {
    let mut generation = session(first_family(), SOME_PENALTY, 2);
    let seen = RefCell::new(Vec::new());
    let record = |logits: Tensor, bits: u32, targets: &Vec<usize>| {
        seen.borrow_mut().push((bits, targets.clone(), logits.elem_count()));
        peak_at(&logits, id_of('x'))
    };
    let mut output = Vec::new();
    generation.run_with_output("ab", 3, &mut output, &tokenize, &record).unwrap();
    // The space in front is the byte 0x20, the 33rd of those that are written
    // with a character of their own behind the 188 printable ones.
    let space = 188 + 32;
    let a = id_of('a') as usize;
    let b = id_of('b') as usize;
    let x = id_of('x') as usize;
    assert_eq!(generation.stream().ids()[0] as usize, space);
    assert_eq!(
        *seen.borrow(),
        vec![
            (SOME_PENALTY, vec![a, b], VOCAB_SIZE),
            (SOME_PENALTY, vec![b, x], VOCAB_SIZE),
            (SOME_PENALTY, vec![x], VOCAB_SIZE),
        ]
    );
    assert_eq!(String::from_utf8(output).unwrap(), " abxxx");
}

#[test]
fn no_steps_give_the_prompt_alone() {
    for model in [first_family(), second_family(), third_family()] {
        let mut generation = session(model, IDENTITY_PENALTY, 64);
        let mut output = Vec::new();
        generation.run_with_output("Hello", 0, &mut output, &tokenize, &untouched).unwrap();
        let output = String::from_utf8(output).unwrap();
        assert_eq!(output, " Hello");
        assert_eq!(output, generation.stream().decode_all().unwrap());
        assert_eq!(generation.generated(), 0);
        assert_eq!(generation.stream().len(), 6);
        assert!(generation.is_finished());
    }
}

#[test]
fn the_output_is_appended() {
    let mut generation = session(first_family(), IDENTITY_PENALTY, 64);
    let mut output = b"before".to_vec();
    generation.run_with_output("Hello", 2, &mut output, &tokenize, &untouched).unwrap();
    assert_eq!(String::from_utf8(output).unwrap(), "before Hello!!");
}

#[test]
fn every_family_samples_up_to_the_limit() {
    for model in [first_family(), second_family(), third_family()] {
        let mut generation = session(model, IDENTITY_PENALTY, 64);
        let mut output = Vec::new();
        generation.run_with_output("Hello", 4, &mut output, &tokenize, &untouched).unwrap();
        assert_eq!(String::from_utf8(output).unwrap(), " Hello!!!!");
        assert_eq!(generation.generated(), 4);
        assert_eq!(generation.stream().len(), 10);
        assert!(generation.is_finished());
    }
}

#[test]
fn a_stop_token_ends_the_request_unseen() {
    for stop in [EOS, EOT] {
        for model in [first_family(), second_family(), third_family()] {
            let script = [id_of('o'), id_of('k'), stop, id_of('n'), id_of('o')];
            let (output, generation) = run_scripted(model, "Hello", 10, &script);
            assert_eq!(output, " Hellook");
            assert_eq!(generation.generated(), 3);
            // The decoder holds the prompt and the two tokens before the stop.
            assert_eq!(generation.stream().len(), 8);
            assert!(!generation.stream().ids().contains(&stop));
            assert!(generation.is_finished());
        }
    }
}

#[test]
fn a_stop_token_at_the_first_step_leaves_the_prompt() {
    let (output, generation) = run_scripted(first_family(), "Hello", 10, &[EOS]);
    assert_eq!(output, " Hello");
    assert_eq!(generation.generated(), 1);
    assert_eq!(generation.stream().len(), 6);
}

#[test]
fn a_character_of_several_tokens_comes_out_whole() {
    // "é" as its two bytes, which the byte-level alphabet writes as "Ã" and "©".
    let tokenizer = create_test_tokenizer();
    let first = tokenizer.token_to_id("Ã").unwrap();
    let second = tokenizer.token_to_id("©").unwrap();
    let (output, _) = run_scripted(first_family(), "caf", 2, &[first, second]);
    assert_eq!(output, " café");
    // Cut after the first byte, the flush hands out what was held back.
    let (output, _) = run_scripted(first_family(), "caf", 1, &[first]);
    assert_eq!(output, " caf\u{FFFD}");
}

#[test]
fn steps_can_be_taken_one_by_one() {
    let mut generation = session(first_family(), SOME_PENALTY, 64);
    let script = RefCell::new(VecDeque::from(vec![id_of('a'), id_of('b'), EOT]));
    let steer = |logits: Tensor, _bits: u32, _targets: &Vec<usize>| {
        let next = script.borrow_mut().pop_front().unwrap();
        peak_at(&logits, next)
    };
    assert_eq!(generation.begin("Hi", 5, &tokenize).unwrap(), " Hi");
    assert!(!generation.is_finished());
    assert!(matches!(
        generation.step(&steer),
        Ok(Step::Token { id, chunk: Some(chunk) }) if id == id_of('a') && chunk == "a"
    ));
    assert!(matches!(
        generation.step(&steer),
        Ok(Step::Token { id, chunk: Some(chunk) }) if id == id_of('b') && chunk == "b"
    ));
    assert_eq!(generation.generated(), 2);
    assert!(matches!(generation.step(&steer), Ok(Step::Stopped { id }) if id == EOT));
    assert_eq!(generation.generated(), 3);
    assert!(generation.is_finished());
    assert_eq!(generation.stream().len(), 5);
    assert!(matches!(generation.step(&steer), Ok(Step::Finished)));
    assert!(matches!(generation.step(&steer), Ok(Step::Finished)));
    assert_eq!(generation.generated(), 3);
    assert_eq!(generation.finish().unwrap(), None);
}

#[test]
fn a_used_up_limit_finishes_the_request() {
    let mut generation = session(first_family(), IDENTITY_PENALTY, 64);
    generation.begin("Hi", 1, &tokenize).unwrap();
    assert!(matches!(generation.step(&untouched), Ok(Step::Token { id: 0, chunk: Some(_) })));
    assert!(generation.is_finished());
    assert!(matches!(generation.step(&untouched), Ok(Step::Finished)));
    generation.begin("Hi", 0, &tokenize).unwrap();
    assert!(generation.is_finished());
    assert!(matches!(generation.step(&untouched), Ok(Step::Finished)));
}

#[test]
fn an_empty_prompt_gives_the_model_nothing_to_read() {
    for model in [first_family(), second_family(), third_family()] {
        let mut generation = session(model, IDENTITY_PENALTY, 64);
        let mut output = b"kept".to_vec();
        let result = generation.run_with_output("", 3, &mut output, &tokenize, &untouched);
        assert!(matches!(result, Err(GenerationError::EmptyContext)));
        assert_eq!(output, b"kept".to_vec());
        let mut output = Vec::new();
        generation.run_with_output("", 0, &mut output, &tokenize, &untouched).unwrap();
        assert!(output.is_empty());
    }
}

#[test]
fn a_failing_kernel_ends_the_request_with_its_error() {
    let mut generation = session(first_family(), SOME_PENALTY, 64);
    let fail = |_logits: Tensor, _bits: u32, _targets: &Vec<usize>| -> candle_core::Result<Tensor> {
        Err(candle_core::Error::Msg("no scores".to_string()))
    };
    let mut output = Vec::new();
    let result = generation.run_with_output("Hello", 3, &mut output, &tokenize, &fail);
    assert!(matches!(result, Err(GenerationError::Compute(_))));
    // The mirrored prompt was written before the step failed.
    assert_eq!(String::from_utf8(output).unwrap(), " Hello");
    assert_eq!(generation.generated(), 0);
    assert!(!generation.is_finished());
}

#[test]
fn a_failing_forward_pass_ends_the_request_with_its_error() {
    // A token beyond the model's embeddings cannot be looked up.
    let tokenizer = tokenizer_with(&["<eos>", "<a>", "<b>", "<c>", "<d>", "<e>"]);
    let beyond = tokenizer.token_to_id("<e>").unwrap();
    assert!(beyond as usize >= VOCAB_SIZE);
    let mut generation = TextGeneration::new(
        first_family(),
        tokenizer,
        LogitsProcessor::new(42, None, None),
        IDENTITY_PENALTY,
        64,
        Device::Cpu,
    )
    .unwrap();
    let mut output = Vec::new();
    let result = generation.run_with_output("Hi<e>", 3, &mut output, &tokenize, &untouched);
    assert!(matches!(result, Err(GenerationError::Compute(_))));
    assert_eq!(String::from_utf8(output).unwrap(), " Hi");
}

#[test]
fn a_prompt_that_cannot_be_tokenized_ends_the_request() {
    // The model's unknown token is missing from its vocabulary, so a
    // character that the vocabulary lacks cannot be encoded.
    let vocab: Vocab = [("a".to_string(), 0u32)].into_iter().collect();
    let bpe = BPE::builder()
        .vocab_and_merges(vocab, vec![])
        .unk_token("<unk>".to_string())
        .build()
        .unwrap();
    let mut tokenizer = Tokenizer::new(bpe);
    tokenizer.add_special_tokens(&[AddedToken::from("<eos>", true)]);
    assert!(tokenizer.encode("b", true).is_err());
    let mut generation = TextGeneration::new(
        first_family(),
        tokenizer,
        LogitsProcessor::new(42, None, None),
        IDENTITY_PENALTY,
        64,
        Device::Cpu,
    )
    .unwrap();
    assert_eq!(generation.begin("a", 3, &tokenize).unwrap(), "a");
    let mut output = b"kept".to_vec();
    let result = generation.run_with_output("b", 3, &mut output, &tokenize, &untouched);
    assert!(matches!(result, Err(GenerationError::Tokenize(_))));
    assert_eq!(output, b"kept".to_vec());
    assert_eq!(generation.stream().len(), 0);
    assert_eq!(generation.generated(), 0);
}

#[test]
fn a_primed_request_holds_the_ids_it_was_given() {
    let mut generation = session(first_family(), IDENTITY_PENALTY, 64);
    let ids = [id_of('o'), id_of('k'), EOS, id_of('!')];
    assert_eq!(generation.prime(&ids, 7).unwrap(), "ok!");
    assert_eq!(generation.stream().ids(), &ids);
    assert_eq!(generation.generated(), 0);
    assert!(!generation.is_finished());
    assert_eq!(generation.prime(&[], 0).unwrap(), "");
    assert_eq!(generation.stream().len(), 0);
    assert!(generation.is_finished());
}

#[test]
fn an_accepted_token_is_decoded_unless_it_stops() {
    let mut generation = session(first_family(), IDENTITY_PENALTY, 64);
    generation.prime(&[id_of('a')], 3).unwrap();
    assert!(matches!(
        generation.accept(id_of('b')),
        Ok(Step::Token { id, chunk: Some(chunk) }) if id == id_of('b') && chunk == "b"
    ));
    assert_eq!(generation.stream().ids(), &[id_of('a'), id_of('b')]);
    assert!(matches!(generation.accept(EOS), Ok(Step::Stopped { id: EOS })));
    assert_eq!(generation.stream().ids(), &[id_of('a'), id_of('b')]);
    assert_eq!(generation.generated(), 2);
    assert!(matches!(generation.accept(id_of('c')), Ok(Step::Finished)));
    assert_eq!(generation.stream().ids(), &[id_of('a'), id_of('b')]);
    assert_eq!(generation.generated(), 2);
    // A token of half a character is taken in and held back.
    let tokenizer = create_test_tokenizer();
    let half = tokenizer.token_to_id("Ã").unwrap();
    generation.prime(&[id_of('a')], 1).unwrap();
    assert!(matches!(generation.accept(half), Ok(Step::Token { chunk: None, .. })));
    assert!(generation.is_finished());
    assert_eq!(generation.finish().unwrap(), Some("\u{FFFD}".to_string()));
}

#[test]
fn a_request_starts_from_a_cleared_decoder() {
    let mut generation = session(first_family(), IDENTITY_PENALTY, 64);
    assert_eq!(generation.begin("first", 5, &tokenize).unwrap(), " first");
    assert_eq!(generation.stream().len(), 6);
    assert_eq!(generation.begin("next", 0, &tokenize).unwrap(), " next");
    assert_eq!(generation.stream().len(), 5);
    assert_eq!(generation.stream().decode_all().unwrap(), " next");
    assert_eq!(generation.generated(), 0);
}

#[test]
fn the_same_seed_gives_the_same_text() {
    let run = |seed: u64| {
        let mut generation = TextGeneration::new(
            first_family(),
            create_test_tokenizer(),
            LogitsProcessor::new(seed, Some(0.8), Some(0.9)),
            IDENTITY_PENALTY,
            64,
            Device::Cpu,
        )
        .unwrap();
        let mut output = Vec::new();
        generation.run_with_output("Hello", 12, &mut output, &tokenize, &untouched).unwrap();
        (output, generation.stream().ids().to_vec())
    };
    let first = run(299792458);
    let second = run(299792458);
    assert_eq!(first, second);
    assert!(first.1.len() > 6);
}

#[test]
fn the_facade_runs_the_loaded_family() {
    for (mut model, family) in [
        (first_family(), Family::Gen1),
        (second_family(), Family::Gen2),
        (third_family(), Family::Gen3),
    ] {
        assert_eq!(model.family(), family);
        let logits = model.forward(&[1, 2, 3], 0, &Device::Cpu).unwrap();
        assert_eq!(logits.dims(), &[1, 1, VOCAB_SIZE]);
        assert_eq!(model.last_window(), (0, 3));
        let logits = model.forward(&[4], 3, &Device::Cpu).unwrap();
        assert_eq!(logits.dims(), &[1, 1, VOCAB_SIZE]);
        assert_eq!(model.last_window(), (3, 1));
        assert_eq!(model.family(), family);
        // A token beyond the embeddings is the model's error.
        let beyond = model.forward(&[VOCAB_SIZE as u32 + 5], 4, &Device::Cpu);
        assert!(matches!(beyond, Err(ForwardError::Compute(_))));
        assert_eq!(model.last_window(), (4, 1));
        // An empty window, or one too far out, is refused and not handed on.
        assert!(matches!(model.forward(&[], 5, &Device::Cpu), Err(ForwardError::Empty)));
        let far = model.forward(&[1], usize::MAX - MAX_WINDOW, &Device::Cpu);
        assert!(matches!(far, Err(ForwardError::TooLong)));
        let far = model.forward(&[1, 2], usize::MAX, &Device::Cpu);
        assert!(matches!(far, Err(ForwardError::TooLong)));
        assert_eq!(model.last_window(), (4, 1));
    }
}

#[test]
fn text_is_appended_as_utf8() {
    let mut output = vec![1u8, 2];
    append_text(&mut output, "é€");
    assert_eq!(output, vec![1, 2, 0xC3, 0xA9, 0xE2, 0x82, 0xAC]);
    append_text(&mut output, "");
    assert_eq!(output.len(), 7);
}

#[test]
fn a_decoder_that_strips_off_the_end_is_refused() {
    let mut tokenizer = create_test_tokenizer();
    tokenizer.with_decoder(Some(Strip::new(' ', 0, 1)));
    assert!(matches!(TokenOutputStream::new(tokenizer.clone()), Err(LoadError::Decoder)));
    let generation = TextGeneration::new(
        first_family(),
        tokenizer,
        LogitsProcessor::new(42, None, None),
        IDENTITY_PENALTY,
        64,
        Device::Cpu,
    );
    assert!(matches!(generation, Err(LoadError::Decoder)));
    for (content, start, stop) in [(' ', 2, 3), (',', 0, 10), ('}', 1, 1), ('"', 0, 2)] {
        let mut tokenizer = create_test_tokenizer();
        tokenizer.with_decoder(Some(Strip::new(content, start, stop)));
        assert!(matches!(TokenOutputStream::new(tokenizer), Err(LoadError::Decoder)));
    }
    // One such part among others is enough.
    let mut nested = create_test_tokenizer();
    nested.with_decoder(Some(tokenizers::decoders::sequence::Sequence::new(vec![
        DecoderWrapper::Strip(Strip::new(' ', 1, 0)),
        DecoderWrapper::Fuse(tokenizers::decoders::fuse::Fuse::new()),
        DecoderWrapper::Strip(Strip::new(' ', 1, 1)),
    ])));
    assert!(matches!(TokenOutputStream::new(nested), Err(LoadError::Decoder)));
    // A token that is called like the tag is no part of the decoder.
    let named = tokenizer_with(&["<eos>", "\"type\":\"Strip\""]);
    assert!(TokenOutputStream::new(named).is_ok());
}

#[test]
fn a_decoder_that_strips_off_the_start_alone_is_taken() {
    for content in [' ', ',', '}', '"', '\\', '0'] {
        let mut tokenizer = create_test_tokenizer();
        tokenizer.with_decoder(Some(Strip::new(content, 3, 0)));
        assert!(TokenOutputStream::new(tokenizer).is_ok());
    }
    let mut tokenizer = create_test_tokenizer();
    tokenizer.with_decoder(Some(tokenizers::decoders::sequence::Sequence::new(vec![
        DecoderWrapper::Fuse(tokenizers::decoders::fuse::Fuse::new()),
        DecoderWrapper::Strip(Strip::new('a', 1, 0)),
    ])));
    let ids = [id_of('a'), id_of('a'), id_of('b')];
    let mut token_stream = TokenOutputStream::new(tokenizer).unwrap();
    // Decoding nothing, and a token that is stripped whole, are in order.
    assert_eq!(token_stream.decode_all().unwrap(), "");
    assert_eq!(token_stream.next_token(ids[0]).unwrap(), None);
    assert_eq!(token_stream.next_token(ids[1]).unwrap(), Some("a".to_string()));
    assert_eq!(token_stream.next_token(ids[2]).unwrap(), Some("b".to_string()));
    assert_eq!(token_stream.decode_all().unwrap(), "ab");
}

#[test]
fn a_configuration_that_cannot_be_built_is_refused() {
    let mut config = first_config();
    config.num_key_value_heads = 0;
    let refused = Model::load_gen1(&config, first_weights(), DType::F32, &Device::Cpu);
    assert!(matches!(refused, Err(ModelError::Config)));
    let mut config = second_config();
    config.num_hidden_layers = MAX_LAYERS + 1;
    let refused = Model::load_gen2(&config, second_weights(), DType::F32, &Device::Cpu);
    assert!(matches!(refused, Err(ModelError::Config)));
    let mut config = third_config();
    config.sliding_window_pattern = 0;
    let refused = Model::load_gen3(&config, third_weights(), DType::F32, &Device::Cpu);
    assert!(matches!(refused, Err(ModelError::Config)));
    let mut config = third_config();
    config.sliding_window = MAX_WINDOW + 1;
    let refused = Model::load_gen3(&config, third_weights(), DType::F32, &Device::Cpu);
    assert!(matches!(refused, Err(ModelError::Config)));
    let mut config = third_config();
    config.max_position_embeddings = 0;
    let refused = Model::load_gen3(&config, third_weights(), DType::F32, &Device::Cpu);
    assert!(matches!(refused, Err(ModelError::Config)));
    let mut config = first_config();
    config.num_attention_heads = MAX_WIDTH + 1;
    let refused = Model::load_gen1(&config, first_weights(), DType::F32, &Device::Cpu);
    assert!(matches!(refused, Err(ModelError::Config)));
    let mut config = first_config();
    config.head_dim = MAX_WIDTH + 1;
    let refused = Model::load_gen1(&config, first_weights(), DType::F32, &Device::Cpu);
    assert!(matches!(refused, Err(ModelError::Config)));
    let mut config = second_config();
    config.sliding_window = Some(MAX_WINDOW + 1);
    let refused = Model::load_gen2(&config, second_weights(), DType::F32, &Device::Cpu);
    assert!(matches!(refused, Err(ModelError::Config)));
    let mut config = second_config();
    config.sliding_window = Some(4);
    assert!(Model::load_gen2(&config, second_weights(), DType::F32, &Device::Cpu).is_ok());
    let mut config = third_config();
    config.sliding_window = MAX_WINDOW;
    assert!(Model::load_gen3(&config, third_weights(), DType::F32, &Device::Cpu).is_ok());
}

#[test]
fn weights_that_do_not_fit_are_the_models_error() {
    let refused = Model::load_gen1(&first_config(), HashMap::new(), DType::F32, &Device::Cpu);
    assert!(matches!(refused, Err(ModelError::Weights(_))));
    let mut wider = first_config();
    wider.hidden_size = 16;
    let refused = Model::load_gen1(&wider, first_weights(), DType::F32, &Device::Cpu);
    assert!(matches!(refused, Err(ModelError::Weights(_))));
}

#[test]
fn scores_without_a_last_dimension_are_not_sampled() {
    let scalar = Tensor::new(1f32, &Device::Cpu).unwrap();
    let empty = Tensor::zeros((3, 0), DType::F32, &Device::Cpu).unwrap();
    let row = Tensor::zeros(5, DType::F32, &Device::Cpu).unwrap();
    let rows = Tensor::zeros((0, 5), DType::F32, &Device::Cpu).unwrap();
    assert!(!can_sample(&scalar));
    assert!(!can_sample(&empty));
    assert!(can_sample(&row));
    assert!(can_sample(&rows));
    for broken in [scalar, empty] {
        let mut generation = TextGeneration::new(
            first_family(),
            create_test_tokenizer(),
            LogitsProcessor::new(42, Some(0.8), Some(0.9)),
            SOME_PENALTY,
            64,
            Device::Cpu,
        )
        .unwrap();
        let spoil = |_logits: Tensor, _bits: u32, _targets: &Vec<usize>| Ok(broken.clone());
        let mut output = Vec::new();
        let result = generation.run_with_output("Hello", 3, &mut output, &tokenize, &spoil);
        assert!(matches!(result, Err(GenerationError::NoScores)));
        assert_eq!(String::from_utf8(output).unwrap(), " Hello");
        assert_eq!(generation.generated(), 0);
    }
}

#[test]
fn a_decoder_that_takes_the_last_token_apart_is_refused() {
    let mut tokenizer = create_test_tokenizer();
    tokenizer.with_decoder(Some(BPEDecoder::default()));
    assert!(matches!(TokenOutputStream::new(tokenizer), Err(LoadError::Decoder)));
}

fn bos_template() -> TemplateProcessing {
    TemplateProcessing::builder()
        .try_single("<bos> $A")
        .unwrap()
        .special_tokens(vec![("<bos>", 258)])
        .build()
        .unwrap()
}

#[test]
fn a_template_puts_its_special_token_in_front() {
    let mut tokenizer = tokenizer_with(&["<eos>", "<end_of_turn>", "<bos>"]);
    assert_eq!(tokenizer.token_to_id("<bos>"), Some(258));
    tokenizer.with_post_processor(Some(bos_template()));
    let mut generation = TextGeneration::new(
        first_family(),
        tokenizer,
        LogitsProcessor::new(42, None, None),
        IDENTITY_PENALTY,
        64,
        Device::Cpu,
    )
    .unwrap();
    let mut output = Vec::new();
    generation.run_with_output("Hi", 2, &mut output, &tokenize, &untouched).unwrap();
    assert_eq!(String::from_utf8(output).unwrap(), " Hi!!");
    // The template put the special token in front of the prompt.
    assert_eq!(generation.stream().ids()[0], 258);
    assert_eq!(generation.stream().len(), 6);
}


#[test]
fn every_step_hands_the_model_its_window() {
    for model in [first_family(), second_family(), third_family()] {
        let mut generation = session(model, IDENTITY_PENALTY, 64);
        generation.begin("Hello", 3, &tokenize).unwrap();
        let prompt = generation.stream().len();
        assert_eq!(prompt, 6);
        // The first step sends the whole prompt at position 0.
        generation.step(&untouched).unwrap();
        assert_eq!(generation.model().last_window(), (0, prompt));
        // Each later step sends the newest token at its place in the sequence.
        generation.step(&untouched).unwrap();
        assert_eq!(generation.model().last_window(), (prompt, 1));
        generation.step(&untouched).unwrap();
        assert_eq!(generation.model().last_window(), (prompt + 1, 1));
        // A finished request hands the model nothing more.
        assert!(matches!(generation.step(&untouched), Ok(Step::Finished)));
        assert_eq!(generation.model().last_window(), (prompt + 1, 1));
    }
}

#[test]
fn the_identity_penalty_hands_the_scores_back() {
    let scores = Tensor::new(&[1f32, -2.0, 0.0, f32::NAN, -0.0], &Device::Cpu).unwrap();
    let spoil = |_logits: Tensor, _bits: u32, _targets: &Vec<usize>| -> candle_core::Result<Tensor> {
        Tensor::new(&[9f32], &Device::Cpu)
    };
    let same = penalized(scores.clone(), IDENTITY_PENALTY, 64, &[1, 1, 3], 5, &spoil).unwrap();
    let before: Vec<u32> = scores.to_vec1::<f32>().unwrap().iter().map(|x| x.to_bits()).collect();
    let after: Vec<u32> = same.to_vec1::<f32>().unwrap().iter().map(|x| x.to_bits()).collect();
    assert_eq!(before, after);
    assert_eq!(same.id(), scores.id());
}

#[test]
fn another_strength_hands_the_kernel_each_id_once() {
    let scores = Tensor::new(&[1f32, -2.0, 0.0, 4.0, 5.0], &Device::Cpu).unwrap();
    let seen = RefCell::new(Vec::new());
    let record = |logits: Tensor, bits: u32, targets: &Vec<usize>| -> candle_core::Result<Tensor> {
        seen.borrow_mut().push((bits, targets.clone()));
        Ok(logits)
    };
    penalized(scores.clone(), SOME_PENALTY, 4, &[7, 1, 1, 3, 1], 5, &record).unwrap();
    penalized(scores, SOME_PENALTY, 2, &[5, 5], 10, &record).unwrap();
    assert_eq!(*seen.borrow(), vec![(SOME_PENALTY, vec![1, 3]), (SOME_PENALTY, vec![5])]);
}

#[test]
fn one_score_spread_over_its_dimension_is_sampled() {
    // One score, reached with a step of nothing from one to the next.
    let spread = Tensor::new(1f32, &Device::Cpu).unwrap().broadcast_as(1).unwrap();
    assert_eq!(spread.dims(), &[1]);
    assert_eq!(spread.stride(), &[0]);
    assert!(can_sample(&spread));
    let mut generation = session(first_family(), SOME_PENALTY, 64);
    let hand = |_logits: Tensor, _bits: u32, _targets: &Vec<usize>| Ok(spread.clone());
    let mut output = Vec::new();
    generation.run_with_output("Hi", 2, &mut output, &tokenize, &hand).unwrap();
    assert_eq!(String::from_utf8(output).unwrap(), " Hi!!");
}

#[test]
fn a_failure_keeps_what_was_released() {
    let mut generation = session(first_family(), SOME_PENALTY, 64);
    let calls = RefCell::new(0usize);
    let fail_later = |logits: Tensor, _bits: u32, _targets: &Vec<usize>| {
        *calls.borrow_mut() += 1;
        if *calls.borrow() > 2 {
            Err(candle_core::Error::Msg("no more".to_string()))
        } else {
            peak_at(&logits, id_of('k'))
        }
    };
    let mut output = b"kept".to_vec();
    let result = generation.run_with_output("Hi", 5, &mut output, &tokenize, &fail_later);
    assert!(matches!(result, Err(GenerationError::Compute(_))));
    assert_eq!(String::from_utf8(output).unwrap(), "kept Hikk");
    assert_eq!(generation.generated(), 2);
}

#[test]
fn a_prompt_is_tokenized_by_what_the_caller_hands_in() {
    let mut generation = session(first_family(), IDENTITY_PENALTY, 64);
    let fixed = |_tokenizer: &Tokenizer, _prompt: &str| -> Result<Vec<u32>, String> {
        Ok(vec![id_of('o'), id_of('k')])
    };
    assert_eq!(generation.begin("anything", 0, &fixed).unwrap(), "ok");
    assert_eq!(generation.stream().ids(), &[id_of('o'), id_of('k')]);
    let refuse = |_tokenizer: &Tokenizer, _prompt: &str| -> Result<Vec<u32>, String> {
        Err("no".to_string())
    };
    assert!(matches!(
        generation.begin("anything", 0, &refuse),
        Err(GenerationError::Tokenize(message)) if message == "no"
    ));
    assert_eq!(generation.stream().len(), 0);
}
