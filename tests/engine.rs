use agents_rs::engine::{EngineCore, EngineState, GenerationRun, ModelSettings, ALL_GPU_LAYERS};
use agents_rs::error::CoreError;
use agents_rs::prompt::{render_for_reply, render_messages, render_with_prompt};
use agents_rs::session::Message;

fn loaded() -> EngineCore {
    let mut e = EngineCore::new(ModelSettings::default());
    e.begin_load(true).unwrap();
    e.finish_load(true);
    e
}

#[test]
fn generate_while_unloaded_fails_without_touching_the_buffer() {
    let mut e = EngineCore::new(ModelSettings::default());
    assert_eq!(e.state(), EngineState::Unloaded);
    assert_eq!(e.begin_generate("hi"), Err(CoreError::NotLoaded));
    assert_eq!(e.get_conversation_history(), "");
    assert_eq!(e.check_loaded(), Err(CoreError::NotLoaded));
}

#[test]
fn load_state_machine() {
    let mut e = EngineCore::new(ModelSettings::default());
    let r = e.begin_load(false);
    assert!(matches!(r, Err(CoreError::ModelNotFound(p)) if p == "models/Qwen3-1.7B-IQ4_XS.gguf"));
    assert_eq!(e.state(), EngineState::Unloaded);
    let req = e.begin_load(true).unwrap().unwrap();
    assert_eq!(e.state(), EngineState::Loading);
    assert_eq!(req.n_gpu_layers, 0);
    assert_eq!(req.main_gpu, None);
    assert_eq!(req.n_ctx, 2048);
    assert_eq!(req.n_threads, 4);
    e.finish_load(false);
    assert_eq!(e.state(), EngineState::Unloaded);
    e.begin_load(true).unwrap();
    e.finish_load(true);
    assert!(e.is_loaded());
    assert!(e.begin_load(true).unwrap().is_none());
    e.unload_model();
    assert!(!e.is_loaded());
}

#[test]
fn gpu_settings_apply_only_when_enabled() {
    let mut s = ModelSettings::default();
    s.use_gpu = true;
    s.n_gpu_layers = ALL_GPU_LAYERS;
    s.main_gpu = 1;
    let mut e = EngineCore::new(s.clone());
    let req = e.begin_load(true).unwrap().unwrap();
    assert_eq!(req.n_gpu_layers, u32::MAX);
    assert_eq!(req.main_gpu, Some(1));
    assert_eq!(e.gpu_info(true, "CUDA"), "GPU: Enabled - CUDA");
    assert_eq!(e.gpu_info(false, "none"), "GPU: Requested but not available - none");
    s.use_gpu = false;
    e.set_config(s);
    assert_eq!(e.gpu_info(true, "CUDA"), "GPU: Disabled - CUDA");
}

#[test]
fn buffer_uses_the_role_tagged_template() {
    let mut e = loaded();
    let b = e.begin_generate("Hello").unwrap();
    assert_eq!(b, "<|im_start|>user\nHello<|im_end|>\n<|im_start|>assistant\n");
    let mut run = GenerationRun::new(10, 4);
    assert_eq!(run.record(false, Some(" Hi")), Some(10));
    assert_eq!(run.record(false, None), Some(11));
    assert_eq!(run.record(false, Some("! ")), Some(12));
    assert!(run.wants_sample());
    assert_eq!(run.record(true, None), None);
    assert!(!run.wants_sample());
    let resp = e.finish_generate(&run);
    assert_eq!(resp.text, "Hi!");
    assert_eq!(resp.tokens_generated, 2);
    assert!(resp.tool_calls.is_empty());
    assert!(resp.done);
    let h = e.get_conversation_history();
    assert_eq!(h, "<|im_start|>user\nHello<|im_end|>\n<|im_start|>assistant\n Hi! <|im_end|>");
    let b2 = e.begin_generate("Again").unwrap();
    assert!(b2.starts_with(&h));
    assert!(b2.ends_with("<|im_end|>\n<|im_start|>user\nAgain<|im_end|>\n<|im_start|>assistant\n"));
    e.clear_conversation();
    assert_eq!(e.get_conversation_history(), "");
}

#[test]
fn generation_stops_at_the_token_limit() {
    let mut run = GenerationRun::new(3, 2);
    assert_eq!(run.record(false, Some("a")), Some(3));
    assert_eq!(run.record(false, Some("b")), Some(4));
    assert!(!run.wants_sample());
    assert_eq!(run.text(), "ab");
    assert_eq!(run.tokens_generated(), 2);
}

#[test]
fn fresh_engines_build_the_same_buffer() {
    let mut a = loaded();
    let mut b = loaded();
    assert_eq!(a.begin_generate("Same prompt").unwrap(), b.begin_generate("Same prompt").unwrap());
}

#[test]
fn rendering_forms() {
    let msgs = vec![Message::system("Be brief.".to_string()), Message::user("Hi".to_string())];
    assert_eq!(render_messages(&msgs), "System: Be brief.\nUser: Hi\n");
    assert_eq!(render_with_prompt(&msgs, "Next"), "System: Be brief.\nUser: Hi\nUser: Next\n");
    assert_eq!(render_for_reply(&msgs), "System: Be brief.\nUser: Hi\nAssistant: ");
    assert_eq!(render_messages(&[]), "");
}

#[test]
fn replies_are_trimmed_of_unicode_white_space() {
    let mut e = loaded();
    e.begin_generate("x").unwrap();
    let mut run = GenerationRun::new(1, 3);
    run.record(false, Some("\u{3000}\tHi there\u{a0}\n"));
    let resp = e.finish_generate(&run);
    assert_eq!(resp.text, "Hi there");
}
