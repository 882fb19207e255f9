//! The decisions of the generation orchestrator: its load state machine,
//! its own conversation buffer in a role-tagged template, and the steps of
//! the token-generation loop. The native model itself is driven by the
//! caller, which performs each requested step and reports what came back.
use crate::error::CoreError;
use crate::text::joined;
use vstd::prelude::*;

verus! {

/// Where the model handle stands.
#[derive(Clone, Copy, Debug, PartialEq, Eq, Structural)]
pub enum EngineState {
    Unloaded,
    Loading,
    Loaded,
}

/// The number of GPU layers that means "offload all of them".
pub const ALL_GPU_LAYERS: u32 = 0xffff_ffff;

/// The settings of the model handle and of a generation, sampling
/// parameters aside.
#[derive(Debug)]
pub struct ModelSettings {
    pub model_path: String,
    pub max_tokens: usize,
    pub context_size: usize,
    pub n_ctx: usize,
    pub n_threads: usize,
    pub use_gpu: bool,
    pub n_gpu_layers: u32,
    pub main_gpu: i32,
}

impl Clone for ModelSettings {
    fn clone(&self) -> (r: Self)
        ensures
            r == *self,
    {
        ModelSettings {
            model_path: self.model_path.clone(),
            max_tokens: self.max_tokens,
            context_size: self.context_size,
            n_ctx: self.n_ctx,
            n_threads: self.n_threads,
            use_gpu: self.use_gpu,
            n_gpu_layers: self.n_gpu_layers,
            main_gpu: self.main_gpu,
        }
    }
}

impl Default for ModelSettings {
    fn default() -> (r: Self)
        ensures
            r.model_path@ == "models/Qwen3-1.7B-IQ4_XS.gguf"@,
            r.max_tokens == 512,
            r.context_size == 2048,
            r.n_ctx == 2048,
            r.n_threads == 4,
            !r.use_gpu,
            r.n_gpu_layers == 0,
            r.main_gpu == 0,
    {
        ModelSettings {
            model_path: String::from_str("models/Qwen3-1.7B-IQ4_XS.gguf"),
            max_tokens: 512,
            context_size: 2048,
            n_ctx: 2048,
            n_threads: 4,
            use_gpu: false,
            n_gpu_layers: 0,
            main_gpu: 0,
        }
    }
}

/// What the backend is asked to load.
#[derive(Debug)]
pub struct LoadRequest {
    pub model_path: String,
    /// Layers to offload; zero when the GPU is not used.
    pub n_gpu_layers: u32,
    /// The device to use, only when the GPU is used.
    pub main_gpu: Option<i32>,
    pub n_ctx: usize,
    pub n_threads: usize,
}

/// A tool call found in a reply; its arguments are JSON text.
#[derive(Debug)]
pub struct ToolCall {
    pub name: String,
    pub arguments: String,
}

/// A finished reply.
#[derive(Debug)]
pub struct LLMResponse {
    pub text: String,
    pub tool_calls: Vec<ToolCall>,
    pub tokens_generated: usize,
    pub done: bool,
}

/// The text that opens a user turn in the buffer.
pub open spec fn user_turn_open() -> Seq<char> {
    "<|im_start|>user\n"@
}

/// The text that closes a user turn and opens the assistant's.
pub open spec fn assistant_turn_open() -> Seq<char> {
    "<|im_end|>\n<|im_start|>assistant\n"@
}

/// The text that closes the assistant's turn.
pub open spec fn turn_close() -> Seq<char> {
    "<|im_end|>"@
}

/// The buffer `history` after a user turn holding `prompt` was added.
pub open spec fn with_user_turn(history: Seq<char>, prompt: Seq<char>) -> Seq<char> {
    (if history.len() == 0 {
        history
    } else {
        history + "\n"@
    }) + user_turn_open() + prompt + assistant_turn_open()
}

/// Whether `c` is white space: the characters with Unicode's White_Space
/// property.
pub open spec fn is_white_space(c: char) -> bool {
    let x = c as int;
    (0x9 <= x <= 0xd) || x == 0x20 || x == 0x85 || x == 0xa0 || x == 0x1680 || (0x2000 <= x
        <= 0x200a) || x == 0x2028 || x == 0x2029 || x == 0x202f || x == 0x205f || x == 0x3000
}

/// `s` without its leading white space.
pub open spec fn trim_start(s: Seq<char>) -> Seq<char>
    decreases s.len(),
{
    if s.len() > 0 && is_white_space(s[0]) {
        trim_start(s.drop_first())
    } else {
        s
    }
}

/// `s` without its trailing white space.
pub open spec fn trim_end(s: Seq<char>) -> Seq<char>
    decreases s.len(),
{
    if s.len() > 0 && is_white_space(s.last()) {
        trim_end(s.drop_last())
    } else {
        s
    }
}

/// `s` without its leading and trailing white space.
pub open spec fn trimmed(s: Seq<char>) -> Seq<char> {
    trim_end(trim_start(s))
}

/// Relies on str::trim: `s` without the leading and trailing characters
/// that `char::is_whitespace` accepts, those with the White_Space property.
#[verifier::external_body]
fn trim_text(s: &str) -> (r: String)
    ensures
        r@ == trimmed(s@),
{
    s.trim().to_string()
}

/// The tool calls found in a reply. Detection is not implemented: there
/// are none.
fn parse_tool_calls(text: &str) -> (r: Vec<ToolCall>)
    ensures
        r@.len() == 0,
{
    Vec::new()
}

/// The state of one run of the token-generation loop.
pub struct GenerationRun {
    prompt_tokens: usize,
    max_tokens: usize,
    step: usize,
    text: String,
    tokens_generated: usize,
    finished: bool,
}

impl GenerationRun {
    /// The tokens of the prompt.
    pub closed spec fn prompt_len(&self) -> nat {
        self.prompt_tokens as nat
    }

    /// The bound on loop iterations.
    pub closed spec fn limit(&self) -> nat {
        self.max_tokens as nat
    }

    /// The iterations made so far.
    pub closed spec fn steps(&self) -> nat {
        self.step as nat
    }

    /// The text gathered so far.
    pub closed spec fn text_so_far(&self) -> Seq<char> {
        self.text@
    }

    /// The pieces gathered so far.
    pub closed spec fn pieces(&self) -> nat {
        self.tokens_generated as nat
    }

    /// Whether an end-of-generation token was sampled.
    pub closed spec fn ended(&self) -> bool {
        self.finished
    }

    /// The invariant of a run.
    pub open spec fn wf(&self) -> bool {
        &&& self.steps() <= self.limit()
        &&& self.pieces() <= self.steps()
        &&& self.prompt_len() + self.limit() <= i32::MAX
    }

    /// A run over a prompt of `prompt_tokens` tokens that makes at most
    /// `max_tokens` iterations. Positions are `i32`, so both together must
    /// fit one.
    pub fn new(prompt_tokens: usize, max_tokens: usize) -> (r: GenerationRun)
        requires
            prompt_tokens + max_tokens <= i32::MAX,
        ensures
            r.wf(),
            r.prompt_len() == prompt_tokens,
            r.limit() == max_tokens,
            r.steps() == 0,
            r.pieces() == 0,
            r.text_so_far().len() == 0,
            !r.ended(),
    {
        GenerationRun {
            prompt_tokens,
            max_tokens,
            step: 0,
            text: String::new(),
            tokens_generated: 0,
            finished: false,
        }
    }

    /// Whether the loop samples another token.
    pub fn wants_sample(&self) -> (r: bool)
        ensures
            r == (!self.ended() && self.steps() < self.limit()),
    {
        !self.finished && self.step < self.max_tokens
    }

    /// Records a sampled token: whether it ends the generation, and its
    /// text, if it could be converted. Returns the sequence position at
    /// which the token is fed back, or `None` when the generation ended. A
    /// token whose text could not be converted is fed back all the same.
    pub fn record(&mut self, end_of_generation: bool, piece: Option<&str>) -> (r: Option<i32>)
        requires
            old(self).wf(),
            !old(self).ended(),
            old(self).steps() < old(self).limit(),
        ensures
            final(self).wf(),
            final(self).prompt_len() == old(self).prompt_len(),
            final(self).limit() == old(self).limit(),
            end_of_generation ==> {
                &&& r is None
                &&& final(self).ended()
                &&& final(self).steps() == old(self).steps()
                &&& final(self).text_so_far() == old(self).text_so_far()
                &&& final(self).pieces() == old(self).pieces()
            },
            !end_of_generation ==> {
                &&& r == Some((old(self).prompt_len() + old(self).steps()) as i32)
                &&& !final(self).ended()
                &&& final(self).steps() == old(self).steps() + 1
                &&& final(self).text_so_far() == match piece {
                    Some(p) => old(self).text_so_far() + p@,
                    None => old(self).text_so_far(),
                }
                &&& final(self).pieces() == old(self).pieces() + if piece is Some {
                    1nat
                } else {
                    0nat
                }
            },
    {
        if end_of_generation {
            self.finished = true;
            return None;
        }
        match piece {
            Some(p) => {
                self.text.append(p);
                self.tokens_generated = self.tokens_generated + 1;
            },
            None => {},
        }
        let position = (self.prompt_tokens + self.step) as i32;
        self.step = self.step + 1;
        Some(position)
    }

    /// The text gathered so far.
    pub fn text(&self) -> (r: &str)
        ensures
            r@ == self.text_so_far(),
    {
        self.text.as_str()
    }

    /// How many pieces of text were gathered.
    pub fn tokens_generated(&self) -> (r: usize)
        ensures
            r == self.pieces(),
    {
        self.tokens_generated
    }
}

/// The orchestrator's own state: its settings, where the model handle
/// stands, and its running conversation buffer.
pub struct EngineCore {
    config: ModelSettings,
    state: EngineState,
    history: String,
}

impl EngineCore {
    /// The settings.
    pub closed spec fn settings(&self) -> ModelSettings {
        self.config
    }

    /// Where the model handle stands.
    pub closed spec fn state_of(&self) -> EngineState {
        self.state
    }

    /// The conversation buffer.
    pub closed spec fn buffer(&self) -> Seq<char> {
        self.history@
    }

    /// An engine with nothing loaded and an empty buffer.
    pub fn new(config: ModelSettings) -> (r: EngineCore)
        ensures
            r.settings() == config,
            r.state_of() == EngineState::Unloaded,
            r.buffer().len() == 0,
    {
        EngineCore { config, state: EngineState::Unloaded, history: String::new() }
    }

    /// Where the model handle stands.
    pub fn state(&self) -> (r: EngineState)
        ensures
            r == self.state_of(),
    {
        self.state
    }

    /// Whether a model is loaded.
    pub fn is_loaded(&self) -> (r: bool)
        ensures
            r == (self.state_of() == EngineState::Loaded),
    {
        self.state == EngineState::Loaded
    }

    /// The settings.
    pub fn config(&self) -> (r: &ModelSettings)
        ensures
            *r == self.settings(),
    {
        &self.config
    }

    /// Replaces the settings; they apply from the next load.
    pub fn set_config(&mut self, config: ModelSettings)
        ensures
            final(self).settings() == config,
            final(self).state_of() == old(self).state_of(),
            final(self).buffer() == old(self).buffer(),
    {
        self.config = config;
    }

    /// Starts loading the configured model. Nothing is to be done when a
    /// model is loaded already (`Ok(None)`). Fails with `ModelNotFound` when
    /// the model file does not exist, and stays unloaded. Otherwise the
    /// engine is `Loading` and the request says what to load: the GPU
    /// settings apply only when the GPU is enabled, else no layer is
    /// offloaded.
    pub fn begin_load(&mut self, file_exists: bool) -> (r: Result<Option<LoadRequest>, CoreError>)
        ensures
            final(self).settings() == old(self).settings(),
            final(self).buffer() == old(self).buffer(),
            old(self).state_of() == EngineState::Loaded ==> (r matches Ok(None)),
            old(self).state_of() == EngineState::Loaded ==> final(self).state_of() == EngineState::Loaded,
            old(self).state_of() != EngineState::Loaded && !file_exists ==> {
                &&& final(self).state_of() == EngineState::Unloaded
                &&& (r matches Err(e) && e matches CoreError::ModelNotFound(p) && p == old(self).settings().model_path)
            },
            old(self).state_of() != EngineState::Loaded && file_exists ==> {
                &&& final(self).state_of() == EngineState::Loading
                &&& (r matches Ok(Some(q)) && {
                    &&& q.model_path == old(self).settings().model_path
                    &&& q.n_ctx == old(self).settings().n_ctx
                    &&& q.n_threads == old(self).settings().n_threads
                    &&& q.n_gpu_layers == if old(self).settings().use_gpu {
                        old(self).settings().n_gpu_layers
                    } else {
                        0
                    }
                    &&& q.main_gpu == if old(self).settings().use_gpu {
                        Some(old(self).settings().main_gpu)
                    } else {
                        None
                    }
                })
            },
    {
        if self.state == EngineState::Loaded {
            return Ok(None);
        }
        if !file_exists {
            self.state = EngineState::Unloaded;
            return Err(CoreError::ModelNotFound(self.config.model_path.clone()));
        }
        self.state = EngineState::Loading;
        let (n_gpu_layers, main_gpu) = if self.config.use_gpu {
            (self.config.n_gpu_layers, Some(self.config.main_gpu))
        } else {
            (0, None)
        };
        Ok(
            Some(
                LoadRequest {
                    model_path: self.config.model_path.clone(),
                    n_gpu_layers,
                    main_gpu,
                    n_ctx: self.config.n_ctx,
                    n_threads: self.config.n_threads,
                },
            ),
        )
    }

    /// Ends a load: `Loaded` when the backend produced a handle, else
    /// `Unloaded`, so that the caller may try again.
    pub fn finish_load(&mut self, succeeded: bool)
        ensures
            final(self).settings() == old(self).settings(),
            final(self).buffer() == old(self).buffer(),
            final(self).state_of() == if succeeded {
                EngineState::Loaded
            } else {
                EngineState::Unloaded
            },
    {
        self.state = if succeeded {
            EngineState::Loaded
        } else {
            EngineState::Unloaded
        };
    }

    /// Releases the model: the engine is `Unloaded`.
    pub fn unload_model(&mut self)
        ensures
            final(self).settings() == old(self).settings(),
            final(self).buffer() == old(self).buffer(),
            final(self).state_of() == EngineState::Unloaded,
    {
        self.state = EngineState::Unloaded;
    }

    /// Empties the conversation buffer.
    pub fn clear_conversation(&mut self)
        ensures
            final(self).settings() == old(self).settings(),
            final(self).state_of() == old(self).state_of(),
            final(self).buffer().len() == 0,
    {
        self.history = String::new();
    }

    /// The conversation buffer.
    pub fn get_conversation_history(&self) -> (r: String)
        ensures
            r@ == self.buffer(),
    {
        self.history.clone()
    }

    /// Fails with `NotLoaded` unless a model is loaded.
    pub fn check_loaded(&self) -> (r: Result<(), CoreError>)
        ensures
            r is Ok <==> self.state_of() == EngineState::Loaded,
            r matches Err(e) ==> e is NotLoaded,
    {
        if self.state == EngineState::Loaded {
            Ok(())
        } else {
            Err(CoreError::NotLoaded)
        }
    }

    /// Starts a generation for `prompt`: fails with `NotLoaded`, changing
    /// nothing, unless a model is loaded; otherwise adds the user turn to
    /// the buffer and returns the whole buffer, which is what gets
    /// tokenized.
    pub fn begin_generate(&mut self, prompt: &str) -> (r: Result<String, CoreError>)
        ensures
            final(self).settings() == old(self).settings(),
            final(self).state_of() == old(self).state_of(),
            old(self).state_of() != EngineState::Loaded ==> r == Err::<String, CoreError>(
                CoreError::NotLoaded,
            ) && final(self).buffer() == old(self).buffer(),
            old(self).state_of() == EngineState::Loaded ==> {
                &&& final(self).buffer() == with_user_turn(old(self).buffer(), prompt@)
                &&& (r matches Ok(b) && b@ == final(self).buffer())
            },
    {
        if self.state != EngineState::Loaded {
            return Err(CoreError::NotLoaded);
        }
        if self.history.unicode_len() != 0 {
            self.history.append("\n");
        }
        self.history.append("<|im_start|>user\n");
        self.history.append(prompt);
        self.history.append("<|im_end|>\n<|im_start|>assistant\n");
        Ok(self.history.clone())
    }

    /// Ends a generation: adds the generated text and the end of the turn
    /// to the buffer, and returns the reply, trimmed of surrounding
    /// whitespace.
    pub fn finish_generate(&mut self, run: &GenerationRun) -> (r: LLMResponse)
        ensures
            final(self).settings() == old(self).settings(),
            final(self).state_of() == old(self).state_of(),
            final(self).buffer() == old(self).buffer() + run.text_so_far() + turn_close(),
            r.text@ == trimmed(run.text_so_far()),
            r.tokens_generated == run.pieces(),
            r.tool_calls@.len() == 0,
            r.done,
    {
        self.history.append(run.text());
        self.history.append("<|im_end|>");
        LLMResponse {
            text: trim_text(run.text()),
            tool_calls: parse_tool_calls(run.text()),
            tokens_generated: run.tokens_generated(),
            done: true,
        }
    }

    /// Describes the GPU use: whether it is enabled in the settings, and
    /// whether the build found one (`info` says which).
    pub fn gpu_info(&self, has_gpu: bool, info: &str) -> (r: String)
        ensures
            self.settings().use_gpu && has_gpu ==> r@ == "GPU: Enabled - "@ + info@,
            self.settings().use_gpu && !has_gpu ==> r@ == "GPU: Requested but not available - "@
                + info@,
            !self.settings().use_gpu ==> r@ == "GPU: Disabled - "@ + info@,
    {
        if self.config.use_gpu && has_gpu {
            joined("GPU: Enabled - ", info)
        } else if self.config.use_gpu {
            joined("GPU: Requested but not available - ", info)
        } else {
            joined("GPU: Disabled - ", info)
        }
    }
}

/// A freshly loaded engine with an empty buffer hands the backend the same
/// text for the same prompt, whatever else differs between two such
/// engines: the text depends on the prompt alone.
pub proof fn lemma_fresh_buffer_depends_on_prompt(b1: Seq<char>, b2: Seq<char>, prompt: Seq<char>)
    requires
        b1.len() == 0,
        b2.len() == 0,
    ensures
        with_user_turn(b1, prompt) == with_user_turn(b2, prompt),
        with_user_turn(b1, prompt) == user_turn_open() + prompt + assistant_turn_open(),
{
    assert(b1 =~= b2);
    assert(b1 + user_turn_open() =~= user_turn_open());
}

} // verus!
