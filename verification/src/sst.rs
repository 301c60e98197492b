//! The speech runtime: its settings, the native calls that bring them in, and the pieces of
//! speech that come back.

use vstd::prelude::*;

use crate::error::{Error, ErrorView};
use crate::native;
use crate::native::{libia_sst, libia_sst_generation_kind};
use crate::text;

verus! {

/// 0.5 as the bit pattern of a 64-bit float.
pub const DEFAULT_VAD_THRESHOLD: u64 = 0x3fe0_0000_0000_0000;

/// The largest 64-bit float, as its bit pattern.
pub const DEFAULT_VAD_MAX_SPEECH: u64 = 0x7fef_ffff_ffff_ffff;

/// 0.1 as the bit pattern of a 64-bit float.
pub const DEFAULT_VAD_OVERLAP: u64 = 0x3fb9_9999_9999_999a;

/// A piece of recognized speech.
#[derive(Debug, PartialEq)]
pub enum SSTGenerationType {
    Text(String),
    SpeechStart,
    SpeechEnd,
}

/// Reads a piece of recognized speech; text that is missing or no UTF-8 is empty.
pub fn speech_piece(kind: libia_sst_generation_kind, chunk: Option<String>) -> (r:
    SSTGenerationType)
    ensures
        match kind {
            libia_sst_generation_kind::LIBIA_SST_GENERATION_KIND_SPEECH_START => r
                == SSTGenerationType::SpeechStart,
            libia_sst_generation_kind::LIBIA_SST_GENERATION_KIND_SPEECH_END => r
                == SSTGenerationType::SpeechEnd,
            libia_sst_generation_kind::LIBIA_SST_GENERATION_KIND_TEXT => r is Text && r->0@
                == match chunk {
                Some(t) => t@,
                None => ""@,
            },
        },
{
    match kind {
        libia_sst_generation_kind::LIBIA_SST_GENERATION_KIND_SPEECH_START => {
            SSTGenerationType::SpeechStart
        },
        libia_sst_generation_kind::LIBIA_SST_GENERATION_KIND_SPEECH_END => {
            SSTGenerationType::SpeechEnd
        },
        libia_sst_generation_kind::LIBIA_SST_GENERATION_KIND_TEXT => SSTGenerationType::Text(
            match chunk {
                Some(t) => t,
                None => "".to_string(),
            },
        ),
    }
}

/// The speech runtime. Numbers with a fraction are carried as the bit patterns of 64-bit floats.
pub struct WhisperSst {
    pub model_path: String,
    pub vad_model_path: Option<String>,
    pub use_gpu: bool,
    pub flash_attn: bool,
    pub language: Option<String>,
    pub initial_prompt: Option<String>,
    pub translate: bool,
    pub no_context: bool,
    pub no_timestamps: bool,
    pub print_special: bool,
    pub suppress_nst: bool,
    pub vad_enabled: bool,
    pub n_threads: i64,
    pub n_processors: i64,
    pub step_ms: i64,
    pub length_ms: i64,
    pub keep_ms: i64,
    pub vad_threshold: u64,
    pub vad_min_speech_duration_ms: i64,
    pub vad_min_silence_duration_ms: i64,
    pub vad_max_speech_duration_s: u64,
    pub vad_speech_pad_ms: i64,
    pub vad_samples_overlap: u64,
    pub runtime: Option<libia_sst>,
    pub loaded: bool,
}

/// The model of the speech runtime.
#[verifier::ext_equal]
pub struct SstView {
    pub model_path: Seq<char>,
    pub vad_model_path: Option<Seq<char>>,
    pub use_gpu: bool,
    pub flash_attn: bool,
    pub language: Option<Seq<char>>,
    pub initial_prompt: Option<Seq<char>>,
    pub translate: bool,
    pub no_context: bool,
    pub no_timestamps: bool,
    pub print_special: bool,
    pub suppress_nst: bool,
    pub vad_enabled: bool,
    pub n_threads: i64,
    pub n_processors: i64,
    pub step_ms: i64,
    pub length_ms: i64,
    pub keep_ms: i64,
    pub vad_threshold: u64,
    pub vad_min_speech_duration_ms: i64,
    pub vad_min_silence_duration_ms: i64,
    pub vad_max_speech_duration_s: u64,
    pub vad_speech_pad_ms: i64,
    pub vad_samples_overlap: u64,
    pub runtime: Option<libia_sst>,
    pub loaded: bool,
}

impl View for WhisperSst {
    type V = SstView;

    open spec fn view(&self) -> SstView {
        SstView {
            model_path: self.model_path@,
            vad_model_path: text::opt_view(self.vad_model_path),
            use_gpu: self.use_gpu,
            flash_attn: self.flash_attn,
            language: text::opt_view(self.language),
            initial_prompt: text::opt_view(self.initial_prompt),
            translate: self.translate,
            no_context: self.no_context,
            no_timestamps: self.no_timestamps,
            print_special: self.print_special,
            suppress_nst: self.suppress_nst,
            vad_enabled: self.vad_enabled,
            n_threads: self.n_threads,
            n_processors: self.n_processors,
            step_ms: self.step_ms,
            length_ms: self.length_ms,
            keep_ms: self.keep_ms,
            vad_threshold: self.vad_threshold,
            vad_min_speech_duration_ms: self.vad_min_speech_duration_ms,
            vad_min_silence_duration_ms: self.vad_min_silence_duration_ms,
            vad_max_speech_duration_s: self.vad_max_speech_duration_s,
            vad_speech_pad_ms: self.vad_speech_pad_ms,
            vad_samples_overlap: self.vad_samples_overlap,
            runtime: self.runtime,
            loaded: self.loaded,
        }
    }
}

/// A value that a setting takes.
#[derive(Debug, PartialEq)]
pub enum SstValue {
    Bool(bool),
    Int(i64),
    Real(u64),
    Text(String),
}

/// A step that brings the runtime up: it is made from a model, a setting is brought in, or the
/// model is loaded.
#[derive(Debug, PartialEq)]
pub enum SstStep {
    Create(String),
    Setting { name: &'static str, value: SstValue },
    Load,
}

/// The model of a value that a setting takes.
#[verifier::ext_equal]
pub enum SstValueView {
    Bool(bool),
    Int(i64),
    Real(u64),
    Text(Seq<char>),
}

/// The model of a step.
#[verifier::ext_equal]
pub enum StepView {
    Create(Seq<char>),
    Setting { name: Seq<char>, value: SstValueView },
    Load,
}

impl View for SstValue {
    type V = SstValueView;

    open spec fn view(&self) -> SstValueView {
        match self {
            SstValue::Bool(b) => SstValueView::Bool(*b),
            SstValue::Int(n) => SstValueView::Int(*n),
            SstValue::Real(b) => SstValueView::Real(*b),
            SstValue::Text(s) => SstValueView::Text(s@),
        }
    }
}

impl View for SstStep {
    type V = StepView;

    open spec fn view(&self) -> StepView {
        match self {
            SstStep::Create(s) => StepView::Create(s@),
            SstStep::Setting { name, value } => StepView::Setting { name: name@, value: value@ },
            SstStep::Load => StepView::Load,
        }
    }
}

/// The step that brings in a yes or no.
pub open spec fn set_bool(name: Seq<char>, b: bool) -> StepView {
    StepView::Setting { name, value: SstValueView::Bool(b) }
}

/// The step that brings in an integer.
pub open spec fn set_int(name: Seq<char>, n: i64) -> StepView {
    StepView::Setting { name, value: SstValueView::Int(n) }
}

/// The step that brings in a number with a fraction.
pub open spec fn set_real(name: Seq<char>, b: u64) -> StepView {
    StepView::Setting { name, value: SstValueView::Real(b) }
}

/// The step that brings in a text, where there is one.
pub open spec fn set_text(name: Seq<char>, s: Option<Seq<char>>) -> Seq<StepView> {
    match s {
        Some(s) => seq![StepView::Setting { name, value: SstValueView::Text(s) }],
        None => Seq::empty(),
    }
}

/// The steps that bring in every setting, in their order.
pub open spec fn setting_steps(s: SstView) -> Seq<StepView> {
    seq![
        set_bool("use_gpu"@, s.use_gpu),
        set_bool("flash_attn"@, s.flash_attn),
        set_bool("translate"@, s.translate),
        set_bool("no_context"@, s.no_context),
        set_bool("no_timestamps"@, s.no_timestamps),
        set_bool("print_special"@, s.print_special),
        set_bool("suppress_nst"@, s.suppress_nst),
        set_bool("vad_enabled"@, s.vad_enabled),
        set_int("n_threads"@, s.n_threads),
        set_int("n_processors"@, s.n_processors),
        set_int("step_ms"@, s.step_ms),
        set_int("length_ms"@, s.length_ms),
        set_int("keep_ms"@, s.keep_ms),
        set_real("vad_threshold"@, s.vad_threshold),
        set_int("vad_min_speech_duration_ms"@, s.vad_min_speech_duration_ms),
        set_int("vad_min_silence_duration_ms"@, s.vad_min_silence_duration_ms),
        set_real("vad_max_speech_duration_s"@, s.vad_max_speech_duration_s),
        set_int("vad_speech_pad_ms"@, s.vad_speech_pad_ms),
        set_real("vad_samples_overlap"@, s.vad_samples_overlap),
    ] + set_text("language"@, s.language) + set_text("initial_prompt"@, s.initial_prompt)
        + set_text("vad_model_path"@, s.vad_model_path) + set_text(
        "model_path"@,
        Some(s.model_path),
    )
}

/// The steps that bring the runtime up from where it is.
pub open spec fn load_steps(s: SstView) -> Seq<StepView> {
    let made = if s.runtime is None {
        seq![StepView::Create(s.model_path)]
    } else {
        Seq::empty()
    };
    if s.loaded {
        made
    } else {
        made + setting_steps(s) + seq![StepView::Load]
    }
}

/// The text that a step hands over.
pub open spec fn step_text(s: StepView) -> Option<Seq<char>> {
    match s {
        StepView::Create(t) => Some(t),
        StepView::Setting { name: _, value: SstValueView::Text(t) } => Some(t),
        _ => None,
    }
}

/// A step whose text cannot be handed over.
pub open spec fn step_blocked(s: StepView) -> bool {
    step_text(s) matches Some(t) && native::has_nul(t)
}

/// The steps before the first whose text cannot be handed over.
pub open spec fn steps_before_block(steps: Seq<StepView>) -> Seq<StepView>
    decreases steps.len(),
{
    if steps.len() == 0 || step_blocked(steps[0]) {
        Seq::empty()
    } else {
        seq![steps[0]] + steps_before_block(steps.subrange(1, steps.len() as int))
    }
}

/// The error at which steps stop, if a text cannot be handed over.
pub open spec fn steps_stop(steps: Seq<StepView>) -> Option<ErrorView>
    decreases steps.len(),
{
    if steps.len() == 0 {
        None
    } else if step_blocked(steps[0]) {
        Some(ErrorView::NulByte(step_text(steps[0])->0))
    } else {
        steps_stop(steps.subrange(1, steps.len() as int))
    }
}

/// The words for a step that failed without an explanation.
pub open spec fn step_failure(s: StepView) -> Seq<char> {
    match s {
        StepView::Create(_) => "null pointer returned from libia_sst_create"@,
        StepView::Setting { name, .. } => "failed to set "@ + name,
        StepView::Load => "failed to load sst runtime"@,
    }
}

/// The runtime after a step has succeeded.
pub open spec fn after_step(s: SstView, step: StepView, address: usize) -> SstView {
    match step {
        StepView::Create(_) => SstView { runtime: Some(libia_sst { address }), ..s },
        StepView::Setting { .. } => s,
        StepView::Load => SstView { loaded: true, ..s },
    }
}

fn bool_step(name: &'static str, b: bool) -> (r: SstStep)
    ensures
        r@ == set_bool(name@, b),
{
    SstStep::Setting { name, value: SstValue::Bool(b) }
}

fn int_step(name: &'static str, n: i64) -> (r: SstStep)
    ensures
        r@ == set_int(name@, n),
{
    SstStep::Setting { name, value: SstValue::Int(n) }
}

fn real_step(name: &'static str, b: u64) -> (r: SstStep)
    ensures
        r@ == set_real(name@, b),
{
    SstStep::Setting { name, value: SstValue::Real(b) }
}

fn push_text(steps: &mut Vec<SstStep>, name: &'static str, s: &Option<String>)
    ensures
        text::views(final(steps)@) == text::views(old(steps)@) + set_text(
            name@,
            text::opt_view(*s),
        ),
{
    match s {
        Some(s) => {
            let step = SstStep::Setting { name, value: SstValue::Text(s.clone()) };
            steps.push(step);
        },
        None => {},
    }
    assert(text::views(steps@) =~= text::views(old(steps)@) + set_text(name@, text::opt_view(*s)));
}

fn blocked(step: &SstStep) -> (r: Option<Error>)
    ensures
        match r {
            Some(e) => step_blocked(step@) && e@ == ErrorView::NulByte(step_text(step@)->0),
            None => !step_blocked(step@),
        },
{
    let t: Option<&String> = match step {
        SstStep::Create(t) => Some(t),
        SstStep::Setting { name: _, value: SstValue::Text(t) } => Some(t),
        _ => None,
    };
    match t {
        Some(t) => if native::contains_nul(t.as_str()) {
            Some(Error::NulByte(t.clone()))
        } else {
            None
        },
        None => None,
    }
}

/// The steps before the first that cannot be handed over, and its error.
fn up_to_block(all: &Vec<SstStep>) -> (r: (Vec<SstStep>, Option<Error>))
    ensures
        text::views(r.0@) == steps_before_block(text::views(all@)),
        text::opt_view(r.1) == steps_stop(text::views(all@)),
{
    let ghost wanted = text::views(all@);
    let mut out: Vec<SstStep> = Vec::new();
    assert(wanted.subrange(0, wanted.len() as int) =~= wanted);
    assert(text::views(out@) + steps_before_block(wanted) =~= steps_before_block(wanted));
    let n: usize = all.len();
    let mut i: usize = 0;
    while i < n
        invariant
            i <= n,
            n == all@.len(),
            wanted == text::views(all@),
            steps_before_block(wanted) == text::views(out@) + steps_before_block(
                wanted.subrange(i as int, wanted.len() as int),
            ),
            steps_stop(wanted) == steps_stop(wanted.subrange(i as int, wanted.len() as int)),
        decreases n - i,
    {
        let ghost rest = wanted.subrange(i as int, wanted.len() as int);
        let ghost next = wanted.subrange(i + 1, wanted.len() as int);
        assert(rest[0] == all@[i as int]@);
        assert(rest.subrange(1, rest.len() as int) =~= next);
        match blocked(&all[i]) {
            Some(e) => {
                assert(text::views(out@) + steps_before_block(rest) =~= text::views(out@));
                return (out, Some(e));
            },
            None => {},
        }
        let ghost before = text::views(out@);
        out.push(copy_step(&all[i]));
        proof {
            assert(text::views(out@) =~= before + seq![rest[0]]);
            assert(before + (seq![rest[0]] + steps_before_block(next)) =~= (before
                + seq![rest[0]]) + steps_before_block(next));
        }
        i = i + 1;
    }
    assert(text::views(out@) + steps_before_block(
        wanted.subrange(i as int, wanted.len() as int),
    ) =~= text::views(out@));
    (out, None)
}

impl WhisperSst {
    /// The speech runtime as it is configured at first. `n_threads` is what the machine offers.
    pub fn new(
        model_path: String,
        vad_model_path: Option<String>,
        use_gpu: bool,
        flash_attn: bool,
        language: Option<String>,
        parallelism: i64,
    ) -> (r: WhisperSst)
        ensures
            r@ == (SstView {
                model_path: model_path@,
                vad_model_path: text::opt_view(vad_model_path),
                use_gpu,
                flash_attn,
                language: text::opt_view(language),
                initial_prompt: None,
                translate: false,
                no_context: true,
                no_timestamps: false,
                print_special: false,
                suppress_nst: false,
                vad_enabled: false,
                n_threads: if parallelism < 4 {
                    parallelism
                } else {
                    4
                },
                n_processors: 1,
                step_ms: 3000,
                length_ms: 10000,
                keep_ms: 200,
                vad_threshold: DEFAULT_VAD_THRESHOLD,
                vad_min_speech_duration_ms: 250,
                vad_min_silence_duration_ms: 100,
                vad_max_speech_duration_s: DEFAULT_VAD_MAX_SPEECH,
                vad_speech_pad_ms: 30,
                vad_samples_overlap: DEFAULT_VAD_OVERLAP,
                runtime: None,
                loaded: false,
            }),
    {
        WhisperSst {
            model_path,
            vad_model_path,
            use_gpu,
            flash_attn,
            language,
            initial_prompt: None,
            translate: false,
            no_context: true,
            no_timestamps: false,
            print_special: false,
            suppress_nst: false,
            vad_enabled: false,
            n_threads: if parallelism < 4 {
                parallelism
            } else {
                4
            },
            n_processors: 1,
            step_ms: 3000,
            length_ms: 10000,
            keep_ms: 200,
            vad_threshold: DEFAULT_VAD_THRESHOLD,
            vad_min_speech_duration_ms: 250,
            vad_min_silence_duration_ms: 100,
            vad_max_speech_duration_s: DEFAULT_VAD_MAX_SPEECH,
            vad_speech_pad_ms: 30,
            vad_samples_overlap: DEFAULT_VAD_OVERLAP,
            runtime: None,
            loaded: false,
        }
    }

    /// The steps that bring in every setting, in their order, and the error at which to stop
    /// after them, if a text cannot be handed over; refused while no runtime was made.
    pub fn apply_settings(&self) -> (r: Result<(Vec<SstStep>, Option<Error>), Error>)
        ensures
            match r {
                Ok(p) => {
                    &&& self@.runtime is Some
                    &&& text::views(p.0@) == steps_before_block(setting_steps(self@))
                    &&& text::opt_view(p.1) == steps_stop(setting_steps(self@))
                },
                Err(e) => self@.runtime is None && e@ == ErrorView::Api(
                    "sst runtime is not loaded"@,
                ),
            },
    {
        if self.runtime.is_none() {
            return Err(Error::Api("sst runtime is not loaded".to_string()));
        }
        Ok(up_to_block(&self.settings()))
    }

    fn settings(&self) -> (r: Vec<SstStep>)
        ensures
            text::views(r@) == setting_steps(self@),
    {
        let mut v: Vec<SstStep> = Vec::new();
        v.push(bool_step("use_gpu", self.use_gpu));
        v.push(bool_step("flash_attn", self.flash_attn));
        v.push(bool_step("translate", self.translate));
        v.push(bool_step("no_context", self.no_context));
        v.push(bool_step("no_timestamps", self.no_timestamps));
        v.push(bool_step("print_special", self.print_special));
        v.push(bool_step("suppress_nst", self.suppress_nst));
        v.push(bool_step("vad_enabled", self.vad_enabled));
        v.push(int_step("n_threads", self.n_threads));
        v.push(int_step("n_processors", self.n_processors));
        v.push(int_step("step_ms", self.step_ms));
        v.push(int_step("length_ms", self.length_ms));
        v.push(int_step("keep_ms", self.keep_ms));
        v.push(real_step("vad_threshold", self.vad_threshold));
        v.push(int_step("vad_min_speech_duration_ms", self.vad_min_speech_duration_ms));
        v.push(int_step("vad_min_silence_duration_ms", self.vad_min_silence_duration_ms));
        v.push(real_step("vad_max_speech_duration_s", self.vad_max_speech_duration_s));
        v.push(int_step("vad_speech_pad_ms", self.vad_speech_pad_ms));
        v.push(real_step("vad_samples_overlap", self.vad_samples_overlap));
        let ghost fixed = text::views(v@);
        push_text(&mut v, "language", &self.language);
        push_text(&mut v, "initial_prompt", &self.initial_prompt);
        push_text(&mut v, "vad_model_path", &self.vad_model_path);
        let model = Some(self.model_path.clone());
        push_text(&mut v, "model_path", &model);
        proof {
            let s = self@;
            let wanted = seq![
                set_bool("use_gpu"@, s.use_gpu),
                set_bool("flash_attn"@, s.flash_attn),
                set_bool("translate"@, s.translate),
                set_bool("no_context"@, s.no_context),
                set_bool("no_timestamps"@, s.no_timestamps),
                set_bool("print_special"@, s.print_special),
                set_bool("suppress_nst"@, s.suppress_nst),
                set_bool("vad_enabled"@, s.vad_enabled),
                set_int("n_threads"@, s.n_threads),
                set_int("n_processors"@, s.n_processors),
                set_int("step_ms"@, s.step_ms),
                set_int("length_ms"@, s.length_ms),
                set_int("keep_ms"@, s.keep_ms),
                set_real("vad_threshold"@, s.vad_threshold),
                set_int("vad_min_speech_duration_ms"@, s.vad_min_speech_duration_ms),
                set_int("vad_min_silence_duration_ms"@, s.vad_min_silence_duration_ms),
                set_real("vad_max_speech_duration_s"@, s.vad_max_speech_duration_s),
                set_int("vad_speech_pad_ms"@, s.vad_speech_pad_ms),
                set_real("vad_samples_overlap"@, s.vad_samples_overlap),
            ];
            assert(fixed =~= wanted);
        }
        v
    }

    /// The steps that bring the runtime up, in their order, and the error at which to stop after
    /// them, if a text cannot be handed over.
    pub fn load(&self) -> (r: (Vec<SstStep>, Option<Error>))
        ensures
            text::views(r.0@) == steps_before_block(load_steps(self@)),
            text::opt_view(r.1) == steps_stop(load_steps(self@)),
    {
        let mut all: Vec<SstStep> = Vec::new();
        if self.runtime.is_none() {
            all.push(SstStep::Create(self.model_path.clone()));
        }
        let ghost made = text::views(all@);
        if !self.loaded {
            let mut settings = self.settings();
            let ghost more = text::views(settings@);
            all.append(&mut settings);
            assert(text::views(all@) =~= made + more);
            all.push(SstStep::Load);
        }
        assert(text::views(all@) =~= load_steps(self@));
        up_to_block(&all)
    }

    /// Takes the outcome of a step: the address of a runtime that was made, whether the step
    /// succeeded, and what the library said where it did not.
    pub fn on_step(&mut self, step: &SstStep, ok: bool, address: usize, native: Option<String>) -> (r:
        Result<(), String>)
        ensures
            match r {
                Ok(_) => ok && final(self)@ == after_step(old(self)@, step@, address),
                Err(e) => !ok && final(self)@ == old(self)@ && e@ == match (step@, native) {
                    (StepView::Create(_), _) => step_failure(step@),
                    (_, Some(m)) => m@,
                    (_, None) => step_failure(step@),
                },
            },
    {
        if ok {
            match step {
                SstStep::Create(_) => {
                    self.runtime = Some(libia_sst { address });
                },
                SstStep::Setting { .. } => {},
                SstStep::Load => {
                    self.loaded = true;
                },
            }
            assert(self@ =~= after_step(old(self)@, step@, address));
            return Ok(());
        }
        match step {
            SstStep::Create(_) => Err("null pointer returned from libia_sst_create".to_string()),
            SstStep::Setting { name, .. } => match native {
                Some(m) => Err(m),
                None => Err(text::cat2("failed to set ", name)),
            },
            SstStep::Load => match native {
                Some(m) => Err(m),
                None => Err("failed to load sst runtime".to_string()),
            },
        }
    }

    /// Gives the runtime up.
    pub fn unload(&mut self)
        ensures
            final(self)@ == (SstView { runtime: None, loaded: false, ..old(self)@ }),
    {
        self.runtime = None;
        self.loaded = false;
    }

    /// Turns voice detection on or off; the runtime is to be brought up again.
    pub fn set_vad_enabled(&mut self, value: bool)
        ensures
            final(self)@ == (SstView { vad_enabled: value, loaded: false, ..old(self)@ }),
    {
        self.vad_enabled = value;
        self.loaded = false;
    }

    /// Whether the runtime is to be brought up before audio goes in.
    pub fn push_audio(&self) -> (r: bool)
        ensures
            r == !self@.loaded,
    {
        !self.loaded
    }
}

fn copy_value(v: &SstValue) -> (r: SstValue)
    ensures
        r@ == v@,
{
    match v {
        SstValue::Bool(b) => SstValue::Bool(*b),
        SstValue::Int(n) => SstValue::Int(*n),
        SstValue::Real(b) => SstValue::Real(*b),
        SstValue::Text(s) => SstValue::Text(s.clone()),
    }
}

fn copy_step(s: &SstStep) -> (r: SstStep)
    ensures
        r@ == s@,
{
    match s {
        SstStep::Create(t) => SstStep::Create(t.clone()),
        SstStep::Setting { name, value } => SstStep::Setting { name: *name, value: copy_value(value) },
        SstStep::Load => SstStep::Load,
    }
}

/// What came of pushing audio: the text, or the refusal.
pub fn audio_outcome(output: Option<String>, native: Option<String>) -> (r: Result<String, Error>)
    ensures
        match r {
            Ok(t) => output is Some && t@ == output->0@,
            Err(e) => output is None && e@ == native::refusal(
                text::opt_view(native),
                "sst push audio failed"@,
            ),
        },
{
    match output {
        Some(t) => Ok(t),
        None => Err(
            Error::Api(
                match native {
                    Some(m) => m,
                    None => "sst push audio failed".to_string(),
                },
            ),
        ),
    }
}

/// A value that says yes.
pub open spec fn says_yes(v: Seq<char>) -> bool {
    v == "1"@ || v == "true"@ || v == "on"@ || v == "yes"@
}

/// An integer as a value writes it, or else the one before.
pub open spec fn int_or(v: Seq<char>, before: i64) -> i64 {
    match text::int_value_in(v, i64::MIN as int, i64::MAX as int) {
        Some(n) => n as i64,
        None => before,
    }
}

/// A number with a fraction as a value writes it, or else the one before.
pub open spec fn real_or(bits: Option<u64>, before: u64) -> u64 {
    match bits {
        Some(b) => b,
        None => before,
    }
}

/// The settings after a property that takes a text got one.
pub open spec fn charged_text(s: SstView, name: Seq<char>, v: Seq<char>) -> Option<SstView> {
    if name == "--model"@ {
        Some(SstView { model_path: v, ..s })
    } else if name == "--vad-model"@ || name == "--vad-model-path"@ {
        Some(SstView { vad_model_path: Some(v), ..s })
    } else if name == "--language"@ {
        Some(SstView { language: Some(v), ..s })
    } else if name == "--initial-prompt"@ || name == "--prompt"@ {
        Some(SstView { initial_prompt: Some(v), ..s })
    } else {
        None
    }
}

/// The settings after a property that takes a yes or no got one.
pub open spec fn charged_flag(s: SstView, name: Seq<char>, v: Seq<char>) -> Option<SstView> {
    if name == "--use-gpu"@ {
        Some(SstView { use_gpu: says_yes(v), ..s })
    } else if name == "--flash-attn"@ {
        Some(SstView { flash_attn: says_yes(v), ..s })
    } else if name == "--translate"@ {
        Some(SstView { translate: says_yes(v), ..s })
    } else if name == "--no-context"@ {
        Some(SstView { no_context: says_yes(v), ..s })
    } else if name == "--no-timestamps"@ {
        Some(SstView { no_timestamps: says_yes(v), ..s })
    } else if name == "--print-special"@ {
        Some(SstView { print_special: says_yes(v), ..s })
    } else if name == "--suppress-nst"@ {
        Some(SstView { suppress_nst: says_yes(v), ..s })
    } else if name == "--vad"@ || name == "--vad-enabled"@ {
        Some(SstView { vad_enabled: says_yes(v), ..s })
    } else {
        None
    }
}

/// The settings after a property that takes an integer got one.
pub open spec fn charged_int(s: SstView, name: Seq<char>, v: Seq<char>) -> Option<SstView> {
    if name == "--n-threads"@ {
        Some(SstView { n_threads: int_or(v, s.n_threads), ..s })
    } else if name == "--n-processors"@ {
        Some(SstView { n_processors: int_or(v, s.n_processors), ..s })
    } else if name == "--step-ms"@ {
        Some(SstView { step_ms: int_or(v, s.step_ms), ..s })
    } else if name == "--length-ms"@ {
        Some(SstView { length_ms: int_or(v, s.length_ms), ..s })
    } else if name == "--keep-ms"@ {
        Some(SstView { keep_ms: int_or(v, s.keep_ms), ..s })
    } else if name == "--vad-min-speech-duration-ms"@ {
        Some(SstView { vad_min_speech_duration_ms: int_or(v, s.vad_min_speech_duration_ms), ..s })
    } else if name == "--vad-min-silence-duration-ms"@ {
        Some(SstView { vad_min_silence_duration_ms: int_or(v, s.vad_min_silence_duration_ms), ..s })
    } else if name == "--vad-speech-pad-ms"@ {
        Some(SstView { vad_speech_pad_ms: int_or(v, s.vad_speech_pad_ms), ..s })
    } else {
        None
    }
}

/// The settings after a property that takes a number with a fraction got one.
pub open spec fn charged_real(s: SstView, name: Seq<char>, bits: Option<u64>) -> Option<SstView> {
    if name == "--vad-threshold"@ {
        Some(SstView { vad_threshold: real_or(bits, s.vad_threshold), ..s })
    } else if name == "--vad-max-speech-duration-s"@ {
        Some(SstView { vad_max_speech_duration_s: real_or(bits, s.vad_max_speech_duration_s), ..s })
    } else if name == "--vad-samples-overlap"@ {
        Some(SstView { vad_samples_overlap: real_or(bits, s.vad_samples_overlap), ..s })
    } else {
        None
    }
}

/// The settings after the property with the normalized name got a value, which as a number with a
/// fraction is `bits`; an unknown name changes none.
pub open spec fn charged(s: SstView, name: Seq<char>, v: Seq<char>, bits: Option<u64>) -> SstView {
    match charged_text(s, name, v) {
        Some(t) => t,
        None => match charged_flag(s, name, v) {
            Some(t) => t,
            None => match charged_int(s, name, v) {
                Some(t) => t,
                None => match charged_real(s, name, bits) {
                    Some(t) => t,
                    None => s,
                },
            },
        },
    }
}

fn is_yes(v: &str) -> (r: bool)
    ensures
        r == says_yes(v@),
{
    text::same(v, "1") || text::same(v, "true") || text::same(v, "on") || text::same(v, "yes")
}

fn parse_or(v: &str, before: i64) -> (r: i64)
    ensures
        r == int_or(v@, before),
{
    match text::parse_i64(v) {
        Some(n) => n,
        None => before,
    }
}

fn pick_real(bits: Option<u64>, before: u64) -> (r: u64)
    ensures
        r == real_or(bits, before),
{
    match bits {
        Some(b) => b,
        None => before,
    }
}

/// The names of the properties.
pub open spec fn all_props() -> Seq<Seq<char>> {
    seq![
        "--model"@,
        "--vad-model-path"@,
        "--language"@,
        "--initial-prompt"@,
        "--use-gpu"@,
        "--flash-attn"@,
        "--translate"@,
        "--no-context"@,
        "--no-timestamps"@,
        "--print-special"@,
        "--suppress-nst"@,
        "--n-threads"@,
        "--n-processors"@,
        "--step-ms"@,
        "--length-ms"@,
        "--keep-ms"@,
        "--vad-enabled"@,
        "--vad-threshold"@,
        "--vad-min-speech-duration-ms"@,
        "--vad-min-silence-duration-ms"@,
        "--vad-max-speech-duration-s"@,
        "--vad-speech-pad-ms"@,
        "--vad-samples-overlap"@,
    ]
}

impl WhisperSst {
    fn charge_text(&mut self, name: &str, value: &str) -> (r: bool)
        ensures
            match charged_text(old(self)@, name@, value@) {
                Some(s) => r && final(self)@ == s,
                None => !r && final(self)@ == old(self)@,
            },
    {
        if text::same(name, "--model") {
            self.model_path = value.to_string();
            assert(self@ =~= (SstView { model_path: value@, ..old(self)@ }));
            true
        } else if text::same(name, "--vad-model") || text::same(name, "--vad-model-path") {
            self.vad_model_path = Some(value.to_string());
            assert(self@ =~= (SstView { vad_model_path: Some(value@), ..old(self)@ }));
            true
        } else if text::same(name, "--language") {
            self.language = Some(value.to_string());
            assert(self@ =~= (SstView { language: Some(value@), ..old(self)@ }));
            true
        } else if text::same(name, "--initial-prompt") || text::same(name, "--prompt") {
            self.initial_prompt = Some(value.to_string());
            assert(self@ =~= (SstView { initial_prompt: Some(value@), ..old(self)@ }));
            true
        } else {
            false
        }
    }

    fn charge_flag(&mut self, name: &str, value: &str) -> (r: bool)
        ensures
            match charged_flag(old(self)@, name@, value@) {
                Some(s) => r && final(self)@ == s,
                None => !r && final(self)@ == old(self)@,
            },
    {
        if text::same(name, "--use-gpu") {
            self.use_gpu = is_yes(value);
            assert(self@ =~= (SstView { use_gpu: says_yes(value@), ..old(self)@ }));
            true
        } else if text::same(name, "--flash-attn") {
            self.flash_attn = is_yes(value);
            assert(self@ =~= (SstView { flash_attn: says_yes(value@), ..old(self)@ }));
            true
        } else if text::same(name, "--translate") {
            self.translate = is_yes(value);
            assert(self@ =~= (SstView { translate: says_yes(value@), ..old(self)@ }));
            true
        } else if text::same(name, "--no-context") {
            self.no_context = is_yes(value);
            assert(self@ =~= (SstView { no_context: says_yes(value@), ..old(self)@ }));
            true
        } else if text::same(name, "--no-timestamps") {
            self.no_timestamps = is_yes(value);
            assert(self@ =~= (SstView { no_timestamps: says_yes(value@), ..old(self)@ }));
            true
        } else if text::same(name, "--print-special") {
            self.print_special = is_yes(value);
            assert(self@ =~= (SstView { print_special: says_yes(value@), ..old(self)@ }));
            true
        } else if text::same(name, "--suppress-nst") {
            self.suppress_nst = is_yes(value);
            assert(self@ =~= (SstView { suppress_nst: says_yes(value@), ..old(self)@ }));
            true
        } else if text::same(name, "--vad") || text::same(name, "--vad-enabled") {
            self.vad_enabled = is_yes(value);
            assert(self@ =~= (SstView { vad_enabled: says_yes(value@), ..old(self)@ }));
            true
        } else {
            false
        }
    }

    fn charge_int(&mut self, name: &str, value: &str) -> (r: bool)
        ensures
            match charged_int(old(self)@, name@, value@) {
                Some(s) => r && final(self)@ == s,
                None => !r && final(self)@ == old(self)@,
            },
    {
        if text::same(name, "--n-threads") {
            self.n_threads = parse_or(value, self.n_threads);
            assert(self@ =~= (SstView { n_threads: int_or(value@, old(self)@.n_threads), ..old(self)@ }));
            true
        } else if text::same(name, "--n-processors") {
            self.n_processors = parse_or(value, self.n_processors);
            assert(self@ =~= (SstView { n_processors: int_or(value@, old(self)@.n_processors), ..old(self)@ }));
            true
        } else if text::same(name, "--step-ms") {
            self.step_ms = parse_or(value, self.step_ms);
            assert(self@ =~= (SstView { step_ms: int_or(value@, old(self)@.step_ms), ..old(self)@ }));
            true
        } else if text::same(name, "--length-ms") {
            self.length_ms = parse_or(value, self.length_ms);
            assert(self@ =~= (SstView { length_ms: int_or(value@, old(self)@.length_ms), ..old(self)@ }));
            true
        } else if text::same(name, "--keep-ms") {
            self.keep_ms = parse_or(value, self.keep_ms);
            assert(self@ =~= (SstView { keep_ms: int_or(value@, old(self)@.keep_ms), ..old(self)@ }));
            true
        } else if text::same(name, "--vad-min-speech-duration-ms") {
            self.vad_min_speech_duration_ms = parse_or(value, self.vad_min_speech_duration_ms);
            assert(self@ =~= (SstView { vad_min_speech_duration_ms: int_or(value@, old(self)@.vad_min_speech_duration_ms), ..old(self)@ }));
            true
        } else if text::same(name, "--vad-min-silence-duration-ms") {
            self.vad_min_silence_duration_ms = parse_or(value, self.vad_min_silence_duration_ms);
            assert(self@ =~= (SstView { vad_min_silence_duration_ms: int_or(value@, old(self)@.vad_min_silence_duration_ms), ..old(self)@ }));
            true
        } else if text::same(name, "--vad-speech-pad-ms") {
            self.vad_speech_pad_ms = parse_or(value, self.vad_speech_pad_ms);
            assert(self@ =~= (SstView { vad_speech_pad_ms: int_or(value@, old(self)@.vad_speech_pad_ms), ..old(self)@ }));
            true
        } else {
            false
        }
    }

    fn charge_real(&mut self, name: &str, bits: Option<u64>) -> (r: bool)
        ensures
            match charged_real(old(self)@, name@, bits) {
                Some(s) => r && final(self)@ == s,
                None => !r && final(self)@ == old(self)@,
            },
    {
        if text::same(name, "--vad-threshold") {
            self.vad_threshold = pick_real(bits, self.vad_threshold);
            assert(self@ =~= (SstView { vad_threshold: real_or(bits, old(self)@.vad_threshold), ..old(self)@ }));
            true
        } else if text::same(name, "--vad-max-speech-duration-s") {
            self.vad_max_speech_duration_s = pick_real(bits, self.vad_max_speech_duration_s);
            assert(self@ =~= (SstView { vad_max_speech_duration_s: real_or(bits, old(self)@.vad_max_speech_duration_s), ..old(self)@ }));
            true
        } else if text::same(name, "--vad-samples-overlap") {
            self.vad_samples_overlap = pick_real(bits, self.vad_samples_overlap);
            assert(self@ =~= (SstView { vad_samples_overlap: real_or(bits, old(self)@.vad_samples_overlap), ..old(self)@ }));
            true
        } else {
            false
        }
    }

    /// Gives a property a value, which as a number with a fraction is `bits`; the runtime is to
    /// be brought up again, even where nothing changed.
    pub fn charge_prop(&mut self, prop: &str, value: &str, bits: Option<u64>)
        ensures
            final(self)@ == (SstView {
                loaded: false,
                ..charged(old(self)@, native::prop_name(prop@), value@, bits)
            }),
    {
        let name = native::normalize_prop_name(prop);
        let n = name.as_str();
        if !self.charge_text(n, value) {
            if !self.charge_flag(n, value) {
                if !self.charge_int(n, value) {
                    self.charge_real(n, bits);
                }
            }
        }
        let ghost before = self@;
        self.loaded = false;
        assert(self@ =~= (SstView { loaded: false, ..before }));
    }

    /// The names of the properties.
    pub fn get_all_props(&self) -> (r: Vec<String>)
        ensures
            text::views(r@) == all_props(),
    {
        let mut v: Vec<String> = Vec::new();
        v.push("--model".to_string());
        v.push("--vad-model-path".to_string());
        v.push("--language".to_string());
        v.push("--initial-prompt".to_string());
        v.push("--use-gpu".to_string());
        v.push("--flash-attn".to_string());
        v.push("--translate".to_string());
        v.push("--no-context".to_string());
        v.push("--no-timestamps".to_string());
        v.push("--print-special".to_string());
        v.push("--suppress-nst".to_string());
        v.push("--n-threads".to_string());
        v.push("--n-processors".to_string());
        v.push("--step-ms".to_string());
        v.push("--length-ms".to_string());
        v.push("--keep-ms".to_string());
        v.push("--vad-enabled".to_string());
        v.push("--vad-threshold".to_string());
        v.push("--vad-min-speech-duration-ms".to_string());
        v.push("--vad-min-silence-duration-ms".to_string());
        v.push("--vad-max-speech-duration-s".to_string());
        v.push("--vad-speech-pad-ms".to_string());
        v.push("--vad-samples-overlap".to_string());
        assert(text::views(v@) =~= all_props());
        v
    }
}

/// The properties keep the runtime itself: giving one a value never makes nor gives up a runtime,
/// and always asks for a new load.
pub proof fn law_charging_keeps_runtime(
    s: SstView,
    prop: Seq<char>,
    v: Seq<char>,
    bits: Option<u64>,
)
    ensures
        ({
            let after = SstView { loaded: false, ..charged(s, native::prop_name(prop), v, bits) };
            &&& after.runtime == s.runtime
            &&& s.runtime is Some ==> load_steps(after) == setting_steps(after) + seq![
                StepView::Load,
            ]
        }),
{
    let after = SstView { loaded: false, ..charged(s, native::prop_name(prop), v, bits) };
    assert(Seq::<StepView>::empty() + setting_steps(after) + seq![StepView::Load] =~= setting_steps(
        after,
    ) + seq![StepView::Load]);
}

proof fn lemma_prop_names()
    ensures
        "--model"@.len() == 7,
        "--vad-model"@.len() == 11,
        "--vad-model-path"@.len() == 16,
        "--language"@.len() == 10,
        "--initial-prompt"@.len() == 16,
        "--prompt"@.len() == 8,
        "--use-gpu"@.len() == 9,
        "--flash-attn"@.len() == 12,
        "--vad"@.len() == 5,
        "--vad-enabled"@.len() == 13,
        "--translate"@.len() == 11,
        "--no-context"@.len() == 12,
        "--no-timestamps"@.len() == 15,
        "--print-special"@.len() == 15,
        "--suppress-nst"@.len() == 14,
        "--n-threads"@.len() == 11,
        "--n-processors"@.len() == 14,
        "--step-ms"@.len() == 9,
        "--length-ms"@.len() == 11,
        "--keep-ms"@.len() == 9,
        "--vad-min-speech-duration-ms"@.len() == 28,
        "--vad-min-silence-duration-ms"@.len() == 29,
        "--vad-speech-pad-ms"@.len() == 19,
        "--vad-threshold"@.len() == 15,
        "--vad-max-speech-duration-s"@.len() == 27,
        "--vad-samples-overlap"@.len() == 21,
        "--vad-model"@ != "--translate"@,
        "--vad-model"@ != "--n-threads"@,
        "--vad-model"@ != "--length-ms"@,
        "--vad-model-path"@ != "--initial-prompt"@,
        "--use-gpu"@ != "--step-ms"@,
        "--use-gpu"@ != "--keep-ms"@,
        "--flash-attn"@ != "--no-context"@,
        "--translate"@ != "--n-threads"@,
        "--translate"@ != "--length-ms"@,
        "--no-timestamps"@ != "--print-special"@,
        "--no-timestamps"@ != "--vad-threshold"@,
        "--print-special"@ != "--vad-threshold"@,
        "--suppress-nst"@ != "--n-processors"@,
        "--n-threads"@ != "--length-ms"@,
        "--step-ms"@ != "--keep-ms"@,
{
    reveal_strlit("--model");
    reveal_strlit("--vad-model");
    reveal_strlit("--vad-model-path");
    reveal_strlit("--language");
    reveal_strlit("--initial-prompt");
    reveal_strlit("--prompt");
    reveal_strlit("--use-gpu");
    reveal_strlit("--flash-attn");
    reveal_strlit("--vad");
    reveal_strlit("--vad-enabled");
    reveal_strlit("--translate");
    reveal_strlit("--no-context");
    reveal_strlit("--no-timestamps");
    reveal_strlit("--print-special");
    reveal_strlit("--suppress-nst");
    reveal_strlit("--n-threads");
    reveal_strlit("--n-processors");
    reveal_strlit("--step-ms");
    reveal_strlit("--length-ms");
    reveal_strlit("--keep-ms");
    reveal_strlit("--vad-min-speech-duration-ms");
    reveal_strlit("--vad-min-silence-duration-ms");
    reveal_strlit("--vad-speech-pad-ms");
    reveal_strlit("--vad-threshold");
    reveal_strlit("--vad-max-speech-duration-s");
    reveal_strlit("--vad-samples-overlap");
    assert("--vad-model"@[2] != "--translate"@[2]);
    assert("--vad-model"@[2] != "--n-threads"@[2]);
    assert("--vad-model"@[2] != "--length-ms"@[2]);
    assert("--vad-model-path"@[2] != "--initial-prompt"@[2]);
    assert("--use-gpu"@[2] != "--step-ms"@[2]);
    assert("--use-gpu"@[2] != "--keep-ms"@[2]);
    assert("--flash-attn"@[2] != "--no-context"@[2]);
    assert("--translate"@[2] != "--n-threads"@[2]);
    assert("--translate"@[2] != "--length-ms"@[2]);
    assert("--no-timestamps"@[2] != "--print-special"@[2]);
    assert("--no-timestamps"@[2] != "--vad-threshold"@[2]);
    assert("--print-special"@[2] != "--vad-threshold"@[2]);
    assert("--suppress-nst"@[2] != "--n-processors"@[2]);
    assert("--n-threads"@[2] != "--length-ms"@[2]);
    assert("--step-ms"@[2] != "--keep-ms"@[2]);
}

/// Each property that takes a text sets its own setting to that text, and nothing else.
pub proof fn law_text_property_is_set(s: SstView, v: Seq<char>)
    ensures
        charged(s, "--model"@, v, None) == (SstView { model_path: v, ..s }),
        charged(s, "--vad-model"@, v, None) == (SstView { vad_model_path: Some(v), ..s }),
        charged(s, "--vad-model-path"@, v, None) == (SstView { vad_model_path: Some(v), ..s }),
        charged(s, "--language"@, v, None) == (SstView { language: Some(v), ..s }),
        charged(s, "--initial-prompt"@, v, None) == (SstView { initial_prompt: Some(v), ..s }),
        charged(s, "--prompt"@, v, None) == (SstView { initial_prompt: Some(v), ..s }),
{
    lemma_prop_names();
}

/// Each switch that is on turns its own setting on, and nothing else.
pub proof fn law_switch_is_turned_on(s: SstView)
    ensures
        charged(s, "--use-gpu"@, "true"@, None) == (SstView { use_gpu: true, ..s }),
        charged(s, "--flash-attn"@, "true"@, None) == (SstView { flash_attn: true, ..s }),
        charged(s, "--vad"@, "true"@, None) == (SstView { vad_enabled: true, ..s }),
        charged(s, "--vad-enabled"@, "true"@, None) == (SstView { vad_enabled: true, ..s }),
        charged(s, "--translate"@, "true"@, None) == (SstView { translate: true, ..s }),
        charged(s, "--no-context"@, "true"@, None) == (SstView { no_context: true, ..s }),
        charged(s, "--no-timestamps"@, "true"@, None) == (SstView { no_timestamps: true, ..s }),
        charged(s, "--print-special"@, "true"@, None) == (SstView { print_special: true, ..s }),
        charged(s, "--suppress-nst"@, "true"@, None) == (SstView { suppress_nst: true, ..s }),
{
    lemma_prop_names();
    reveal_strlit("true");
    reveal_strlit("false");
    reveal_strlit("1");
    reveal_strlit("on");
    reveal_strlit("yes");
    assert("false"@.len() == 5);
    assert("1"@.len() == 1);
    assert("on"@.len() == 2);
    assert("yes"@.len() == 3);
    assert("true"@.len() == 4);
    assert(says_yes("true"@) && !says_yes("false"@));
}

/// Each switch that is off turns its own setting off, and nothing else.
pub proof fn law_switch_is_turned_off(s: SstView)
    ensures
        charged(s, "--use-gpu"@, "false"@, None) == (SstView { use_gpu: false, ..s }),
        charged(s, "--flash-attn"@, "false"@, None) == (SstView { flash_attn: false, ..s }),
        charged(s, "--vad"@, "false"@, None) == (SstView { vad_enabled: false, ..s }),
        charged(s, "--vad-enabled"@, "false"@, None) == (SstView { vad_enabled: false, ..s }),
        charged(s, "--translate"@, "false"@, None) == (SstView { translate: false, ..s }),
        charged(s, "--no-context"@, "false"@, None) == (SstView { no_context: false, ..s }),
        charged(s, "--no-timestamps"@, "false"@, None) == (SstView { no_timestamps: false, ..s }),
        charged(s, "--print-special"@, "false"@, None) == (SstView { print_special: false, ..s }),
        charged(s, "--suppress-nst"@, "false"@, None) == (SstView { suppress_nst: false, ..s }),
{
    lemma_prop_names();
    reveal_strlit("true");
    reveal_strlit("false");
    reveal_strlit("1");
    reveal_strlit("on");
    reveal_strlit("yes");
    assert("false"@.len() == 5);
    assert("1"@.len() == 1);
    assert("on"@.len() == 2);
    assert("yes"@.len() == 3);
    assert("true"@.len() == 4);
    assert(says_yes("true"@) && !says_yes("false"@));
}

/// Each property that takes a number sets its own setting to the number that the value writes, and
/// nothing else.
pub proof fn law_number_property_is_set(s: SstView, n: i64)
    ensures
        charged(s, "--n-threads"@, text::decimal_int(n as int), None) == (SstView { n_threads: n, ..s }),
        charged(s, "--n-processors"@, text::decimal_int(n as int), None) == (SstView { n_processors: n, ..s }),
        charged(s, "--step-ms"@, text::decimal_int(n as int), None) == (SstView { step_ms: n, ..s }),
        charged(s, "--length-ms"@, text::decimal_int(n as int), None) == (SstView { length_ms: n, ..s }),
        charged(s, "--keep-ms"@, text::decimal_int(n as int), None) == (SstView { keep_ms: n, ..s }),
        charged(s, "--vad-min-speech-duration-ms"@, text::decimal_int(n as int), None) == (SstView { vad_min_speech_duration_ms: n, ..s }),
        charged(s, "--vad-min-silence-duration-ms"@, text::decimal_int(n as int), None) == (SstView { vad_min_silence_duration_ms: n, ..s }),
        charged(s, "--vad-speech-pad-ms"@, text::decimal_int(n as int), None) == (SstView { vad_speech_pad_ms: n, ..s }),
{
    lemma_prop_names();
    let v = text::decimal_int(n as int);
    text::law_integer_is_read_back(n as int);
    assert(int_or(v, 0) == n);
}

/// Each property that takes a number with a fraction sets its own setting to it, and nothing else.
pub proof fn law_fraction_property_is_set(s: SstView, v: Seq<char>, bits: u64)
    ensures
        charged(s, "--vad-threshold"@, v, Some(bits)) == (SstView { vad_threshold: bits, ..s }),
        charged(s, "--vad-max-speech-duration-s"@, v, Some(bits)) == (SstView { vad_max_speech_duration_s: bits, ..s }),
        charged(s, "--vad-samples-overlap"@, v, Some(bits)) == (SstView { vad_samples_overlap: bits, ..s }),
{
    lemma_prop_names();
}

/// The runtime is brought up with every setting under its own name, and only then loads its model.
pub proof fn law_settings_are_brought_in(s: SstView)
    requires
        !s.loaded,
    ensures
        ({
            let steps = load_steps(s);
            &&& s.runtime is None ==> steps[0] == StepView::Create(s.model_path)
            &&& steps.last() == StepView::Load
            &&& forall|k: int|
                0 <= k < setting_steps(s).len() ==> steps.contains(#[trigger] setting_steps(s)[k])
        }),
        ({
            let c = setting_steps(s);
            &&& c[0] == (StepView::Setting {
                name: "use_gpu"@,
                value: SstValueView::Bool(s.use_gpu),
            })
            &&& c[1] == (StepView::Setting {
                name: "flash_attn"@,
                value: SstValueView::Bool(s.flash_attn),
            })
            &&& c[2] == (StepView::Setting {
                name: "translate"@,
                value: SstValueView::Bool(s.translate),
            })
            &&& c[3] == (StepView::Setting {
                name: "no_context"@,
                value: SstValueView::Bool(s.no_context),
            })
            &&& c[4] == (StepView::Setting {
                name: "no_timestamps"@,
                value: SstValueView::Bool(s.no_timestamps),
            })
            &&& c[5] == (StepView::Setting {
                name: "print_special"@,
                value: SstValueView::Bool(s.print_special),
            })
            &&& c[6] == (StepView::Setting {
                name: "suppress_nst"@,
                value: SstValueView::Bool(s.suppress_nst),
            })
            &&& c[7] == (StepView::Setting {
                name: "vad_enabled"@,
                value: SstValueView::Bool(s.vad_enabled),
            })
            &&& c[8] == (StepView::Setting {
                name: "n_threads"@,
                value: SstValueView::Int(s.n_threads),
            })
            &&& c[9] == (StepView::Setting {
                name: "n_processors"@,
                value: SstValueView::Int(s.n_processors),
            })
            &&& c[10] == (StepView::Setting {
                name: "step_ms"@,
                value: SstValueView::Int(s.step_ms),
            })
            &&& c[11] == (StepView::Setting {
                name: "length_ms"@,
                value: SstValueView::Int(s.length_ms),
            })
            &&& c[12] == (StepView::Setting {
                name: "keep_ms"@,
                value: SstValueView::Int(s.keep_ms),
            })
            &&& c[13] == (StepView::Setting {
                name: "vad_threshold"@,
                value: SstValueView::Real(s.vad_threshold),
            })
            &&& c[14] == (StepView::Setting {
                name: "vad_min_speech_duration_ms"@,
                value: SstValueView::Int(s.vad_min_speech_duration_ms),
            })
            &&& c[15] == (StepView::Setting {
                name: "vad_min_silence_duration_ms"@,
                value: SstValueView::Int(s.vad_min_silence_duration_ms),
            })
            &&& c[16] == (StepView::Setting {
                name: "vad_max_speech_duration_s"@,
                value: SstValueView::Real(s.vad_max_speech_duration_s),
            })
            &&& c[17] == (StepView::Setting {
                name: "vad_speech_pad_ms"@,
                value: SstValueView::Int(s.vad_speech_pad_ms),
            })
            &&& c[18] == (StepView::Setting {
                name: "vad_samples_overlap"@,
                value: SstValueView::Real(s.vad_samples_overlap),
            })
            &&& c.last() == (StepView::Setting {
                name: "model_path"@,
                value: SstValueView::Text(s.model_path),
            })
            &&& s.language matches Some(t) ==> c.contains(
                (StepView::Setting { name: "language"@, value: SstValueView::Text(t) }),
            )
            &&& s.initial_prompt matches Some(t) ==> c.contains(
                (StepView::Setting { name: "initial_prompt"@, value: SstValueView::Text(t) }),
            )
            &&& s.vad_model_path matches Some(t) ==> c.contains(
                (StepView::Setting { name: "vad_model_path"@, value: SstValueView::Text(t) }),
            )
        }),
{
    let steps = load_steps(s);
    let c = setting_steps(s);
    let made: int = if s.runtime is None {
        1
    } else {
        0
    };
    assert forall|k: int| 0 <= k < c.len() implies steps.contains(#[trigger] c[k]) by {
        assert(steps[made + k] == c[k]);
    }
    let a: int = if s.language is Some {
        1
    } else {
        0
    };
    let b: int = if s.initial_prompt is Some {
        1
    } else {
        0
    };
    if s.language is Some {
        assert(c[19] == (StepView::Setting {
            name: "language"@,
            value: SstValueView::Text(s.language->0),
        }));
    }
    if s.initial_prompt is Some {
        assert(c[19 + a] == (StepView::Setting {
            name: "initial_prompt"@,
            value: SstValueView::Text(s.initial_prompt->0),
        }));
    }
    if s.vad_model_path is Some {
        assert(c[19 + a + b] == (StepView::Setting {
            name: "vad_model_path"@,
            value: SstValueView::Text(s.vad_model_path->0),
        }));
    }
}

/// The steps run in order up to the first whose text holds a NUL, and that text is the error; where
/// there is none, all run.
pub proof fn law_steps_run_up_to_nul(steps: Seq<StepView>)
    ensures
        ({
            let run = steps_before_block(steps);
            &&& run.is_prefix_of(steps)
            &&& forall|i: int| 0 <= i < run.len() ==> !step_blocked(#[trigger] run[i])
            &&& steps_stop(steps) is None <==> run == steps
            &&& steps_stop(steps) matches Some(e) ==> run.len() < steps.len() && (step_text(
                steps[run.len() as int],
            ) matches Some(t) && native::has_nul(t) && e == ErrorView::NulByte(t))
        }),
    decreases steps.len(),
{
    if steps.len() > 0 && !step_blocked(steps[0]) {
        let rest = steps.subrange(1, steps.len() as int);
        law_steps_run_up_to_nul(rest);
        let run = steps_before_block(steps);
        let later = steps_before_block(rest);
        assert(run =~= seq![steps[0]] + later);
        assert(run.is_prefix_of(steps)) by {
            assert forall|i: int| 0 <= i < run.len() implies run[i] == steps[i] by {
                if i > 0 {
                    assert(later[i - 1] == rest[i - 1]);
                }
            }
            assert(run =~= steps.subrange(0, run.len() as int));
        }
        assert forall|i: int| 0 <= i < run.len() implies !step_blocked(#[trigger] run[i]) by {
            if i > 0 {
                assert(run[i] == later[i - 1]);
            }
        }
        assert(steps_stop(steps) == steps_stop(rest));
        if steps_stop(steps) is None {
            assert(later == rest);
            assert(run =~= steps);
        } else {
            assert(later.len() < rest.len());
            assert(steps[run.len() as int] == rest[later.len() as int]);
        }
    } else {
        assert(steps_before_block(steps) =~= Seq::<StepView>::empty());
        assert(steps_before_block(steps).is_prefix_of(steps));
        if steps.len() == 0 {
            assert(steps_before_block(steps) =~= steps);
        }
    }
}

/// A step that fails is named in its error, and one that succeeds does what it is for: the first keeps
/// the runtime that was made, the last marks it as loaded.
pub proof fn law_step_does_its_part(s: SstView, t: Seq<char>, name: Seq<char>, address: usize)
    ensures
        after_step(s, StepView::Create(t), address).runtime == Some(libia_sst { address }),
        after_step(s, StepView::Load, address).loaded,
        after_step(s, StepView::Load, address).runtime == s.runtime,
        forall|v: SstValueView|
            #![trigger step_failure(StepView::Setting { name, value: v })]
            step_failure(StepView::Setting { name, value: v }) == "failed to set "@ + name,
{
}

} // verus!
