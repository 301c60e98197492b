//! The program that writes down what is spoken: its arguments, the settings
//! that it gives the speech runtime, and when it takes something for speech.
//!
//! Numbers with a fraction and samples of sound are carried as bit patterns of
//! 64-bit and 32-bit floats.

use crate::config::is_blank;
use crate::native;
use crate::sst;
use crate::sst::{SstView, WhisperSst};
use crate::text;
use crate::text::same;
use vstd::prelude::*;

verus! {

pub const RESET: &'static str = "\x1b[0m";

pub const CYAN: &'static str = "\x1b[36;1m";

pub const GREEN: &'static str = "\x1b[32;1m";

pub const YELLOW: &'static str = "\x1b[33;1m";

pub const MAGENTA: &'static str = "\x1b[35;1m";

pub const RED: &'static str = "\x1b[31;1m";

pub const DEFAULT_SPEECH_MODEL: &'static str = "/home/johnathan/models/ggml-base.bin";

pub const DEFAULT_VAD_MODEL: &'static str = "/home/johnathan/CLionProjects/lib_ia/vendor/whisper.cpp/models/for-tests-silero-v6.2.0-ggml.bin";

/// What is printed where help is asked for.
pub const HELP: &'static str = "sst-inference\n\nUsage:\n  cargo run -p sst-inference -- --model /path/model.bin [options]\n\nOptions:\n  --model PATH\n  --vad-model PATH | --vad-model-path PATH\n  --language LANG\n  --initial-prompt TEXT | --prompt TEXT\n  --use-gpu\n  --flash-attn\n  --vad | --vad-enabled\n  --translate\n  --no-context\n  --no-timestamps\n  --print-special\n  --suppress-nst\n  --n-threads N\n  --n-processors N\n  --step-ms N\n  --length-ms N\n  --keep-ms N\n  --vad-threshold F\n  --vad-min-speech-duration-ms N\n  --vad-min-silence-duration-ms N\n  --vad-max-speech-duration-s F\n  --vad-speech-pad-ms N\n  --vad-samples-overlap F\n  --device NAME\n  --chunk-ms N\n  --list-devices\n";

/// Puts a text in a colour.
pub fn colorize(color: &str, text: &str) -> (r: String)
    ensures
        r@ == color@ + text@ + RESET@,
{
    text::cat3(color, text, RESET)
}

/// The line for a piece of text that was heard, if there is anything in it.
pub fn event_line(heard: &str) -> (r: Option<String>)
    ensures
        match r {
            Some(line) => text::trimmed(heard@).len() > 0 && line@ == GREEN@ + heard@ + RESET@,
            None => text::trimmed(heard@).len() == 0,
        },
{
    if is_blank(heard) {
        None
    } else {
        Some(colorize(GREEN, heard))
    }
}

/// The line for all that was said, if there is anything in it.
pub fn transcript_line(said: &str) -> (r: Option<String>)
    ensures
        match r {
            Some(line) => text::trimmed(said@).len() > 0 && line@ == GREEN@ + text::trimmed(said@)
                + RESET@,
            None => text::trimmed(said@).len() == 0,
        },
{
    if is_blank(said) {
        None
    } else {
        Some(colorize(GREEN, text::trim(said).as_str()))
    }
}

/// The first input device of a name.
pub fn find_device(names: &Vec<String>, name: &str) -> (r: Result<usize, String>)
    ensures
        match r {
            Ok(i) => i < names@.len() && names@[i as int]@ == name@ && forall|j: int|
                0 <= j < i ==> names@[j]@ != name@,
            Err(e) => e@ == "input device not found: "@ + name@ && forall|j: int|
                0 <= j < names@.len() ==> names@[j]@ != name@,
        },
{
    let mut i: usize = 0;
    while i < names.len()
        invariant
            i <= names.len(),
            forall|j: int| 0 <= j < i ==> names@[j]@ != name@,
        decreases names.len() - i,
    {
        if same(names[i].as_str(), name) {
            return Ok(i);
        }
        i = i + 1;
    }
    Err(text::cat2("input device not found: ", name))
}

/// What the environment says.
#[derive(Debug, PartialEq)]
pub struct SpeechEnv {
    pub model: Option<String>,
    pub whisper_model: Option<String>,
    pub vad_model: Option<String>,
    pub language: Option<String>,
    pub prompt: Option<String>,
}

/// The model for voice detection to look for.
pub open spec fn vad_candidate(e: SpeechEnv) -> Seq<char> {
    match e.vad_model {
        Some(p) => p@,
        None => DEFAULT_VAD_MODEL@,
    }
}

/// The model for voice detection to look for.
pub fn vad_model_candidate(e: &SpeechEnv) -> (r: String)
    ensures
        r@ == vad_candidate(*e),
{
    match &e.vad_model {
        Some(p) => p.as_str().to_string(),
        None => DEFAULT_VAD_MODEL.to_string(),
    }
}

/// What the arguments ask for.
#[derive(Debug, PartialEq)]
pub struct Opts {
    pub model_path: String,
    pub vad_model_path: Option<String>,
    pub language: Option<String>,
    pub initial_prompt: Option<String>,
    pub use_gpu: bool,
    pub flash_attn: bool,
    pub vad_enabled: bool,
    pub translate: bool,
    pub no_context: bool,
    pub no_timestamps: bool,
    pub print_special: bool,
    pub suppress_nst: bool,
    pub n_threads: Option<i64>,
    pub n_processors: Option<i64>,
    pub step_ms: Option<i64>,
    pub length_ms: Option<i64>,
    pub keep_ms: Option<i64>,
    pub vad_threshold: Option<u64>,
    pub vad_min_speech_duration_ms: Option<i64>,
    pub vad_min_silence_duration_ms: Option<i64>,
    pub vad_max_speech_duration_s: Option<u64>,
    pub vad_speech_pad_ms: Option<i64>,
    pub vad_samples_overlap: Option<u64>,
    pub device_name: Option<String>,
    pub list_devices: bool,
    pub chunk_ms: u64,
}

/// The model of what the arguments ask for.
#[verifier::ext_equal]
pub struct OptsView {
    pub model_path: Seq<char>,
    pub vad_model_path: Option<Seq<char>>,
    pub language: Option<Seq<char>>,
    pub initial_prompt: Option<Seq<char>>,
    pub use_gpu: bool,
    pub flash_attn: bool,
    pub vad_enabled: bool,
    pub translate: bool,
    pub no_context: bool,
    pub no_timestamps: bool,
    pub print_special: bool,
    pub suppress_nst: bool,
    pub n_threads: Option<i64>,
    pub n_processors: Option<i64>,
    pub step_ms: Option<i64>,
    pub length_ms: Option<i64>,
    pub keep_ms: Option<i64>,
    pub vad_threshold: Option<u64>,
    pub vad_min_speech_duration_ms: Option<i64>,
    pub vad_min_silence_duration_ms: Option<i64>,
    pub vad_max_speech_duration_s: Option<u64>,
    pub vad_speech_pad_ms: Option<i64>,
    pub vad_samples_overlap: Option<u64>,
    pub device_name: Option<Seq<char>>,
    pub list_devices: bool,
    pub chunk_ms: u64,
}

impl View for Opts {
    type V = OptsView;

    open spec fn view(&self) -> OptsView {
        OptsView {
            model_path: self.model_path@,
            vad_model_path: text::opt_view(self.vad_model_path),
            language: text::opt_view(self.language),
            initial_prompt: text::opt_view(self.initial_prompt),
            use_gpu: self.use_gpu,
            flash_attn: self.flash_attn,
            vad_enabled: self.vad_enabled,
            translate: self.translate,
            no_context: self.no_context,
            no_timestamps: self.no_timestamps,
            print_special: self.print_special,
            suppress_nst: self.suppress_nst,
            n_threads: self.n_threads,
            n_processors: self.n_processors,
            step_ms: self.step_ms,
            length_ms: self.length_ms,
            keep_ms: self.keep_ms,
            vad_threshold: self.vad_threshold,
            vad_min_speech_duration_ms: self.vad_min_speech_duration_ms,
            vad_min_silence_duration_ms: self.vad_min_silence_duration_ms,
            vad_max_speech_duration_s: self.vad_max_speech_duration_s,
            vad_speech_pad_ms: self.vad_speech_pad_ms,
            vad_samples_overlap: self.vad_samples_overlap,
            device_name: text::opt_view(self.device_name),
            list_devices: self.list_devices,
            chunk_ms: self.chunk_ms,
        }
    }
}

/// What is asked for before any argument; `vad_there` says that the model for
/// voice detection is there.
pub open spec fn env_opts(e: SpeechEnv, vad_there: bool) -> OptsView {
    OptsView {
        model_path: match e.model {
            Some(m) => m@,
            None => match e.whisper_model {
                Some(m) => m@,
                None => DEFAULT_SPEECH_MODEL@,
            },
        },
        vad_model_path: if vad_there {
            Some(vad_candidate(e))
        } else {
            None
        },
        language: match e.language {
            Some(l) => Some(l@),
            None => Some("pt"@),
        },
        initial_prompt: text::opt_view(e.prompt),
        use_gpu: false,
        flash_attn: false,
        vad_enabled: false,
        translate: false,
        no_context: false,
        no_timestamps: false,
        print_special: false,
        suppress_nst: false,
        n_threads: None,
        n_processors: None,
        step_ms: Some(0),
        length_ms: Some(4000),
        keep_ms: Some(200),
        vad_threshold: None,
        vad_min_speech_duration_ms: None,
        vad_min_silence_duration_ms: None,
        vad_max_speech_duration_s: None,
        vad_speech_pad_ms: None,
        vad_samples_overlap: None,
        device_name: None,
        list_devices: false,
        chunk_ms: 250,
    }
}

/// What is asked for once an option has a text; none for another option.
pub open spec fn with_text(o: OptsView, flag: Seq<char>, v: Seq<char>) -> Option<OptsView> {
    if flag == "--model"@ {
        Some(OptsView { model_path: v, ..o })
    } else if flag == "--vad-model"@ || flag == "--vad-model-path"@ {
        Some(OptsView { vad_model_path: Some(v), ..o })
    } else if flag == "--language"@ {
        Some(OptsView { language: Some(v), ..o })
    } else if flag == "--initial-prompt"@ || flag == "--prompt"@ {
        Some(OptsView { initial_prompt: Some(v), ..o })
    } else if flag == "--device"@ {
        Some(OptsView { device_name: Some(v), ..o })
    } else {
        None
    }
}

/// What is asked for once a switch is there; none for another option.
pub open spec fn with_switch(o: OptsView, flag: Seq<char>) -> Option<OptsView> {
    if flag == "--use-gpu"@ {
        Some(OptsView { use_gpu: true, ..o })
    } else if flag == "--flash-attn"@ {
        Some(OptsView { flash_attn: true, ..o })
    } else if flag == "--vad"@ || flag == "--vad-enabled"@ {
        Some(OptsView { vad_enabled: true, ..o })
    } else if flag == "--translate"@ {
        Some(OptsView { translate: true, ..o })
    } else if flag == "--no-context"@ {
        Some(OptsView { no_context: true, ..o })
    } else if flag == "--no-timestamps"@ {
        Some(OptsView { no_timestamps: true, ..o })
    } else if flag == "--print-special"@ {
        Some(OptsView { print_special: true, ..o })
    } else if flag == "--suppress-nst"@ {
        Some(OptsView { suppress_nst: true, ..o })
    } else if flag == "--list-devices"@ {
        Some(OptsView { list_devices: true, ..o })
    } else {
        None
    }
}

/// What is asked for once an option has an integer; none for another option.
pub open spec fn with_int(o: OptsView, flag: Seq<char>, n: i64) -> Option<OptsView> {
    if flag == "--n-threads"@ {
        Some(OptsView { n_threads: Some(n), ..o })
    } else if flag == "--n-processors"@ {
        Some(OptsView { n_processors: Some(n), ..o })
    } else if flag == "--step-ms"@ {
        Some(OptsView { step_ms: Some(n), ..o })
    } else if flag == "--length-ms"@ {
        Some(OptsView { length_ms: Some(n), ..o })
    } else if flag == "--keep-ms"@ {
        Some(OptsView { keep_ms: Some(n), ..o })
    } else if flag == "--vad-min-speech-duration-ms"@ {
        Some(OptsView { vad_min_speech_duration_ms: Some(n), ..o })
    } else if flag == "--vad-min-silence-duration-ms"@ {
        Some(OptsView { vad_min_silence_duration_ms: Some(n), ..o })
    } else if flag == "--vad-speech-pad-ms"@ {
        Some(OptsView { vad_speech_pad_ms: Some(n), ..o })
    } else {
        None
    }
}

/// What is asked for once an option has a number with a fraction; none for
/// another option.
pub open spec fn with_real(o: OptsView, flag: Seq<char>, bits: u64) -> Option<OptsView> {
    if flag == "--vad-threshold"@ {
        Some(OptsView { vad_threshold: Some(bits), ..o })
    } else if flag == "--vad-max-speech-duration-s"@ {
        Some(OptsView { vad_max_speech_duration_s: Some(bits), ..o })
    } else if flag == "--vad-samples-overlap"@ {
        Some(OptsView { vad_samples_overlap: Some(bits), ..o })
    } else {
        None
    }
}

/// The options that take a text.
pub open spec fn takes_text(flag: Seq<char>) -> bool {
    ||| flag == "--model"@
    ||| flag == "--vad-model"@
    ||| flag == "--vad-model-path"@
    ||| flag == "--language"@
    ||| flag == "--initial-prompt"@
    ||| flag == "--prompt"@
    ||| flag == "--device"@
}

/// The options that take an integer.
pub open spec fn takes_int(flag: Seq<char>) -> bool {
    ||| flag == "--n-threads"@
    ||| flag == "--n-processors"@
    ||| flag == "--step-ms"@
    ||| flag == "--length-ms"@
    ||| flag == "--keep-ms"@
    ||| flag == "--vad-min-speech-duration-ms"@
    ||| flag == "--vad-min-silence-duration-ms"@
    ||| flag == "--vad-speech-pad-ms"@
}

/// The options that take a number with a fraction.
pub open spec fn takes_real(flag: Seq<char>) -> bool {
    ||| flag == "--vad-threshold"@
    ||| flag == "--vad-max-speech-duration-s"@
    ||| flag == "--vad-samples-overlap"@
}

/// The options that take a value.
pub open spec fn takes_value(flag: Seq<char>) -> bool {
    takes_text(flag) || flag == "--chunk-ms"@ || takes_int(flag) || takes_real(flag)
}

/// What is asked for once an option has its value. `bits` is the value as a
/// number with a fraction, if it is one.
pub open spec fn with_value(o: OptsView, flag: Seq<char>, v: Seq<char>, bits: Option<u64>) -> Result<
    OptsView,
    Seq<char>,
> {
    if takes_text(flag) {
        Ok(with_text(o, flag, v)->0)
    } else if flag == "--chunk-ms"@ {
        if text::has_prefix(v, seq!['-']) {
            Err("invalid "@ + flag)
        } else {
            match text::int_value_in(v, 0, u64::MAX as int) {
                Some(n) => Ok(OptsView { chunk_ms: n as u64, ..o }),
                None => Err("invalid "@ + flag),
            }
        }
    } else if takes_int(flag) {
        match text::int_value_in(v, i64::MIN as int, i64::MAX as int) {
            Some(n) => Ok(with_int(o, flag, n as i64)->0),
            None => Err("invalid "@ + flag),
        }
    } else {
        match bits {
            Some(b) => Ok(with_real(o, flag, b)->0),
            None => Err("invalid "@ + flag),
        }
    }
}

/// What an argument that takes no value asks for.
pub open spec fn with_word(o: OptsView, arg: Seq<char>) -> Result<OptsView, Seq<char>> {
    match with_switch(o, arg) {
        Some(next) => Ok(next),
        None => if text::has_prefix(arg, "-"@) {
            Err("unknown flag: "@ + arg)
        } else if o.model_path == DEFAULT_SPEECH_MODEL@ {
            Ok(OptsView { model_path: arg, ..o })
        } else {
            Err("unexpected positional argument: "@ + arg)
        },
    }
}

/// What the arguments from index `i` on ask for beyond `o`: nothing where help
/// is asked for, and the first error where there is one. `reals` holds each
/// argument as a number with a fraction, if it is one.
pub open spec fn opts_from(
    args: Seq<Seq<char>>,
    reals: Seq<Option<u64>>,
    i: int,
    o: OptsView,
) -> Result<Option<OptsView>, Seq<char>>
    decreases args.len() - i,
{
    if i < 0 || i >= args.len() {
        Ok(Some(o))
    } else if args[i] == "--help"@ || args[i] == "-h"@ {
        Ok(None)
    } else if takes_value(args[i]) {
        if i + 1 >= args.len() {
            Err("missing value for "@ + args[i])
        } else {
            match with_value(o, args[i], args[i + 1], reals[i + 1]) {
                Err(e) => Err(e),
                Ok(next) => opts_from(args, reals, i + 2, next),
            }
        }
    } else {
        match with_word(o, args[i]) {
            Err(e) => Err(e),
            Ok(next) => opts_from(args, reals, i + 1, next),
        }
    }
}

/// The model of what reading the arguments leads to.
pub open spec fn read_view(r: Result<Option<Opts>, String>) -> Result<Option<OptsView>, Seq<char>> {
    match r {
        Ok(o) => Ok(text::opt_view(o)),
        Err(e) => Err(e@),
    }
}

fn is_text(flag: &str) -> (r: bool)
    ensures
        r == takes_text(flag@),
{
    same(flag, "--model") || same(flag, "--vad-model") || same(flag, "--vad-model-path") || same(
        flag,
        "--language",
    ) || same(flag, "--initial-prompt") || same(flag, "--prompt") || same(flag, "--device")
}

fn is_int(flag: &str) -> (r: bool)
    ensures
        r == takes_int(flag@),
{
    same(flag, "--n-threads") || same(flag, "--n-processors") || same(flag, "--step-ms") || same(
        flag,
        "--length-ms",
    ) || same(flag, "--keep-ms") || same(flag, "--vad-min-speech-duration-ms") || same(
        flag,
        "--vad-min-silence-duration-ms",
    ) || same(flag, "--vad-speech-pad-ms")
}

fn is_real(flag: &str) -> (r: bool)
    ensures
        r == takes_real(flag@),
{
    same(flag, "--vad-threshold") || same(flag, "--vad-max-speech-duration-s") || same(
        flag,
        "--vad-samples-overlap",
    )
}

impl Opts {
    fn from_env(e: &SpeechEnv, vad_there: bool) -> (r: Opts)
        ensures
            r@ == env_opts(*e, vad_there),
    {
        let model_path = match &e.model {
            Some(m) => m.as_str().to_string(),
            None => match &e.whisper_model {
                Some(m) => m.as_str().to_string(),
                None => DEFAULT_SPEECH_MODEL.to_string(),
            },
        };
        let language = match &e.language {
            Some(l) => l.as_str().to_string(),
            None => "pt".to_string(),
        };
        Opts {
            model_path,
            vad_model_path: if vad_there {
                Some(vad_model_candidate(e))
            } else {
                None
            },
            language: Some(language),
            initial_prompt: text::copy_opt(&e.prompt),
            use_gpu: false,
            flash_attn: false,
            vad_enabled: false,
            translate: false,
            no_context: false,
            no_timestamps: false,
            print_special: false,
            suppress_nst: false,
            n_threads: None,
            n_processors: None,
            step_ms: Some(0),
            length_ms: Some(4000),
            keep_ms: Some(200),
            vad_threshold: None,
            vad_min_speech_duration_ms: None,
            vad_min_silence_duration_ms: None,
            vad_max_speech_duration_s: None,
            vad_speech_pad_ms: None,
            vad_samples_overlap: None,
            device_name: None,
            list_devices: false,
            chunk_ms: 250,
        }
    }

    fn set_text(&mut self, flag: &str, v: &str)
        requires
            takes_text(flag@),
        ensures
            with_text(old(self)@, flag@, v@) == Some(final(self)@),
    {
        let value = v.to_string();
        if same(flag, "--model") {
            self.model_path = value;
        } else if same(flag, "--vad-model") || same(flag, "--vad-model-path") {
            self.vad_model_path = Some(value);
        } else if same(flag, "--language") {
            self.language = Some(value);
        } else if same(flag, "--initial-prompt") || same(flag, "--prompt") {
            self.initial_prompt = Some(value);
        } else {
            self.device_name = Some(value);
        }
    }

    fn set_int(&mut self, flag: &str, n: i64)
        requires
            takes_int(flag@),
        ensures
            with_int(old(self)@, flag@, n) == Some(final(self)@),
    {
        if same(flag, "--n-threads") {
            self.n_threads = Some(n);
        } else if same(flag, "--n-processors") {
            self.n_processors = Some(n);
        } else if same(flag, "--step-ms") {
            self.step_ms = Some(n);
        } else if same(flag, "--length-ms") {
            self.length_ms = Some(n);
        } else if same(flag, "--keep-ms") {
            self.keep_ms = Some(n);
        } else if same(flag, "--vad-min-speech-duration-ms") {
            self.vad_min_speech_duration_ms = Some(n);
        } else if same(flag, "--vad-min-silence-duration-ms") {
            self.vad_min_silence_duration_ms = Some(n);
        } else {
            self.vad_speech_pad_ms = Some(n);
        }
    }

    fn set_real(&mut self, flag: &str, bits: u64)
        requires
            takes_real(flag@),
        ensures
            with_real(old(self)@, flag@, bits) == Some(final(self)@),
    {
        if same(flag, "--vad-threshold") {
            self.vad_threshold = Some(bits);
        } else if same(flag, "--vad-max-speech-duration-s") {
            self.vad_max_speech_duration_s = Some(bits);
        } else {
            self.vad_samples_overlap = Some(bits);
        }
    }

    fn set_switch(&mut self, flag: &str) -> (r: bool)
        ensures
            match with_switch(old(self)@, flag@) {
                Some(next) => r && final(self)@ == next,
                None => !r && final(self)@ == old(self)@,
            },
    {
        if same(flag, "--use-gpu") {
            self.use_gpu = true;
        } else if same(flag, "--flash-attn") {
            self.flash_attn = true;
        } else if same(flag, "--vad") || same(flag, "--vad-enabled") {
            self.vad_enabled = true;
        } else if same(flag, "--translate") {
            self.translate = true;
        } else if same(flag, "--no-context") {
            self.no_context = true;
        } else if same(flag, "--no-timestamps") {
            self.no_timestamps = true;
        } else if same(flag, "--print-special") {
            self.print_special = true;
        } else if same(flag, "--suppress-nst") {
            self.suppress_nst = true;
        } else if same(flag, "--list-devices") {
            self.list_devices = true;
        } else {
            return false;
        }
        true
    }

    fn set_value(&mut self, flag: &str, v: &str, bits: Option<u64>) -> (r: Result<(), String>)
        requires
            takes_value(flag@),
        ensures
            match with_value(old(self)@, flag@, v@, bits) {
                Ok(next) => r is Ok && final(self)@ == next,
                Err(e) => r matches Err(said) && said@ == e,
            },
    {
        if is_text(flag) {
            self.set_text(flag, v);
            return Ok(());
        }
        if same(flag, "--chunk-ms") {
            return match text::parse_u64(v) {
                Some(n) => {
                    self.chunk_ms = n;
                    Ok(())
                },
                None => Err(text::cat2("invalid ", flag)),
            };
        }
        if is_int(flag) {
            return match text::parse_i64(v) {
                Some(n) => {
                    self.set_int(flag, n);
                    Ok(())
                },
                None => Err(text::cat2("invalid ", flag)),
            };
        }
        match bits {
            Some(b) => {
                self.set_real(flag, b);
                Ok(())
            },
            None => Err(text::cat2("invalid ", flag)),
        }
    }

    fn set_word(&mut self, arg: &str) -> (r: Result<(), String>)
        ensures
            match with_word(old(self)@, arg@) {
                Ok(next) => r is Ok && final(self)@ == next,
                Err(e) => r matches Err(said) && said@ == e,
            },
    {
        if self.set_switch(arg) {
            return Ok(());
        }
        if text::starts_with(arg, "-") {
            return Err(text::cat2("unknown flag: ", arg));
        }
        if same(self.model_path.as_str(), DEFAULT_SPEECH_MODEL) {
            self.model_path = arg.to_string();
            Ok(())
        } else {
            Err(text::cat2("unexpected positional argument: ", arg))
        }
    }

    /// Reads the arguments behind the program's name. `reals` holds each of
    /// them as a number with a fraction, if it is one; `vad_there` says that
    /// the model for voice detection is there. Gives nothing where help is
    /// asked for.
    pub fn parse(
        args: &Vec<String>,
        reals: &Vec<Option<u64>>,
        env: &SpeechEnv,
        vad_there: bool,
    ) -> (r: Result<Option<Opts>, String>)
        requires
            reals@.len() == args@.len(),
        ensures
            read_view(r) == opts_from(
                text::views(args@),
                reals@,
                0,
                env_opts(*env, vad_there),
            ),
    {
        let ghost all = text::views(args@);
        let ghost start = env_opts(*env, vad_there);
        let mut opts = Opts::from_env(env, vad_there);
        let mut i: usize = 0;
        while i < args.len()
            invariant
                i <= args.len(),
                reals@.len() == args@.len(),
                all == text::views(args@),
                start == env_opts(*env, vad_there),
                opts_from(all, reals@, 0, start) == opts_from(all, reals@, i as int, opts@),
            decreases args.len() - i,
        {
            let arg = args[i].as_str();
            assert(all[i as int] == arg@);
            if same(arg, "--help") || same(arg, "-h") {
                return Ok(None);
            }
            if is_text(arg) || same(arg, "--chunk-ms") || is_int(arg) || is_real(arg) {
                if args.len() - i <= 1 {
                    return Err(text::cat2("missing value for ", arg));
                }
                assert(all[i + 1] == args@[i + 1]@);
                match opts.set_value(arg, args[i + 1].as_str(), reals[i + 1]) {
                    Err(e) => {
                        return Err(e);
                    },
                    Ok(_) => {},
                }
                i = i + 2;
            } else {
                match opts.set_word(arg) {
                    Err(e) => {
                        return Err(e);
                    },
                    Ok(_) => {},
                }
                i = i + 1;
            }
        }
        Ok(Some(opts))
    }
}

/// Of an option that is given more than once the last value counts.
pub proof fn law_last_option_counts(
    o: OptsView,
    flag: Seq<char>,
    first: Seq<char>,
    first_bits: Option<u64>,
    last: Seq<char>,
    last_bits: Option<u64>,
)
    requires
        takes_value(flag),
    ensures
        match with_value(o, flag, first, first_bits) {
            Ok(next) => with_value(next, flag, last, last_bits) == with_value(
                o,
                flag,
                last,
                last_bits,
            ),
            Err(_) => true,
        },
{
}

/// A property of the speech runtime and its value; a number with a fraction
/// comes as bits.
#[derive(Debug, PartialEq)]
pub struct SpeechProp {
    pub name: String,
    pub value: String,
    pub bits: Option<u64>,
}

/// The model of a property and its value.
#[verifier::ext_equal]
pub struct PropView {
    pub name: Seq<char>,
    pub value: Seq<char>,
    pub bits: Option<u64>,
}

impl View for SpeechProp {
    type V = PropView;

    open spec fn view(&self) -> PropView {
        PropView { name: self.name@, value: self.value@, bits: self.bits }
    }
}

/// A property that takes a text.
pub open spec fn text_prop(name: Seq<char>, value: Seq<char>) -> PropView {
    PropView { name, value, bits: None }
}

/// A property that takes a text, where there is one.
pub open spec fn some_text(name: Seq<char>, value: Option<Seq<char>>) -> Seq<PropView> {
    match value {
        Some(v) => seq![text_prop(name, v)],
        None => Seq::empty(),
    }
}

/// A property that takes a yes or no.
pub open spec fn flag_prop(name: Seq<char>, on: bool) -> PropView {
    text_prop(
        name,
        if on {
            "true"@
        } else {
            "false"@
        },
    )
}

/// A property that takes an integer, where there is one.
pub open spec fn some_int(name: Seq<char>, n: Option<i64>) -> Seq<PropView> {
    match n {
        Some(n) => seq![text_prop(name, text::decimal_int(n as int))],
        None => Seq::empty(),
    }
}

/// A property that takes a number with a fraction, where there is one.
pub open spec fn some_real(name: Seq<char>, bits: Option<u64>) -> Seq<PropView> {
    match bits {
        Some(b) => seq![PropView { name, value: Seq::empty(), bits: Some(b) }],
        None => Seq::empty(),
    }
}

/// The properties that the speech runtime is given, in their order.
pub open spec fn props_of(o: OptsView) -> Seq<PropView> {
    seq![text_prop("--model"@, o.model_path)] + some_text("--vad-model-path"@, o.vad_model_path)
        + some_text("--language"@, o.language) + some_text("--initial-prompt"@, o.initial_prompt)
        + seq![
        flag_prop("--use-gpu"@, o.use_gpu),
        flag_prop("--flash-attn"@, o.flash_attn),
        flag_prop("--vad-enabled"@, o.vad_enabled),
        flag_prop("--translate"@, o.translate),
        flag_prop("--no-context"@, o.no_context),
        flag_prop("--no-timestamps"@, o.no_timestamps),
        flag_prop("--print-special"@, o.print_special),
        flag_prop("--suppress-nst"@, o.suppress_nst),
    ] + some_int("--n-threads"@, o.n_threads) + some_int("--n-processors"@, o.n_processors)
        + some_int("--step-ms"@, o.step_ms) + some_int("--length-ms"@, o.length_ms) + some_int(
        "--keep-ms"@,
        o.keep_ms,
    ) + some_real("--vad-threshold"@, o.vad_threshold) + some_int(
        "--vad-min-speech-duration-ms"@,
        o.vad_min_speech_duration_ms,
    ) + some_int("--vad-min-silence-duration-ms"@, o.vad_min_silence_duration_ms) + some_real(
        "--vad-max-speech-duration-s"@,
        o.vad_max_speech_duration_s,
    ) + some_int("--vad-speech-pad-ms"@, o.vad_speech_pad_ms) + some_real(
        "--vad-samples-overlap"@,
        o.vad_samples_overlap,
    )
}

fn add_text(props: &mut Vec<SpeechProp>, name: &str, value: &Option<String>)
    ensures
        text::views(final(props)@) == text::views(old(props)@) + some_text(
            name@,
            text::opt_view(*value),
        ),
{
    match value {
        Some(v) => {
            props.push(
                SpeechProp {
                    name: name.to_string(),
                    value: v.as_str().to_string(),
                    bits: None,
                },
            );
        },
        None => {},
    }
    assert(text::views(props@) =~= text::views(old(props)@) + some_text(
        name@,
        text::opt_view(*value),
    ));
}

fn add_flag(props: &mut Vec<SpeechProp>, name: &str, on: bool)
    ensures
        text::views(final(props)@) == text::views(old(props)@).push(flag_prop(name@, on)),
{
    broadcast use text::lemma_views_push;

    props.push(
        SpeechProp {
            name: name.to_string(),
            value: (if on {
                "true"
            } else {
                "false"
            }).to_string(),
            bits: None,
        },
    );
}

fn add_int(props: &mut Vec<SpeechProp>, name: &str, n: Option<i64>)
    ensures
        text::views(final(props)@) == text::views(old(props)@) + some_int(name@, n),
{
    match n {
        Some(n) => {
            props.push(
                SpeechProp { name: name.to_string(), value: text::write_i64(n), bits: None },
            );
        },
        None => {},
    }
    assert(text::views(props@) =~= text::views(old(props)@) + some_int(name@, n));
}

fn add_real(props: &mut Vec<SpeechProp>, name: &str, bits: Option<u64>)
    ensures
        text::views(final(props)@) == text::views(old(props)@) + some_real(name@, bits),
{
    match bits {
        Some(b) => {
            let none = String::new();
            assert(none@ =~= Seq::empty());
            props.push(SpeechProp { name: name.to_string(), value: none, bits: Some(b) });
        },
        None => {},
    }
    assert(text::views(props@) =~= text::views(old(props)@) + some_real(name@, bits));
}

/// What the switches are set to.
spec fn switches(o: OptsView) -> Seq<PropView> {
    seq![
        flag_prop("--use-gpu"@, o.use_gpu),
        flag_prop("--flash-attn"@, o.flash_attn),
        flag_prop("--vad-enabled"@, o.vad_enabled),
        flag_prop("--translate"@, o.translate),
        flag_prop("--no-context"@, o.no_context),
        flag_prop("--no-timestamps"@, o.no_timestamps),
        flag_prop("--print-special"@, o.print_special),
        flag_prop("--suppress-nst"@, o.suppress_nst),
    ]
}

/// Adds what the switches are set to.
fn add_switches(props: &mut Vec<SpeechProp>, o: &Opts)
    ensures
        text::views(final(props)@) == text::views(old(props)@) + switches(o@),
{
    add_flag(props, "--use-gpu", o.use_gpu);
    add_flag(props, "--flash-attn", o.flash_attn);
    add_flag(props, "--vad-enabled", o.vad_enabled);
    add_flag(props, "--translate", o.translate);
    add_flag(props, "--no-context", o.no_context);
    add_flag(props, "--no-timestamps", o.no_timestamps);
    add_flag(props, "--print-special", o.print_special);
    add_flag(props, "--suppress-nst", o.suppress_nst);
    assert(text::views(props@) =~= text::views(old(props)@) + switches(o@));
}

/// The properties that the speech runtime is given, in their order.
pub fn config_props(o: &Opts) -> (r: Vec<SpeechProp>)
    ensures
        text::views(r@) == props_of(o@),
{
    let mut props: Vec<SpeechProp> = Vec::new();
    props.push(
        SpeechProp {
            name: "--model".to_string(),
            value: o.model_path.as_str().to_string(),
            bits: None,
        },
    );
    assert(text::views(props@) =~= seq![text_prop("--model"@, o.model_path@)]);
    add_text(&mut props, "--vad-model-path", &o.vad_model_path);
    add_text(&mut props, "--language", &o.language);
    add_text(&mut props, "--initial-prompt", &o.initial_prompt);
    add_switches(&mut props, o);
    add_int(&mut props, "--n-threads", o.n_threads);
    add_int(&mut props, "--n-processors", o.n_processors);
    add_int(&mut props, "--step-ms", o.step_ms);
    add_int(&mut props, "--length-ms", o.length_ms);
    add_int(&mut props, "--keep-ms", o.keep_ms);
    add_real(&mut props, "--vad-threshold", o.vad_threshold);
    add_int(&mut props, "--vad-min-speech-duration-ms", o.vad_min_speech_duration_ms);
    add_int(&mut props, "--vad-min-silence-duration-ms", o.vad_min_silence_duration_ms);
    add_real(&mut props, "--vad-max-speech-duration-s", o.vad_max_speech_duration_s);
    add_int(&mut props, "--vad-speech-pad-ms", o.vad_speech_pad_ms);
    add_real(&mut props, "--vad-samples-overlap", o.vad_samples_overlap);
    props
}

/// The speech runtime after it was given properties.
pub open spec fn given(s: SstView, props: Seq<PropView>) -> SstView
    decreases props.len(),
{
    if props.len() == 0 {
        s
    } else {
        let p = props.last();
        SstView {
            loaded: false,
            ..sst::charged(
                given(s, props.drop_last()),
                native::prop_name(p.name),
                p.value,
                p.bits,
            )
        }
    }
}

/// Gives the speech runtime what the arguments ask for.
pub fn apply_config(engine: &mut WhisperSst, opts: &Opts)
    ensures
        final(engine)@ == given(old(engine)@, props_of(opts@)),
{
    let props = config_props(opts);
    let ghost all = text::views(props@);
    let ghost start = engine@;
    let mut i: usize = 0;
    assert(all.subrange(0, 0) =~= Seq::empty());
    while i < props.len()
        invariant
            i <= props.len(),
            all == text::views(props@),
            engine@ == given(start, all.subrange(0, i as int)),
        decreases props.len() - i,
    {
        proof {
            let next = all.subrange(0, i + 1);
            assert(next.drop_last() =~= all.subrange(0, i as int));
            assert(next.last() == props@[i as int]@);
        }
        let p = &props[i];
        engine.charge_prop(p.name.as_str(), p.value.as_str(), p.bits);
        i = i + 1;
    }
    assert(all.subrange(0, all.len() as int) =~= all);
}

/// The samples in some milliseconds, at least one.
pub open spec fn samples_in(rate: nat, ms: nat) -> nat {
    let n = rate * ms / 1000;
    if n > 0 {
        n
    } else {
        1
    }
}

fn count_samples(rate: u32, ms: u32) -> (r: u64)
    requires
        ms <= 10000,
    ensures
        r == samples_in(rate as nat, ms as nat),
        r <= 42949672950,
{
    assert(rate * ms <= 42949672950000) by (nonlinear_arith)
        requires
            rate <= 0xffff_ffff,
            ms <= 10000,
    ;
    assert(0 <= rate * ms) by (nonlinear_arith);
    let n: u64 = (rate as u64) * (ms as u64) / 1000;
    if n > 0 {
        n
    } else {
        1
    }
}

/// How many of the last samples are held against all: none where there are not
/// more than those.
pub fn last_window(n_samples: usize, sample_rate: u32, last_ms: u32) -> (r: Option<u64>)
    ensures
        match r {
            Some(n) => n == sample_rate as nat * last_ms as nat / 1000 && n < n_samples,
            None => sample_rate as nat * last_ms as nat / 1000 >= n_samples,
        },
{
    assert(sample_rate * last_ms <= 0xffff_ffff * 0xffff_ffff) by (nonlinear_arith)
        requires
            sample_rate <= 0xffff_ffff,
            last_ms <= 0xffff_ffff,
    ;
    assert(0 <= sample_rate * last_ms) by (nonlinear_arith);
    let n: u64 = (sample_rate as u64) * (last_ms as u64) / 1000;
    if n < n_samples as u64 {
        Some(n)
    } else {
        None
    }
}

/// What listens for speech: the samples that came last, those of the speech
/// under way, and for how often it was heard or not.
#[derive(Debug, PartialEq)]
pub struct Listener {
    pub voice_samples: u64,
    pub probe_samples: u64,
    pub limit: u64,
    pub history: Vec<u32>,
    pub recording: Vec<u32>,
    pub active: bool,
    pub speech_hits: usize,
    pub silence_hits: usize,
}

/// The model of what listens.
#[verifier::ext_equal]
pub struct ListenerView {
    pub voice_samples: nat,
    pub probe_samples: nat,
    pub limit: nat,
    pub history: Seq<u32>,
    pub recording: Seq<u32>,
    pub active: bool,
    pub speech_hits: nat,
    pub silence_hits: nat,
}

impl View for Listener {
    type V = ListenerView;

    open spec fn view(&self) -> ListenerView {
        ListenerView {
            voice_samples: self.voice_samples as nat,
            probe_samples: self.probe_samples as nat,
            limit: self.limit as nat,
            history: self.history@,
            recording: self.recording@,
            active: self.active,
            speech_hits: self.speech_hits as nat,
            silence_hits: self.silence_hits as nat,
        }
    }
}

/// What has to be found out of the samples next.
#[derive(Debug, Clone, Copy, PartialEq, Eq, Structural)]
pub enum Probe {
    /// Nothing yet.
    Wait,
    /// Whether the speech under way goes on.
    StillSpeaking,
    /// Whether the samples are loud enough, and then whether they are speech.
    Heard,
}

/// One more, as far as can be counted.
pub open spec fn one_more(n: nat) -> nat {
    if n < usize::MAX {
        n + 1
    } else {
        n
    }
}

/// The last samples, as many as are kept.
pub open spec fn kept_last(s: Seq<u32>, limit: nat) -> Seq<u32> {
    if s.len() > limit {
        s.skip(s.len() - limit)
    } else {
        s
    }
}

/// What listens after some samples.
pub open spec fn took(l: ListenerView, chunk: Seq<u32>) -> ListenerView {
    ListenerView {
        recording: if l.active {
            l.recording + chunk
        } else {
            l.recording
        },
        history: kept_last(l.history + chunk, l.limit),
        ..l
    }
}

/// What listens once a speech is over.
pub open spec fn fell_silent(l: ListenerView) -> ListenerView {
    ListenerView {
        recording: Seq::empty(),
        history: Seq::empty(),
        active: false,
        speech_hits: 0,
        silence_hits: 0,
        ..l
    }
}

/// What has to be found out next.
pub open spec fn probe_of(l: ListenerView) -> Probe {
    if l.active {
        Probe::StillSpeaking
    } else if l.history.len() < l.probe_samples {
        Probe::Wait
    } else {
        Probe::Heard
    }
}

/// What listens after it was found whether the speech goes on, and the speech
/// where it is over.
pub open spec fn went_on(l: ListenerView, speech: bool) -> (ListenerView, Option<Seq<u32>>) {
    let silence = if speech {
        0
    } else {
        one_more(l.silence_hits)
    };
    if l.recording.len() >= l.voice_samples || silence >= 4 {
        (fell_silent(l), Some(l.recording))
    } else {
        (ListenerView { silence_hits: silence, ..l }, None)
    }
}

/// What listens after it was found whether there is speech. A speech begins
/// with the second time in a row, unless another one ended just before; the
/// speech is handed out where it is already long enough.
pub open spec fn heard(l: ListenerView, speech: bool, rested: bool) -> (
    ListenerView,
    bool,
    Option<Seq<u32>>,
) {
    let hits = if speech {
        one_more(l.speech_hits)
    } else {
        0
    };
    if hits >= 2 && !l.active && rested {
        if l.history.len() >= l.voice_samples {
            (
                ListenerView {
                    recording: Seq::empty(),
                    history: Seq::empty(),
                    active: false,
                    speech_hits: 0,
                    silence_hits: 0,
                    ..l
                },
                true,
                Some(l.history),
            )
        } else {
            (
                ListenerView {
                    recording: l.history,
                    active: true,
                    speech_hits: hits,
                    silence_hits: 0,
                    ..l
                },
                true,
                None,
            )
        }
    } else {
        (ListenerView { speech_hits: hits, ..l }, false, None)
    }
}

impl Listener {
    /// A listener for sound of a rate: ten seconds of speech at most, a probe
    /// of a second and a quarter, and a quarter of a second kept before it.
    pub fn new(sample_rate: u32) -> (r: Listener)
        ensures
            r@ == (ListenerView {
                voice_samples: samples_in(sample_rate as nat, 10000),
                probe_samples: samples_in(sample_rate as nat, 1250),
                limit: samples_in(sample_rate as nat, 1250) + samples_in(sample_rate as nat, 250),
                history: Seq::empty(),
                recording: Seq::empty(),
                active: false,
                speech_hits: 0,
                silence_hits: 0,
            }),
    {
        let probe = count_samples(sample_rate, 1250);
        let keep = count_samples(sample_rate, 250);
        Listener {
            voice_samples: count_samples(sample_rate, 10000),
            probe_samples: probe,
            limit: probe + keep,
            history: Vec::new(),
            recording: Vec::new(),
            active: false,
            speech_hits: 0,
            silence_hits: 0,
        }
    }

    /// Takes samples.
    pub fn on_chunk(&mut self, chunk: &Vec<u32>)
        ensures
            final(self)@ == took(old(self)@, chunk@),
    {
        if self.active {
            append(&mut self.recording, chunk);
        }
        append(&mut self.history, chunk);
        let n: usize = self.history.len();
        if n as u64 > self.limit {
            let from: usize = n - self.limit as usize;
            let mut rest: Vec<u32> = Vec::new();
            let mut i: usize = from;
            while i < n
                invariant
                    from <= i <= n,
                    n == self.history.len(),
                    rest@ == self.history@.subrange(from as int, i as int),
                decreases n - i,
            {
                rest.push(self.history[i]);
                assert(self.history@.subrange(from as int, i + 1) =~= self.history@.subrange(
                    from as int,
                    i as int,
                ).push(self.history@[i as int]));
                i = i + 1;
            }
            assert(rest@ =~= self.history@.skip(from as int));
            self.history = rest;
        }
        assert(self@ =~= took(old(self)@, chunk@));
    }

    /// What has to be found out of the samples next.
    pub fn probe(&self) -> (r: Probe)
        ensures
            r == probe_of(self@),
    {
        if self.active {
            Probe::StillSpeaking
        } else if (self.history.len() as u64) < self.probe_samples {
            Probe::Wait
        } else {
            Probe::Heard
        }
    }

    fn silence(&mut self) -> (r: Vec<u32>)
        ensures
            r@ == old(self)@.recording,
            final(self)@ == fell_silent(old(self)@),
    {
        let mut speech: Vec<u32> = Vec::new();
        std::mem::swap(&mut speech, &mut self.recording);
        self.history = Vec::new();
        self.active = false;
        self.speech_hits = 0;
        self.silence_hits = 0;
        assert(self@ =~= fell_silent(old(self)@));
        speech
    }

    /// Takes whether the speech under way goes on; gives the speech where it
    /// is over.
    pub fn on_still(&mut self, speech: bool) -> (r: Option<Vec<u32>>)
        ensures
            ({
                let (next, over) = went_on(old(self)@, speech);
                &&& final(self)@ == next
                &&& match r {
                    Some(v) => over == Some(v@),
                    None => over is None,
                }
            }),
    {
        let silence: usize = if speech {
            0
        } else if self.silence_hits < usize::MAX {
            self.silence_hits + 1
        } else {
            self.silence_hits
        };
        if self.recording.len() as u64 >= self.voice_samples || silence >= 4 {
            Some(self.silence())
        } else {
            self.silence_hits = silence;
            None
        }
    }

    /// Takes that the samples are not loud enough.
    pub fn on_quiet(&mut self)
        ensures
            final(self)@ == (ListenerView { speech_hits: 0, ..old(self)@ }),
    {
        self.speech_hits = 0;
    }

    /// Takes whether there is speech, and whether the last one is long enough
    /// ago; says whether a speech began, and gives it where it is over already.
    pub fn on_heard(&mut self, speech: bool, rested: bool) -> (r: (bool, Option<Vec<u32>>))
        ensures
            ({
                let (next, began, over) = heard(old(self)@, speech, rested);
                &&& final(self)@ == next
                &&& r.0 == began
                &&& match r.1 {
                    Some(v) => over == Some(v@),
                    None => over is None,
                }
            }),
    {
        let hits: usize = if !speech {
            0
        } else if self.speech_hits < usize::MAX {
            self.speech_hits + 1
        } else {
            self.speech_hits
        };
        self.speech_hits = hits;
        if hits >= 2 && !self.active && rested {
            self.active = true;
            self.silence_hits = 0;
            self.recording = Vec::new();
            let history = copy_samples(&self.history);
            self.recording = history;
            if self.recording.len() as u64 >= self.voice_samples {
                let over = self.silence();
                return (true, Some(over));
            }
            return (true, None);
        }
        (false, None)
    }

    /// Takes that listening is to stop; gives the speech that is under way, if
    /// there is any.
    pub fn on_stop(&mut self) -> (r: Option<Vec<u32>>)
        ensures
            match r {
                Some(v) => old(self)@.recording.len() > 0 && v@ == old(self)@.recording,
                None => old(self)@.recording.len() == 0,
            },
            final(self)@ == (ListenerView {
                active: false,
                recording: Seq::empty(),
                ..old(self)@
            }),
    {
        self.active = false;
        let mut speech: Vec<u32> = Vec::new();
        std::mem::swap(&mut speech, &mut self.recording);
        assert(self@.recording =~= Seq::empty());
        if speech.len() > 0 {
            Some(speech)
        } else {
            None
        }
    }
}

fn append(to: &mut Vec<u32>, from: &Vec<u32>)
    ensures
        final(to)@ == old(to)@ + from@,
{
    let ghost start = to@;
    let mut i: usize = 0;
    assert(start + from@.subrange(0, 0) =~= start);
    while i < from.len()
        invariant
            i <= from.len(),
            to@ == start + from@.subrange(0, i as int),
        decreases from.len() - i,
    {
        to.push(from[i]);
        assert(start + from@.subrange(0, i + 1) =~= (start + from@.subrange(0, i as int)).push(
            from@[i as int],
        ));
        i = i + 1;
    }
    assert(from@.subrange(0, from@.len() as int) =~= from@);
}

fn copy_samples(v: &Vec<u32>) -> (r: Vec<u32>)
    ensures
        r@ == v@,
{
    let mut out: Vec<u32> = Vec::new();
    append(&mut out, v);
    assert(out@ =~= v@);
    out
}

/// The samples that came last never take more than their limit.
pub proof fn law_history_is_bounded(l: ListenerView, chunk: Seq<u32>)
    ensures
        took(l, chunk).history.len() <= l.limit,
{
}

/// Nothing of a speech is lost while it is under way: what comes goes behind
/// what was recorded, and what is handed out is all that was recorded.
pub proof fn law_speech_is_kept(l: ListenerView, chunk: Seq<u32>, speech: bool)
    requires
        l.active,
    ensures
        took(l, chunk).recording == l.recording + chunk,
        match went_on(l, speech).1 {
            Some(v) => v == l.recording && !went_on(l, speech).0.active,
            None => went_on(l, speech).0.recording == l.recording && went_on(l, speech).0.active,
        },
{
}

/// A single sound is no speech: one begins only when the time before was a hit
/// too.
pub proof fn law_speech_begins_with_second_hit(l: ListenerView, speech: bool, rested: bool)
    requires
        heard(l, speech, rested).1,
    ensures
        speech,
        rested,
        l.speech_hits >= 1,
        !l.active,
{
}

proof fn lemma_speech_flags()
    ensures
        "--model"@.len() == 7,
        "--vad-model"@.len() == 11,
        "--vad-model-path"@.len() == 16,
        "--language"@.len() == 10,
        "--initial-prompt"@.len() == 16,
        "--prompt"@.len() == 8,
        "--device"@.len() == 8,
        "--use-gpu"@.len() == 9,
        "--flash-attn"@.len() == 12,
        "--vad"@.len() == 5,
        "--vad-enabled"@.len() == 13,
        "--translate"@.len() == 11,
        "--no-context"@.len() == 12,
        "--no-timestamps"@.len() == 15,
        "--print-special"@.len() == 15,
        "--suppress-nst"@.len() == 14,
        "--list-devices"@.len() == 14,
        "--n-threads"@.len() == 11,
        "--n-processors"@.len() == 14,
        "--step-ms"@.len() == 9,
        "--length-ms"@.len() == 11,
        "--keep-ms"@.len() == 9,
        "--vad-min-speech-duration-ms"@.len() == 28,
        "--vad-min-silence-duration-ms"@.len() == 29,
        "--vad-speech-pad-ms"@.len() == 19,
        "--vad-threshold"@.len() == 15,
        "--vad-max-speech-duration-s"@.len() == 27,
        "--vad-samples-overlap"@.len() == 21,
        "--chunk-ms"@.len() == 10,
        "--help"@.len() == 6,
        "-h"@.len() == 2,
        "--vad-model"@ != "--translate"@,
        "--vad-model"@ != "--n-threads"@,
        "--vad-model"@ != "--length-ms"@,
        "--vad-model-path"@ != "--initial-prompt"@,
        "--language"@ != "--chunk-ms"@,
        "--prompt"@ != "--device"@,
        "--use-gpu"@ != "--step-ms"@,
        "--use-gpu"@ != "--keep-ms"@,
        "--flash-attn"@ != "--no-context"@,
        "--translate"@ != "--n-threads"@,
        "--translate"@ != "--length-ms"@,
        "--no-timestamps"@ != "--print-special"@,
        "--no-timestamps"@ != "--vad-threshold"@,
        "--print-special"@ != "--vad-threshold"@,
        "--suppress-nst"@ != "--list-devices"@,
        "--suppress-nst"@ != "--n-processors"@,
        "--list-devices"@ != "--n-processors"@,
        "--n-threads"@ != "--length-ms"@,
        "--step-ms"@ != "--keep-ms"@,
{
    reveal_strlit("--model");
    reveal_strlit("--vad-model");
    reveal_strlit("--vad-model-path");
    reveal_strlit("--language");
    reveal_strlit("--initial-prompt");
    reveal_strlit("--prompt");
    reveal_strlit("--device");
    reveal_strlit("--use-gpu");
    reveal_strlit("--flash-attn");
    reveal_strlit("--vad");
    reveal_strlit("--vad-enabled");
    reveal_strlit("--translate");
    reveal_strlit("--no-context");
    reveal_strlit("--no-timestamps");
    reveal_strlit("--print-special");
    reveal_strlit("--suppress-nst");
    reveal_strlit("--list-devices");
    reveal_strlit("--n-threads");
    reveal_strlit("--n-processors");
    reveal_strlit("--step-ms");
    reveal_strlit("--length-ms");
    reveal_strlit("--keep-ms");
    reveal_strlit("--vad-min-speech-duration-ms");
    reveal_strlit("--vad-min-silence-duration-ms");
    reveal_strlit("--vad-speech-pad-ms");
    reveal_strlit("--vad-threshold");
    reveal_strlit("--vad-max-speech-duration-s");
    reveal_strlit("--vad-samples-overlap");
    reveal_strlit("--chunk-ms");
    reveal_strlit("--help");
    reveal_strlit("-h");
    assert("--vad-model"@[2] != "--translate"@[2]);
    assert("--vad-model"@[2] != "--n-threads"@[2]);
    assert("--vad-model"@[2] != "--length-ms"@[2]);
    assert("--vad-model-path"@[2] != "--initial-prompt"@[2]);
    assert("--language"@[2] != "--chunk-ms"@[2]);
    assert("--prompt"@[2] != "--device"@[2]);
    assert("--use-gpu"@[2] != "--step-ms"@[2]);
    assert("--use-gpu"@[2] != "--keep-ms"@[2]);
    assert("--flash-attn"@[2] != "--no-context"@[2]);
    assert("--translate"@[2] != "--n-threads"@[2]);
    assert("--translate"@[2] != "--length-ms"@[2]);
    assert("--no-timestamps"@[2] != "--print-special"@[2]);
    assert("--no-timestamps"@[2] != "--vad-threshold"@[2]);
    assert("--print-special"@[2] != "--vad-threshold"@[2]);
    assert("--suppress-nst"@[2] != "--list-devices"@[2]);
    assert("--suppress-nst"@[2] != "--n-processors"@[2]);
    assert("--list-devices"@[2] != "--n-processors"@[2]);
    assert("--n-threads"@[2] != "--length-ms"@[2]);
    assert("--step-ms"@[2] != "--keep-ms"@[2]);
}

/// Each option of the command line sets its own setting to its value, and nothing else.
pub proof fn law_option_sets_its_setting(o: OptsView, v: Seq<char>, n: i64, m: u64, bits: u64)
    ensures
        with_value(o, "--model"@, v, None) == Ok::<OptsView, Seq<char>>(
            (OptsView { model_path: v, ..o }),
        ),
        with_value(o, "--vad-model"@, v, None) == Ok::<OptsView, Seq<char>>(
            (OptsView { vad_model_path: Some(v), ..o }),
        ),
        with_value(o, "--vad-model-path"@, v, None) == Ok::<OptsView, Seq<char>>(
            (OptsView { vad_model_path: Some(v), ..o }),
        ),
        with_value(o, "--language"@, v, None) == Ok::<OptsView, Seq<char>>(
            (OptsView { language: Some(v), ..o }),
        ),
        with_value(o, "--initial-prompt"@, v, None) == Ok::<OptsView, Seq<char>>(
            (OptsView { initial_prompt: Some(v), ..o }),
        ),
        with_value(o, "--prompt"@, v, None) == Ok::<OptsView, Seq<char>>(
            (OptsView { initial_prompt: Some(v), ..o }),
        ),
        with_value(o, "--device"@, v, None) == Ok::<OptsView, Seq<char>>(
            (OptsView { device_name: Some(v), ..o }),
        ),
        with_value(o, "--n-threads"@, text::decimal_int(n as int), None) == Ok::<OptsView, Seq<char>>(
            (OptsView { n_threads: Some(n), ..o }),
        ),
        with_value(o, "--n-processors"@, text::decimal_int(n as int), None) == Ok::<OptsView, Seq<char>>(
            (OptsView { n_processors: Some(n), ..o }),
        ),
        with_value(o, "--step-ms"@, text::decimal_int(n as int), None) == Ok::<OptsView, Seq<char>>(
            (OptsView { step_ms: Some(n), ..o }),
        ),
        with_value(o, "--length-ms"@, text::decimal_int(n as int), None) == Ok::<OptsView, Seq<char>>(
            (OptsView { length_ms: Some(n), ..o }),
        ),
        with_value(o, "--keep-ms"@, text::decimal_int(n as int), None) == Ok::<OptsView, Seq<char>>(
            (OptsView { keep_ms: Some(n), ..o }),
        ),
        with_value(o, "--vad-min-speech-duration-ms"@, text::decimal_int(n as int), None) == Ok::<OptsView, Seq<char>>(
            (OptsView { vad_min_speech_duration_ms: Some(n), ..o }),
        ),
        with_value(o, "--vad-min-silence-duration-ms"@, text::decimal_int(n as int), None) == Ok::<OptsView, Seq<char>>(
            (OptsView { vad_min_silence_duration_ms: Some(n), ..o }),
        ),
        with_value(o, "--vad-speech-pad-ms"@, text::decimal_int(n as int), None) == Ok::<OptsView, Seq<char>>(
            (OptsView { vad_speech_pad_ms: Some(n), ..o }),
        ),
        with_value(o, "--vad-threshold"@, v, Some(bits)) == Ok::<OptsView, Seq<char>>(
            (OptsView { vad_threshold: Some(bits), ..o }),
        ),
        with_value(o, "--vad-max-speech-duration-s"@, v, Some(bits)) == Ok::<OptsView, Seq<char>>(
            (OptsView { vad_max_speech_duration_s: Some(bits), ..o }),
        ),
        with_value(o, "--vad-samples-overlap"@, v, Some(bits)) == Ok::<OptsView, Seq<char>>(
            (OptsView { vad_samples_overlap: Some(bits), ..o }),
        ),
        with_value(o, "--chunk-ms"@, text::decimal(m as nat), None) == Ok::<OptsView, Seq<char>>(
            (OptsView { chunk_ms: m, ..o }),
        ),
        with_word(o, "--use-gpu"@) == Ok::<OptsView, Seq<char>>(
            (OptsView { use_gpu: true, ..o }),
        ),
        with_word(o, "--flash-attn"@) == Ok::<OptsView, Seq<char>>(
            (OptsView { flash_attn: true, ..o }),
        ),
        with_word(o, "--vad"@) == Ok::<OptsView, Seq<char>>(
            (OptsView { vad_enabled: true, ..o }),
        ),
        with_word(o, "--vad-enabled"@) == Ok::<OptsView, Seq<char>>(
            (OptsView { vad_enabled: true, ..o }),
        ),
        with_word(o, "--translate"@) == Ok::<OptsView, Seq<char>>(
            (OptsView { translate: true, ..o }),
        ),
        with_word(o, "--no-context"@) == Ok::<OptsView, Seq<char>>(
            (OptsView { no_context: true, ..o }),
        ),
        with_word(o, "--no-timestamps"@) == Ok::<OptsView, Seq<char>>(
            (OptsView { no_timestamps: true, ..o }),
        ),
        with_word(o, "--print-special"@) == Ok::<OptsView, Seq<char>>(
            (OptsView { print_special: true, ..o }),
        ),
        with_word(o, "--suppress-nst"@) == Ok::<OptsView, Seq<char>>(
            (OptsView { suppress_nst: true, ..o }),
        ),
        with_word(o, "--list-devices"@) == Ok::<OptsView, Seq<char>>(
            (OptsView { list_devices: true, ..o }),
        ),
{
    lemma_speech_flags();
    text::law_integer_is_read_back(n as int);
    text::law_decimal_is_read_back(m as nat);
    let s = text::decimal(m as nat);
    assert(text::is_digit(s[0]));
    assert(s.subrange(0, 1)[0] == s[0]);
}

/// A value that is no number of the kind that its option takes is refused, and the option is
/// named; so are an option without its value and a flag that nobody knows.
pub proof fn law_bad_option_is_named(o: OptsView, v: Seq<char>, flag: Seq<char>)
    ensures
        text::int_value(v) is None ==> with_value(o, "--n-threads"@, v, None) == Err::<
            OptsView,
            Seq<char>,
        >("invalid "@ + "--n-threads"@) && with_value(o, "--chunk-ms"@, v, None) == Err::<
            OptsView,
            Seq<char>,
        >("invalid "@ + "--chunk-ms"@),
        with_value(o, "--vad-threshold"@, v, None) == Err::<OptsView, Seq<char>>(
            "invalid "@ + "--vad-threshold"@,
        ),
        opts_from(seq!["--model"@], seq![None], 0, o) == Err::<Option<OptsView>, Seq<char>>(
            "missing value for "@ + "--model"@,
        ),
        with_switch(o, flag) is None && flag.len() > 0 && flag[0] == '-' ==> with_word(o, flag)
            == Err::<OptsView, Seq<char>>("unknown flag: "@ + flag),
        opts_from(seq!["--help"@], seq![None], 0, o) == Ok::<Option<OptsView>, Seq<char>>(None),
{
    lemma_speech_flags();
    reveal_strlit("-");
    if flag.len() > 0 && flag[0] == '-' {
        assert(flag.subrange(0, 1) =~= "-"@);
    }
    assert(seq!["--model"@][0] == "--model"@);
    assert(seq!["--help"@][0] == "--help"@);
}

/// A speech begins with everything that was heard before it, and is over after the fourth silence
/// in a row or once it is long enough; a sound in between starts the count anew.
pub proof fn law_speech_ends_in_silence(l: ListenerView, speech: bool)
    requires
        l.active,
        l.recording.len() < l.voice_samples,
        l.silence_hits < 1000,
    ensures
        speech ==> went_on(l, speech).1 is None && went_on(l, speech).0.silence_hits == 0,
        !speech && l.silence_hits < 3 ==> went_on(l, speech).1 is None && went_on(
            l,
            speech,
        ).0.silence_hits == l.silence_hits + 1,
        !speech && l.silence_hits >= 3 ==> went_on(l, speech).1 == Some(l.recording),
{
}

/// A second hit in a row begins the speech with what was heard so far; one hit alone is counted.
pub proof fn law_second_hit_begins_speech(l: ListenerView)
    requires
        !l.active,
        l.history.len() < l.voice_samples,
    ensures
        l.speech_hits == 1 ==> heard(l, true, true).0.active && heard(l, true, true).0.recording
            == l.history && heard(l, true, true).1,
        l.speech_hits == 0 ==> !heard(l, true, true).0.active && heard(
            l,
            true,
            true,
        ).0.speech_hits == 1,
        heard(l, false, true).0.speech_hits == 0,
        !heard(l, false, true).1,
{
}

/// One of the parts of the settings has a setting.
spec fn among(o: OptsView, x: PropView) -> bool {
    ||| seq![text_prop("--model"@, o.model_path)].contains(x)
    ||| some_text("--vad-model-path"@, o.vad_model_path).contains(x)
    ||| some_text("--language"@, o.language).contains(x)
    ||| some_text("--initial-prompt"@, o.initial_prompt).contains(x)
    ||| switches(o).contains(x)
    ||| some_int("--n-threads"@, o.n_threads).contains(x)
    ||| some_int("--n-processors"@, o.n_processors).contains(x)
    ||| some_int("--step-ms"@, o.step_ms).contains(x)
    ||| some_int("--length-ms"@, o.length_ms).contains(x)
    ||| some_int("--keep-ms"@, o.keep_ms).contains(x)
    ||| some_real("--vad-threshold"@, o.vad_threshold).contains(x)
    ||| some_int("--vad-min-speech-duration-ms"@, o.vad_min_speech_duration_ms).contains(x)
    ||| some_int("--vad-min-silence-duration-ms"@, o.vad_min_silence_duration_ms).contains(x)
    ||| some_real("--vad-max-speech-duration-s"@, o.vad_max_speech_duration_s).contains(x)
    ||| some_int("--vad-speech-pad-ms"@, o.vad_speech_pad_ms).contains(x)
    ||| some_real("--vad-samples-overlap"@, o.vad_samples_overlap).contains(x)
}

proof fn lemma_in_either(s: Seq<PropView>, t: Seq<PropView>, x: PropView)
    ensures
        s.contains(x) || t.contains(x) ==> (s + t).contains(x),
{
    if s.contains(x) {
        let i = s.index_of(x);
        assert((s + t)[i] == x);
    } else if t.contains(x) {
        let i = t.index_of(x);
        assert((s + t)[s.len() + i] == x);
    }
}

proof fn lemma_among_is_handed(o: OptsView, x: PropView)
    requires
        among(o, x),
    ensures
        props_of(o).contains(x),
{
    let p0 = seq![text_prop("--model"@, o.model_path)];
    let p1 = p0 + some_text("--vad-model-path"@, o.vad_model_path);
    lemma_in_either(p0, some_text("--vad-model-path"@, o.vad_model_path), x);
    let p2 = p1 + some_text("--language"@, o.language);
    lemma_in_either(p1, some_text("--language"@, o.language), x);
    let p3 = p2 + some_text("--initial-prompt"@, o.initial_prompt);
    lemma_in_either(p2, some_text("--initial-prompt"@, o.initial_prompt), x);
    let p4 = p3 + switches(o);
    lemma_in_either(p3, switches(o), x);
    let p5 = p4 + some_int("--n-threads"@, o.n_threads);
    lemma_in_either(p4, some_int("--n-threads"@, o.n_threads), x);
    let p6 = p5 + some_int("--n-processors"@, o.n_processors);
    lemma_in_either(p5, some_int("--n-processors"@, o.n_processors), x);
    let p7 = p6 + some_int("--step-ms"@, o.step_ms);
    lemma_in_either(p6, some_int("--step-ms"@, o.step_ms), x);
    let p8 = p7 + some_int("--length-ms"@, o.length_ms);
    lemma_in_either(p7, some_int("--length-ms"@, o.length_ms), x);
    let p9 = p8 + some_int("--keep-ms"@, o.keep_ms);
    lemma_in_either(p8, some_int("--keep-ms"@, o.keep_ms), x);
    let p10 = p9 + some_real("--vad-threshold"@, o.vad_threshold);
    lemma_in_either(p9, some_real("--vad-threshold"@, o.vad_threshold), x);
    let p11 = p10 + some_int("--vad-min-speech-duration-ms"@, o.vad_min_speech_duration_ms);
    lemma_in_either(p10, some_int("--vad-min-speech-duration-ms"@, o.vad_min_speech_duration_ms), x);
    let p12 = p11 + some_int("--vad-min-silence-duration-ms"@, o.vad_min_silence_duration_ms);
    lemma_in_either(p11, some_int("--vad-min-silence-duration-ms"@, o.vad_min_silence_duration_ms), x);
    let p13 = p12 + some_real("--vad-max-speech-duration-s"@, o.vad_max_speech_duration_s);
    lemma_in_either(p12, some_real("--vad-max-speech-duration-s"@, o.vad_max_speech_duration_s), x);
    let p14 = p13 + some_int("--vad-speech-pad-ms"@, o.vad_speech_pad_ms);
    lemma_in_either(p13, some_int("--vad-speech-pad-ms"@, o.vad_speech_pad_ms), x);
    let p15 = p14 + some_real("--vad-samples-overlap"@, o.vad_samples_overlap);
    lemma_in_either(p14, some_real("--vad-samples-overlap"@, o.vad_samples_overlap), x);
    assert(props_of(o) == p15);
}

/// Every switch is handed to the runtime under its own name, as it is set, and so is the model.
pub proof fn law_switches_are_handed_over(o: OptsView)
    ensures
        props_of(o).contains(text_prop("--model"@, o.model_path)),
        props_of(o).contains(flag_prop("--use-gpu"@, o.use_gpu)),
        props_of(o).contains(flag_prop("--flash-attn"@, o.flash_attn)),
        props_of(o).contains(flag_prop("--vad-enabled"@, o.vad_enabled)),
        props_of(o).contains(flag_prop("--translate"@, o.translate)),
        props_of(o).contains(flag_prop("--no-context"@, o.no_context)),
        props_of(o).contains(flag_prop("--no-timestamps"@, o.no_timestamps)),
        props_of(o).contains(flag_prop("--print-special"@, o.print_special)),
        props_of(o).contains(flag_prop("--suppress-nst"@, o.suppress_nst)),
{
    let m = text_prop("--model"@, o.model_path);
    assert(seq![m][0] == m);
    lemma_among_is_handed(o, m);
    let on = switches(o);
    assert(on[0] == flag_prop("--use-gpu"@, o.use_gpu));
    lemma_among_is_handed(o, on[0]);
    assert(on[1] == flag_prop("--flash-attn"@, o.flash_attn));
    lemma_among_is_handed(o, on[1]);
    assert(on[2] == flag_prop("--vad-enabled"@, o.vad_enabled));
    lemma_among_is_handed(o, on[2]);
    assert(on[3] == flag_prop("--translate"@, o.translate));
    lemma_among_is_handed(o, on[3]);
    assert(on[4] == flag_prop("--no-context"@, o.no_context));
    lemma_among_is_handed(o, on[4]);
    assert(on[5] == flag_prop("--no-timestamps"@, o.no_timestamps));
    lemma_among_is_handed(o, on[5]);
    assert(on[6] == flag_prop("--print-special"@, o.print_special));
    lemma_among_is_handed(o, on[6]);
    assert(on[7] == flag_prop("--suppress-nst"@, o.suppress_nst));
    lemma_among_is_handed(o, on[7]);
}

/// Every text that is set is handed to the runtime under its own name.
pub proof fn law_texts_are_handed_over(o: OptsView, t: Seq<char>)
    ensures
        o.vad_model_path == Some(t) ==> props_of(o).contains(text_prop("--vad-model-path"@, t)),
        o.language == Some(t) ==> props_of(o).contains(text_prop("--language"@, t)),
        o.initial_prompt == Some(t) ==> props_of(o).contains(text_prop("--initial-prompt"@, t)),
{
    if o.vad_model_path == Some(t) {
        let x = text_prop("--vad-model-path"@, t);
        assert(some_text("--vad-model-path"@, o.vad_model_path)[0] == x);
        lemma_among_is_handed(o, x);
    }
    if o.language == Some(t) {
        let x = text_prop("--language"@, t);
        assert(some_text("--language"@, o.language)[0] == x);
        lemma_among_is_handed(o, x);
    }
    if o.initial_prompt == Some(t) {
        let x = text_prop("--initial-prompt"@, t);
        assert(some_text("--initial-prompt"@, o.initial_prompt)[0] == x);
        lemma_among_is_handed(o, x);
    }
}

/// Every whole number that is set is handed to the runtime under its own name, in digits.
pub proof fn law_numbers_are_handed_over(o: OptsView, n: i64)
    ensures
        o.n_threads == Some(n) ==> props_of(o).contains(
            text_prop("--n-threads"@, text::decimal_int(n as int)),
        ),
        o.n_processors == Some(n) ==> props_of(o).contains(
            text_prop("--n-processors"@, text::decimal_int(n as int)),
        ),
        o.step_ms == Some(n) ==> props_of(o).contains(
            text_prop("--step-ms"@, text::decimal_int(n as int)),
        ),
        o.length_ms == Some(n) ==> props_of(o).contains(
            text_prop("--length-ms"@, text::decimal_int(n as int)),
        ),
        o.keep_ms == Some(n) ==> props_of(o).contains(
            text_prop("--keep-ms"@, text::decimal_int(n as int)),
        ),
        o.vad_min_speech_duration_ms == Some(n) ==> props_of(o).contains(
            text_prop("--vad-min-speech-duration-ms"@, text::decimal_int(n as int)),
        ),
        o.vad_min_silence_duration_ms == Some(n) ==> props_of(o).contains(
            text_prop("--vad-min-silence-duration-ms"@, text::decimal_int(n as int)),
        ),
        o.vad_speech_pad_ms == Some(n) ==> props_of(o).contains(
            text_prop("--vad-speech-pad-ms"@, text::decimal_int(n as int)),
        ),
{
    if o.n_threads == Some(n) {
        let x = text_prop("--n-threads"@, text::decimal_int(n as int));
        assert(some_int("--n-threads"@, o.n_threads)[0] == x);
        lemma_among_is_handed(o, x);
    }
    if o.n_processors == Some(n) {
        let x = text_prop("--n-processors"@, text::decimal_int(n as int));
        assert(some_int("--n-processors"@, o.n_processors)[0] == x);
        lemma_among_is_handed(o, x);
    }
    if o.step_ms == Some(n) {
        let x = text_prop("--step-ms"@, text::decimal_int(n as int));
        assert(some_int("--step-ms"@, o.step_ms)[0] == x);
        lemma_among_is_handed(o, x);
    }
    if o.length_ms == Some(n) {
        let x = text_prop("--length-ms"@, text::decimal_int(n as int));
        assert(some_int("--length-ms"@, o.length_ms)[0] == x);
        lemma_among_is_handed(o, x);
    }
    if o.keep_ms == Some(n) {
        let x = text_prop("--keep-ms"@, text::decimal_int(n as int));
        assert(some_int("--keep-ms"@, o.keep_ms)[0] == x);
        lemma_among_is_handed(o, x);
    }
    if o.vad_min_speech_duration_ms == Some(n) {
        let x = text_prop("--vad-min-speech-duration-ms"@, text::decimal_int(n as int));
        assert(some_int("--vad-min-speech-duration-ms"@, o.vad_min_speech_duration_ms)[0] == x);
        lemma_among_is_handed(o, x);
    }
    if o.vad_min_silence_duration_ms == Some(n) {
        let x = text_prop("--vad-min-silence-duration-ms"@, text::decimal_int(n as int));
        assert(some_int("--vad-min-silence-duration-ms"@, o.vad_min_silence_duration_ms)[0] == x);
        lemma_among_is_handed(o, x);
    }
    if o.vad_speech_pad_ms == Some(n) {
        let x = text_prop("--vad-speech-pad-ms"@, text::decimal_int(n as int));
        assert(some_int("--vad-speech-pad-ms"@, o.vad_speech_pad_ms)[0] == x);
        lemma_among_is_handed(o, x);
    }
}

/// Every fraction that is set is handed to the runtime under its own name, to the bit.
pub proof fn law_fractions_are_handed_over(o: OptsView, b: u64)
    ensures
        o.vad_threshold == Some(b) ==> props_of(o).contains(
            (PropView { name: "--vad-threshold"@, value: Seq::empty(), bits: Some(b) }),
        ),
        o.vad_max_speech_duration_s == Some(b) ==> props_of(o).contains(
            (PropView { name: "--vad-max-speech-duration-s"@, value: Seq::empty(), bits: Some(b) }),
        ),
        o.vad_samples_overlap == Some(b) ==> props_of(o).contains(
            (PropView { name: "--vad-samples-overlap"@, value: Seq::empty(), bits: Some(b) }),
        ),
{
    if o.vad_threshold == Some(b) {
        let x = PropView { name: "--vad-threshold"@, value: Seq::empty(), bits: Some(b) };
        assert(some_real("--vad-threshold"@, o.vad_threshold)[0] == x);
        lemma_among_is_handed(o, x);
    }
    if o.vad_max_speech_duration_s == Some(b) {
        let x = PropView { name: "--vad-max-speech-duration-s"@, value: Seq::empty(), bits: Some(b) };
        assert(some_real("--vad-max-speech-duration-s"@, o.vad_max_speech_duration_s)[0] == x);
        lemma_among_is_handed(o, x);
    }
    if o.vad_samples_overlap == Some(b) {
        let x = PropView { name: "--vad-samples-overlap"@, value: Seq::empty(), bits: Some(b) };
        assert(some_real("--vad-samples-overlap"@, o.vad_samples_overlap)[0] == x);
        lemma_among_is_handed(o, x);
    }
}

/// A setting bears the name and the value it was given; a switch says whether it is on.
pub proof fn law_setting_bears_value(name: Seq<char>, t: Seq<char>, n: i64, b: u64)
    ensures
        text_prop(name, t).name == name,
        text_prop(name, t).value == t,
        text_prop(name, t).bits is None,
        flag_prop(name, true) == text_prop(name, "true"@),
        flag_prop(name, false) == text_prop(name, "false"@),
        some_int(name, Some(n)) == seq![text_prop(name, text::decimal_int(n as int))],
        some_int(name, None).len() == 0,
        some_real(name, Some(b)).len() == 1,
        some_real(name, Some(b))[0].name == name,
        some_real(name, Some(b))[0].bits == Some(b),
        some_real(name, None).len() == 0,
{
}

/// What the environment says of the model, the language and the prompt is taken; of the two names for
/// the model the first comes first.
pub proof fn law_environment_is_taken(e: SpeechEnv, vad_there: bool)
    ensures
        ({
            let o = env_opts(e, vad_there);
            &&& e.model matches Some(m) ==> o.model_path == m@
            &&& e.model is None && e.whisper_model is Some ==> o.model_path == e.whisper_model->0@
            &&& e.language matches Some(l) ==> o.language == Some(l@)
            &&& e.language is None ==> o.language == Some("pt"@)
            &&& e.prompt matches Some(p) ==> o.initial_prompt == Some(p@)
            &&& e.prompt is None ==> o.initial_prompt is None
            &&& vad_there && e.vad_model is Some ==> o.vad_model_path == Some(e.vad_model->0@)
            &&& !vad_there ==> o.vad_model_path is None
        }),
{
}

/// A stretch of time has as many samples as the rate gives, rounded down, and at least one.
pub proof fn law_samples_follow_rate(rate: nat, ms: nat)
    ensures
        samples_in(rate, ms) >= 1,
        rate * ms >= 1000 ==> 1000 * samples_in(rate, ms) <= rate * ms < 1000 * (samples_in(
            rate,
            ms,
        ) + 1),
{
    assert(rate * ms >= 0) by (nonlinear_arith);
}

} // verus!
