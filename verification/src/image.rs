//! The image runtime: what goes to it, and what comes back.

use vstd::prelude::*;

use crate::config;
use crate::error::{Error, ErrorView};
use crate::native;
use crate::native::{libia_image, libia_image_sample_method, libia_image_scheduler};
use crate::text;

verus! {

/// How an image is sampled.
#[derive(Debug, Clone, Copy, PartialEq, Eq, Structural)]
pub enum ImageSampleMethod {
    Euler,
    EulerA,
    Heun,
    Dpm2,
    Dpmpp2sA,
    Dpmpp2m,
    Lcm,
}

/// How the steps of an image are spaced.
#[derive(Debug, Clone, Copy, PartialEq, Eq, Structural)]
pub enum ImageScheduler {
    Discrete,
    Karras,
    Exponential,
    Simple,
}

/// The sampling in the runtime's terms.
pub fn to_ffi_sample_method(method: ImageSampleMethod) -> (r: libia_image_sample_method)
    ensures
        r == match method {
            ImageSampleMethod::Euler => libia_image_sample_method::LIBIA_IMAGE_SAMPLE_EULER,
            ImageSampleMethod::EulerA => libia_image_sample_method::LIBIA_IMAGE_SAMPLE_EULER_A,
            ImageSampleMethod::Heun => libia_image_sample_method::LIBIA_IMAGE_SAMPLE_HEUN,
            ImageSampleMethod::Dpm2 => libia_image_sample_method::LIBIA_IMAGE_SAMPLE_DPM2,
            ImageSampleMethod::Dpmpp2sA => libia_image_sample_method::LIBIA_IMAGE_SAMPLE_DPMPP2S_A,
            ImageSampleMethod::Dpmpp2m => libia_image_sample_method::LIBIA_IMAGE_SAMPLE_DPMPP2M,
            ImageSampleMethod::Lcm => libia_image_sample_method::LIBIA_IMAGE_SAMPLE_LCM,
        },
{
    match method {
        ImageSampleMethod::Euler => libia_image_sample_method::LIBIA_IMAGE_SAMPLE_EULER,
        ImageSampleMethod::EulerA => libia_image_sample_method::LIBIA_IMAGE_SAMPLE_EULER_A,
        ImageSampleMethod::Heun => libia_image_sample_method::LIBIA_IMAGE_SAMPLE_HEUN,
        ImageSampleMethod::Dpm2 => libia_image_sample_method::LIBIA_IMAGE_SAMPLE_DPM2,
        ImageSampleMethod::Dpmpp2sA => libia_image_sample_method::LIBIA_IMAGE_SAMPLE_DPMPP2S_A,
        ImageSampleMethod::Dpmpp2m => libia_image_sample_method::LIBIA_IMAGE_SAMPLE_DPMPP2M,
        ImageSampleMethod::Lcm => libia_image_sample_method::LIBIA_IMAGE_SAMPLE_LCM,
    }
}

/// The spacing in the runtime's terms.
pub fn to_ffi_scheduler(scheduler: ImageScheduler) -> (r: libia_image_scheduler)
    ensures
        r == match scheduler {
            ImageScheduler::Discrete => libia_image_scheduler::LIBIA_IMAGE_SCHEDULER_DISCRETE,
            ImageScheduler::Karras => libia_image_scheduler::LIBIA_IMAGE_SCHEDULER_KARRAS,
            ImageScheduler::Exponential => libia_image_scheduler::LIBIA_IMAGE_SCHEDULER_EXPONENTIAL,
            ImageScheduler::Simple => libia_image_scheduler::LIBIA_IMAGE_SCHEDULER_SIMPLE,
        },
{
    match scheduler {
        ImageScheduler::Discrete => libia_image_scheduler::LIBIA_IMAGE_SCHEDULER_DISCRETE,
        ImageScheduler::Karras => libia_image_scheduler::LIBIA_IMAGE_SCHEDULER_KARRAS,
        ImageScheduler::Exponential => libia_image_scheduler::LIBIA_IMAGE_SCHEDULER_EXPONENTIAL,
        ImageScheduler::Simple => libia_image_scheduler::LIBIA_IMAGE_SCHEDULER_SIMPLE,
    }
}

/// The number that the native interface gives a way of sampling.
pub fn sample_method_code(m: libia_image_sample_method) -> (r: i32)
    ensures
        r == match m {
            libia_image_sample_method::LIBIA_IMAGE_SAMPLE_EULER => 0i32,
            libia_image_sample_method::LIBIA_IMAGE_SAMPLE_EULER_A => 1i32,
            libia_image_sample_method::LIBIA_IMAGE_SAMPLE_HEUN => 2i32,
            libia_image_sample_method::LIBIA_IMAGE_SAMPLE_DPM2 => 3i32,
            libia_image_sample_method::LIBIA_IMAGE_SAMPLE_DPMPP2S_A => 4i32,
            libia_image_sample_method::LIBIA_IMAGE_SAMPLE_DPMPP2M => 5i32,
            libia_image_sample_method::LIBIA_IMAGE_SAMPLE_LCM => 9i32,
        },
{
    match m {
        libia_image_sample_method::LIBIA_IMAGE_SAMPLE_EULER => 0,
        libia_image_sample_method::LIBIA_IMAGE_SAMPLE_EULER_A => 1,
        libia_image_sample_method::LIBIA_IMAGE_SAMPLE_HEUN => 2,
        libia_image_sample_method::LIBIA_IMAGE_SAMPLE_DPM2 => 3,
        libia_image_sample_method::LIBIA_IMAGE_SAMPLE_DPMPP2S_A => 4,
        libia_image_sample_method::LIBIA_IMAGE_SAMPLE_DPMPP2M => 5,
        libia_image_sample_method::LIBIA_IMAGE_SAMPLE_LCM => 9,
    }
}

/// The number that the native interface gives a way of spacing.
pub fn scheduler_code(s: libia_image_scheduler) -> (r: i32)
    ensures
        r == match s {
            libia_image_scheduler::LIBIA_IMAGE_SCHEDULER_DISCRETE => 0i32,
            libia_image_scheduler::LIBIA_IMAGE_SCHEDULER_KARRAS => 1i32,
            libia_image_scheduler::LIBIA_IMAGE_SCHEDULER_EXPONENTIAL => 2i32,
            libia_image_scheduler::LIBIA_IMAGE_SCHEDULER_SIMPLE => 6i32,
        },
{
    match s {
        libia_image_scheduler::LIBIA_IMAGE_SCHEDULER_DISCRETE => 0,
        libia_image_scheduler::LIBIA_IMAGE_SCHEDULER_KARRAS => 1,
        libia_image_scheduler::LIBIA_IMAGE_SCHEDULER_EXPONENTIAL => 2,
        libia_image_scheduler::LIBIA_IMAGE_SCHEDULER_SIMPLE => 6,
    }
}

/// The model that images are made with.
#[derive(Debug, PartialEq)]
pub struct ImageModelConfig {
    pub model_path: String,
    pub diffusion_model_path: Option<String>,
    pub vae_path: Option<String>,
    pub clip_l_path: Option<String>,
    pub clip_g_path: Option<String>,
    pub t5xxl_path: Option<String>,
    pub llm_path: Option<String>,
    pub backend: Option<String>,
    pub params_backend: Option<String>,
    pub max_vram: Option<String>,
    pub n_threads: i32,
    pub use_mmap: bool,
    pub flash_attn: bool,
    pub diffusion_flash_attn: bool,
}

/// The model of the configuration of a model.
#[verifier::ext_equal]
pub struct ModelView {
    pub model_path: Seq<char>,
    pub diffusion_model_path: Option<Seq<char>>,
    pub vae_path: Option<Seq<char>>,
    pub clip_l_path: Option<Seq<char>>,
    pub clip_g_path: Option<Seq<char>>,
    pub t5xxl_path: Option<Seq<char>>,
    pub llm_path: Option<Seq<char>>,
    pub backend: Option<Seq<char>>,
    pub params_backend: Option<Seq<char>>,
    pub max_vram: Option<Seq<char>>,
    pub n_threads: i32,
    pub use_mmap: bool,
    pub flash_attn: bool,
    pub diffusion_flash_attn: bool,
}

impl View for ImageModelConfig {
    type V = ModelView;

    open spec fn view(&self) -> ModelView {
        ModelView {
            model_path: self.model_path@,
            diffusion_model_path: text::opt_view(self.diffusion_model_path),
            vae_path: text::opt_view(self.vae_path),
            clip_l_path: text::opt_view(self.clip_l_path),
            clip_g_path: text::opt_view(self.clip_g_path),
            t5xxl_path: text::opt_view(self.t5xxl_path),
            llm_path: text::opt_view(self.llm_path),
            backend: text::opt_view(self.backend),
            params_backend: text::opt_view(self.params_backend),
            max_vram: text::opt_view(self.max_vram),
            n_threads: self.n_threads,
            use_mmap: self.use_mmap,
            flash_attn: self.flash_attn,
            diffusion_flash_attn: self.diffusion_flash_attn,
        }
    }
}

impl ImageModelConfig {
    pub fn new(model_path: String) -> (r: ImageModelConfig)
        ensures
            r@ == (ModelView {
                model_path: model_path@,
                diffusion_model_path: None,
                vae_path: None,
                clip_l_path: None,
                clip_g_path: None,
                t5xxl_path: None,
                llm_path: None,
                backend: Some("Vulkan"@),
                params_backend: None,
                max_vram: None,
                n_threads: 0,
                use_mmap: true,
                flash_attn: true,
                diffusion_flash_attn: true,
            }),
    {
        ImageModelConfig {
            model_path,
            diffusion_model_path: None,
            vae_path: None,
            clip_l_path: None,
            clip_g_path: None,
            t5xxl_path: None,
            llm_path: None,
            backend: Some("Vulkan".to_string()),
            params_backend: None,
            max_vram: None,
            n_threads: 0,
            use_mmap: true,
            flash_attn: true,
            diffusion_flash_attn: true,
        }
    }
}

/// 7.0 as the bit pattern of a 32-bit float.
pub const DEFAULT_CFG_SCALE: u32 = 0x40e0_0000;

/// 3.5 as the bit pattern of a 32-bit float.
pub const DEFAULT_GUIDANCE: u32 = 0x4060_0000;

/// An image to be made. The scale and the guidance are the bit patterns of 32-bit floats.
#[derive(Debug, PartialEq)]
pub struct ImageGenerateConfig {
    pub prompt: String,
    pub negative_prompt: Option<String>,
    pub output_path: String,
    pub width: i32,
    pub height: i32,
    pub sample_steps: i32,
    pub seed: i64,
    pub batch_count: i32,
    pub cfg_scale: u32,
    pub guidance: u32,
    pub sample_method: ImageSampleMethod,
    pub scheduler: ImageScheduler,
}

impl ImageGenerateConfig {
    pub fn new(prompt: String, output_path: String) -> (r: ImageGenerateConfig)
        ensures
            r.prompt@ == prompt@,
            r.negative_prompt is None,
            r.output_path@ == output_path@,
            r.width == 512 && r.height == 512,
            r.sample_steps == 20,
            r.seed == -1,
            r.batch_count == 1,
            r.cfg_scale == DEFAULT_CFG_SCALE,
            r.guidance == DEFAULT_GUIDANCE,
            r.sample_method == ImageSampleMethod::Euler,
            r.scheduler == ImageScheduler::Discrete,
    {
        ImageGenerateConfig {
            prompt,
            negative_prompt: None,
            output_path,
            width: 512,
            height: 512,
            sample_steps: 20,
            seed: -1,
            batch_count: 1,
            cfg_scale: DEFAULT_CFG_SCALE,
            guidance: DEFAULT_GUIDANCE,
            sample_method: ImageSampleMethod::Euler,
            scheduler: ImageScheduler::Discrete,
        }
    }
}

/// An image that was made.
#[derive(Debug, PartialEq)]
pub struct ImageResult {
    pub path: String,
    pub width: i32,
    pub height: i32,
    pub channels: i32,
    pub seed: i64,
}

/// A text that goes to the runtime; a blank one does not.
pub open spec fn given(s: Option<Seq<char>>) -> Option<Seq<char>> {
    match s {
        Some(t) if !config::blank(t) => Some(t),
        _ => None,
    }
}

/// The texts of a model's configuration that go to the runtime.
pub open spec fn given_model(m: ModelView) -> ModelView {
    ModelView {
        diffusion_model_path: given(m.diffusion_model_path),
        vae_path: given(m.vae_path),
        clip_l_path: given(m.clip_l_path),
        clip_g_path: given(m.clip_g_path),
        t5xxl_path: given(m.t5xxl_path),
        llm_path: given(m.llm_path),
        backend: given(m.backend),
        params_backend: given(m.params_backend),
        max_vram: given(m.max_vram),
        ..m
    }
}

/// The first text with a NUL: this one, or else a later one.
pub open spec fn nul_or(s: Option<Seq<char>>, later: Option<Seq<char>>) -> Option<Seq<char>> {
    match given(s) {
        Some(t) if native::has_nul(t) => Some(t),
        _ => later,
    }
}

/// The first text of a model's configuration that holds a NUL.
pub open spec fn model_nul(m: ModelView) -> Option<Seq<char>> {
    if native::has_nul(m.model_path) {
        Some(m.model_path)
    } else {
        nul_or(
            m.diffusion_model_path,
            nul_or(
                m.vae_path,
                nul_or(
                    m.clip_l_path,
                    nul_or(
                        m.clip_g_path,
                        nul_or(
                            m.t5xxl_path,
                            nul_or(
                                m.llm_path,
                                nul_or(
                                    m.backend,
                                    nul_or(m.params_backend, nul_or(m.max_vram, None)),
                                ),
                            ),
                        ),
                    ),
                ),
            ),
        )
    }
}

fn optional_cstring(value: Option<String>) -> (r: Result<Option<String>, Error>)
    ensures
        match r {
            Ok(v) => text::opt_view(v) == given(text::opt_view(value)) && nul_or(
                text::opt_view(value),
                None,
            ) is None,
            Err(e) => nul_or(text::opt_view(value), None) is Some && e@ == ErrorView::NulByte(
                nul_or(text::opt_view(value), None)->0,
            ),
        },
{
    match value {
        Some(t) => {
            if config::is_blank(t.as_str()) {
                Ok(None)
            } else if native::contains_nul(t.as_str()) {
                Err(Error::NulByte(t))
            } else {
                Ok(Some(t))
            }
        },
        None => Ok(None),
    }
}

/// The image runtime: what it was configured with, and the runtime where one was made.
pub struct StableDiffusionImage {
    pub config: ImageModelConfig,
    pub handle: Option<libia_image>,
}

impl StableDiffusionImage {
    /// An image runtime for a model; a text with a NUL is an error.
    pub fn try_new(config: ImageModelConfig) -> (r: Result<StableDiffusionImage, Error>)
        ensures
            match r {
                Ok(s) => model_nul(config@) is None && s.config@ == given_model(config@)
                    && s.handle is None,
                Err(e) => model_nul(config@) is Some && e@ == ErrorView::NulByte(
                    model_nul(config@)->0,
                ),
            },
    {
        let model_path = match native::to_cstring(config.model_path.as_str()) {
            Ok(t) => t,
            Err(e) => {
                return Err(e);
            },
        };
        let diffusion_model_path = match optional_cstring(config.diffusion_model_path) {
            Ok(t) => t,
            Err(e) => {
                return Err(e);
            },
        };
        let vae_path = match optional_cstring(config.vae_path) {
            Ok(t) => t,
            Err(e) => {
                return Err(e);
            },
        };
        let clip_l_path = match optional_cstring(config.clip_l_path) {
            Ok(t) => t,
            Err(e) => {
                return Err(e);
            },
        };
        let clip_g_path = match optional_cstring(config.clip_g_path) {
            Ok(t) => t,
            Err(e) => {
                return Err(e);
            },
        };
        let t5xxl_path = match optional_cstring(config.t5xxl_path) {
            Ok(t) => t,
            Err(e) => {
                return Err(e);
            },
        };
        let llm_path = match optional_cstring(config.llm_path) {
            Ok(t) => t,
            Err(e) => {
                return Err(e);
            },
        };
        let backend = match optional_cstring(config.backend) {
            Ok(t) => t,
            Err(e) => {
                return Err(e);
            },
        };
        let params_backend = match optional_cstring(config.params_backend) {
            Ok(t) => t,
            Err(e) => {
                return Err(e);
            },
        };
        let max_vram = match optional_cstring(config.max_vram) {
            Ok(t) => t,
            Err(e) => {
                return Err(e);
            },
        };
        let checked = ImageModelConfig {
            model_path,
            diffusion_model_path,
            vae_path,
            clip_l_path,
            clip_g_path,
            t5xxl_path,
            llm_path,
            backend,
            params_backend,
            max_vram,
            n_threads: config.n_threads,
            use_mmap: config.use_mmap,
            flash_attn: config.flash_attn,
            diffusion_flash_attn: config.diffusion_flash_attn,
        };
        Ok(StableDiffusionImage { config: checked, handle: None })
    }

    /// Whether a runtime is to be made before it is used.
    pub fn needs_handle(&self) -> (r: bool)
        ensures
            r == (self.handle is None),
    {
        self.handle.is_none()
    }

    /// Takes the address at which a runtime was made.
    pub fn on_created(&mut self, address: usize) -> (r: Result<(), Error>)
        ensures
            match r {
                Ok(_) => address != 0 && *final(self) == (StableDiffusionImage {
                    handle: Some(libia_image { address }),
                    ..*old(self)
                }),
                Err(e) => address == 0 && *final(self) == *old(self) && e@
                    == ErrorView::NullPointer("libia_image_create"@),
            },
    {
        if address == 0 {
            return Err(Error::NullPointer("libia_image_create"));
        }
        self.handle = Some(libia_image { address });
        Ok(())
    }

    /// Takes the outcome of loading the model.
    pub fn on_loaded(&self, ok: bool, native: Option<String>) -> (r: Result<(), String>)
        ensures
            match r {
                Ok(_) => ok,
                Err(e) => !ok && e@ == match native {
                    Some(m) => m@,
                    None => "failed to load image runtime"@,
                },
            },
    {
        if ok {
            Ok(())
        } else {
            match native {
                Some(m) => Err(m),
                None => Err("failed to load image runtime".to_string()),
            }
        }
    }

    /// Whether the model is loaded: a runtime was made, and says so.
    pub fn is_loaded(&self, native: bool) -> (r: bool)
        ensures
            r == (self.handle is Some && native),
    {
        self.handle.is_some() && native
    }

    /// The image to be made with the texts that go to the runtime; a text with a NUL is an error.
    pub fn generate(&self, config: ImageGenerateConfig) -> (r: Result<ImageGenerateConfig, String>)
        ensures
            match r {
                Ok(c) => {
                    &&& generate_nul(config) is None
                    &&& c.prompt@ == config.prompt@
                    &&& text::opt_view(c.negative_prompt) == given(
                        text::opt_view(config.negative_prompt),
                    )
                    &&& c.output_path@ == config.output_path@
                    &&& c == (ImageGenerateConfig {
                        prompt: c.prompt,
                        negative_prompt: c.negative_prompt,
                        output_path: c.output_path,
                        ..config
                    })
                },
                Err(e) => generate_nul(config) is Some && e@ == crate::error::error_text(
                    ErrorView::NulByte(generate_nul(config)->0),
                ),
            },
    {
        let prompt = match native::to_cstring(config.prompt.as_str()) {
            Ok(t) => t,
            Err(e) => {
                return Err(e.message());
            },
        };
        let negative_prompt = match optional_cstring(config.negative_prompt) {
            Ok(t) => t,
            Err(e) => {
                return Err(e.message());
            },
        };
        let output_path = match native::to_cstring(config.output_path.as_str()) {
            Ok(t) => t,
            Err(e) => {
                return Err(e.message());
            },
        };
        Ok(
            ImageGenerateConfig {
                prompt,
                negative_prompt,
                output_path,
                width: config.width,
                height: config.height,
                sample_steps: config.sample_steps,
                seed: config.seed,
                batch_count: config.batch_count,
                cfg_scale: config.cfg_scale,
                guidance: config.guidance,
                sample_method: config.sample_method,
                scheduler: config.scheduler,
            },
        )
    }
}

/// The first text of an image to be made that holds a NUL.
pub open spec fn generate_nul(c: ImageGenerateConfig) -> Option<Seq<char>> {
    if native::has_nul(c.prompt@) {
        Some(c.prompt@)
    } else {
        nul_or(
            text::opt_view(c.negative_prompt),
            if native::has_nul(c.output_path@) {
                Some(c.output_path@)
            } else {
                None
            },
        )
    }
}

/// What came of making an image: where it lies and what it is, or why there is none.
pub fn image_outcome(
    ok: bool,
    native: Option<String>,
    path: Option<String>,
    width: i32,
    height: i32,
    channels: i32,
    seed: i64,
) -> (r: Result<ImageResult, String>)
    ensures
        match r {
            Ok(i) => ok && path is Some && i.path@ == path->0@ && i.width == width && i.height
                == height && i.channels == channels && i.seed == seed,
            Err(e) => if ok {
                path is None && e@ == "null pointer returned from C string result"@
            } else {
                e@ == match native {
                    Some(m) => m@,
                    None => "failed to generate image"@,
                }
            },
        },
{
    if !ok {
        return match native {
            Some(m) => Err(m),
            None => Err("failed to generate image".to_string()),
        };
    }
    match path {
        Some(path) => Ok(ImageResult { path, width, height, channels, seed }),
        None => Err("null pointer returned from C string result".to_string()),
    }
}

/// The texts of the settings of a model that are given.
pub open spec fn is_model_text(m: ModelView, t: Seq<char>) -> bool {
    ||| t == m.model_path
    ||| given(m.diffusion_model_path) == Some(t)
    ||| given(m.vae_path) == Some(t)
    ||| given(m.clip_l_path) == Some(t)
    ||| given(m.clip_g_path) == Some(t)
    ||| given(m.t5xxl_path) == Some(t)
    ||| given(m.llm_path) == Some(t)
    ||| given(m.backend) == Some(t)
    ||| given(m.params_backend) == Some(t)
    ||| given(m.max_vram) == Some(t)
}

/// A model is refused exactly where one of its texts holds a NUL, and the refusal shows such a text.
pub proof fn law_nul_in_model_is_found(m: ModelView)
    ensures
        model_nul(m) matches Some(t) ==> is_model_text(m, t) && native::has_nul(t),
        model_nul(m) is None ==> forall|t: Seq<char>| #[trigger]
            is_model_text(m, t) ==> !native::has_nul(t),
{
}

/// A setting of only white space is as one that is not given; any other is handed on as it is.
pub proof fn law_blank_setting_is_not_given(m: ModelView, t: Seq<char>)
    ensures
        text::trimmed(t).len() == 0 ==> given(Some(t)) is None,
        text::trimmed(t).len() > 0 ==> given(Some(t)) == Some(t),
        given(None) is None,
        given_model(m).model_path == m.model_path,
        given_model(m).vae_path == given(m.vae_path),
        given_model(m).diffusion_model_path == given(m.diffusion_model_path),
        given_model(m).clip_l_path == given(m.clip_l_path),
        given_model(m).clip_g_path == given(m.clip_g_path),
        given_model(m).t5xxl_path == given(m.t5xxl_path),
        given_model(m).llm_path == given(m.llm_path),
        given_model(m).backend == given(m.backend),
        given_model(m).params_backend == given(m.params_backend),
        given_model(m).max_vram == given(m.max_vram),
{
}

} // verus!
