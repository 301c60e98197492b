use drill::chat::ChatMessage;
use drill::cli::TOP_P_BITS;
use drill::error::Error;
use drill::image::{
    image_outcome, sample_method_code, scheduler_code, to_ffi_sample_method, to_ffi_scheduler,
    ImageGenerateConfig, ImageModelConfig, ImageSampleMethod, ImageScheduler, StableDiffusionImage,
    DEFAULT_CFG_SCALE, DEFAULT_GUIDANCE,
};
use drill::json::parse;
use drill::native::{
    contains_nul, libia_option_kind, libia_sst_generation_kind, native_outcome, normalize_prop_name,
    to_cstring, Prop,
};
use drill::runtime::{
    build_chat_messages, call_outcome, caps_of, decoded_media, generation_outcome, list_props,
    media_cap, payload_of, plan_calls, tokenize_text, valid_calls, MediaStep, OptionInfo, ParamCall,
    RuntimeLlama, RuntimeSettings,
};
use drill::sst::{
    audio_outcome, speech_piece, SSTGenerationType, SstStep, SstValue, WhisperSst,
    DEFAULT_VAD_MAX_SPEECH, DEFAULT_VAD_OVERLAP, DEFAULT_VAD_THRESHOLD,
};

fn settings() -> RuntimeSettings {
    RuntimeSettings {
        model_path: "/m.gguf".to_string(),
        ctx: 4096,
        n_predict: 512,
        n_batch: 2048,
        n_ubatch: 512,
        temp: 0.6f64.to_bits(),
        top_p: TOP_P_BITS,
        top_k: 40,
        mmproj_path: None,
        ngl: Some(99),
        system_prompt: None,
    }
}

fn speech() -> WhisperSst {
    WhisperSst::new("/w.bin".to_string(), None, false, false, Some("pt".to_string()), 4)
}

#[test]
fn constants_are_the_bits_of_their_numbers() {
    assert_eq!(f64::from_bits(TOP_P_BITS), 0.95f32 as f64);
    assert_eq!(f64::from_bits(DEFAULT_VAD_THRESHOLD), 0.5);
    assert_eq!(f64::from_bits(DEFAULT_VAD_MAX_SPEECH), f64::MAX);
    assert_eq!(f64::from_bits(DEFAULT_VAD_OVERLAP), 0.1);
    assert_eq!(f32::from_bits(DEFAULT_CFG_SCALE), 7.0);
    assert_eq!(f32::from_bits(DEFAULT_GUIDANCE), 3.5);
}

#[test]
fn errors_have_their_messages() {
    assert!(Error::NullPointer("runtime").message().contains("runtime"));
    assert!(Error::NulByte("a".to_string()).message().contains("a"));
    assert!(Error::Utf8("u".to_string()).message().contains("u"));
    assert_eq!(Error::Api("falhou".to_string()).message(), "falhou");
    assert_eq!(native_outcome(true, None, "d"), Ok(()));
    assert_eq!(native_outcome(false, None, "d"), Err(Error::Api("d".to_string())));
    assert_eq!(
        native_outcome(false, Some("n".to_string()), "d"),
        Err(Error::Api("n".to_string()))
    );
}

#[test]
fn texts_with_a_nul_are_refused() {
    assert!(contains_nul("a\0b"));
    assert!(!contains_nul("ab"));
    assert_eq!(to_cstring("ab"), Ok("ab".to_string()));
    assert!(matches!(to_cstring("a\0b"), Err(Error::NulByte(_))));
}

#[test]
fn property_names_are_stable() {
    let once = normalize_prop_name("  --n-gpu-layers ");
    assert_eq!(normalize_prop_name(&once), once);
    assert_eq!(once, "--n-gpu-layers");
    assert_eq!(normalize_prop_name("n_gpu_layers"), once);
    assert_eq!(normalize_prop_name("-n"), "--n");
    assert_eq!(normalize_prop_name(" "), "");
}

#[test]
fn runtime_is_started_and_dropped() {
    assert!(matches!(RuntimeLlama::try_new(0, settings()), Err(Error::NullPointer(_))));
    let (mut rt, plan) = RuntimeLlama::try_new(1, settings()).unwrap();
    assert!(plan.stop.is_none());
    assert!(plan.calls.contains(&ParamCall::ModelPath("/m.gguf".to_string())));
    assert!(!rt.is_loaded());
    assert_eq!(rt.begin_ensure(), (false, true));
    assert!(rt.on_created(0).is_err());
    assert_eq!(rt.on_created(7), Ok(()));
    assert!(rt.is_loaded());
    assert!(rt.cancel_generation().is_some());
    assert_eq!(rt.begin_ensure(), (false, false));
    let call = rt.set_prompt("oi").unwrap();
    assert_eq!(call, ParamCall::Prompt("oi".to_string()));
    assert_eq!(rt.on_call(&call, true, None), Ok(()));
    assert!(rt.on_call(&call, false, None).is_err());
    assert!(rt.set_prompt("a\0").is_err());
    assert!(rt.unload());
    assert!(!rt.is_loaded());
    assert!(!rt.unload());
}

#[test]
fn runtime_stops_at_a_bad_setting() {
    let (_, plan) = RuntimeLlama::try_new(
        1,
        RuntimeSettings { model_path: "a\0".to_string(), ..settings() },
    )
    .unwrap();
    assert!(plan.stop.is_some());
    let calls = vec![
        ParamCall::NCtx(1),
        ParamCall::Prompt("x\0".to_string()),
        ParamCall::NPredict(2),
    ];
    assert_eq!(plan_calls(&calls).calls, vec![ParamCall::NCtx(1)]);
    assert_eq!(valid_calls(&calls), vec![ParamCall::NCtx(1), ParamCall::NPredict(2)]);
    assert!(call_outcome(&ParamCall::NCtx(1), true, None).is_ok());
}

#[test]
fn media_is_decoded() {
    let (rt, _) = RuntimeLlama::try_new(1, settings()).unwrap();
    for data in ["QUJDRA==", "data:image/png;base64,QUJDRA=="] {
        let (mut run, step) = rt.add_media_base64(data);
        assert_eq!(step, MediaStep::Write(b"ABCD".to_vec()));
        assert_eq!(run.on_written(Ok("/tmp/x".to_string())), MediaStep::Ensure);
        assert_eq!(run.on_ensured(Ok(())), MediaStep::HandOver("/tmp/x".to_string()));
        assert_eq!(run.on_handed(true, None), MediaStep::End(Ok(())));
    }
    let refused = Error::Api("failed to decode base64 image".to_string());
    assert_eq!(rt.add_media_base64("***").1, MediaStep::End(Err(refused)));
    assert_eq!(payload_of("data:x;base64,QQ=="), "QQ==");
    assert!(decoded_media(None).is_err());
    let (mut run, _) = rt.add_audio_base64s(&vec!["QQ==".to_string(), "***".to_string()]);
    run.on_written(Ok("/tmp/x".to_string()));
    run.on_ensured(Ok(()));
    assert!(matches!(run.on_handed(true, None), MediaStep::End(Err(_))));
    let full = Error::Api("failed to write temp image file: cheio".to_string());
    let (mut run, _) = rt.add_video_base64("QQ==");
    assert!(matches!(run.on_written(Err(full)), MediaStep::End(Err(Error::Api(_)))));
}

fn texts(items: &[&str]) -> Vec<String> {
    items.iter().map(|s| s.to_string()).collect()
}

#[test]
fn media_is_handed_over_in_order() {
    let (rt, _) = RuntimeLlama::try_new(1, settings()).unwrap();
    assert_eq!(rt.add_media_files(&Vec::new()).1, MediaStep::End(Ok(())));
    let (mut run, step) = rt.add_media_files(&texts(&["/a", "/b"]));
    assert_eq!(step, MediaStep::Ensure);
    assert_eq!(run.on_ensured(Ok(())), MediaStep::HandOver("/a".to_string()));
    assert_eq!(run.on_handed(true, None), MediaStep::Ensure);
    assert_eq!(run.on_ensured(Ok(())), MediaStep::HandOver("/b".to_string()));
    assert_eq!(run.on_handed(true, None), MediaStep::End(Ok(())));
}

#[test]
fn first_refusal_ends_media() {
    let (rt, _) = RuntimeLlama::try_new(1, settings()).unwrap();
    let (mut run, _) = rt.add_audio_files(&texts(&["/a", "/b"]));
    run.on_ensured(Ok(()));
    assert_eq!(
        run.on_handed(false, Some("sem audio".to_string())),
        MediaStep::End(Err(Error::Api("sem audio".to_string())))
    );
    let (mut run, _) = rt.add_media_file("/a");
    run.on_ensured(Ok(()));
    assert_eq!(
        run.on_handed(false, None),
        MediaStep::End(Err(Error::Api("failed to add media file".to_string())))
    );
    let (run, _) = rt.add_video_files(&texts(&["a\0", "/b"]));
    assert_eq!(run.on_ensured(Ok(())), MediaStep::End(Err(Error::NulByte("a\0".to_string()))));
    let down = || Error::Api("failed to load runtime".to_string());
    assert_eq!(run.on_ensured(Err(down())), MediaStep::End(Err(down())));
}

#[test]
fn chats_are_checked() {
    let ok = build_chat_messages(&vec![ChatMessage::plain("user", "oi")]).unwrap();
    assert_eq!(ok.len(), 1);
    assert!(build_chat_messages(&vec![ChatMessage::plain("us\0er", "oi")]).is_err());
    assert_eq!(generation_outcome(false, Some("x".to_string()), None), Ok("x".to_string()));
    assert!(generation_outcome(false, None, None).is_err());
    assert!(generation_outcome(true, Some("x".to_string()), None).is_err());
}

#[test]
fn lists_of_the_runtime_are_read() {
    assert_eq!(tokenize_text("1, 2,x,-3"), vec![1, 2, -3]);
    let infos = vec![
        OptionInfo { name: Some("--a".to_string()), kind: libia_option_kind::LIBIA_OPTION_KIND_INT },
        OptionInfo { name: None, kind: libia_option_kind::LIBIA_OPTION_KIND_VOID },
    ];
    assert_eq!(list_props(&infos).len(), 1);
    let report = parse(r#"{"vision":true,"audio":false}"#).unwrap();
    assert_eq!(media_cap(&report, "vision"), Some(true));
    assert_eq!(media_cap(&report, "video"), None);
    assert_eq!(
        caps_of(&report),
        Some(vec![("audio".to_string(), false), ("vision".to_string(), true)])
    );
    assert_eq!(caps_of(&parse("[]").unwrap()), None);
}

#[test]
fn options_of_the_runtime_are_set() {
    let (rt, _) = RuntimeLlama::try_new(1, settings()).unwrap();
    let option = |name: &str, value: &str| {
        Ok(ParamCall::SetOption { name: name.to_string(), value: value.to_string() })
    };
    assert_eq!(rt.set_prop("n_gpu_layers", "9"), option("--n-gpu-layers", "9"));
    assert_eq!(rt.set_speculative_type("mtp"), option("--spec-type", "mtp"));
    assert_eq!(rt.set_spec_draft_model("/d.gguf"), option("--spec-draft-model", "/d.gguf"));
    assert_eq!(rt.set_spec_draft_n_max(16), option("--spec-draft-n-max", "16"));
    assert_eq!(rt.set_spec_draft_n_min(-1), option("--spec-draft-n-min", "-1"));
    assert_eq!(
        rt.set_spec_draft_backend_sampling(true),
        option("--spec-draft-backend-sampling", "on")
    );
    assert_eq!(rt.set_spec_draft_ngl(99), option("--spec-draft-ngl", "99"));
    assert_eq!(rt.speculative_type(), "--spec-type");
    assert_eq!(
        rt.set_bool_prop("use_mmap", true),
        Ok(ParamCall::SetFlag { name: "--use-mmap".to_string(), value: true })
    );
    assert_eq!(
        rt.set_int_prop("n_keep", 3),
        Ok(ParamCall::SetInt { name: "n_keep".to_string(), value: 3 })
    );
    assert_eq!(
        rt.set_bool_prop_raw("warmup", false),
        Ok(ParamCall::SetBool { name: "warmup".to_string(), value: false })
    );
    assert!(rt.set_string_prop("a", "b\0").is_err());
    assert!(rt.get_prop("a\0").is_err());
    assert_eq!(rt.get_prop("n_keep"), Ok("--n-keep".to_string()));
    assert_eq!(rt.set_enable_thinking(true), Ok(ParamCall::EnableThinking(true)));
    assert_eq!(rt.set_tools_json("[]"), Ok(ParamCall::ToolsJson("[]".to_string())));
}

#[test]
fn speech_settings_are_charged() {
    let mut s = speech();
    assert_eq!(s.n_threads, 4);
    s.charge_prop("--language", "en", None);
    assert_eq!(s.language, Some("en".to_string()));
    s.charge_prop("--step-ms", "12", None);
    assert_eq!(s.step_ms, 12);
    s.charge_prop("--vad-threshold", "", Some(0.25f64.to_bits()));
    assert_eq!(f64::from_bits(s.vad_threshold), 0.25);
    s.charge_prop("--nada", "x", None);
    assert!(!s.loaded);
    s.set_vad_enabled(true);
    assert!(s.vad_enabled);
    assert!(!s.get_all_props().is_empty());
}

#[test]
fn speech_runtime_is_loaded() {
    let mut s = speech();
    let (steps, stop) = s.load();
    assert!(stop.is_none());
    assert!(matches!(&steps[0], SstStep::Create(m) if m == "/w.bin"));
    assert!(matches!(steps.last(), Some(SstStep::Load)));
    assert_eq!(
        s.on_step(&steps[0], false, 0, None),
        Err("null pointer returned from libia_sst_create".to_string())
    );
    for step in &steps {
        s.on_step(step, true, 5, None).unwrap();
    }
    assert!(s.loaded);
    let bad = SstStep::Setting { name: "x", value: SstValue::Bool(true) };
    assert!(s.on_step(&bad, false, 5, Some("ruim".to_string())).is_err());
    s.unload();
    assert!(!s.loaded);
    assert!(s.runtime.is_none());
    let mut nul = speech();
    nul.model_path = "a\0".to_string();
    assert!(nul.load().1.is_some());
    assert_eq!(
        speech().apply_settings(),
        Err(Error::Api("sst runtime is not loaded".to_string()))
    );
}

#[test]
fn speech_pieces_are_told_apart() {
    assert_eq!(
        speech_piece(libia_sst_generation_kind::LIBIA_SST_GENERATION_KIND_TEXT, Some("oi".to_string())),
        SSTGenerationType::Text("oi".to_string())
    );
    assert_eq!(
        speech_piece(libia_sst_generation_kind::LIBIA_SST_GENERATION_KIND_TEXT, None),
        SSTGenerationType::Text(String::new())
    );
    assert_eq!(
        speech_piece(libia_sst_generation_kind::LIBIA_SST_GENERATION_KIND_SPEECH_START, None),
        SSTGenerationType::SpeechStart
    );
    assert_eq!(
        speech_piece(libia_sst_generation_kind::LIBIA_SST_GENERATION_KIND_SPEECH_END, None),
        SSTGenerationType::SpeechEnd
    );
    assert_eq!(audio_outcome(Some("t".to_string()), None), Ok("t".to_string()));
    assert!(audio_outcome(None, None).is_err());
}

#[test]
fn images_are_made() {
    let config = ImageModelConfig::new("/sd.gguf".to_string());
    let mut sd = StableDiffusionImage::try_new(config).unwrap();
    assert!(sd.needs_handle());
    assert!(sd.on_created(0).is_err());
    assert!(sd.on_created(3).is_ok());
    assert!(!sd.needs_handle());
    assert!(sd.is_loaded(true));
    assert!(!sd.is_loaded(false));
    assert!(sd.on_loaded(false, None).is_err());
    let g = ImageGenerateConfig::new("gato".to_string(), "/o.png".to_string());
    assert!(sd.generate(g).is_ok());
    let bad = ImageGenerateConfig::new("a\0".to_string(), "/o.png".to_string());
    assert!(sd.generate(bad).is_err());
    let made = image_outcome(true, None, Some("/o.png".to_string()), 8, 9, 3, 42).unwrap();
    assert_eq!((made.width, made.height, made.channels, made.seed), (8, 9, 3, 42));
    assert!(image_outcome(false, Some("ruim".to_string()), None, 0, 0, 0, 0).is_err());
    assert_eq!(sample_method_code(to_ffi_sample_method(ImageSampleMethod::Euler)), 0);
    assert_eq!(sample_method_code(to_ffi_sample_method(ImageSampleMethod::EulerA)), 1);
    assert_eq!(scheduler_code(to_ffi_scheduler(ImageScheduler::Karras)), 1);
}

#[test]
fn properties_are_compared_by_key_and_value() {
    let prop = Prop { key: "--language".to_string(), value: "pt".to_string() };
    assert_eq!(prop.clone(), prop);
    assert_ne!(prop, Prop { value: "en".to_string(), ..prop.clone() });
}

#[test]
fn settings_stop_at_a_text_with_a_nul() {
    let mut s = speech();
    let (steps, _) = s.load();
    s.on_step(&steps[0], true, 5, None).unwrap();
    let (all, stop) = s.apply_settings().unwrap();
    assert_eq!(stop, None);
    assert_eq!(all.len(), 21);
    s.language = Some("p\0".to_string());
    let (before, stop) = s.apply_settings().unwrap();
    assert_eq!(stop, Some(Error::NulByte("p\0".to_string())));
    assert_eq!(before.len(), 19);
    assert_eq!(before[..], all[..19]);
}
