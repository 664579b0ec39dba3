use gpt_sovits_rs::cli::{
    bigvgan_model, check_arguments, check_bigvgan, load_failure, load_plan, missing_models, model_overrides, parse_positive_usize, resolve_references,
    resolve_settings, startup, voice_lines, Args, ModelRole, Startup, VoiceModels, VoiceReference,
};
use gpt_sovits_rs::config::Device;
use gpt_sovits_rs::convert::{
    bert_metadata, embedding_metadata, embedding_name, hubert_joined_name, hubert_metadata,
    bare_storage, bert_name, check_written, convert_bert, convert_checkpoint, convert_hubert,
    embedding_shape, find_tensor, half_words, header_version, hubert_weights, kept_layer,
    patched_checkpoint, shape_text, single_tensor, single_words, sovits_version, storage_format,
    storage_name, temporary_path, KeyTrials, ModelKind, StorageFormat, TensorInfo,
};
use gpt_sovits_rs::doctor::{
    check_bert_tokenizer, check_device, check_models, check_reference_audio, check_reference_text,
    check_safetensors, check_voices, header_count, header_length, CheckedVoice,
    DeviceProbe, DoctorReport, Level, ModelFile, ModelFiles, ReferenceFile, VoiceChoice,
};
use gpt_sovits_rs::float_bits::F32;
use gpt_sovits_rs::inference::split::SplitMethod;
use gpt_sovits_rs::model_paths::ModelPaths;
use gpt_sovits_rs::paths::{extension, name_of_file, parent_of, same_path, sibling};
use gpt_sovits_rs::tensor_file::{
    has_its_data, inspect_line, inspect_lines, inspect_title, lines_on, safetensor_count,
};
use gpt_sovits_rs::voice::{InferenceOptionOverrides, VoiceDefaults};
use gpt_sovits_rs::Language;
use std::path::Path;

fn texts(list: &[&str]) -> Vec<String> {
    list.iter().map(|s| s.to_string()).collect()
}

fn some(s: &str) -> Option<String> {
    Some(s.to_string())
}

fn lines(report: &DoctorReport) -> Vec<String> {
    (0..report.findings.len()).map(|i| report.line(i)).collect()
}

fn bytes(s: &str) -> Vec<u8> {
    s.as_bytes().to_vec()
}

fn model_file(header: Result<usize, &str>) -> ModelFile {
    ModelFile { is_file: true, header: header.map_err(|e| e.to_string()) }
}

fn missing_file() -> ModelFile {
    ModelFile { is_file: false, header: Err(String::new()) }
}

#[test]
fn devices_are_checked_as_they_were_asked_for() {
    let fine = DeviceProbe { cuda_compiled: true, cuda_error: None, metal_error: None };
    let none = DeviceProbe {
        cuda_compiled: false,
        cuda_error: some("no driver"),
        metal_error: some("no metal"),
    };
    let mut report = DoctorReport::new();
    check_device(&mut report, "cuda", Device::Cuda, &fine);
    check_device(&mut report, "cuda", Device::Cpu, &none);
    check_device(&mut report, "mps", Device::Cpu, &none);
    check_device(&mut report, "cpu", Device::Cpu, &none);
    check_device(&mut report, "auto", Device::Cpu, &none);
    check_device(&mut report, "tpu", Device::Cpu, &none);
    assert_eq!(
        lines(&report),
        vec![
            "[ok] CUDA device is available",
            "[error] CUDA was requested, but this binary was not built with --features cuda",
            "[error] MPS was requested, but Candle could not open Metal device 0: no metal",
            "[ok] CPU device selected",
            "[ok] auto device resolved to cpu",
            "[error] Unsupported device 'tpu'; expected auto, cuda, cpu, or mps",
        ]
    );
}

#[test]
fn model_files_are_checked_by_extension_and_header() {
    let mut report = DoctorReport::new();
    check_safetensors(&mut report, "GPT", "m/gpt.safetensors", true, &model_file(Ok(3)));
    check_safetensors(&mut report, "GPT", "m/gpt.safetensors", true, &model_file(Err("bad")));
    check_safetensors(&mut report, "GPT", "m/gpt.ckpt", true, &model_file(Ok(3)));
    check_safetensors(&mut report, "BERT", "m/bert", false, &model_file(Ok(1)));
    check_safetensors(&mut report, "BERT", "m/bert.bin", false, &missing_file());
    check_safetensors(&mut report, "GPT", "m/gpt.bin", true, &missing_file());
    assert_eq!(
        lines(&report),
        vec![
            "[ok] GPT safetensors header is readable: m/gpt.safetensors (3 tensor entries)",
            "[error] GPT safetensors header is not readable: m/gpt.safetensors (bad)",
            "[error] GPT points to a raw PyTorch checkpoint, not a runtime model: m/gpt.ckpt. \
             Convert it to safetensors first.",
            "[warn] BERT model has no file extension; expected .safetensors: m/bert",
            "[ok] BERT safetensors header is readable: m/bert (1 tensor entries)",
            "[warn] BERT model file does not exist: m/bert.bin",
            "[error] GPT model file does not exist: m/gpt.bin",
        ]
    );
}

#[test]
fn header_lengths_are_bounded() {
    assert_eq!(header_length(&vec![2, 1, 0, 0, 0, 0, 0, 0]), Ok(258));
    assert_eq!(
        header_length(&vec![0; 8]),
        Err("invalid safetensors header length: 0".to_string())
    );
    assert_eq!(
        header_length(&vec![255; 8]),
        Err(format!("invalid safetensors header length: {}", u64::MAX))
    );
}

#[test]
fn headers_count_tensors_and_no_metadata() {
    assert_eq!(header_count(&bytes("{\"a\":{},\"b\":{},\"__metadata__\":{}}")), Ok(2));
    assert_eq!(header_count(&bytes("{}")), Ok(0));
    assert_eq!(
        header_count(&bytes("[1, 2]")),
        Err("safetensors header is not a JSON object".to_string())
    );
    assert!(header_count(&bytes("{\"a\"")).is_err());
}

#[test]
fn tokenizers_are_found_beside_the_model_or_by_fallback() {
    let mut report = DoctorReport::new();
    check_bert_tokenizer(&mut report, "m/bert.safetensors", true, false);
    check_bert_tokenizer(&mut report, "m/bert.safetensors", false, true);
    check_bert_tokenizer(&mut report, "m/bert.safetensors", false, false);
    let shown = lines(&report);
    assert_eq!(shown[0], "[ok] BERT tokenizer found: m/tokenizer.json");
    assert_eq!(
        shown[1],
        "[ok] BERT tokenizer found through fallback: models/bert/tokenizer.json"
    );
    assert_eq!(report.findings[2].0, Level::Error);
}

#[test]
fn a_complete_setup_has_no_errors() {
    let paths = ModelPaths {
        gpt: "m/gpt.safetensors".to_string(),
        sovits: "m/sovits.safetensors".to_string(),
        bert: some("m/bert.safetensors"),
        hubert: some("m/hubert.safetensors"),
    };
    let files = ModelFiles {
        gpt: model_file(Ok(1)),
        sovits: model_file(Ok(2)),
        bert: model_file(Ok(3)),
        hubert: model_file(Ok(4)),
        sibling_tokenizer: true,
        fallback_tokenizer: false,
    };
    let mut report = DoctorReport::new();
    check_models(&mut report, "m", true, &Ok(paths), &files);
    assert_eq!(report.count(Level::Error), 0);
    assert_eq!(lines(&report)[0], "[ok] models directory exists: m");
    let (fine, text) = report.summary();
    assert!(fine);
    assert_eq!(
        text,
        format!(
            "Doctor finished: {} check(s), {} warning(s), no blocking errors.",
            report.findings.len(),
            report.count(Level::Warn)
        )
    );
}

#[test]
fn missing_models_are_blocking() {
    let files = ModelFiles {
        gpt: missing_file(),
        sovits: missing_file(),
        bert: missing_file(),
        hubert: missing_file(),
        sibling_tokenizer: false,
        fallback_tokenizer: false,
    };
    let mut report = DoctorReport::new();
    check_models(&mut report, "m", false, &Err("no GPT model".to_string()), &files);
    assert_eq!(
        lines(&report),
        vec!["[warn] models directory does not exist yet: m", "[error] no GPT model"]
    );
    let (fine, text) = report.summary();
    assert!(!fine);
    assert_eq!(
        text,
        "Doctor found 1 blocking error(s) and 1 warning(s) across 2 check(s).\n\
         Fix the errors above, then run `gpt-sovits --doctor` again."
    );
    // each finding counts once
    let counted: usize =
        [Level::Fine, Level::Warn, Level::Error].into_iter().map(|l| report.count(l)).sum();
    assert_eq!(counted, 2);
}

fn reference(duration: f32, shown: &str) -> ReferenceFile {
    ReferenceFile {
        is_file: true,
        wav: Ok((F32::from_bits(duration.to_bits()), shown.to_string(), 32000, 1)),
    }
}

#[test]
fn references_should_be_three_to_ten_seconds_of_wav() {
    let mut report = DoctorReport::new();
    check_reference_audio(&mut report, "ref.wav", &reference(3.0, "3.0"));
    check_reference_audio(&mut report, "ref.wav", &reference(10.5, "10.5"));
    check_reference_audio(&mut report, "ref.wav", &reference(f32::NAN, "NaN"));
    check_reference_audio(&mut report, "ref.mp3", &reference(5.0, "5.0"));
    let missing = ReferenceFile { is_file: false, wav: Err(String::new()) };
    check_reference_audio(&mut report, "ref.wav", &missing);
    let broken = ReferenceFile { is_file: true, wav: Err("no RIFF".to_string()) };
    check_reference_audio(&mut report, "ref.wav", &broken);
    assert_eq!(
        lines(&report),
        vec![
            "[ok] reference audio: ref.wav (3.0s, 32000 Hz, 1 channel(s))",
            "[warn] reference audio: ref.wav (10.5s, 32000 Hz, 1 channel(s)); \
             recommended reference length is 3-10s",
            "[warn] reference audio: ref.wav (NaNs, 32000 Hz, 1 channel(s)); \
             recommended reference length is 3-10s",
            "[warn] reference audio is not a .wav file; current CLI path expects WAV: ref.mp3",
            "[ok] reference audio: ref.mp3 (5.0s, 32000 Hz, 1 channel(s))",
            "[error] reference audio does not exist: ref.wav",
            "[error] reference audio is not readable as WAV: ref.wav (no RIFF)",
        ]
    );
}

#[test]
fn voices_are_checked_as_chosen() {
    let mut report = DoctorReport::new();
    check_reference_text(&mut report, "  你好 ");
    check_reference_text(&mut report, " \n");
    let nothing = VoiceChoice::Inline { audio: None, text: None };
    check_voices(&mut report, "voices", &Ok(texts(&["amy", "bo"])), &nothing);
    let named = VoiceChoice::Named(Ok(CheckedVoice {
        name: "amy".to_string(),
        profile: "voices/amy/voice.json".to_string(),
        reference_audio: None,
        reference_text: some("hi"),
    }));
    check_voices(&mut report, "voices", &Ok(Vec::new()), &named);
    let failed = VoiceChoice::Named(Err("no voice".to_string()));
    check_voices(&mut report, "voices", &Err("no directory".to_string()), &failed);
    assert_eq!(
        lines(&report),
        vec![
            "[ok] reference_text is present (2 chars)",
            "[error] reference_text is empty",
            "[ok] found 2 voice profile(s) in voices: amy, bo",
            "[warn] no --voice or inline reference audio/text selected for a test run",
            "[warn] no voice profiles found in voices; create voices/<name>/voice.json \
             or pass --reference-audio and --reference-text",
            "[ok] voice profile 'amy' parsed: voices/amy/voice.json",
            "[error] voice 'amy' does not set reference_audio",
            "[ok] reference_text is present (2 chars)",
            "[error] no directory",
            "[error] no voice",
        ]
    );
}

#[test]
fn paths_are_taken_apart() {
    assert_eq!(extension("m/a.b/gpt.safetensors"), some("safetensors"));
    assert_eq!(extension("m/a.b/gpt"), None);
    assert_eq!(extension("m/.hidden"), None);
    assert_eq!(extension("m/gpt.wav/"), some("wav"));
    assert_eq!(sibling("m/bert.safetensors", "tokenizer.json"), "m/tokenizer.json");
    assert_eq!(sibling("bert.safetensors", "tokenizer.json"), "tokenizer.json");
    assert_eq!(name_of_file("a/b.st/."), some("b.st"));
    assert_eq!(name_of_file("a/.."), None);
    assert_eq!(parent_of("/b"), "/");
}

#[test]
fn paths_go_by_their_parts() {
    for path in [
        "a//b.st", "a/./b.st", "./b.st", "/b.st", "//b.st", "x.pth/.", "x.pth//", "..", "a/..", "",
        ".", "/", "/.", "b.", ".b", "a/.b.c", "./.", "a/b/../c.st",
    ] {
        let std_path = Path::new(path);
        assert_eq!(
            sibling(path, "tokenizer.json"),
            std_path.with_file_name("tokenizer.json").to_str().unwrap(),
            "{path}"
        );
        let last = std_path.extension().and_then(|part| part.to_str());
        assert_eq!(extension(path).as_deref(), last, "{path}");
        let name = std_path.file_name().and_then(|part| part.to_str());
        assert_eq!(name_of_file(path).as_deref(), name, "{path}");
        let last = last.unwrap_or("safetensors");
        assert_eq!(
            temporary_path(path),
            std_path.with_extension(format!("{last}.tmp")).to_str().unwrap(),
            "{path}"
        );
        for other in ["a/b.st", "b.st", "x.pth", "/", "", ".", "/b.st", "./b.st", "a/b/../c.st"] {
            assert_eq!(same_path(path, other), std_path == Path::new(other), "{path} {other}");
        }
    }
}

fn tensor(name: &str, dims: &[usize]) -> TensorInfo {
    TensorInfo { name: name.to_string(), dims: dims.to_vec() }
}

#[test]
fn checkpoints_tell_their_version() {
    let symbols = tensor("enc_p.text_embedding.weight", &[322, 192]);
    let plain = bytes("PK\u{3}\u{4}");
    assert_eq!(header_version(&bytes("00rest")), Some("v1"));
    assert_eq!(header_version(&bytes("01rest")), Some("v2"));
    assert_eq!(header_version(&plain), None);
    assert_eq!(sovits_version(&bytes("01"), &vec![]), "v2");
    assert_eq!(sovits_version(&plain, &vec![symbols]), "v1");
    assert_eq!(
        sovits_version(&plain, &vec![tensor("enc_p.text_embedding.weight", &[732, 192])]),
        "v2"
    );
    assert_eq!(
        sovits_version(
            &plain,
            &vec![tensor("sv_emb.weight", &[1]), tensor("ge_to512.weight", &[1])]
        ),
        "v2Pro"
    );
}

#[test]
fn marked_checkpoints_are_patched_once() {
    let patched = patched_checkpoint(&bytes("05rest")).unwrap();
    assert_eq!(patched, bytes("PKrest"));
    assert_eq!(patched_checkpoint(&patched), None);
    assert_eq!(patched_checkpoint(&bytes("0")), None);
}

#[test]
fn checkpoints_need_the_tensor_of_their_kind() {
    let tensors = vec![tensor("enc_p.text_embedding.weight", &[732, 192])];
    let metadata = convert_checkpoint(ModelKind::Sovits, &bytes("PK"), &tensors).unwrap();
    assert_eq!(
        metadata,
        vec![
            ("model_type".to_string(), "sovits".to_string()),
            ("model_version".to_string(), "v2".to_string()),
        ]
    );
    assert_eq!(
        convert_checkpoint(ModelKind::Gpt, &bytes("PK"), &tensors),
        Err("checkpoint is missing required tensor model.ar_text_embedding.word_embeddings.weight"
            .to_string())
    );
    assert_eq!(find_tensor(&texts(&["a", "b"]), "b"), Ok(1));
    assert_eq!(find_tensor(&texts(&["a"]), "b"), Err("checkpoint is missing b".to_string()));
}

#[test]
fn bert_keeps_its_embeddings_and_first_layers() {
    assert!(kept_layer("21.output"));
    assert!(!kept_layer("22.output"));
    assert!(!kept_layer("x.output"));
    assert_eq!(bert_name("bert.embeddings.position_ids"), None);
    let names = texts(&[
        "bert.pooler.dense.weight",
        "bert.embeddings.word_embeddings.weight",
        "bert.encoder.layer.23.output.dense.weight",
        "bert.encoder.layer.21.output.LayerNorm.bias",
    ]);
    assert_eq!(
        convert_bert(&names),
        Ok(vec![
            (1, "embeddings.word_embeddings.weight".to_string()),
            (3, "encoder.layer.21.output.LayerNorm.bias".to_string()),
        ])
    );
    assert_eq!(
        convert_bert(&texts(&["bert.encoder.layer.0.output.dense.weight"])),
        Err("BERT checkpoint is missing encoder.layer.21.output.LayerNorm.bias".to_string())
    );
}

#[test]
fn hubert_weights_are_taken_by_name() {
    let g = "encoder.pos_conv_embed.conv.weight_g";
    let v = "encoder.pos_conv_embed.conv.weight_v";
    assert_eq!(hubert_weights(&texts(&["a", v, g])), Ok((2, 1)));
    assert_eq!(hubert_weights(&texts(&[g])), Err(format!("checkpoint is missing {v}")));
    let required = "encoder.layers.11.final_layer_norm.bias";
    assert_eq!(convert_hubert(&texts(&[g, required, v, "b"])), Ok(vec![1, 3]));
    assert_eq!(
        convert_hubert(&texts(&["b"])),
        Err(format!("HuBERT checkpoint is missing {required}"))
    );
}

#[test]
fn keys_are_tried_until_one_gives_tensors() {
    let mut trials = KeyTrials::for_model();
    assert_eq!(trials.next_key(), some("weight"));
    assert!(!trials.report(Ok(0)));
    assert_eq!(
        trials.failure("a.pth"),
        "failed to read tensors from a.pth: no tensors found with key Some(\"weight\")"
    );
    assert_eq!(trials.next_key(), some("state_dict"));
    assert!(trials.report(Ok(2)));
    assert_eq!(trials.next_key(), some(""));
    assert!(!trials.report(Err("bad pickle".to_string())));
    assert_eq!(trials.next_key(), None);
    assert_eq!(trials.failure("a.pth"), "failed to read tensors from a.pth: bad pickle");
    assert_eq!(
        KeyTrials::for_embedding().failure("a"),
        "failed to read tensors from a: no compatible state_dict found"
    );
    assert_eq!(KeyTrials::for_features().keys, texts(&["", "state_dict", "model"]));
}

#[test]
fn embeddings_have_one_length() {
    assert_eq!(embedding_shape(&vec![20480]), Ok(true));
    assert_eq!(embedding_shape(&vec![1, 20480]), Ok(false));
    assert_eq!(
        embedding_shape(&vec![2, 3]),
        Err("SV embedding must have shape [20480] or [1, 20480], got [2, 3]".to_string())
    );
    assert!(single_tensor(1).is_ok());
    assert_eq!(
        single_tensor(2),
        Err("SV embedding checkpoint must contain exactly one tensor, found 2".to_string())
    );
    assert_eq!(shape_text(&Vec::new()), "[]");
}

#[test]
fn bare_storages_are_found_and_read() {
    assert!(storage_name("archive/data/0"));
    assert!(!storage_name("data/1"));
    assert_eq!(bare_storage(&texts(&["archive/data.pkl", "archive/data/0"])), Ok(1));
    assert_eq!(
        bare_storage(&texts(&["archive/data.pkl"])),
        Err("bare SV .pt must contain exactly one data/0 tensor storage, found 0".to_string())
    );
    assert_eq!(storage_format(40960), Ok(StorageFormat::Half));
    assert_eq!(storage_format(81920), Ok(StorageFormat::Single));
    assert_eq!(
        storage_format(7),
        Err("bare SV tensor storage has unexpected byte length 7".to_string())
    );
    assert_eq!(half_words(&vec![0x34, 0x12, 9]), vec![0x1234]);
    assert_eq!(single_words(&vec![0x78, 0x56, 0x34, 0x12]), vec![0x12345678]);
}

#[test]
fn outputs_are_written_beside_their_path() {
    assert_eq!(temporary_path("out/gpt.safetensors"), "out/gpt.safetensors.tmp");
    assert_eq!(temporary_path("out/gpt"), "out/gpt.safetensors.tmp");
    assert!(check_written(1).is_ok());
    assert_eq!(check_written(0), Err("no tensors to write".to_string()));
}

fn tensor_file(header: &str, data: usize) -> Vec<u8> {
    let mut bytes = (header.len() as u64).to_le_bytes().to_vec();
    bytes.extend_from_slice(header.as_bytes());
    bytes.resize(bytes.len() + data, 0);
    bytes
}

#[test]
fn the_tensors_of_a_file_are_told_and_counted() {
    let bytes = tensor_file(
        &[
            r#"{"__metadata__":{"model_type":"bert"},"#,
            r#""a":{"dtype":"F32","shape":[2,3],"data_offsets":[0,24]},"#,
            r#""b":{"dtype":"U8","shape":[4],"data_offsets":[24,28]}}"#,
        ]
        .concat(),
        28,
    );
    assert_eq!(safetensor_count(&bytes), Ok(2));
    let lines = inspect_lines("m.safetensors", &bytes).unwrap();
    assert_eq!(lines.len(), 3);
    assert_eq!(lines[0], "m.safetensors keys (2 total):");
    assert!(lines.contains(&format!("  {:<60} [2, 3]", "a")));
    assert!(lines.contains(&format!("  {:<60} [4]", "b")));
    assert!(inspect_lines("m.safetensors", &bytes[..40].to_vec()).is_err());
    assert!(safetensor_count(&vec![1, 2, 3]).is_err());
    assert_eq!(safetensor_count(&tensor_file("{}", 0)), Ok(0));
    let listed = vec![("a".to_string(), vec![1])];
    assert_eq!(
        lines_on("f", &listed),
        vec!["f keys (1 total):".to_string(), format!("  {:<60} [1]", "a")]
    );
}

#[test]
fn data_that_passes_the_end_of_a_file_is_refused() {
    let huge: usize = (1 << 61) - 1;
    let mut header = String::from("{");
    for i in 0..8 {
        let (from, to) = (i * huge, (i + 1) * huge);
        header.push_str(&format!(
            r#""{i}":{{"dtype":"U8","shape":[{huge}],"data_offsets":[{from},{to}]}},"#
        ));
    }
    header.pop();
    header.push('}');
    let bytes = tensor_file(&header, 0);
    let refusal = "incomplete metadata, file not fully covered".to_string();
    assert!(!has_its_data(&bytes));
    assert_eq!(safetensor_count(&bytes), Err(refusal.clone()));
    assert_eq!(inspect_lines("m.safetensors", &bytes), Err(refusal.clone()));
    let one = r#"{"a":{"dtype":"U8","shape":[4],"data_offsets":[0,4]}}"#;
    assert!(has_its_data(&tensor_file(one, 4)));
    assert_eq!(safetensor_count(&tensor_file(one, 4)), Ok(1));
    assert_eq!(safetensor_count(&tensor_file(one, 3)), Err(refusal));
    assert!(has_its_data(&vec![1, 2, 3]));
    assert!(has_its_data(&vec![255; 9]));
}

#[test]
fn features_are_written_under_their_labels() {
    let label = |kind: &str| vec![("model_type".to_string(), kind.to_string())];
    assert_eq!(bert_metadata(), label("bert"));
    assert_eq!(hubert_metadata(), label("hubert"));
    assert_eq!(hubert_joined_name(), "encoder.pos_conv_embed.conv.weight");
    let mut speaker = label("sv_embedding");
    speaker.push(("shape".to_string(), "1,20480".to_string()));
    assert_eq!(embedding_metadata(), speaker);
    assert_eq!(embedding_name(), "sv_embedding");
}

fn args() -> Args {
    Args {
        text: some("你好"),
        voice: None,
        voices_dir: "voices".to_string(),
        list_voices: false,
        doctor: false,
        inspect: None,
        gpt_model: None,
        models_dir: "models".to_string(),
        sovits_model: None,
        bigvgan_model: None,
        bert_model: None,
        hubert_model: None,
        reference_audio: None,
        reference_text: None,
        sv_embedding: None,
        language: None,
        sampling: InferenceOptionOverrides::default(),
        mode: None,
        split_sentences: false,
        no_split_sentences: false,
        split_method: None,
        min_sentence_chars: None,
        sentence_gap_ms: None,
        sentence_fade_ms: None,
        http: false,
    }
}

fn defaults() -> VoiceDefaults {
    VoiceDefaults {
        language: "zh".to_string(),
        mode: "auto".to_string(),
        split_sentences: true,
        split_method: SplitMethod::Cut5,
        min_sentence_chars: 8,
        sentence_gap_ms: 300,
        sentence_fade_ms: 5,
        top_k: 15,
        top_p: F32::from_bits(1.0f32.to_bits()),
        temperature: F32::from_bits(0.8f32.to_bits()),
        speed: F32::from_bits(1.0f32.to_bits()),
        max_tokens: 500,
        repetition_penalty: F32::from_bits(1.35f32.to_bits()),
    }
}

#[test]
fn the_first_request_on_the_command_line_counts() {
    let mut asked = args();
    assert_eq!(startup(&asked), Startup::Speak);
    asked.http = true;
    assert_eq!(startup(&asked), Startup::Serve);
    asked.doctor = true;
    assert_eq!(startup(&asked), Startup::Doctor);
    asked.list_voices = true;
    assert_eq!(startup(&asked), Startup::ListVoices);
    asked.inspect = some("a.safetensors");
    assert_eq!(startup(&asked), Startup::Inspect);
}

#[test]
fn arguments_are_checked_before_loading() {
    let mut asked = args();
    assert!(check_arguments(&asked).is_ok());
    asked.language = some("ZH");
    assert!(check_arguments(&asked).is_ok());
    asked.language = some("fr");
    assert_eq!(
        check_arguments(&asked),
        Err("Unsupported language 'fr'; expected zh, en, ja, ko, yue, or auto".to_string())
    );
    asked.text = None;
    assert!(check_arguments(&asked).unwrap_err().starts_with("Error: --text is required"));
    asked.http = true;
    asked.language = None;
    assert!(check_arguments(&asked).is_ok());
}

#[test]
fn models_come_from_the_arguments_then_the_voice() {
    let mut asked = args();
    asked.gpt_model = some("own.safetensors");
    let voice = VoiceModels {
        gpt: some("voice-gpt.safetensors"),
        sovits: some("voice-sovits.safetensors"),
        bigvgan: some("voice-bigvgan.safetensors"),
    };
    let overrides = model_overrides(&asked, &voice);
    assert_eq!(overrides.gpt, some("own.safetensors"));
    assert_eq!(overrides.sovits, some("voice-sovits.safetensors"));
    assert_eq!(overrides.bert, None);
    let bigvgan = bigvgan_model(&asked, &voice);
    assert_eq!(bigvgan, some("voice-bigvgan.safetensors"));
    assert_eq!(
        check_bigvgan(&bigvgan, false),
        Err("BigVGAN model file does not exist: voice-bigvgan.safetensors".to_string())
    );
    assert!(check_bigvgan(&None, false).is_ok());
}

#[test]
fn models_are_loaded_in_order() {
    let paths = ModelPaths {
        gpt: "g".to_string(),
        sovits: "s".to_string(),
        bert: None,
        hubert: some("h"),
    };
    assert_eq!(
        load_plan(&paths, &some("v")),
        vec![
            (ModelRole::Gpt, "g".to_string()),
            (ModelRole::Sovits, "s".to_string()),
            (ModelRole::BigVgan, "v".to_string()),
            (ModelRole::Hubert, "h".to_string()),
        ]
    );
    assert_eq!(
        load_failure(ModelRole::Bert, "bad"),
        ("Failed to load BERT model: bad".to_string(), false)
    );
    assert!(load_failure(ModelRole::Gpt, "bad").1);
    assert_eq!(
        missing_models(&paths),
        texts(&["BERT model not found; speech quality will be reduced"])
    );
}

#[test]
fn references_come_from_the_arguments_then_the_voice() {
    let none = VoiceReference { reference_audio: None, reference_text: None, sv_embedding: None };
    let mut asked = args();
    assert!(resolve_references(&asked, &none, true)
        .err()
        .unwrap()
        .starts_with("Error: --reference-audio is required"));
    asked.reference_audio = some("own.wav");
    assert!(resolve_references(&asked, &none, true)
        .err()
        .unwrap()
        .starts_with("Error: --reference-text is required"));
    let voice = VoiceReference {
        reference_audio: some("voice.wav"),
        reference_text: some("hi"),
        sv_embedding: some("sv.safetensors"),
    };
    let found = resolve_references(&asked, &voice, true).ok().unwrap();
    assert_eq!((found.audio.as_str(), found.text.as_str()), ("own.wav", "hi"));
    assert_eq!(
        resolve_references(&asked, &voice, false).err(),
        some("Error: --sv-embedding file does not exist: sv.safetensors")
    );
}

#[test]
fn settings_come_from_the_arguments_then_the_voice() {
    let mut asked = args();
    asked.language = some("en");
    asked.sampling.top_k = Some(3);
    asked.split_method = some("nonsense");
    asked.no_split_sentences = true;
    let s = resolve_settings(&asked, &defaults(), some("sv")).ok().unwrap();
    assert!(!s.split_sentences);
    assert_eq!(s.split_method, SplitMethod::Cut5);
    assert_eq!(s.sentence_gap_ms, 300);
    assert_eq!(s.mode, "auto");
    assert_eq!(s.options.top_k, 3);
    assert_eq!(s.options.max_tokens, 500);
    assert_eq!(s.options.language, Language::English);
    assert_eq!(s.options.sv_embedding, some("sv"));
    let mut voice = defaults();
    voice.language = "xx".to_string();
    assert_eq!(
        resolve_settings(&args(), &voice, None).err(),
        some("Unsupported language 'xx'; expected zh, en, ja, ko, yue, or auto")
    );
}

#[test]
fn counts_are_positive() {
    assert_eq!(parse_positive_usize("+12"), Ok(12));
    assert_eq!(parse_positive_usize("0"), Err("value must be at least 1".to_string()));
    assert_eq!(
        parse_positive_usize("-1"),
        Err("expected a positive integer, got '-1'".to_string())
    );
    assert!(parse_positive_usize("99999999999999999999999").is_err());
    assert!(parse_positive_usize("").is_err());
    assert_eq!(parse_positive_usize("+12").ok(), "+12".parse::<usize>().ok());
}

#[test]
fn model_files_are_listed_in_columns() {
    assert_eq!(inspect_title("gpt.safetensors", 2), "gpt.safetensors keys (2 total):");
    assert_eq!(inspect_line("a.b", &vec![2, 3]), format!("  {:<60} {:?}", "a.b", [2, 3]));
    let long = "x".repeat(70);
    assert_eq!(inspect_line(&long, &Vec::new()), format!("  {long} []"));
    assert_eq!(voice_lines("voices", Vec::new()), texts(&["No voices found in voices"]));
    assert_eq!(voice_lines("voices", texts(&["amy"])), texts(&["amy"]));
}
