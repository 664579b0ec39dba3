use gpt_sovits_rs::config::{
    open_device, Config, ConfigBuilder, Device, ModelVersion, Precision, Tried,
};
use gpt_sovits_rs::server::response::language_code;
use gpt_sovits_rs::{Error, Language};

#[test]
fn auto_device_builds_a_supported_device() {
    let config = Config::builder().with_device("auto").build();
    assert!(matches!(
        config.device,
        Device::Cuda | Device::Cpu | Device::Mps
    ));
}

#[test]
fn defaults_to_quality_safe_f32() {
    let config = Config::builder().build();
    assert!(!config.half_precision);
    assert_eq!(config.candle_dtype(), Precision::F32);
    assert_eq!(config.gpt_dtype(), Precision::F32);
}

#[test]
fn half_request_keeps_sovits_in_f32() {
    let config = Config::builder().with_half_precision(true).build();
    assert!(config.half_precision);
    assert_eq!(config.candle_dtype(), Precision::F32);
    assert_eq!(config.gpt_dtype(), Precision::F32);
}

#[test]
fn named_devices_are_chosen_in_any_case() {
    assert_eq!(Config::builder().with_device("CUDA").build().device, Device::Cuda);
    assert_eq!(Config::builder().with_device("Mps").build().device, Device::Mps);
    assert_eq!(Config::builder().with_device("tpu").build().device, Device::Cpu);
}

#[test]
fn a_build_without_cuda_runs_on_the_cpu() {
    assert_eq!(ConfigBuilder::default().build_for(false).device, Device::Cpu);
    assert_eq!(ConfigBuilder::default().build_for(true).device, Device::Cuda);
}

#[test]
fn model_version_is_kept() {
    let config = Config::builder().with_model_version(ModelVersion::V4).build();
    assert_eq!(config.model_version, ModelVersion::V4);
    assert_eq!(Config::builder().build().model_version, ModelVersion::V2);
}

#[test]
fn devices_have_names() {
    assert_eq!(Device::Cuda.as_str(), "cuda");
    assert_eq!(Device::Cpu.as_str(), "cpu");
    assert_eq!(Device::Mps.as_str(), "mps");
}

#[test]
fn languages_are_named_in_any_case() {
    assert_eq!(Language::parse("ZH"), Some(Language::Chinese));
    assert_eq!(Language::parse("English"), Some(Language::English));
    assert_eq!(Language::parse("日文"), Some(Language::Japanese));
    assert_eq!(Language::parse("yue"), Some(Language::Cantonese));
    assert_eq!(Language::parse("klingon"), None);
}

#[test]
fn errors_say_their_kind() {
    assert_eq!(
        Error::ConfigError("x".to_string()).message(),
        "Configuration error: x"
    );
    assert!(Error::ModelLoadError("x".to_string()).message().contains("x"));
}

#[test]
fn a_device_that_opens_is_the_one_that_was_asked_for() {
    assert_eq!(open_device(Device::Cpu), Ok(Device::Cpu));
    for device in [Device::Cuda, Device::Mps] {
        match open_device(device) {
            Ok(opened) => assert_eq!(opened, device),
            Err(message) => assert!(!message.is_empty()),
        }
    }
}

#[test]
fn a_device_is_looked_for_in_order() {
    for (cuda, metal, device) in [
        (true, false, Device::Cuda),
        (false, true, Device::Mps),
        (false, false, Device::Cpu),
    ] {
        let builder = Config::builder().with_tried_device(Tried { cuda, metal });
        assert_eq!(builder.build().device, device);
    }
    let tried = Config::builder().with_device("AUTO");
    let found = tried.tried.unwrap();
    assert_eq!(tried.device, Some(Device::pick(found.cuda, found.metal)));
    assert_eq!(Config::builder().with_auto_device(), tried);
}

#[test]
fn codes_name_their_languages() {
    for language in [
        Language::Chinese,
        Language::English,
        Language::Japanese,
        Language::Korean,
        Language::Cantonese,
        Language::Auto,
    ] {
        assert_eq!(Language::parse(language_code(language)), Some(language));
    }
}
