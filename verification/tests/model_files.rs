use gpt_sovits_rs::model_paths::{ModelPathOverrides, ModelPaths};

fn files(names: &[&str]) -> Vec<String> {
    names.iter().map(|name| format!("models/{name}")).collect()
}

#[test]
fn discovers_standard_nested_layout() {
    let files = files(&[
        "gpt-model.safetensors",
        "sovits-model.safetensors",
        "bert/bert.safetensors",
        "hubert/hubert.safetensors",
    ]);

    let paths = ModelPaths::discover("models", ModelPathOverrides::default(), &files).ok().unwrap();

    assert_eq!(paths.gpt, "models/gpt-model.safetensors");
    assert_eq!(paths.sovits, "models/sovits-model.safetensors");
    assert_eq!(paths.bert, Some("models/bert/bert.safetensors".to_string()));
    assert_eq!(paths.hubert, Some("models/hubert/hubert.safetensors".to_string()));
}

#[test]
fn accepts_flat_optional_model_layout() {
    let files = files(&[
        "gpt-model.safetensors",
        "sovits-model.safetensors",
        "bert.safetensors",
        "hubert.safetensors",
    ]);

    let paths = ModelPaths::discover("models", ModelPathOverrides::default(), &files).ok().unwrap();

    assert_eq!(paths.bert, Some("models/bert.safetensors".to_string()));
    assert_eq!(paths.hubert, Some("models/hubert.safetensors".to_string()));
}

#[test]
fn explicit_paths_take_precedence() {
    let files = files(&["custom/gpt.safetensors", "custom/sovits.safetensors"]);

    let paths = ModelPaths::discover(
        "models",
        ModelPathOverrides {
            gpt: Some("models/custom/gpt.safetensors".to_string()),
            sovits: Some("models/custom/sovits.safetensors".to_string()),
            ..Default::default()
        },
        &files,
    )
    .ok()
    .unwrap();

    assert_eq!(paths.gpt, "models/custom/gpt.safetensors");
    assert_eq!(paths.sovits, "models/custom/sovits.safetensors");
}

#[test]
fn missing_required_model_has_actionable_error() {
    let error = ModelPaths::discover("models", ModelPathOverrides::default(), &Vec::new())
        .err()
        .unwrap();

    assert!(error.contains("gpt-model.safetensors"));
    assert!(error.contains("--gpt-model"));
}

#[test]
fn rejects_missing_explicit_optional_model() {
    let files = files(&["gpt-model.safetensors", "sovits-model.safetensors"]);

    let error = ModelPaths::discover(
        "models",
        ModelPathOverrides {
            bert: Some("models/missing.safetensors".to_string()),
            ..Default::default()
        },
        &files,
    )
    .err()
    .unwrap();

    assert!(error.contains("BERT model file does not exist"));
}

#[test]
fn the_probed_files_are_those_that_are_discovered() {
    let probes = ModelPaths::probes("models");
    let paths = ModelPaths::discover("models", ModelPathOverrides::default(), &probes).ok().unwrap();
    assert!(probes.contains(&paths.gpt));
    assert!(probes.contains(&paths.bert.unwrap()));
}
