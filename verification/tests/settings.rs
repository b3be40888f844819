//! Loading and saving settings.

use rs_sc::error::AppError;
use rs_sc::llm_translate::LlmConfig;
use rs_sc::settings::{
    settings_path, settings_tmp_path, EnvOverrides, SaveAction, SaveEvent, SavePlaces, SaveWork,
    Settings, SettingsFile, StoredSettings,
};
use std::path::Path;

fn no_env() -> EnvOverrides {
    EnvOverrides {
        api_base: None,
        api_key: None,
        model: None,
        prompt: None,
        hotkey: None,
        settings_hotkey: None,
    }
}

fn full_env() -> EnvOverrides {
    let v = |s: &str| Some(s.to_string());
    EnvOverrides {
        api_base: v("e-url"),
        api_key: v("e-key"),
        model: v("e-model"),
        prompt: v("e-prompt"),
        hotkey: v("e-hk"),
        settings_hotkey: v("e-shk"),
    }
}

fn stored(values: [Option<&str>; 6]) -> SettingsFile {
    let [base_url, api_key, model, prompt, hotkey, settings_hotkey] =
        values.map(|v| v.map(|s| s.to_string()));
    SettingsFile::Parsed(StoredSettings { base_url, api_key, model, prompt, hotkey, settings_hotkey })
}

fn fields(s: &Settings) -> [&str; 6] {
    [&s.base_url, &s.api_key, &s.model, &s.prompt, &s.hotkey, &s.settings_hotkey]
}

#[test]
fn bootstrap_takes_environment_over_defaults() {
    let d = LlmConfig::defaults();
    assert_eq!(
        fields(&Settings::bootstrap(&no_env())),
        [
            d.base_url.as_str(),
            "",
            "gpt-4o-mini",
            d.prompt.as_str(),
            "CommandOrControl+Shift+T",
            "CommandOrControl+Shift+P"
        ]
    );
    assert_eq!(
        fields(&Settings::bootstrap(&full_env())),
        ["e-url", "e-key", "e-model", "e-prompt", "e-hk", "e-shk"]
    );
}

#[test]
fn saved_settings_win_over_the_environment() {
    let file = stored([Some("u"), Some(""), Some("m"), Some("p"), Some("h"), Some("s")]);
    let loaded = Settings::load(&full_env(), file).unwrap();
    assert_eq!(fields(&loaded), ["u", "", "m", "p", "h", "s"]);
}

#[test]
fn missing_and_empty_values_fall_back() {
    let loaded = Settings::load(&full_env(), stored([None; 6])).unwrap();
    assert_eq!(fields(&loaded), ["e-url", "e-key", "e-model", "e-prompt", "e-hk", "e-shk"]);
    let file = stored([Some(""), Some("k"), Some(""), Some("p"), None, Some("")]);
    let loaded = Settings::load(&full_env(), file).unwrap();
    assert_eq!(fields(&loaded), ["e-url", "k", "e-model", "p", "e-hk", "e-shk"]);
}

#[test]
fn loading_always_succeeds() {
    for file in [SettingsFile::Missing, SettingsFile::Corrupt, SettingsFile::Unreadable] {
        let loaded = Settings::load(&full_env(), file).unwrap();
        assert_eq!(fields(&loaded), fields(&Settings::bootstrap(&full_env())));
    }
    let loaded = Settings::load(&no_env(), SettingsFile::Unreadable).unwrap();
    assert_eq!(loaded.hotkey, "CommandOrControl+Shift+T");
}

#[test]
fn model_configuration_is_part_of_the_settings() {
    let llm = Settings::bootstrap(&full_env()).into_llm_config();
    assert_eq!(llm.base_url, "e-url");
    assert_eq!(llm.api_key, "e-key");
    assert_eq!(llm.model, "e-model");
    assert_eq!(llm.prompt, "e-prompt");
}

#[test]
fn files_lie_side_by_side_in_the_directory() {
    for dir in ["/data/rs-sc", "rel", "", "/", "a/../b"] {
        let dir = Path::new(dir);
        assert_eq!(settings_path(dir), dir.join("settings.json"));
        assert_eq!(settings_tmp_path(dir), settings_path(dir).with_extension("json.tmp"));
        assert_eq!(settings_path(dir).file_name().unwrap(), "settings.json");
    }
}

fn places() -> SavePlaces {
    SavePlaces { dir: "d".to_string(), tmp: "t".to_string(), target: "f".to_string() }
}

fn next(event: SaveEvent) -> Result<SaveWork, Result<(), String>> {
    match Settings::save(event, &places()) {
        SaveAction::Do(work) => Ok(work),
        SaveAction::Finish(Ok(())) => Err(Ok(())),
        SaveAction::Finish(Err(AppError::Capture(m))) => Err(Err(m)),
        SaveAction::Finish(Err(_)) => unreachable!(),
    }
}

#[test]
fn save_writes_beside_and_renames() {
    assert_eq!(next(SaveEvent::Started), Ok(SaveWork::CreateDir));
    assert_eq!(next(SaveEvent::DirCreated), Ok(SaveWork::Serialize));
    assert_eq!(next(SaveEvent::Serialized), Ok(SaveWork::WriteTmp));
    assert_eq!(next(SaveEvent::TmpWritten), Ok(SaveWork::Rename));
    assert_eq!(next(SaveEvent::Renamed), Err(Ok(())));
}

#[test]
fn save_failures_name_their_place() {
    let fail = |work| next(SaveEvent::Failed { work, error: "x".to_string() });
    assert_eq!(fail(SaveWork::CreateDir), Err(Err("create app data dir d: x".to_string())));
    assert_eq!(fail(SaveWork::Serialize), Err(Err("serialize settings: x".to_string())));
    assert_eq!(fail(SaveWork::WriteTmp), Err(Err("write settings tmp t: x".to_string())));
    assert_eq!(fail(SaveWork::Rename), Err(Err("rename settings t -> f: x".to_string())));
}
