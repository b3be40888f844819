//! User settings: defaults, environment overrides, what a settings file adds, and the order in
//! which a settings file is written.

use crate::error::{outcome, AppError, AppResult, ErrorView};
use crate::llm_translate::{ConfigView, LlmConfig};
use std::path::{Path, PathBuf};
use vstd::prelude::*;
use vstd::string::*;

verus! {

/// Default hotkey for a capture.
pub const DEFAULT_HOTKEY: &'static str = "CommandOrControl+Shift+T";

/// Default hotkey for opening the settings panel.
pub const DEFAULT_SETTINGS_HOTKEY: &'static str = "CommandOrControl+Shift+P";

/// What is kept on disk and shown in the settings panel.
#[derive(Debug, Clone)]
pub struct Settings {
    pub base_url: String,
    pub api_key: String,
    pub model: String,
    pub prompt: String,
    pub hotkey: String,
    pub settings_hotkey: String,
}

/// Settings by their texts.
#[verifier::ext_equal]
pub struct SettingsView {
    pub base_url: Seq<char>,
    pub api_key: Seq<char>,
    pub model: Seq<char>,
    pub prompt: Seq<char>,
    pub hotkey: Seq<char>,
    pub settings_hotkey: Seq<char>,
}

impl View for Settings {
    type V = SettingsView;

    open spec fn view(&self) -> SettingsView {
        SettingsView {
            base_url: self.base_url@,
            api_key: self.api_key@,
            model: self.model@,
            prompt: self.prompt@,
            hotkey: self.hotkey@,
            settings_hotkey: self.settings_hotkey@,
        }
    }
}

/// The environment variables that override a default, where they are set.
#[derive(Debug, Clone)]
pub struct EnvOverrides {
    /// `RSSC_API_BASE`
    pub api_base: Option<String>,
    /// `RSSC_API_KEY`
    pub api_key: Option<String>,
    /// `RSSC_MODEL`
    pub model: Option<String>,
    /// `RSSC_PROMPT`
    pub prompt: Option<String>,
    /// `RSSC_HOTKEY`
    pub hotkey: Option<String>,
    /// `RSSC_SETTINGS_HOTKEY`
    pub settings_hotkey: Option<String>,
}

/// A variable's value, or the default where it is not set.
pub open spec fn env_or(value: Option<String>, default: Seq<char>) -> Seq<char> {
    match value {
        Some(v) => v@,
        None => default,
    }
}

/// A variable's value, or the default where it is not set.
pub fn env_or_default(value: &Option<String>, default: &str) -> (r: String)
    ensures
        r@ == env_or(*value, default@),
{
    match value {
        Some(v) => v.clone(),
        None => default.to_owned(),
    }
}

/// What a settings file holds; a value that it does not mention is missing.
#[derive(Debug)]
pub struct StoredSettings {
    pub base_url: Option<String>,
    pub api_key: Option<String>,
    pub model: Option<String>,
    pub prompt: Option<String>,
    pub hotkey: Option<String>,
    pub settings_hotkey: Option<String>,
}

/// What became of reading the settings file.
#[derive(Debug)]
pub enum SettingsFile {
    /// There is none.
    Missing,
    /// It is there and cannot be read.
    Unreadable,
    /// It was read and is no settings file.
    Corrupt,
    /// It was read.
    Parsed(StoredSettings),
}

/// The value from the file, unless that is missing or empty.
pub open spec fn filled(from_file: Option<String>, fallback: Seq<char>) -> Seq<char> {
    match from_file {
        Some(v) => if v@.len() == 0 {
            fallback
        } else {
            v@
        },
        None => fallback,
    }
}

/// Settings before any file is read: each variable of the environment, or the default.
pub open spec fn bootstrapped(env: EnvOverrides) -> SettingsView {
    let llm = LlmConfig::env_view(env);
    SettingsView {
        base_url: llm.base_url,
        api_key: llm.api_key,
        model: llm.model,
        prompt: llm.prompt,
        hotkey: env_or(env.hotkey, DEFAULT_HOTKEY@),
        settings_hotkey: env_or(env.settings_hotkey, DEFAULT_SETTINGS_HOTKEY@),
    }
}

/// The file's values over those of `base`. A value that is missing or empty in the file does not
/// count, except that an API key may well be empty.
pub open spec fn layered(base: SettingsView, file: StoredSettings) -> SettingsView {
    SettingsView {
        base_url: filled(file.base_url, base.base_url),
        api_key: match file.api_key {
            Some(key) => key@,
            None => base.api_key,
        },
        model: filled(file.model, base.model),
        prompt: filled(file.prompt, base.prompt),
        hotkey: filled(file.hotkey, base.hotkey),
        settings_hotkey: filled(file.settings_hotkey, base.settings_hotkey),
    }
}

/// What loading comes to. It always succeeds: a file that is missing, cannot be read or is no
/// settings file adds nothing.
pub open spec fn loaded(env: EnvOverrides, file: SettingsFile) -> Result<SettingsView, ErrorView> {
    match file {
        SettingsFile::Parsed(parsed) => Ok(layered(bootstrapped(env), parsed)),
        SettingsFile::Unreadable | SettingsFile::Missing | SettingsFile::Corrupt => Ok(
            bootstrapped(env),
        ),
    }
}

fn fill(from_file: Option<String>, fallback: String) -> (r: String)
    ensures
        r@ == filled(from_file, fallback@),
{
    match from_file {
        Some(v) => if v.as_str().is_empty() {
            fallback
        } else {
            v
        },
        None => fallback,
    }
}

impl Settings {
    /// Settings before any file is read.
    pub fn bootstrap(env: &EnvOverrides) -> (r: Settings)
        ensures
            r@ == bootstrapped(*env),
    {
        let llm: LlmConfig = LlmConfig::from_env_with_defaults(env);
        Settings {
            base_url: llm.base_url,
            api_key: llm.api_key,
            model: llm.model,
            prompt: llm.prompt,
            hotkey: env_or_default(&env.hotkey, DEFAULT_HOTKEY),
            settings_hotkey: env_or_default(&env.settings_hotkey, DEFAULT_SETTINGS_HOTKEY),
        }
    }

    /// The part of the settings that the model client uses.
    pub fn into_llm_config(&self) -> (r: LlmConfig)
        ensures
            r@ == self@.llm_config(),
    {
        LlmConfig {
            base_url: self.base_url.clone(),
            api_key: self.api_key.clone(),
            model: self.model.clone(),
            prompt: self.prompt.clone(),
        }
    }

    /// The settings in force, given the environment and what became of reading the file.
    pub fn load(env: &EnvOverrides, file: SettingsFile) -> (r: AppResult<Settings>)
        ensures
            r is Ok,
            match r {
                Ok(s) => loaded(*env, file) == Ok::<SettingsView, ErrorView>(s@),
                Err(e) => loaded(*env, file) == Err::<SettingsView, ErrorView>(e@),
            },
    {
        let current: Settings = Settings::bootstrap(env);
        match file {
            SettingsFile::Missing => Ok(current),
            SettingsFile::Corrupt => Ok(current),
            SettingsFile::Unreadable => Ok(current),
            SettingsFile::Parsed(parsed) => Ok(
                Settings {
                    base_url: fill(parsed.base_url, current.base_url),
                    api_key: match parsed.api_key {
                        Some(key) => key,
                        None => current.api_key,
                    },
                    model: fill(parsed.model, current.model),
                    prompt: fill(parsed.prompt, current.prompt),
                    hotkey: fill(parsed.hotkey, current.hotkey),
                    settings_hotkey: fill(parsed.settings_hotkey, current.settings_hotkey),
                },
            ),
        }
    }
}

impl SettingsView {
    /// The part of the settings that the model client uses.
    pub open spec fn llm_config(self) -> ConfigView {
        ConfigView {
            base_url: self.base_url,
            api_key: self.api_key,
            model: self.model,
            prompt: self.prompt,
        }
    }

    /// No value but the API key is empty.
    pub open spec fn is_complete(self) -> bool {
        &&& self.base_url.len() > 0
        &&& self.model.len() > 0
        &&& self.prompt.len() > 0
        &&& self.hotkey.len() > 0
        &&& self.settings_hotkey.len() > 0
    }
}

/// `file` holds every value of `saved`.
pub open spec fn holds(file: StoredSettings, saved: SettingsView) -> bool {
    &&& file.base_url matches Some(v) && v@ == saved.base_url
    &&& file.api_key matches Some(v) && v@ == saved.api_key
    &&& file.model matches Some(v) && v@ == saved.model
    &&& file.prompt matches Some(v) && v@ == saved.prompt
    &&& file.hotkey matches Some(v) && v@ == saved.hotkey
    &&& file.settings_hotkey matches Some(v) && v@ == saved.settings_hotkey
}

/// Reading saved settings back gives exactly what was saved, whatever the environment says,
/// provided that nothing but the API key was empty.
pub proof fn law_saved_settings_win(env: EnvOverrides, file: StoredSettings, saved: SettingsView)
    requires
        holds(file, saved),
        saved.is_complete(),
    ensures
        loaded(env, SettingsFile::Parsed(file)) == Ok::<SettingsView, ErrorView>(saved),
{
}

/// Loading always gives settings that can be used: every value is the file's, or else the
/// environment's, or else the default, and a file that cannot be read or understood counts as
/// none.
pub proof fn law_values_come_from_file_then_environment_then_default(
    env: EnvOverrides,
    file: SettingsFile,
)
    ensures
        loaded(env, file) is Ok,
        file !is Parsed ==> loaded(env, file) == Ok::<SettingsView, ErrorView>(
            bootstrapped(env),
        ),
        file matches SettingsFile::Parsed(stored) ==> {
            let s = loaded(env, file)->Ok_0;
            let d = LlmConfig::default_view();
            &&& s.base_url == filled(stored.base_url, env_or(env.api_base, d.base_url))
            &&& s.api_key == match stored.api_key {
                Some(key) => key@,
                None => env_or(env.api_key, d.api_key),
            }
            &&& s.model == filled(stored.model, env_or(env.model, d.model))
            &&& s.prompt == filled(stored.prompt, env_or(env.prompt, d.prompt))
            &&& s.hotkey == filled(stored.hotkey, env_or(env.hotkey, DEFAULT_HOTKEY@))
            &&& s.settings_hotkey == filled(
                stored.settings_hotkey,
                env_or(env.settings_hotkey, DEFAULT_SETTINGS_HOTKEY@),
            )
        },
{
}

/// `std::path::Path`, opaque.
#[verifier::external_type_specification]
#[verifier::external_body]
pub struct ExPath(Path);

/// `std::path::PathBuf`, opaque.
#[verifier::external_type_specification]
#[verifier::external_body]
pub struct ExPathBuf(PathBuf);

/// What `std::path::Path::join` makes of a directory and a file name.
pub uninterp spec fn joined_path(dir: &Path, name: Seq<char>) -> PathBuf;

/// `std::path::Path::join`. Nothing is claimed of the joined path but that the directory and the
/// name determine it: how a path is put together differs between systems.
#[verifier::external_body]
fn join_file(dir: &Path, name: &str) -> (r: PathBuf)
    ensures
        r == joined_path(dir, name@),
{
    dir.join(name)
}

/// Where the settings are kept.
pub fn settings_path(app_data_dir: &Path) -> (r: PathBuf)
    ensures
        r == joined_path(app_data_dir, "settings.json"@),
{
    join_file(app_data_dir, "settings.json")
}

/// Where new settings are written before they take the old ones' place: beside them.
pub fn settings_tmp_path(app_data_dir: &Path) -> (r: PathBuf)
    ensures
        r == joined_path(app_data_dir, "settings.json.tmp"@),
{
    join_file(app_data_dir, "settings.json.tmp")
}

/// How the places that a save touches are printed.
#[derive(Debug)]
pub struct SavePlaces {
    pub dir: String,
    pub tmp: String,
    pub target: String,
}

/// A piece of work that a save asks for.
#[derive(Debug, Clone, Copy, PartialEq, Eq, Structural)]
pub enum SaveWork {
    /// Create the directory, and those above it, where they are missing.
    CreateDir,
    /// Turn the settings into JSON.
    Serialize,
    /// Write the JSON to the temporary file.
    WriteTmp,
    /// Give the temporary file the settings file's name, in place of the settings file where
    /// there is one.
    Rename,
}

/// What has happened to a save.
#[derive(Debug)]
pub enum SaveEvent {
    Started,
    DirCreated,
    Serialized,
    /// The temporary file is complete.
    TmpWritten,
    Renamed,
    /// A piece of work failed, with the printed error.
    Failed { work: SaveWork, error: String },
}

/// What a save does next.
#[derive(Debug)]
pub enum SaveAction {
    Do(SaveWork),
    Finish(AppResult<()>),
}

/// The error for a piece of work that failed.
pub open spec fn save_failure(work: SaveWork, error: Seq<char>, places: SavePlaces) -> Seq<char> {
    match work {
        SaveWork::CreateDir => "create app data dir "@ + places.dir@ + ": "@ + error,
        SaveWork::Serialize => "serialize settings: "@ + error,
        SaveWork::WriteTmp => "write settings tmp "@ + places.tmp@ + ": "@ + error,
        SaveWork::Rename => "rename settings "@ + places.tmp@ + " -> "@ + places.target@ + ": "@
            + error,
    }
}

/// What a save does next, with the result by its view where it ends.
pub open spec fn after_save_event(event: SaveEvent, places: SavePlaces) -> Result<
    SaveWork,
    Result<(), ErrorView>,
> {
    match event {
        SaveEvent::Started => Ok(SaveWork::CreateDir),
        SaveEvent::DirCreated => Ok(SaveWork::Serialize),
        SaveEvent::Serialized => Ok(SaveWork::WriteTmp),
        SaveEvent::TmpWritten => Ok(SaveWork::Rename),
        SaveEvent::Renamed => Err(Ok(())),
        SaveEvent::Failed { work, error } => Err(
            Err(ErrorView::Capture(save_failure(work, error@, places))),
        ),
    }
}

impl SaveAction {
    /// The action, with the result by its view where it ends the save.
    pub open spec fn shape(self) -> Result<SaveWork, Result<(), ErrorView>> {
        match self {
            SaveAction::Do(work) => Ok(work),
            SaveAction::Finish(r) => Err(outcome(r)),
        }
    }
}

impl Settings {
    /// What a save of the settings does next: the directory, the JSON, a complete temporary
    /// file, and only then the settings file, which the temporary file replaces in one step.
    pub fn save(event: SaveEvent, places: &SavePlaces) -> (r: SaveAction)
        ensures
            r.shape() == after_save_event(event, *places),
    {
        match event {
            SaveEvent::Started => SaveAction::Do(SaveWork::CreateDir),
            SaveEvent::DirCreated => SaveAction::Do(SaveWork::Serialize),
            SaveEvent::Serialized => SaveAction::Do(SaveWork::WriteTmp),
            SaveEvent::TmpWritten => SaveAction::Do(SaveWork::Rename),
            SaveEvent::Renamed => SaveAction::Finish(Ok(())),
            SaveEvent::Failed { work, error } => {
                let mut text: String = match work {
                    SaveWork::CreateDir => "create app data dir ".to_owned().concat(
                        places.dir.as_str(),
                    ).concat(": "),
                    SaveWork::Serialize => "serialize settings: ".to_owned(),
                    SaveWork::WriteTmp => "write settings tmp ".to_owned().concat(
                        places.tmp.as_str(),
                    ).concat(": "),
                    SaveWork::Rename => "rename settings ".to_owned().concat(
                        places.tmp.as_str(),
                    ).concat(" -> ").concat(places.target.as_str()).concat(": "),
                };
                text.append(error.as_str());
                SaveAction::Finish(Err(AppError::Capture(text)))
            },
        }
    }
}

/// What the two files hold, where they exist.
pub struct SettingsFiles {
    pub settings: Option<Seq<u8>>,
    pub tmp: Option<Seq<u8>>,
}

/// What the files may hold at any moment while a piece of work is under way: a write leaves
/// anything in the file that it writes, and a rename has happened as a whole or not at all.
pub open spec fn may_leave(
    work: SaveWork,
    before: SettingsFiles,
    during: SettingsFiles,
) -> bool {
    match work {
        SaveWork::CreateDir | SaveWork::Serialize => during == before,
        SaveWork::WriteTmp => during.settings == before.settings,
        SaveWork::Rename => during == before || renamed(before, during),
    }
}

/// The temporary file has taken the settings file's place.
pub open spec fn renamed(before: SettingsFiles, after: SettingsFiles) -> bool {
    after.tmp is None && after.settings == before.tmp
}

/// Work that failed has turned `before` into `after`: a rename that failed has changed nothing.
pub open spec fn fails_with(work: SaveWork, before: SettingsFiles, after: SettingsFiles) -> bool {
    match work {
        SaveWork::CreateDir | SaveWork::Serialize | SaveWork::Rename => after == before,
        SaveWork::WriteTmp => after.settings == before.settings,
    }
}

/// Work whose success is reported by `event` turns `before` into `after`; `json` is what is
/// being saved.
pub open spec fn completes(
    work: SaveWork,
    event: SaveEvent,
    before: SettingsFiles,
    after: SettingsFiles,
    json: Seq<u8>,
) -> bool {
    match work {
        SaveWork::CreateDir => event is DirCreated && after == before,
        SaveWork::Serialize => event is Serialized && after == before,
        SaveWork::WriteTmp => event is TmpWritten && after.settings == before.settings && after.tmp
            == Some(json),
        SaveWork::Rename => event is Renamed && renamed(before, after),
    }
}

/// From `event`, with the files as in `before`, a save can come to `next`, with the files as in
/// `after`: by the work that it asked for, done or failed.
pub open spec fn leads_to(
    event: SaveEvent,
    before: SettingsFiles,
    next: SaveEvent,
    after: SettingsFiles,
    places: SavePlaces,
    json: Seq<u8>,
) -> bool {
    match after_save_event(event, places) {
        Err(_) => false,
        Ok(work) => match next {
            SaveEvent::Failed { work: failed, .. } => failed == work && fails_with(
                work,
                before,
                after,
            ),
            _ => completes(work, next, before, after, json),
        },
    }
}

/// A save of `json` over `old` that went through the given events, with the files as they stood
/// at each.
pub open spec fn is_save(
    events: Seq<SaveEvent>,
    files: Seq<SettingsFiles>,
    places: SavePlaces,
    old: Option<Seq<u8>>,
    json: Seq<u8>,
) -> bool {
    &&& events.len() == files.len() > 0
    &&& events[0] is Started
    &&& files[0].settings == old
    &&& forall|i: int|
        #![trigger events[i]]
        0 < i < events.len() ==> leads_to(
            events[i - 1],
            files[i - 1],
            events[i],
            files[i],
            places,
            json,
        )
}

/// The settings file is the old one or the new one, whole.
pub open spec fn is_whole(files: SettingsFiles, old: Option<Seq<u8>>, json: Seq<u8>) -> bool {
    files.settings == old || files.settings == Some(json)
}

proof fn lemma_files_after(
    events: Seq<SaveEvent>,
    files: Seq<SettingsFiles>,
    places: SavePlaces,
    old: Option<Seq<u8>>,
    json: Seq<u8>,
    i: int,
)
    requires
        is_save(events, files, places, old, json),
        0 <= i < events.len(),
    ensures
        files[i].settings == if events[i] is Renamed {
            Some(json)
        } else {
            old
        },
        events[i] is TmpWritten ==> files[i].tmp == Some(json),
    decreases i,
{
    if i > 0 {
        lemma_files_after(events, files, places, old, json, i - 1);
        assert(leads_to(events[i - 1], files[i - 1], events[i], files[i], places, json));
    }
}

/// A save is atomic: at whatever moment it is broken off, the settings file is the old one or the
/// new one as a whole. A save that ends in an error has left the old one in place, and one that
/// ends in success has put the new one there.
///
/// The moment is one in the work that follows event `i`, during which the files are `during`.
pub proof fn law_save_is_atomic(
    events: Seq<SaveEvent>,
    files: Seq<SettingsFiles>,
    places: SavePlaces,
    old: Option<Seq<u8>>,
    json: Seq<u8>,
    i: int,
    during: SettingsFiles,
)
    requires
        is_save(events, files, places, old, json),
        0 <= i < events.len(),
    ensures
        is_whole(files[i], old, json),
        match after_save_event(events[i], places) {
            Ok(work) => may_leave(work, files[i], during) ==> is_whole(during, old, json),
            Err(Ok(_)) => files[i].settings == Some(json),
            Err(Err(_)) => files[i].settings == old,
        },
{
    lemma_files_after(events, files, places, old, json, i);
}

/// `v` is the first of the three that counts: the file's, unless it is missing or empty; the
/// environment's, unless it is not set; the default.
pub open spec fn is_first_found(
    v: Seq<char>,
    file: Option<String>,
    env: Option<String>,
    default: Seq<char>,
) -> bool {
    &&& file is Some && file->0@.len() > 0 ==> v == file->0@
    &&& (file is None || file->0@.len() == 0) && env is Some ==> v == env->0@
    &&& (file is None || file->0@.len() == 0) && env is None ==> v == default
}

/// Where each value comes from: of the file, its environment variable and its default the first
/// that counts. An API key in the file counts even where it is empty.
pub proof fn law_each_value_is_the_first_found(env: EnvOverrides, stored: StoredSettings)
    ensures
        loaded(env, SettingsFile::Parsed(stored)) is Ok,
        ({
            let s = loaded(env, SettingsFile::Parsed(stored))->Ok_0;
            &&& is_first_found(
                s.base_url,
                stored.base_url,
                env.api_base,
                "http://127.0.0.1:11434/v1/chat/completions"@,
            )
            &&& is_first_found(s.model, stored.model, env.model, "gpt-4o-mini"@)
            &&& is_first_found(
                s.prompt,
                stored.prompt,
                env.prompt,
                "你是一名专业翻译。请把图片里的文字翻译成简体中文，仅输出译文本身，不要解释、不要加引号。"@,
            )
            &&& is_first_found(s.hotkey, stored.hotkey, env.hotkey, "CommandOrControl+Shift+T"@)
            &&& is_first_found(
                s.settings_hotkey,
                stored.settings_hotkey,
                env.settings_hotkey,
                "CommandOrControl+Shift+P"@,
            )
            &&& stored.api_key is Some ==> s.api_key == stored.api_key->0@
            &&& stored.api_key is None && env.api_key is Some ==> s.api_key == env.api_key->0@
            &&& stored.api_key is None && env.api_key is None ==> s.api_key.len() == 0
        }),
{
}

/// Without a file that can be used, settings are what a file that mentions nothing would give.
pub proof fn law_unusable_file_is_an_empty_one(
    env: EnvOverrides,
    file: SettingsFile,
    nothing: StoredSettings,
)
    requires
        file !is Parsed,
        nothing.base_url is None,
        nothing.api_key is None,
        nothing.model is None,
        nothing.prompt is None,
        nothing.hotkey is None,
        nothing.settings_hotkey is None,
    ensures
        loaded(env, file) == loaded(env, SettingsFile::Parsed(nothing)),
        loaded(env, file) == Ok::<SettingsView, ErrorView>(bootstrapped(env)),
{
}

/// The model client gets the four values that concern it as they are.
pub proof fn law_model_gets_its_values(s: SettingsView)
    ensures
        s.llm_config().base_url == s.base_url,
        s.llm_config().api_key == s.api_key,
        s.llm_config().model == s.model,
        s.llm_config().prompt == s.prompt,
{
}

/// A save in which nothing fails makes the directory, turns the settings into text, writes the
/// temporary file and renames it, in this order, and then reports success.
pub proof fn law_save_takes_its_steps_in_order(places: SavePlaces)
    ensures
        after_save_event(SaveEvent::Started, places) == Ok::<SaveWork, Result<(), ErrorView>>(
            SaveWork::CreateDir,
        ),
        after_save_event(SaveEvent::DirCreated, places) == Ok::<SaveWork, Result<(), ErrorView>>(
            SaveWork::Serialize,
        ),
        after_save_event(SaveEvent::Serialized, places) == Ok::<SaveWork, Result<(), ErrorView>>(
            SaveWork::WriteTmp,
        ),
        after_save_event(SaveEvent::TmpWritten, places) == Ok::<SaveWork, Result<(), ErrorView>>(
            SaveWork::Rename,
        ),
        after_save_event(SaveEvent::Renamed, places) == Err::<SaveWork, Result<(), ErrorView>>(
            Ok(()),
        ),
{
}

/// Work that fails ends the save, with an error that names the place and carries the cause.
pub proof fn law_failed_work_ends_the_save(work: SaveWork, error: String, places: SavePlaces)
    ensures
        after_save_event(SaveEvent::Failed { work, error }, places) is Err,
        after_save_event(SaveEvent::Failed { work, error }, places)->Err_0 == Err::<(), ErrorView>(
            ErrorView::Capture(
                match work {
                    SaveWork::CreateDir => "create app data dir "@ + places.dir@ + ": "@,
                    SaveWork::Serialize => "serialize settings: "@,
                    SaveWork::WriteTmp => "write settings tmp "@ + places.tmp@ + ": "@,
                    SaveWork::Rename => "rename settings "@ + places.tmp@ + " -> "@
                        + places.target@ + ": "@,
                } + error@,
            ),
        ),
{
}

/// Settings are seen with each text in its place.
pub proof fn law_settings_are_seen_as_they_are(s: Settings)
    ensures
        s@.base_url == s.base_url@,
        s@.api_key == s.api_key@,
        s@.model == s.model@,
        s@.prompt == s.prompt@,
        s@.hotkey == s.hotkey@,
        s@.settings_hotkey == s.settings_hotkey@,
{
}

/// A variable that is set wins over any default, even where it is empty.
pub proof fn law_set_variables_win(value: String, default: Seq<char>)
    ensures
        env_or(Some(value), default) == value@,
        env_or(None, default) == default,
{
}

/// What a save does next is seen as it is.
pub proof fn law_saves_are_seen_as_they_are(work: SaveWork, e: AppError)
    ensures
        SaveAction::Do(work).shape() == Ok::<SaveWork, Result<(), ErrorView>>(work),
        SaveAction::Finish(Ok(())).shape() == Err::<SaveWork, Result<(), ErrorView>>(Ok(())),
        SaveAction::Finish(Err(e)).shape() == Err::<SaveWork, Result<(), ErrorView>>(Err(e@)),
{
}

} // verus!
