//! Saving settings while the program runs: what is accepted, and how hotkeys change hands.

use crate::error::{outcome, AppError, AppResult, ErrorView};
use crate::llm_translate::{ConfigView, LlmConfig};
use crate::settings::{Settings, SettingsView};
use crate::text::{lowered, to_ascii_lowercase, trim, trimmed};
use vstd::prelude::*;
use vstd::string::*;

verus! {

/// What a hotkey is for.
#[derive(Debug, Clone, Copy, PartialEq, Eq, Structural)]
pub enum HotkeySlot {
    /// Capture and translate.
    Capture,
    /// Open the settings panel.
    Settings,
    /// Capture and ask by handwriting.
    Ink,
}

/// A hotkey as it is compared with others: without white space around it, in small letters.
pub open spec fn combo(hotkey: Seq<char>) -> Seq<char> {
    lowered(trimmed(hotkey))
}

/// What is wrong with new settings, where something is; the first complaint counts.
pub open spec fn complaint(new: SettingsView, new_ink: Seq<char>) -> Option<Seq<char>> {
    if trimmed(new.base_url).len() == 0 {
        Some("Base URL 不能为空"@)
    } else if trimmed(new.model).len() == 0 {
        Some("Model 不能为空"@)
    } else if trimmed(new.hotkey).len() == 0 {
        Some("截屏快捷键不能为空"@)
    } else if trimmed(new.settings_hotkey).len() == 0 {
        Some("设置快捷键不能为空"@)
    } else if trimmed(new_ink).len() == 0 {
        Some("手写快捷键不能为空"@)
    } else if combo(new.hotkey) == combo(new.settings_hotkey) || combo(new.hotkey) == combo(new_ink)
        || combo(new.settings_hotkey) == combo(new_ink) {
        Some("截屏、设置、手写三个快捷键必须两两不同"@)
    } else {
        None
    }
}

fn is_blank(s: &str) -> (r: bool)
    ensures
        r == (trimmed(s@).len() == 0),
{
    trim(s).is_empty()
}

fn combo_of(s: &str) -> (r: String)
    ensures
        r@ == combo(s@),
{
    to_ascii_lowercase(trim(s))
}

/// Refuses settings that cannot work.
pub fn validate_settings(new: &Settings, new_ink: &str) -> (r: AppResult<()>)
    ensures
        outcome(r) == match complaint(new@, new_ink@) {
            None => Ok(()),
            Some(text) => Err(ErrorView::Capture(text)),
        },
{
    if is_blank(new.base_url.as_str()) {
        return Err(AppError::capture("Base URL 不能为空"));
    }
    if is_blank(new.model.as_str()) {
        return Err(AppError::capture("Model 不能为空"));
    }
    if is_blank(new.hotkey.as_str()) {
        return Err(AppError::capture("截屏快捷键不能为空"));
    }
    if is_blank(new.settings_hotkey.as_str()) {
        return Err(AppError::capture("设置快捷键不能为空"));
    }
    if is_blank(new_ink) {
        return Err(AppError::capture("手写快捷键不能为空"));
    }
    let h1: String = combo_of(new.hotkey.as_str());
    let h2: String = combo_of(new.settings_hotkey.as_str());
    let h3: String = combo_of(new_ink);
    if h1 == h2 || h1 == h3 || h2 == h3 {
        return Err(AppError::capture("截屏、设置、手写三个快捷键必须两两不同"));
    }
    Ok(())
}

/// A step in putting new settings to use. The steps are performed in order, and one that fails
/// is the last.
#[derive(Debug)]
pub enum ApplyStep {
    /// Hand the model client its new configuration.
    SetConfig(LlmConfig),
    /// Put a new hotkey in the place of an old one.
    SwapHotkey { slot: HotkeySlot, old: String, new: String },
    /// Write the settings to disk.
    Persist,
}

/// A step by its texts.
pub enum StepView {
    SetConfig(ConfigView),
    SwapHotkey { slot: HotkeySlot, old: Seq<char>, new: Seq<char> },
    Persist,
}

impl View for ApplyStep {
    type V = StepView;

    open spec fn view(&self) -> StepView {
        match *self {
            ApplyStep::SetConfig(config) => StepView::SetConfig(config@),
            ApplyStep::SwapHotkey { slot, old, new } => StepView::SwapHotkey {
                slot,
                old: old@,
                new: new@,
            },
            ApplyStep::Persist => StepView::Persist,
        }
    }
}

/// The swap of a hotkey, where it has changed.
pub open spec fn swap_steps(slot: HotkeySlot, old: Seq<char>, new: Seq<char>) -> Seq<StepView> {
    if new == old {
        seq![]
    } else {
        seq![StepView::SwapHotkey { slot, old, new }]
    }
}

/// The steps that put accepted settings to use: the model's configuration, the hotkeys that
/// have changed, and the disk.
pub open spec fn apply_steps(
    old: SettingsView,
    old_ink: Seq<char>,
    new: SettingsView,
    new_ink: Seq<char>,
) -> Seq<StepView> {
    seq![StepView::SetConfig(new.llm_config())] + swap_steps(
        HotkeySlot::Capture,
        old.hotkey,
        new.hotkey,
    ) + swap_steps(HotkeySlot::Settings, old.settings_hotkey, new.settings_hotkey) + swap_steps(
        HotkeySlot::Ink,
        old_ink,
        new_ink,
    ) + seq![StepView::Persist]
}

/// The steps by their texts.
pub open spec fn step_views(steps: Seq<ApplyStep>) -> Seq<StepView> {
    steps.map_values(|s: ApplyStep| s@)
}

fn push_swap(steps: &mut Vec<ApplyStep>, slot: HotkeySlot, was: &String, is: &String)
    ensures
        step_views(final(steps)@) == step_views(old(steps)@) + swap_steps(slot, was@, is@),
{
    let ghost before = steps@;
    if *is != *was {
        steps.push(ApplyStep::SwapHotkey { slot, old: was.clone(), new: is.clone() });
    }
    proof {
        assert(step_views(steps@) =~= step_views(before) + swap_steps(slot, was@, is@));
    }
}

/// What is to be done to put new settings to use in place of the old ones; nothing where the new
/// ones are refused. The hotkey for handwriting comes beside the settings.
pub fn save_settings(old: &Settings, old_ink: &String, new: &Settings, new_ink: &String) -> (r:
    AppResult<Vec<ApplyStep>>)
    ensures
        match r {
            Ok(steps) => complaint(new@, new_ink@) is None && step_views(steps@) == apply_steps(
                old@,
                old_ink@,
                new@,
                new_ink@,
            ),
            Err(e) => complaint(new@, new_ink@) is Some && e@ == ErrorView::Capture(
                complaint(new@, new_ink@)->0,
            ),
        },
{
    if let Err(e) = validate_settings(new, new_ink.as_str()) {
        return Err(e);
    }
    let mut steps: Vec<ApplyStep> = vec![ApplyStep::SetConfig(new.into_llm_config())];
    proof {
        assert(step_views(steps@) =~= seq![StepView::SetConfig(new@.llm_config())]);
    }
    push_swap(&mut steps, HotkeySlot::Capture, &old.hotkey, &new.hotkey);
    push_swap(&mut steps, HotkeySlot::Settings, &old.settings_hotkey, &new.settings_hotkey);
    push_swap(&mut steps, HotkeySlot::Ink, old_ink, new_ink);
    let ghost before = steps@;
    steps.push(ApplyStep::Persist);
    proof {
        assert(step_views(steps@) =~= step_views(before) + seq![StepView::Persist]);
    }
    Ok(steps)
}

/// The combination under which a hotkey is registered.
pub fn apply_hotkey(hotkey: &str) -> (r: AppResult<String>)
    ensures
        match r {
            Ok(combination) => trimmed(hotkey@).len() > 0 && combination@ == trimmed(hotkey@),
            Err(e) => trimmed(hotkey@).len() == 0 && e@ == ErrorView::Capture("empty hotkey"@),
        },
{
    let combination: &str = trim(hotkey);
    if combination.is_empty() {
        return Err(AppError::capture("empty hotkey"));
    }
    Ok(combination.to_owned())
}

/// The error for a combination that the system refuses to register.
pub fn registration_error(error: &str) -> (r: AppError)
    ensures
        r@ == ErrorView::Capture("register hotkey: "@ + error@),
{
    AppError::Capture("register hotkey: ".to_owned().concat(error))
}

/// The combination that is to be given up with a hotkey, where it has one.
pub fn unregister_hotkey(hotkey: &str) -> (r: Option<String>)
    ensures
        match r {
            Some(combination) => trimmed(hotkey@).len() > 0 && combination@ == trimmed(hotkey@),
            None => trimmed(hotkey@).len() == 0,
        },
{
    let combination: &str = trim(hotkey);
    if combination.is_empty() {
        None
    } else {
        Some(combination.to_owned())
    }
}

/// What has happened to the swap of a hotkey.
#[derive(Debug)]
pub enum SwapEvent {
    Started,
    /// The new combination is registered.
    Registered,
    /// The system refuses to register the new combination.
    RegisterFailed { error: String },
    /// The old combination is given up, or could not be: nothing depends on it.
    Unregistered,
}

/// What the swap of a hotkey does next.
#[derive(Debug)]
pub enum SwapAction {
    Register(String),
    Unregister(String),
    Finish(AppResult<()>),
}

/// An action by its texts.
pub enum SwapShape {
    Register(Seq<char>),
    Unregister(Seq<char>),
    Finish(Result<(), ErrorView>),
}

impl View for SwapAction {
    type V = SwapShape;

    open spec fn view(&self) -> SwapShape {
        match *self {
            SwapAction::Register(combination) => SwapShape::Register(combination@),
            SwapAction::Unregister(combination) => SwapShape::Unregister(combination@),
            SwapAction::Finish(r) => SwapShape::Finish(outcome(r)),
        }
    }
}

/// The error for a swap that failed to register the new combination.
pub open spec fn swap_error(old: Seq<char>, new: Seq<char>, cause: ErrorView) -> ErrorView {
    ErrorView::Capture(
        "新快捷键 '"@ + new + "' 注册失败: "@ + cause.message() + "（已保留旧快捷键 '"@ + old
            + "'）"@,
    )
}

/// What follows an event in the swap of a hotkey.
pub open spec fn after_swap_event(old: Seq<char>, new: Seq<char>, event: SwapEvent) -> SwapShape {
    match event {
        SwapEvent::Started => if trimmed(new).len() == 0 {
            SwapShape::Finish(Err(swap_error(old, new, ErrorView::Capture("empty hotkey"@))))
        } else {
            SwapShape::Register(trimmed(new))
        },
        SwapEvent::RegisterFailed { error } => SwapShape::Finish(
            Err(swap_error(old, new, ErrorView::Capture("register hotkey: "@ + error@))),
        ),
        SwapEvent::Registered => if trimmed(old).len() == 0 {
            SwapShape::Finish(Ok(()))
        } else {
            SwapShape::Unregister(trimmed(old))
        },
        SwapEvent::Unregistered => SwapShape::Finish(Ok(())),
    }
}

fn swap_failure(old: &str, new: &str, cause: &AppError) -> (r: AppError)
    ensures
        r@ == swap_error(old@, new@, cause@),
{
    let mut text: String = "新快捷键 '".to_owned();
    text.append(new);
    text.append("' 注册失败: ");
    text.append(cause.message().as_str());
    text.append("（已保留旧快捷键 '");
    text.append(old);
    text.append("'）");
    AppError::Capture(text)
}

/// What follows an event in the swap of a hotkey: the new combination is registered first, and
/// the old one is given up only once that has succeeded.
pub fn swap_hotkey(old: &str, new: &str, event: SwapEvent) -> (r: SwapAction)
    ensures
        r@ == after_swap_event(old@, new@, event),
{
    match event {
        SwapEvent::Started => match apply_hotkey(new) {
            Ok(combination) => SwapAction::Register(combination),
            Err(e) => SwapAction::Finish(Err(swap_failure(old, new, &e))),
        },
        SwapEvent::RegisterFailed { error } => SwapAction::Finish(
            Err(swap_failure(old, new, &registration_error(error.as_str()))),
        ),
        SwapEvent::Registered => match unregister_hotkey(old) {
            Some(combination) => SwapAction::Unregister(combination),
            None => SwapAction::Finish(Ok(())),
        },
        SwapEvent::Unregistered => SwapAction::Finish(Ok(())),
    }
}

/// Settings are accepted only where no two of the three hotkeys are the same, whatever the case
/// of their letters and the white space around them.
pub proof fn law_equal_hotkeys_are_refused(new: SettingsView, new_ink: Seq<char>)
    ensures
        complaint(new, new_ink) is None ==> {
            &&& combo(new.hotkey) != combo(new.settings_hotkey)
            &&& combo(new.hotkey) != combo(new_ink)
            &&& combo(new.settings_hotkey) != combo(new_ink)
        },
{
}

/// The disk comes last: every other step stands before it, so that nothing is written of
/// settings of which a part could not be put to use.
pub proof fn law_settings_are_written_last(
    old: SettingsView,
    old_ink: Seq<char>,
    new: SettingsView,
    new_ink: Seq<char>,
    i: int,
)
    requires
        0 <= i < apply_steps(old, old_ink, new, new_ink).len(),
    ensures
        apply_steps(old, old_ink, new, new_ink)[i] == StepView::Persist <==> i == apply_steps(
            old,
            old_ink,
            new,
            new_ink,
        ).len() - 1,
{
}

/// A hotkey is touched exactly where it has changed.
pub proof fn law_unchanged_hotkeys_are_left_alone(
    old: SettingsView,
    old_ink: Seq<char>,
    new: SettingsView,
    new_ink: Seq<char>,
    slot: HotkeySlot,
)
    ensures
        ({
            let (was, is) = match slot {
                HotkeySlot::Capture => (old.hotkey, new.hotkey),
                HotkeySlot::Settings => (old.settings_hotkey, new.settings_hotkey),
                HotkeySlot::Ink => (old_ink, new_ink),
            };
            let steps = apply_steps(old, old_ink, new, new_ink);
            &&& was != is ==> steps.contains(StepView::SwapHotkey { slot, old: was, new: is })
            &&& was == is ==> forall|i: int|
                0 <= i < steps.len() ==> !(#[trigger] steps[i] matches StepView::SwapHotkey {
                    slot: other,
                    ..
                } && other == slot)
        }),
{
    let capture = swap_steps(HotkeySlot::Capture, old.hotkey, new.hotkey);
    let settings = swap_steps(HotkeySlot::Settings, old.settings_hotkey, new.settings_hotkey);
    let steps = apply_steps(old, old_ink, new, new_ink);
    let at = match slot {
        HotkeySlot::Capture => 1,
        HotkeySlot::Settings => 1 + capture.len() as int,
        HotkeySlot::Ink => 1 + capture.len() + settings.len() as int,
    };
    let (was, is) = match slot {
        HotkeySlot::Capture => (old.hotkey, new.hotkey),
        HotkeySlot::Settings => (old.settings_hotkey, new.settings_hotkey),
        HotkeySlot::Ink => (old_ink, new_ink),
    };
    if was != is {
        assert(steps[at] == StepView::SwapHotkey { slot, old: was, new: is });
    }
}

/// The combinations that are registered once an action has been performed, with success or not.
/// A registration that fails registers nothing; to give up a combination succeeds or fails.
pub open spec fn may_hold(
    action: SwapShape,
    next: SwapEvent,
    before: Set<Seq<char>>,
    after: Set<Seq<char>>,
) -> bool {
    match action {
        SwapShape::Register(combination) => match next {
            SwapEvent::Registered => after == before.insert(combination),
            SwapEvent::RegisterFailed { .. } => after == before,
            _ => false,
        },
        SwapShape::Unregister(combination) => next is Unregistered && (after == before || after
            == before.remove(combination)),
        SwapShape::Finish(_) => false,
    }
}

/// The swap of a hotkey that went through the given events, with the combinations registered at
/// each.
pub open spec fn is_swap(
    old: Seq<char>,
    new: Seq<char>,
    events: Seq<SwapEvent>,
    held: Seq<Set<Seq<char>>>,
) -> bool {
    &&& events.len() == held.len() > 0
    &&& events[0] is Started
    &&& held[0].contains(trimmed(old))
    &&& forall|i: int|
        #![trigger events[i]]
        0 < i < events.len() ==> may_hold(
            after_swap_event(old, new, events[i - 1]),
            events[i],
            held[i - 1],
            held[i],
        )
}

/// During the swap of a hotkey one of the two combinations works at every moment; a swap that
/// reports an error has left the old one as it was, and one that reports success has registered
/// the new one.
pub proof fn law_swap_always_leaves_a_working_hotkey(
    old: Seq<char>,
    new: Seq<char>,
    events: Seq<SwapEvent>,
    held: Seq<Set<Seq<char>>>,
    i: int,
)
    requires
        is_swap(old, new, events, held),
        trimmed(old) != trimmed(new),
        0 <= i < events.len(),
    ensures
        held[i].contains(trimmed(old)) || held[i].contains(trimmed(new)),
        after_swap_event(old, new, events[i]) matches SwapShape::Finish(r) ==> match r {
            Ok(_) => held[i].contains(trimmed(new)),
            Err(_) => held[i] == held[0],
        },
    decreases i,
{
    lemma_held(old, new, events, held, i);
}

proof fn lemma_held(
    old: Seq<char>,
    new: Seq<char>,
    events: Seq<SwapEvent>,
    held: Seq<Set<Seq<char>>>,
    i: int,
)
    requires
        is_swap(old, new, events, held),
        trimmed(old) != trimmed(new),
        0 <= i < events.len(),
    ensures
        match events[i] {
            SwapEvent::Started | SwapEvent::RegisterFailed { .. } => held[i] == held[0],
            SwapEvent::Registered | SwapEvent::Unregistered => held[i].contains(trimmed(new)),
        },
    decreases i,
{
    if i > 0 {
        lemma_held(old, new, events, held, i - 1);
        assert(may_hold(
            after_swap_event(old, new, events[i - 1]),
            events[i],
            held[i - 1],
            held[i],
        ));
    }
}

/// Good settings are accepted and all others are refused: accepted are those with a base URL, a
/// model and three hotkeys, none of them blank, of which no two hotkeys are the same once they
/// are trimmed and lowered.
pub proof fn law_good_settings_are_accepted(new: SettingsView, new_ink: Seq<char>)
    ensures
        complaint(new, new_ink) is None <==> {
            &&& trimmed(new.base_url).len() > 0
            &&& trimmed(new.model).len() > 0
            &&& trimmed(new.hotkey).len() > 0
            &&& trimmed(new.settings_hotkey).len() > 0
            &&& trimmed(new_ink).len() > 0
            &&& lowered(trimmed(new.hotkey)) != lowered(trimmed(new.settings_hotkey))
            &&& lowered(trimmed(new.hotkey)) != lowered(trimmed(new_ink))
            &&& lowered(trimmed(new.settings_hotkey)) != lowered(trimmed(new_ink))
        },
{
}

/// The complaint is about the first thing that is wrong: it names what is blank only where
/// everything before that is not, and speaks of equal hotkeys only where nothing is blank.
pub proof fn law_first_fault_is_named(new: SettingsView, new_ink: Seq<char>)
    ensures
        ({
            let blank_url = trimmed(new.base_url).len() == 0;
            let blank_model = trimmed(new.model).len() == 0;
            let blank_capture = trimmed(new.hotkey).len() == 0;
            let blank_settings = trimmed(new.settings_hotkey).len() == 0;
            let blank_ink = trimmed(new_ink).len() == 0;
            let said = complaint(new, new_ink);
            &&& blank_url ==> said == Some("Base URL 不能为空"@)
            &&& !blank_url && blank_model ==> said == Some("Model 不能为空"@)
            &&& !blank_url && !blank_model && blank_capture ==> said == Some(
                "截屏快捷键不能为空"@,
            )
            &&& !blank_url && !blank_model && !blank_capture && blank_settings ==> said == Some(
                "设置快捷键不能为空"@,
            )
            &&& !blank_url && !blank_model && !blank_capture && !blank_settings && blank_ink
                ==> said == Some("手写快捷键不能为空"@)
            &&& !blank_url && !blank_model && !blank_capture && !blank_settings && !blank_ink
                && said is Some ==> said == Some("截屏、设置、手写三个快捷键必须两两不同"@)
        }),
{
}

/// What is accepted does not depend on the API key, the prompt or the order of the hotkeys.
pub proof fn law_acceptance_treats_hotkeys_alike(new: SettingsView, new_ink: Seq<char>)
    ensures
        ({
            let swapped = SettingsView {
                hotkey: new.settings_hotkey,
                settings_hotkey: new.hotkey,
                ..new
            };
            let turned = SettingsView { hotkey: new_ink, ..new };
            let unkeyed = SettingsView { api_key: Seq::empty(), prompt: Seq::empty(), ..new };
            &&& complaint(swapped, new_ink) is None <==> complaint(new, new_ink) is None
            &&& complaint(turned, new.hotkey) is None <==> complaint(new, new_ink) is None
            &&& complaint(unkeyed, new_ink) == complaint(new, new_ink)
        }),
{
}

/// The first step hands the model client the new values, and there is one step more than that
/// and the last for each hotkey that has changed: capture before settings before handwriting.
pub proof fn law_steps_follow_their_order(
    old: SettingsView,
    old_ink: Seq<char>,
    new: SettingsView,
    new_ink: Seq<char>,
)
    ensures
        ({
            let steps = apply_steps(old, old_ink, new, new_ink);
            let a: int = if new.hotkey != old.hotkey { 1 } else { 0 };
            let b: int = if new.settings_hotkey != old.settings_hotkey { 1 } else { 0 };
            let c: int = if new_ink != old_ink { 1 } else { 0 };
            &&& steps.len() == 2 + a + b + c
            &&& steps[0] matches StepView::SetConfig(config)
            &&& config.base_url == new.base_url
            &&& config.api_key == new.api_key
            &&& config.model == new.model
            &&& config.prompt == new.prompt
            &&& a == 1 ==> steps[1] == (StepView::SwapHotkey {
                slot: HotkeySlot::Capture,
                old: old.hotkey,
                new: new.hotkey,
            })
            &&& b == 1 ==> steps[1 + a] == (StepView::SwapHotkey {
                slot: HotkeySlot::Settings,
                old: old.settings_hotkey,
                new: new.settings_hotkey,
            })
            &&& c == 1 ==> steps[1 + a + b] == (StepView::SwapHotkey {
                slot: HotkeySlot::Ink,
                old: old_ink,
                new: new_ink,
            })
            &&& steps[steps.len() - 1] == StepView::Persist
        }),
{
}

/// A swap registers the new combination, trimmed, and then gives up the old one, trimmed; a blank
/// new hotkey is refused before anything happens, and a blank old one leaves nothing to give up.
pub proof fn law_swap_registers_then_gives_up(old: Seq<char>, new: Seq<char>, error: String)
    ensures
        trimmed(new).len() > 0 ==> after_swap_event(old, new, SwapEvent::Started)
            == SwapShape::Register(trimmed(new)),
        trimmed(new).len() == 0 ==> after_swap_event(old, new, SwapEvent::Started)
            == SwapShape::Finish(
            Err(
                ErrorView::Capture(
                    "新快捷键 '"@ + new + "' 注册失败: "@ + ("capture error: "@ + "empty hotkey"@)
                        + "（已保留旧快捷键 '"@ + old + "'）"@,
                ),
            ),
        ),
        trimmed(old).len() > 0 ==> after_swap_event(old, new, SwapEvent::Registered)
            == SwapShape::Unregister(trimmed(old)),
        trimmed(old).len() == 0 ==> after_swap_event(old, new, SwapEvent::Registered)
            == SwapShape::Finish(Ok(())),
        after_swap_event(old, new, SwapEvent::Unregistered) == SwapShape::Finish(Ok(())),
        after_swap_event(old, new, SwapEvent::RegisterFailed { error }) == SwapShape::Finish(
            Err(
                ErrorView::Capture(
                    "新快捷键 '"@ + new + "' 注册失败: "@ + ("capture error: "@ + (
                    "register hotkey: "@ + error@)) + "（已保留旧快捷键 '"@ + old + "'）"@,
                ),
            ),
        ),
{
}

/// Steps and actions are seen with each text in its place.
pub proof fn law_steps_are_seen_as_they_are(
    config: LlmConfig,
    slot: HotkeySlot,
    a: String,
    b: String,
    ended: AppResult<()>,
)
    ensures
        ApplyStep::SetConfig(config)@ == StepView::SetConfig(config@),
        (ApplyStep::SwapHotkey { slot, old: a, new: b })@ == (StepView::SwapHotkey {
            slot,
            old: a@,
            new: b@,
        }),
        ApplyStep::Persist@ == StepView::Persist,
        SwapAction::Register(a)@ == SwapShape::Register(a@),
        SwapAction::Unregister(a)@ == SwapShape::Unregister(a@),
        SwapAction::Finish(ended)@ == SwapShape::Finish(
            match ended {
                Ok(u) => Ok(u),
                Err(e) => Err(e@),
            },
        ),
{
}

/// Steps are seen one by one and in their order.
pub proof fn law_steps_are_seen_in_order(steps: Seq<ApplyStep>, i: int)
    requires
        0 <= i < steps.len(),
    ensures
        step_views(steps).len() == steps.len(),
        step_views(steps)[i] == steps[i]@,
{
}

} // verus!
