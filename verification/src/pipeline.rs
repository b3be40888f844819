//! From a hotkey to a result: which capture is current, and what happens in it, step by step.
//!
//! A capture is driven by a shell that performs the actions of each step in order and reports
//! what happened.

use crate::capture::{
    crop_fits, crop_in_range, crop_rgba, cropped, encode_png, encoded, image_bytes, png_pixels,
    MonitorInfo,
};
use crate::capture_window::{cancel_capture, start_capture, CaptureCommand, CaptureEvent};
use crate::encoding::{base64, encodable, encode_base64, is_encodable};
use crate::error::{outcome, AppError, AppResult, ErrorView};
use crate::exchange::answer_outcome;
use crate::models::{CaptureRect, TranslateResult};
use std::collections::HashMap;
use std::sync::Arc;
use vstd::prelude::*;
use vstd::string::*;

verus! {

/// A capture under way. A later one tells it to wind down.
#[derive(Debug, Clone, Copy, PartialEq, Eq, Structural)]
pub struct ActiveCapture {
    pub cancel: bool,
}

impl ActiveCapture {
    pub fn new() -> (r: ActiveCapture)
        ensures
            !r.cancel,
    {
        ActiveCapture { cancel: false }
    }

    /// Tells the capture to wind down. What it returns closes the overlay without a report.
    pub fn cancel(&mut self) -> (r: CaptureCommand)
        ensures
            final(self).cancel,
            r == CaptureCommand::Cancel,
    {
        self.cancel = true;
        cancel_capture()
    }
}

/// The captures that have begun and not ended, by number, and the one that counts.
pub struct CaptureSlot {
    running: HashMap<u64, ActiveCapture>,
    active: Option<u64>,
    next: u64,
}

/// The captures that have begun and not ended, each with whether it was told to wind down.
pub struct SlotView {
    pub running: Map<u64, ActiveCapture>,
    pub active: Option<u64>,
    pub next: u64,
}

impl View for CaptureSlot {
    type V = SlotView;

    closed spec fn view(&self) -> SlotView {
        SlotView { running: self.running@, active: self.active, next: self.next }
    }
}

impl SlotView {
    /// Of the captures that run, the active one has not been told to wind down and every other
    /// has.
    pub open spec fn wf(self) -> bool {
        &&& forall|id: u64| #[trigger] self.running.contains_key(id) ==> id < self.next
        &&& self.active matches Some(id) ==> self.running.contains_key(id)
        &&& forall|id: u64| #[trigger]
            self.running.contains_key(id) ==> self.running[id].cancel == (self.active != Some(id))
    }

    /// A new capture begins: the active one, if any, is told to wind down, and the new one takes
    /// its place.
    pub open spec fn begun(self) -> SlotView {
        let wound_down = match self.active {
            Some(id) => self.running.insert(id, ActiveCapture { cancel: true }),
            None => self.running,
        };
        SlotView {
            running: wound_down.insert(self.next, ActiveCapture { cancel: false }),
            active: Some(self.next),
            next: (self.next + 1) as u64,
        }
    }

    /// A capture ends: the place is free again where it was the one that counted.
    pub open spec fn finished(self, id: u64) -> SlotView {
        SlotView {
            running: self.running.remove(id),
            active: if self.active == Some(id) {
                None
            } else {
                self.active
            },
            next: self.next,
        }
    }

    /// Whether a capture was told to wind down.
    pub open spec fn is_cancelled(self, id: u64) -> bool {
        self.running.contains_key(id) && self.running[id].cancel
    }
}

impl CaptureSlot {
    /// No capture has begun.
    pub fn new() -> (r: CaptureSlot)
        ensures
            r@.wf(),
            r@.running == Map::<u64, ActiveCapture>::empty(),
            r@.active is None,
            r@.next == 0,
    {
        CaptureSlot { running: HashMap::new(), active: None, next: 0 }
    }

    /// Whether another capture can be numbered.
    pub fn has_room(&self) -> (r: bool)
        ensures
            r == (self@.next < u64::MAX),
    {
        self.next < u64::MAX
    }

    /// Begins a capture: its number, and the command that closes the overlay of the capture
    /// that it interrupts, where there is one.
    pub fn begin(&mut self) -> (r: (u64, Option<CaptureCommand>))
        requires
            old(self)@.wf(),
            old(self)@.next < u64::MAX,
        ensures
            final(self)@.wf(),
            final(self)@ == old(self)@.begun(),
            r.0 == old(self)@.next,
            r.1 == if old(self)@.active is Some {
                Some(CaptureCommand::Cancel)
            } else {
                None
            },
    {
        broadcast use vstd::std_specs::hash::group_hash_axioms;

        let mut command: Option<CaptureCommand> = None;
        if let Some(id) = self.active {
            let mut interrupted: ActiveCapture = ActiveCapture::new();
            command = Some(interrupted.cancel());
            self.running.insert(id, interrupted);
        }
        let id: u64 = self.next;
        self.running.insert(id, ActiveCapture::new());
        self.active = Some(id);
        self.next = id + 1;
        proof {
            assert(self@.running =~= old(self)@.begun().running);
        }
        (id, command)
    }

    /// Ends a capture.
    pub fn finish(&mut self, id: u64)
        requires
            old(self)@.wf(),
        ensures
            final(self)@.wf(),
            final(self)@ == old(self)@.finished(id),
    {
        broadcast use vstd::std_specs::hash::group_hash_axioms;

        self.running.remove(&id);
        if let Some(active) = self.active {
            if active == id {
                self.active = None;
            }
        }
        proof {
            assert(self@.running =~= old(self)@.finished(id).running);
        }
    }

    /// Whether a capture was told to wind down.
    pub fn cancelled(&self, id: u64) -> (r: bool)
        ensures
            r == self@.is_cancelled(id),
    {
        broadcast use vstd::std_specs::hash::group_hash_axioms;

        match self.running.get(&id) {
            Some(capture) => capture.cancel,
            None => false,
        }
    }
}

/// The newest capture counts: it has not been told to wind down, and every other that is still
/// running has.
pub proof fn law_newest_capture_wins(slot: SlotView, other: u64)
    requires
        slot.wf(),
        slot.next < u64::MAX,
    ensures
        slot.begun().wf(),
        slot.begun().active == Some(slot.next),
        !slot.begun().is_cancelled(slot.next),
        slot.running.contains_key(other) ==> slot.begun().is_cancelled(other),
{
}

/// A capture that was told to wind down stays told until it ends, whatever begins or ends
/// meanwhile.
pub proof fn law_cancelled_capture_stays_cancelled(slot: SlotView, id: u64, other: u64)
    requires
        slot.wf(),
        slot.next < u64::MAX,
        slot.is_cancelled(id),
        other != id,
    ensures
        slot.begun().is_cancelled(id),
        slot.finished(other).is_cancelled(id),
{
}

/// The end of a capture that was interrupted does not touch the one that counts.
pub proof fn law_stale_end_is_harmless(slot: SlotView, id: u64)
    requires
        slot.wf(),
        slot.active != Some(id),
    ensures
        slot.finished(id).wf(),
        slot.finished(id).active == slot.active,
        slot.active matches Some(active) ==> !slot.finished(id).is_cancelled(active),
{
}

/// The end of the capture that counts frees the place: the next one interrupts nothing.
pub proof fn law_end_frees_the_place(slot: SlotView, id: u64)
    requires
        slot.wf(),
        slot.active == Some(id),
    ensures
        slot.finished(id).active is None,
        !slot.finished(id).running.contains_key(id),
{
}

/// A screenshot of a monitor.
pub struct Screenshot {
    pub rgba: Arc<Vec<u8>>,
    pub width: u32,
    pub height: u32,
    pub monitor: MonitorInfo,
}

/// A screenshot by its bytes.
pub struct ShotView {
    pub rgba: Seq<u8>,
    pub width: u32,
    pub height: u32,
    pub monitor: MonitorInfo,
}

impl View for Screenshot {
    type V = ShotView;

    open spec fn view(&self) -> ShotView {
        ShotView {
            rgba: self.rgba@,
            width: self.width,
            height: self.height,
            monitor: self.monitor,
        }
    }
}

/// The PNG of a selection, and its base64 text.
pub struct Snip {
    pub png: Vec<u8>,
    pub png_b64: String,
}

impl Snip {
    pub open spec fn wf(self) -> bool {
        &&& self.png_b64@ == base64(self.png@)
        &&& is_encodable(self.png@.len())
    }
}

/// The bytes of a rectangle of a screenshot.
pub open spec fn cut_out(shot: ShotView, rect: CaptureRect) -> Seq<u8> {
    cropped(
        shot.rgba,
        shot.width as int,
        rect.x as int,
        rect.y as int,
        rect.width as int,
        rect.height as nat,
    )
}

/// The PNG of a rectangle of a screenshot.
pub open spec fn snipped(shot: ShotView, rect: CaptureRect) -> Result<Seq<u8>, ErrorView> {
    encoded(cut_out(shot, rect), rect.width, rect.height)
}

/// A rectangle that has pixels and lies inside a screenshot that has all of its own.
pub open spec fn is_inside(rect: CaptureRect, shot: ShotView) -> bool {
    &&& rect.width > 0 && rect.height > 0
    &&& rect.x + rect.width <= shot.width
    &&& rect.y + rect.height <= shot.height
    &&& shot.width * shot.height * 4 <= shot.rgba.len()
}

/// The PNG of a rectangle of a screenshot with its base64 text; nothing where the PNG is so
/// large that its base64 text cannot be held in memory. The PNG of a rectangle inside the
/// screenshot holds exactly its pixels.
pub fn snip(shot: &Screenshot, rect: CaptureRect) -> (r: Option<AppResult<Snip>>)
    requires
        crop_fits(shot.width, rect.x, rect.y, rect.width, rect.height),
    ensures
        is_inside(rect, shot@) ==> match r {
            Some(Ok(s)) => png_pixels(s.png@) == (rect.width, rect.height, cut_out(shot@, rect)),
            Some(Err(_)) => false,
            None => true,
        },
        rect.width > 0 && rect.height > 0 && rect.x + rect.width <= shot.width && rect.y
            + rect.height <= shot.height && shot.width * shot.height * 4 <= shot.rgba@.len() ==> (
        r matches Some(Ok(s)) ==> forall|c: int, q: int, k: int|
            #![trigger png_pixels(s.png@).2[(q * rect.width + c) * 4 + k]]
            0 <= c < rect.width && 0 <= q < rect.height && 0 <= k < 4 ==> png_pixels(s.png@).2[(q
                * rect.width + c) * 4 + k] == shot.rgba@[((rect.y + q) * shot.width + rect.x + c)
                * 4 + k]),
        match r {
            Some(Ok(s)) => s.wf() && snipped(shot@, rect) == Ok::<Seq<u8>, ErrorView>(s.png@),
            Some(Err(e)) => snipped(shot@, rect) == Err::<Seq<u8>, ErrorView>(e@),
            None => snipped(shot@, rect) is Ok && !is_encodable(snipped(shot@, rect)->Ok_0.len()),
        },
{
    let part: Vec<u8> = crop_rgba(
        shot.rgba.as_slice(),
        shot.width,
        rect.x,
        rect.y,
        rect.width,
        rect.height,
    );
    proof {
        if is_inside(rect, shot@) {
            crate::capture::law_crop_has_the_size_of_its_rectangle(
                shot@.rgba,
                shot@.width as int,
                shot@.height as int,
                rect.x as int,
                rect.y as int,
                rect.width as int,
                rect.height as nat,
            );
            assert(rect.width <= rect.width * rect.height) by (nonlinear_arith)
                requires
                    0 <= rect.width,
                    1 <= rect.height,
            ;
            assert(part.len() == part@.len());
            assert(image_bytes(part@, rect.width, rect.height) =~= part@);
            assert forall|c: int, q: int, k: int|
                #![trigger part@[(q * rect.width + c) * 4 + k]]
                0 <= c < rect.width && 0 <= q < rect.height && 0 <= k < 4 implies part@[(q
                * rect.width + c) * 4 + k] == shot.rgba@[((rect.y + q) * shot.width + rect.x + c)
                * 4 + k] by {
                law_cut_out_is_the_selected_part(shot@, rect, c, q, k);
            }
        }
    }
    match encode_png(part.as_slice(), rect.width, rect.height) {
        Err(e) => Some(Err(e)),
        Ok(png) => if encodable(png.len()) {
            let png_b64: String = encode_base64(png.as_slice());
            Some(Ok(Snip { png, png_b64 }))
        } else {
            None
        },
    }
}

/// What a capture is for.
#[derive(Debug, Clone, Copy, PartialEq, Eq, Structural)]
pub enum Flow {
    /// Translate the selection.
    Translate,
    /// Ask about the selection by handwriting.
    Ink,
}

/// How far a capture has come.
enum Stage {
    Start,
    FindingMonitor,
    Capturing,
    /// The user selects on the overlay.
    Selecting(Screenshot),
    /// The result window is being brought up.
    ShowingBusy(Snip),
    /// The model is at work; the text is the selection's PNG in base64.
    Translating(String),
    /// The result is being handed over.
    Delivering,
    Done,
}

/// What has happened to a capture.
pub enum PipelineEvent {
    Started,
    MonitorFound,
    Captured(Screenshot),
    /// The task in which the shell did its work broke down.
    TaskFailed { error: String },
    /// The shell's work came to an error.
    Failed(AppError),
    /// The overlay is gone: with a report, or without where it was closed by a later capture.
    OverlayClosed(Option<CaptureEvent>),
    /// The result window is up, or could not be brought up: the work goes on.
    BusyShown,
    /// The model has answered.
    Translated(AppResult<(String, bool)>),
    /// The result was handed over.
    Delivered(AppResult<()>),
}

/// What the shell is to do.
pub enum PipelineAction {
    FindMonitor,
    CaptureScreen,
    StartOverlay(CaptureCommand),
    /// Bring up the result window with the selection and no text yet.
    ShowBusy { image_base64: String },
    /// Have the model translate the text in an image.
    Translate { png: Vec<u8> },
    /// Show an error in the result window.
    EmitError { message: String },
    /// Say that the model reasoned before it answered.
    EmitThinking,
    /// Show the result in the result window.
    EmitLoaded(TranslateResult),
    /// Keep the selection for the questions to come.
    Stash { png_b64: String },
    /// Bring up the handwriting window with the selection.
    ShowInk { image_base64: String, monitor: MonitorInfo },
    /// The selection is too large to be handled.
    TooLarge,
    /// The capture is over.
    Finish(AppResult<()>),
}

/// A stage by its bytes and texts.
pub enum StageView {
    Start,
    FindingMonitor,
    Capturing,
    Selecting(ShotView),
    ShowingBusy(Seq<u8>),
    Translating(Seq<char>),
    Delivering,
    Done,
}

pub enum EventView {
    Started,
    MonitorFound,
    Captured(ShotView),
    TaskFailed(Seq<char>),
    Failed(ErrorView),
    OverlayClosed(Option<CaptureEvent>),
    BusyShown,
    Translated(Result<(Seq<char>, bool), ErrorView>),
    Delivered(Result<(), ErrorView>),
}

pub enum ActionView {
    FindMonitor,
    CaptureScreen,
    /// The overlay is started on a screenshot.
    StartOverlay(ShotView),
    ShowBusy(Seq<char>),
    Translate(Seq<u8>),
    EmitError(Seq<char>),
    EmitThinking,
    EmitLoaded { text: Seq<char>, image_base64: Seq<char> },
    Stash(Seq<char>),
    ShowInk(Seq<char>, MonitorInfo),
    TooLarge,
    Finish(Result<(), ErrorView>),
}

impl View for Stage {
    type V = StageView;

    closed spec fn view(&self) -> StageView {
        match *self {
            Stage::Start => StageView::Start,
            Stage::FindingMonitor => StageView::FindingMonitor,
            Stage::Capturing => StageView::Capturing,
            Stage::Selecting(shot) => StageView::Selecting(shot@),
            Stage::ShowingBusy(s) => StageView::ShowingBusy(s.png@),
            Stage::Translating(text) => StageView::Translating(text@),
            Stage::Delivering => StageView::Delivering,
            Stage::Done => StageView::Done,
        }
    }
}

impl View for PipelineEvent {
    type V = EventView;

    open spec fn view(&self) -> EventView {
        match *self {
            PipelineEvent::Started => EventView::Started,
            PipelineEvent::MonitorFound => EventView::MonitorFound,
            PipelineEvent::Captured(shot) => EventView::Captured(shot@),
            PipelineEvent::TaskFailed { error } => EventView::TaskFailed(error@),
            PipelineEvent::Failed(e) => EventView::Failed(e@),
            PipelineEvent::OverlayClosed(report) => EventView::OverlayClosed(report),
            PipelineEvent::BusyShown => EventView::BusyShown,
            PipelineEvent::Translated(r) => EventView::Translated(answer_outcome(r)),
            PipelineEvent::Delivered(r) => EventView::Delivered(outcome(r)),
        }
    }
}

/// `action` is what `view` says. An overlay is started on the screenshot with the monitor's
/// position.
pub open spec fn shows(action: PipelineAction, view: ActionView) -> bool {
    match view {
        ActionView::FindMonitor => action is FindMonitor,
        ActionView::CaptureScreen => action is CaptureScreen,
        ActionView::StartOverlay(shot) => match action {
            PipelineAction::StartOverlay(
                CaptureCommand::StartCapture { rgba, img_w, img_h, monitor_x, monitor_y },
            ) => {
                &&& rgba@ == shot.rgba
                &&& img_w == shot.width
                &&& img_h == shot.height
                &&& monitor_x == shot.monitor.x
                &&& monitor_y == shot.monitor.y
            },
            _ => false,
        },
        ActionView::ShowBusy(text) => action matches PipelineAction::ShowBusy { image_base64 }
            && image_base64@ == text,
        ActionView::Translate(bytes) => action matches PipelineAction::Translate { png } && png@
            == bytes,
        ActionView::EmitError(text) => action matches PipelineAction::EmitError { message }
            && message@ == text,
        ActionView::EmitThinking => action is EmitThinking,
        ActionView::EmitLoaded { text, image_base64 } => action matches PipelineAction::EmitLoaded(
            result,
        ) && result.text@ == text && result.image_base64@ == image_base64,
        ActionView::Stash(text) => action matches PipelineAction::Stash { png_b64 } && png_b64@
            == text,
        ActionView::ShowInk(text, at) => action matches PipelineAction::ShowInk {
            image_base64,
            monitor,
        } && image_base64@ == text && monitor == at,
        ActionView::TooLarge => action is TooLarge,
        ActionView::Finish(result) => action matches PipelineAction::Finish(r) && outcome(r)
            == result,
    }
}

/// The actions are, one by one, what the views say.
pub open spec fn all_show(actions: Seq<PipelineAction>, views: Seq<ActionView>) -> bool {
    &&& actions.len() == views.len()
    &&& forall|i: int| 0 <= i < actions.len() ==> shows(#[trigger] actions[i], views[i])
}

/// A capture's next stage and what the shell is to do.
pub type Move = (StageView, Seq<ActionView>);

/// The capture ends with nothing to show.
pub open spec fn ends_quietly() -> Move {
    (StageView::Done, seq![ActionView::Finish(Ok(()))])
}

/// The capture ends with an error.
pub open spec fn fails(e: ErrorView) -> Move {
    (StageView::Done, seq![ActionView::Finish(Err(e))])
}

/// The capture ends with a word in the result window that it was broken off.
pub open spec fn ends_as_cancelled() -> Move {
    (
        StageView::Done,
        seq![ActionView::EmitError("已取消"@), ActionView::Finish(Ok(()))],
    )
}

/// The user has selected a rectangle.
pub open spec fn after_selection(flow: Flow, shot: ShotView, rect: CaptureRect) -> Move {
    match snipped(shot, rect) {
        Err(e) => fails(e),
        Ok(png) => if !is_encodable(png.len()) {
            (StageView::Done, seq![ActionView::TooLarge])
        } else {
            match flow {
                Flow::Translate => (
                    StageView::ShowingBusy(png),
                    seq![ActionView::ShowBusy(base64(png))],
                ),
                Flow::Ink => (
                    StageView::Delivering,
                    seq![
                        ActionView::Stash(base64(png)),
                        ActionView::ShowInk(base64(png), shot.monitor),
                    ],
                ),
            }
        },
    }
}

/// The model has answered.
pub open spec fn after_translation(
    image_base64: Seq<char>,
    result: Result<(Seq<char>, bool), ErrorView>,
    cancelled: bool,
) -> Move {
    match result {
        Err(e) => if e == crate::llm_translate::cancelled() {
            ends_as_cancelled()
        } else {
            (
                StageView::Done,
                seq![ActionView::EmitError(e.message()), ActionView::Finish(Err(e))],
            )
        },
        Ok((text, thought)) => if cancelled {
            ends_quietly()
        } else {
            (
                StageView::Delivering,
                if thought {
                    seq![ActionView::EmitThinking, ActionView::EmitLoaded { text, image_base64 }]
                } else {
                    seq![ActionView::EmitLoaded { text, image_base64 }]
                },
            )
        },
    }
}

/// What follows an event in a capture; `cancelled` says whether the capture was told to wind
/// down. An event that does not belong to the stage changes nothing.
pub open spec fn after(flow: Flow, stage: StageView, event: EventView, cancelled: bool) -> Move {
    match (stage, event) {
        (StageView::Start, EventView::Started) => if cancelled {
            ends_quietly()
        } else {
            (StageView::FindingMonitor, seq![ActionView::FindMonitor])
        },
        (StageView::FindingMonitor, EventView::MonitorFound) => if cancelled {
            ends_quietly()
        } else {
            (StageView::Capturing, seq![ActionView::CaptureScreen])
        },
        (StageView::FindingMonitor, EventView::TaskFailed(error)) => fails(
            ErrorView::Capture("find monitor: "@ + error),
        ),
        (StageView::FindingMonitor, EventView::Failed(e)) => fails(e),
        (StageView::Capturing, EventView::Captured(shot)) => if flow == Flow::Ink && cancelled {
            ends_quietly()
        } else {
            (StageView::Selecting(shot), seq![ActionView::StartOverlay(shot)])
        },
        (StageView::Capturing, EventView::TaskFailed(error)) => fails(
            ErrorView::Capture("capture task: "@ + error),
        ),
        (StageView::Capturing, EventView::Failed(e)) => fails(e),
        (StageView::Selecting(shot), EventView::OverlayClosed(report)) => match report {
            Some(CaptureEvent::Selection { x, y, w, h }) => if cancelled {
                ends_quietly()
            } else {
                after_selection(flow, shot, CaptureRect { x, y, width: w, height: h })
            },
            _ => ends_quietly(),
        },
        (StageView::ShowingBusy(png), EventView::BusyShown) => if cancelled {
            ends_as_cancelled()
        } else {
            (StageView::Translating(base64(png)), seq![ActionView::Translate(png)])
        },
        (StageView::Translating(image_base64), EventView::Translated(result)) => after_translation(
            image_base64,
            result,
            cancelled,
        ),
        (StageView::Delivering, EventView::Delivered(result)) => (
            StageView::Done,
            seq![ActionView::Finish(result)],
        ),
        _ => (stage, seq![]),
    }
}

/// A selection lies where its offsets can be worked out.
pub open spec fn in_range(stage: StageView, event: EventView) -> bool {
    match (stage, event) {
        (
            StageView::Selecting(shot),
            EventView::OverlayClosed(Some(CaptureEvent::Selection { x, y, w, h })),
        ) => crop_fits(shot.width, x, y, w, h),
        _ => true,
    }
}

fn one(action: PipelineAction) -> (r: Vec<PipelineAction>)
    ensures
        r@ == seq![action],
{
    let mut actions: Vec<PipelineAction> = Vec::new();
    actions.push(action);
    actions
}

fn two(first: PipelineAction, second: PipelineAction) -> (r: Vec<PipelineAction>)
    ensures
        r@ == seq![first, second],
{
    let mut actions: Vec<PipelineAction> = Vec::new();
    actions.push(first);
    actions.push(second);
    actions
}

fn broken_off() -> (r: Vec<PipelineAction>)
    ensures
        all_show(r@, ends_as_cancelled().1),
{
    two(
        PipelineAction::EmitError { message: "已取消".to_owned() },
        PipelineAction::Finish(Ok(())),
    )
}

/// A capture: what it is for and how far it has come.
pub struct CapturePipeline {
    flow: Flow,
    stage: Stage,
}

impl CapturePipeline {
    /// What the capture is for.
    pub closed spec fn flow(self) -> Flow {
        self.flow
    }

    /// How far the capture has come.
    pub closed spec fn stage(self) -> StageView {
        self.stage@
    }

    /// The PNG that is being shown has the base64 text that is being shown for it.
    pub closed spec fn wf(self) -> bool {
        self.stage matches Stage::ShowingBusy(s) ==> s.wf()
    }

    pub fn new(flow: Flow) -> (r: CapturePipeline)
        ensures
            r.wf(),
            r.flow() == flow,
            r.stage() == StageView::Start,
    {
        CapturePipeline { flow, stage: Stage::Start }
    }

    /// Whether the offsets of an event's selection, where it has one, can be worked out. A
    /// capture that was told to wind down takes any event.
    pub fn accepts(&self, event: &PipelineEvent) -> (r: bool)
        ensures
            r == in_range(self.stage(), event@),
    {
        match (&self.stage, event) {
            (
                Stage::Selecting(shot),
                PipelineEvent::OverlayClosed(Some(CaptureEvent::Selection { x, y, w, h })),
            ) => crop_in_range(shot.width, *x, *y, *w, *h),
            _ => true,
        }
    }

    fn selected(self, rect: CaptureRect) -> (r: (CapturePipeline, Vec<PipelineAction>))
        requires
            self.stage is Selecting,
            crop_fits(
                self.stage->Selecting_0.width,
                rect.x,
                rect.y,
                rect.width,
                rect.height,
            ),
        ensures
            r.0.wf(),
            r.0.flow == self.flow,
            r.0.stage@ == after_selection(self.flow, self.stage->Selecting_0@, rect).0,
            all_show(r.1@, after_selection(self.flow, self.stage->Selecting_0@, rect).1),
    {
        let flow: Flow = self.flow;
        match self.stage {
            Stage::Selecting(shot) => match snip(&shot, rect) {
                None => (
                    CapturePipeline { flow, stage: Stage::Done },
                    one(PipelineAction::TooLarge),
                ),
                Some(Err(e)) => (
                    CapturePipeline { flow, stage: Stage::Done },
                    one(PipelineAction::Finish(Err(e))),
                ),
                Some(Ok(s)) => match flow {
                    Flow::Translate => {
                        let image_base64: String = s.png_b64.clone();
                        (
                            CapturePipeline { flow, stage: Stage::ShowingBusy(s) },
                            one(PipelineAction::ShowBusy { image_base64 }),
                        )
                    },
                    Flow::Ink => {
                        let image_base64: String = s.png_b64.clone();
                        (
                            CapturePipeline { flow, stage: Stage::Delivering },
                            two(
                                PipelineAction::Stash { png_b64: s.png_b64 },
                                PipelineAction::ShowInk { image_base64, monitor: shot.monitor },
                            ),
                        )
                    },
                },
            },
            stage => (CapturePipeline { flow, stage }, Vec::new()),
        }
    }

    fn translated(
        flow: Flow,
        image_base64: String,
        result: AppResult<(String, bool)>,
        cancelled: bool,
    ) -> (r: (CapturePipeline, Vec<PipelineAction>))
        ensures
            r.0.wf(),
            r.0.flow == flow,
            r.0.stage@ == after_translation(image_base64@, answer_outcome(result), cancelled).0,
            all_show(
                r.1@,
                after_translation(image_base64@, answer_outcome(result), cancelled).1,
            ),
    {
        match result {
            Err(e) => {
                let broken: bool = match &e {
                    AppError::Capture(m) => *m == "cancelled".to_owned(),
                    _ => false,
                };
                let actions: Vec<PipelineAction> = if broken {
                    broken_off()
                } else {
                    let message: String = e.message();
                    two(PipelineAction::EmitError { message }, PipelineAction::Finish(Err(e)))
                };
                (CapturePipeline { flow, stage: Stage::Done }, actions)
            },
            Ok((text, thought)) => if cancelled {
                (
                    CapturePipeline { flow, stage: Stage::Done },
                    one(PipelineAction::Finish(Ok(()))),
                )
            } else {
                let loaded: PipelineAction = PipelineAction::EmitLoaded(
                    TranslateResult { text, image_base64 },
                );
                let actions: Vec<PipelineAction> = if thought {
                    two(PipelineAction::EmitThinking, loaded)
                } else {
                    one(loaded)
                };
                (CapturePipeline { flow, stage: Stage::Delivering }, actions)
            },
        }
    }

    /// What follows an event in the capture.
    pub fn step(self, event: PipelineEvent, cancelled: bool) -> (r: (
        CapturePipeline,
        Vec<PipelineAction>,
    ))
        requires
            self.wf(),
            cancelled || in_range(self.stage(), event@),
        ensures
            r.0.wf(),
            r.0.flow() == self.flow(),
            r.0.stage() == after(self.flow(), self.stage(), event@, cancelled).0,
            all_show(r.1@, after(self.flow(), self.stage(), event@, cancelled).1),
    {
        let flow: Flow = self.flow;
        let quiet: CapturePipeline = CapturePipeline { flow, stage: Stage::Done };
        match (self.stage, event) {
            (Stage::Start, PipelineEvent::Started) => if cancelled {
                (quiet, one(PipelineAction::Finish(Ok(()))))
            } else {
                (
                    CapturePipeline { flow, stage: Stage::FindingMonitor },
                    one(PipelineAction::FindMonitor),
                )
            },
            (Stage::FindingMonitor, PipelineEvent::MonitorFound) => if cancelled {
                (quiet, one(PipelineAction::Finish(Ok(()))))
            } else {
                (
                    CapturePipeline { flow, stage: Stage::Capturing },
                    one(PipelineAction::CaptureScreen),
                )
            },
            (Stage::FindingMonitor, PipelineEvent::TaskFailed { error }) => {
                let text: String = "find monitor: ".to_owned().concat(error.as_str());
                (quiet, one(PipelineAction::Finish(Err(AppError::Capture(text)))))
            },
            (Stage::FindingMonitor, PipelineEvent::Failed(e)) => (
                quiet,
                one(PipelineAction::Finish(Err(e))),
            ),
            (Stage::Capturing, PipelineEvent::Captured(shot)) => {
                let stop: bool = match flow {
                    Flow::Ink => cancelled,
                    Flow::Translate => false,
                };
                if stop {
                    (quiet, one(PipelineAction::Finish(Ok(()))))
                } else {
                    let command: CaptureCommand = start_capture(
                        shot.rgba.clone(),
                        shot.width,
                        shot.height,
                        shot.monitor.x,
                        shot.monitor.y,
                    );
                    (
                        CapturePipeline { flow, stage: Stage::Selecting(shot) },
                        one(PipelineAction::StartOverlay(command)),
                    )
                }
            },
            (Stage::Capturing, PipelineEvent::TaskFailed { error }) => {
                let text: String = "capture task: ".to_owned().concat(error.as_str());
                (quiet, one(PipelineAction::Finish(Err(AppError::Capture(text)))))
            },
            (Stage::Capturing, PipelineEvent::Failed(e)) => (
                quiet,
                one(PipelineAction::Finish(Err(e))),
            ),
            (Stage::Selecting(shot), PipelineEvent::OverlayClosed(report)) => match report {
                Some(CaptureEvent::Selection { x, y, w, h }) => if cancelled {
                    (quiet, one(PipelineAction::Finish(Ok(()))))
                } else {
                    let at: CapturePipeline = CapturePipeline {
                        flow,
                        stage: Stage::Selecting(shot),
                    };
                    at.selected(CaptureRect { x, y, width: w, height: h })
                },
                _ => (quiet, one(PipelineAction::Finish(Ok(())))),
            },
            (Stage::ShowingBusy(s), PipelineEvent::BusyShown) => if cancelled {
                (quiet, broken_off())
            } else {
                (
                    CapturePipeline { flow, stage: Stage::Translating(s.png_b64) },
                    one(PipelineAction::Translate { png: s.png }),
                )
            },
            (
                Stage::Translating(image_base64),
                PipelineEvent::Translated(result),
            ) => CapturePipeline::translated(flow, image_base64, result, cancelled),
            (Stage::Delivering, PipelineEvent::Delivered(result)) => (
                quiet,
                one(PipelineAction::Finish(result)),
            ),
            (stage, _) => (CapturePipeline { flow, stage }, Vec::new()),
        }
    }
}

/// A capture as it went: the stage before each event, the events, and whether it had been told
/// to wind down at each.
pub struct Run {
    pub flow: Flow,
    pub stages: Seq<StageView>,
    pub events: Seq<EventView>,
    pub cancelled: Seq<bool>,
}

impl Run {
    /// What happened at event `i`.
    pub open spec fn at(self, i: int) -> Move {
        after(self.flow, self.stages[i], self.events[i], self.cancelled[i])
    }

    /// The stages follow each other as the events have it.
    pub open spec fn wf(self) -> bool {
        &&& self.stages.len() == self.events.len() + 1
        &&& self.cancelled.len() == self.events.len()
        &&& self.stages[0] == StageView::Start
        &&& forall|i: int|
            #![trigger self.events[i]]
            0 <= i < self.events.len() ==> self.stages[i + 1] == self.at(i).0
    }

    /// The shell was told to perform `action` at event `i`.
    pub open spec fn does(self, i: int, action: ActionView) -> bool {
        0 <= i < self.events.len() && self.at(i).1.contains(action)
    }

    /// At event `i` the user selected a rectangle of the screenshot whose PNG is `png`.
    pub open spec fn selects(self, i: int, png: Seq<u8>) -> bool {
        &&& 0 <= i < self.events.len()
        &&& match (self.stages[i], self.events[i]) {
            (
                StageView::Selecting(shot),
                EventView::OverlayClosed(Some(CaptureEvent::Selection { x, y, w, h })),
            ) => snipped(shot, CaptureRect { x, y, width: w, height: h }) == Ok::<
                Seq<u8>,
                ErrorView,
            >(png),
            _ => false,
        }
    }
}

proof fn lemma_showing(run: Run, i: int, png: Seq<u8>) -> (j: int)
    requires
        run.wf(),
        0 <= i <= run.events.len(),
        run.stages[i] == StageView::ShowingBusy(png),
    ensures
        run.flow == Flow::Translate,
        0 <= j < i,
        run.does(j, ActionView::ShowBusy(base64(png))),
        run.selects(j, png),
    decreases i,
{
    assert(i > 0);
    let e = run.events[i - 1];
    if run.stages[i - 1] == StageView::ShowingBusy(png) {
        lemma_showing(run, i - 1, png)
    } else {
        assert(run.at(i - 1).1[0] == ActionView::ShowBusy(base64(png)));
        i - 1
    }
}

proof fn lemma_translating(run: Run, i: int, text: Seq<char>) -> (r: (int, Seq<u8>))
    requires
        run.wf(),
        0 <= i <= run.events.len(),
        run.stages[i] == StageView::Translating(text),
    ensures
        0 <= r.0 < i,
        base64(r.1) == text,
        run.does(r.0, ActionView::Translate(r.1)),
    decreases i,
{
    assert(i > 0);
    let e = run.events[i - 1];
    if run.stages[i - 1] == StageView::Translating(text) {
        lemma_translating(run, i - 1, text)
    } else {
        let png = run.stages[i - 1]->ShowingBusy_0;
        assert(run.at(i - 1).1[0] == ActionView::Translate(png));
        (i - 1, png)
    }
}

/// The result window is brought up with the selection before the model is asked, and what the
/// model is asked about is what the user selected: the PNG of that rectangle of the screenshot.
pub proof fn law_result_window_comes_before_the_model(run: Run, i: int, png: Seq<u8>)
    requires
        run.wf(),
        run.does(i, ActionView::Translate(png)),
    ensures
        exists|j: int|
            0 <= j < i && #[trigger] run.selects(j, png) && run.does(
                j,
                ActionView::ShowBusy(base64(png)),
            ),
{
    assert(run.stages[i] == StageView::ShowingBusy(png));
    let j = lemma_showing(run, i, png);
}

/// The picture beside a result is the one that the model was asked about.
pub proof fn law_result_shows_what_the_model_saw(
    run: Run,
    i: int,
    text: Seq<char>,
    image_base64: Seq<char>,
)
    requires
        run.wf(),
        run.does(i, ActionView::EmitLoaded { text, image_base64 }),
    ensures
        exists|j: int, png: Seq<u8>|
            0 <= j < i && base64(png) == image_base64 && #[trigger] run.does(
                j,
                ActionView::Translate(png),
            ),
        exists|thought: bool|
            run.events[i] == EventView::Translated(Ok::<(Seq<char>, bool), ErrorView>((text, thought))),
{
    assert(run.stages[i] == StageView::Translating(image_base64));
    let (j, png) = lemma_translating(run, i, image_base64);
    let thought = run.events[i]->Translated_0->Ok_0.1;
    assert(run.events[i] == EventView::Translated(
        Ok::<(Seq<char>, bool), ErrorView>((text, thought)),
    ));
}

/// How far a stage is on the way to a selection.
spec fn rank(stage: StageView) -> int {
    match stage {
        StageView::Start => 0,
        StageView::FindingMonitor => 1,
        StageView::Capturing => 2,
        _ => 3,
    }
}

proof fn lemma_rank_grows(run: Run, i: int, j: int)
    requires
        run.wf(),
        0 <= i <= j <= run.events.len(),
    ensures
        rank(run.stages[i]) <= rank(run.stages[j]),
    decreases j - i,
{
    if i < j {
        lemma_rank_grows(run, i, j - 1);
        let e = run.events[j - 1];
    }
}

proof fn lemma_capturing(run: Run, i: int) -> (j: int)
    requires
        run.wf(),
        0 <= i <= run.events.len(),
        run.stages[i] == StageView::Capturing,
    ensures
        0 <= j < i,
        run.does(j, ActionView::CaptureScreen),
    decreases i,
{
    assert(i > 0);
    let e = run.events[i - 1];
    if run.stages[i - 1] == StageView::Capturing {
        lemma_capturing(run, i - 1)
    } else {
        assert(run.at(i - 1).1[0] == ActionView::CaptureScreen);
        i - 1
    }
}

proof fn lemma_selecting(run: Run, i: int, shot: ShotView) -> (j: int)
    requires
        run.wf(),
        0 <= i <= run.events.len(),
        run.stages[i] == StageView::Selecting(shot),
    ensures
        0 <= j < i,
        run.stages[j] == StageView::Capturing,
        run.events[j] == EventView::Captured(shot),
    decreases i,
{
    assert(i > 0);
    let e = run.events[i - 1];
    if run.stages[i - 1] == StageView::Selecting(shot) {
        lemma_selecting(run, i - 1, shot)
    } else {
        i - 1
    }
}

/// The screen is captured at most once, whatever happens.
pub proof fn law_screen_is_captured_once(run: Run, i: int, j: int)
    requires
        run.wf(),
        run.does(i, ActionView::CaptureScreen),
        run.does(j, ActionView::CaptureScreen),
    ensures
        i == j,
{
    if i < j {
        let e = run.events[i];
        lemma_rank_grows(run, i + 1, j);
    } else if j < i {
        let e = run.events[j];
        lemma_rank_grows(run, j + 1, i);
    }
}

/// The screenshot of which a selection is cut out is the one that the single capture of the
/// screen gave: at event `i` the screen was to be captured, at event `j` the screenshot came, and
/// it is the one that the user selects on at event `k`.
pub proof fn law_selection_is_cut_out_of_the_one_capture(run: Run, k: int, png: Seq<u8>)
    requires
        run.wf(),
        run.selects(k, png),
    ensures
        exists|i: int, j: int|
            0 <= i < j < k && #[trigger] run.does(i, ActionView::CaptureScreen)
                && #[trigger] run.events[j] == EventView::Captured(run.stages[k]->Selecting_0),
{
    let shot = run.stages[k]->Selecting_0;
    let j = lemma_selecting(run, k, shot);
    let i = lemma_capturing(run, j);
    assert(run.does(i, ActionView::CaptureScreen));
    assert(run.events[j] == EventView::Captured(shot));
}

/// A capture that was told to wind down asks the model nothing and shows no selection and no
/// result, whatever happens to it.
pub proof fn law_cancelled_capture_shows_nothing(
    flow: Flow,
    stage: StageView,
    event: EventView,
    i: int,
)
    requires
        0 <= i < after(flow, stage, event, true).1.len(),
    ensures
        ({
            let action = after(flow, stage, event, true).1[i];
            &&& action !is Translate
            &&& action !is ShowBusy
            &&& action !is EmitThinking
            &&& action !is EmitLoaded
            &&& action !is Stash
            &&& action !is ShowInk
        }),
{
}

/// A capture for handwriting asks the model nothing.
pub proof fn law_ink_capture_asks_nothing(run: Run, i: int, png: Seq<u8>)
    requires
        run.wf(),
        run.flow == Flow::Ink,
    ensures
        !run.does(i, ActionView::Translate(png)),
{
    if run.does(i, ActionView::Translate(png)) {
        assert(run.stages[i] == StageView::ShowingBusy(png));
        let j = lemma_showing(run, i, png);
    }
}

/// A capture ends once: the end is the last thing that is done, and nothing is done after it.
pub proof fn law_capture_ends_once(
    flow: Flow,
    stage: StageView,
    event: EventView,
    cancelled: bool,
    i: int,
)
    requires
        0 <= i < after(flow, stage, event, cancelled).1.len(),
    ensures
        after(flow, stage, event, cancelled).1[i] is Finish ==> {
            &&& i == after(flow, stage, event, cancelled).1.len() - 1
            &&& after(flow, stage, event, cancelled).0 == StageView::Done
        },
        stage != StageView::Done,
{
}

/// What is cut out of a screenshot is the selected rectangle: byte `k` of the pixel in column `c`
/// of row `r` of it is byte `k` of the screenshot's pixel that many columns and rows from the
/// rectangle's corner.
pub proof fn law_cut_out_is_the_selected_part(
    shot: ShotView,
    rect: CaptureRect,
    c: int,
    r: int,
    k: int,
)
    requires
        rect.x + rect.width <= shot.width,
        rect.y + rect.height <= shot.height,
        shot.width * shot.height * 4 <= shot.rgba.len(),
        0 <= c < rect.width,
        0 <= r < rect.height,
        0 <= k < 4,
    ensures
        cut_out(shot, rect).len() == rect.width * rect.height * 4,
        0 <= (r * rect.width + c) * 4 + k < cut_out(shot, rect).len(),
        cut_out(shot, rect)[(r * rect.width + c) * 4 + k] == shot.rgba[((rect.y + r) * shot.width
            + rect.x + c) * 4 + k],
{
    crate::capture::law_crop_has_the_size_of_its_rectangle(
        shot.rgba,
        shot.width as int,
        shot.height as int,
        rect.x as int,
        rect.y as int,
        rect.width as int,
        rect.height as nat,
    );
    crate::capture::law_crop_keeps_every_pixel(
        shot.rgba,
        shot.width as int,
        shot.height as int,
        rect.x as int,
        rect.y as int,
        rect.width as int,
        rect.height as nat,
        c,
        r,
        k,
    );
}

/// `part` holds, pixel by pixel, the rectangle of the screenshot.
pub open spec fn holds_part(part: Seq<u8>, shot: ShotView, rect: CaptureRect) -> bool {
    &&& part.len() == rect.width * rect.height * 4
    &&& forall|c: int, r: int, k: int|
        #![trigger part[(r * rect.width + c) * 4 + k]]
        0 <= c < rect.width && 0 <= r < rect.height && 0 <= k < 4 ==> part[(r * rect.width + c) * 4
            + k] == shot.rgba[((rect.y + r) * shot.width + rect.x + c) * 4 + k]
}

/// Every byte of a picture belongs to one byte of the pixel of one column of one row.
proof fn lemma_byte_belongs_to_a_pixel(w: int, h: int, i: int) -> (at: (int, int, int))
    requires
        0 < w,
        0 <= i < w * h * 4,
    ensures
        0 <= at.0 < w,
        0 <= at.1 < h,
        0 <= at.2 < 4,
        i == (at.1 * w + at.0) * 4 + at.2,
{
    let p = i / 4;
    let r = p / w;
    let c = p % w;
    vstd::arithmetic::div_mod::lemma_fundamental_div_mod(p, w);
    vstd::arithmetic::div_mod::lemma_mod_bound(p, w);
    assert(p == r * w + c) by (nonlinear_arith)
        requires
            p == w * r + c,
    ;
    assert(0 <= r < h) by (nonlinear_arith)
        requires
            p == r * w + c,
            0 <= c < w,
            0 <= p < w * h,
            0 < w,
    ;
    (c, r, i % 4)
}

/// What the user is shown and the model is sent of a selection inside the screenshot is what the
/// encoder makes of the selected pixels, in the selection's size; its error is passed on word for
/// word.
pub proof fn law_selection_is_encoded_as_it_is(shot: ShotView, rect: CaptureRect, part: Seq<u8>)
    requires
        0 < rect.width,
        0 < rect.height,
        rect.x + rect.width <= shot.width,
        rect.y + rect.height <= shot.height,
        shot.width * shot.height * 4 <= shot.rgba.len(),
        rect.width * rect.height * 4 <= usize::MAX,
        holds_part(part, shot, rect),
    ensures
        match crate::capture::png_file(part, rect.width, rect.height) {
            Ok(file) => snipped(shot, rect) == Ok::<Seq<u8>, ErrorView>(file),
            Err(e) => snipped(shot, rect) == Err::<Seq<u8>, ErrorView>(
                ErrorView::Capture("PNG encode error: "@ + e),
            ),
        },
{
    let cut = cut_out(shot, rect);
    law_cut_out_is_the_selected_part(shot, rect, 0, 0, 0);
    assert forall|i: int| 0 <= i < part.len() implies part[i] == cut[i] by {
        let (c, r, k) = lemma_byte_belongs_to_a_pixel(rect.width as int, rect.height as int, i);
        law_cut_out_is_the_selected_part(shot, rect, c, r, k);
        assert(part[(r * rect.width + c) * 4 + k] == shot.rgba[((rect.y + r) * shot.width + rect.x
            + c) * 4 + k]);
    }
    assert(part =~= cut);
    assert(rect.width <= rect.width * rect.height) by (nonlinear_arith)
        requires
            0 <= rect.width,
            1 <= rect.height,
    ;
}

/// A capture that nobody breaks off looks for the monitor, captures the screen and starts the
/// overlay on what it captured, one after the other.
pub proof fn law_capture_leads_to_the_overlay(flow: Flow, shot: ShotView)
    ensures
        after(flow, StageView::Start, EventView::Started, false) == (
            StageView::FindingMonitor,
            seq![ActionView::FindMonitor],
        ),
        after(flow, StageView::FindingMonitor, EventView::MonitorFound, false) == (
            StageView::Capturing,
            seq![ActionView::CaptureScreen],
        ),
        after(flow, StageView::Capturing, EventView::Captured(shot), false) == (
            StageView::Selecting(shot),
            seq![ActionView::StartOverlay(shot)],
        ),
{
}

/// A capture that was told to wind down ends without a word before anything is shown. Between the
/// screenshot and the overlay only a capture for handwriting looks whether it was told.
pub proof fn law_cancelled_capture_ends_quietly(
    flow: Flow,
    shot: ShotView,
    report: Option<CaptureEvent>,
    image_base64: Seq<char>,
    text: Seq<char>,
    thought: bool,
)
    ensures
        ({
            let quiet = (StageView::Done, seq![ActionView::Finish(Ok(()))]);
            &&& after(flow, StageView::Start, EventView::Started, true) == quiet
            &&& after(flow, StageView::FindingMonitor, EventView::MonitorFound, true) == quiet
            &&& after(Flow::Ink, StageView::Capturing, EventView::Captured(shot), true) == quiet
            &&& after(Flow::Translate, StageView::Capturing, EventView::Captured(shot), true)
                == after(Flow::Translate, StageView::Capturing, EventView::Captured(shot), false)
            &&& after(flow, StageView::Selecting(shot), EventView::OverlayClosed(report), true)
                == quiet
            &&& after(
                flow,
                StageView::Translating(image_base64),
                EventView::Translated(Ok((text, thought))),
                true,
            ) == quiet
        }),
{
}

/// An overlay that closes without a selection ends the capture without a word.
pub proof fn law_no_selection_ends_quietly(flow: Flow, shot: ShotView, cancelled: bool)
    ensures
        after(flow, StageView::Selecting(shot), EventView::OverlayClosed(None), cancelled) == (
            StageView::Done,
            seq![ActionView::Finish(Ok(()))],
        ),
        after(
            flow,
            StageView::Selecting(shot),
            EventView::OverlayClosed(Some(CaptureEvent::Cancelled)),
            cancelled,
        ) == (StageView::Done, seq![ActionView::Finish(Ok(()))]),
{
}

/// What goes wrong on the way to the overlay ends the capture with an error, told to wind down or
/// not: the shell's own as it is, and a broken task with words for what it was doing.
pub proof fn law_failures_end_the_capture(
    flow: Flow,
    error: Seq<char>,
    e: ErrorView,
    cancelled: bool,
)
    ensures
        after(flow, StageView::FindingMonitor, EventView::Failed(e), cancelled) == (
            StageView::Done,
            seq![ActionView::Finish(Err(e))],
        ),
        after(flow, StageView::Capturing, EventView::Failed(e), cancelled) == (
            StageView::Done,
            seq![ActionView::Finish(Err(e))],
        ),
        after(flow, StageView::FindingMonitor, EventView::TaskFailed(error), cancelled) == (
            StageView::Done,
            seq![ActionView::Finish(Err(ErrorView::Capture("find monitor: "@ + error)))],
        ),
        after(flow, StageView::Capturing, EventView::TaskFailed(error), cancelled) == (
            StageView::Done,
            seq![ActionView::Finish(Err(ErrorView::Capture("capture task: "@ + error)))],
        ),
{
}

/// A selection that was reported goes on as the very rectangle that was reported: to the result
/// window where it is to be translated, and kept and to the handwriting window where a question
/// is to follow. A selection that cannot be encoded ends the capture.
pub proof fn law_selection_goes_on(
    flow: Flow,
    shot: ShotView,
    x: u32,
    y: u32,
    w: u32,
    h: u32,
)
    ensures
        ({
            let (stage, actions) = after(
                flow,
                StageView::Selecting(shot),
                EventView::OverlayClosed(Some(CaptureEvent::Selection { x, y, w, h })),
                false,
            );
            match snipped(shot, CaptureRect { x, y, width: w, height: h }) {
                Err(e) => stage == StageView::Done && actions == seq![ActionView::Finish(Err(e))],
                Ok(png) => {
                    &&& is_encodable(png.len()) && flow == Flow::Translate ==> stage
                        == StageView::ShowingBusy(png) && actions == seq![
                        ActionView::ShowBusy(base64(png)),
                    ]
                    &&& is_encodable(png.len()) && flow == Flow::Ink ==> stage
                        == StageView::Delivering && actions == seq![
                        ActionView::Stash(base64(png)),
                        ActionView::ShowInk(base64(png), shot.monitor),
                    ]
                    &&& !is_encodable(png.len()) ==> stage == StageView::Done && actions == seq![
                        ActionView::TooLarge,
                    ]
                },
            }
        }),
{
}

/// Once the result window is up the model is asked about the picture in it, unless the capture was
/// told to wind down: then the window says so and that is all.
pub proof fn law_window_is_followed_by_the_model(flow: Flow, png: Seq<u8>)
    ensures
        after(flow, StageView::ShowingBusy(png), EventView::BusyShown, false) == (
            StageView::Translating(base64(png)),
            seq![ActionView::Translate(png)],
        ),
        after(flow, StageView::ShowingBusy(png), EventView::BusyShown, true) == (
            StageView::Done,
            seq![ActionView::EmitError("已取消"@), ActionView::Finish(Ok(()))],
        ),
{
}

/// The model's text is shown word for word beside the picture, after a word that it reasoned where
/// it did. An error is shown with its kind and passed on, except that a call that was broken off
/// is shown as that and is no error.
pub proof fn law_answer_is_shown_word_for_word(
    flow: Flow,
    image_base64: Seq<char>,
    text: Seq<char>,
    e: ErrorView,
    cancelled: bool,
)
    ensures
        after(
            flow,
            StageView::Translating(image_base64),
            EventView::Translated(Ok((text, false))),
            false,
        ) == (StageView::Delivering, seq![ActionView::EmitLoaded { text, image_base64 }]),
        after(
            flow,
            StageView::Translating(image_base64),
            EventView::Translated(Ok((text, true))),
            false,
        ) == (
            StageView::Delivering,
            seq![ActionView::EmitThinking, ActionView::EmitLoaded { text, image_base64 }],
        ),
        e == ErrorView::Capture("cancelled"@) ==> after(
            flow,
            StageView::Translating(image_base64),
            EventView::Translated(Err(e)),
            cancelled,
        ) == (
            StageView::Done,
            seq![ActionView::EmitError("已取消"@), ActionView::Finish(Ok(()))],
        ),
        e != ErrorView::Capture("cancelled"@) ==> after(
            flow,
            StageView::Translating(image_base64),
            EventView::Translated(Err(e)),
            cancelled,
        ) == (
            StageView::Done,
            seq![ActionView::EmitError(e.message()), ActionView::Finish(Err(e))],
        ),
{
}

/// The capture ends with what handing over its result came to.
pub proof fn law_delivery_ends_the_capture(
    flow: Flow,
    result: Result<(), ErrorView>,
    cancelled: bool,
)
    ensures
        after(flow, StageView::Delivering, EventView::Delivered(result), cancelled) == (
            StageView::Done,
            seq![ActionView::Finish(result)],
        ),
{
}

/// `event` is one that a capture in `stage` waits for.
pub open spec fn awaits(stage: StageView, event: EventView) -> bool {
    match stage {
        StageView::Start => event is Started,
        StageView::FindingMonitor => event is MonitorFound || event is TaskFailed || event
            is Failed,
        StageView::Capturing => event is Captured || event is TaskFailed || event is Failed,
        StageView::Selecting(_) => event is OverlayClosed,
        StageView::ShowingBusy(_) => event is BusyShown,
        StageView::Translating(_) => event is Translated,
        StageView::Delivering => event is Delivered,
        StageView::Done => false,
    }
}

/// A capture goes on with every event that it waits for, and with no other.
pub proof fn law_stray_events_change_nothing(
    flow: Flow,
    stage: StageView,
    event: EventView,
    cancelled: bool,
)
    ensures
        awaits(stage, event) <==> after(flow, stage, event, cancelled).1.len() > 0,
        !awaits(stage, event) ==> after(flow, stage, event, cancelled).0 == stage,
        awaits(stage, event) ==> after(flow, stage, event, cancelled).0 != stage,
{
}

/// Beginning a capture and ending one leave every other capture as it was, but for the one that
/// is interrupted.
pub proof fn law_other_captures_are_left_alone(slot: SlotView, id: u64, other: u64)
    requires
        slot.wf(),
        slot.next < u64::MAX,
        slot.running.contains_key(other),
        other != id,
    ensures
        slot.begun().running.contains_key(other),
        slot.begun().next == slot.next + 1,
        slot.begun().is_cancelled(other),
        slot.finished(id).running.contains_key(other),
        slot.finished(id).is_cancelled(other) == slot.is_cancelled(other),
        slot.finished(id).next == slot.next,
        !slot.finished(id).running.contains_key(id),
{
}

/// An action is what its view says down to the last byte: a view fits one kind of action, and of
/// that kind the ones that carry its very texts, bytes and numbers.
pub proof fn law_actions_carry_what_they_show(
    text: String,
    bytes: Vec<u8>,
    result: TranslateResult,
    rgba: Arc<Vec<u8>>,
    img_w: u32,
    img_h: u32,
    monitor_x: i32,
    monitor_y: i32,
    monitor: MonitorInfo,
    ended: AppResult<()>,
    view: ActionView,
)
    ensures
        shows(
            PipelineAction::StartOverlay(
                CaptureCommand::StartCapture { rgba, img_w, img_h, monitor_x, monitor_y },
            ),
            view,
        ) <==> view is StartOverlay && view->StartOverlay_0.rgba == rgba@
            && view->StartOverlay_0.width == img_w && view->StartOverlay_0.height == img_h
            && view->StartOverlay_0.monitor.x == monitor_x && view->StartOverlay_0.monitor.y
            == monitor_y,
        shows(PipelineAction::ShowBusy { image_base64: text }, view) <==> view
            == ActionView::ShowBusy(text@),
        shows(PipelineAction::Translate { png: bytes }, view) <==> view == ActionView::Translate(
            bytes@,
        ),
        shows(PipelineAction::EmitError { message: text }, view) <==> view
            == ActionView::EmitError(text@),
        shows(PipelineAction::EmitThinking, view) <==> view == ActionView::EmitThinking,
        shows(PipelineAction::EmitLoaded(result), view) <==> view == (ActionView::EmitLoaded {
            text: result.text@,
            image_base64: result.image_base64@,
        }),
        shows(PipelineAction::Stash { png_b64: text }, view) <==> view == ActionView::Stash(text@),
        shows(PipelineAction::ShowInk { image_base64: text, monitor }, view) <==> view
            == ActionView::ShowInk(text@, monitor),
        shows(PipelineAction::FindMonitor, view) <==> view == ActionView::FindMonitor,
        shows(PipelineAction::CaptureScreen, view) <==> view == ActionView::CaptureScreen,
        shows(PipelineAction::TooLarge, view) <==> view == ActionView::TooLarge,
        shows(PipelineAction::Finish(ended), view) <==> view == ActionView::Finish(
            match ended {
                Ok(u) => Ok(u),
                Err(e) => Err(e@),
            },
        ),
{
}

/// Events are seen with each text, picture, number and result in its place.
pub proof fn law_events_are_seen_as_they_are(
    shot: Screenshot,
    text: String,
    e: AppError,
    report: Option<CaptureEvent>,
    thought: bool,
)
    ensures
        shot@.rgba == shot.rgba@,
        shot@.width == shot.width,
        shot@.height == shot.height,
        shot@.monitor == shot.monitor,
        PipelineEvent::Captured(shot)@ == EventView::Captured(shot@),
        (PipelineEvent::TaskFailed { error: text })@ == EventView::TaskFailed(text@),
        PipelineEvent::Failed(e)@ == EventView::Failed(e@),
        PipelineEvent::OverlayClosed(report)@ == EventView::OverlayClosed(report),
        PipelineEvent::Translated(Ok((text, thought)))@ == EventView::Translated(
            Ok((text@, thought)),
        ),
        PipelineEvent::Translated(Err(e))@ == EventView::Translated(Err(e@)),
        PipelineEvent::Delivered(Ok(()))@ == EventView::Delivered(Ok(())),
        PipelineEvent::Delivered(Err(e))@ == EventView::Delivered(Err(e@)),
        PipelineEvent::Started@ == EventView::Started,
        PipelineEvent::MonitorFound@ == EventView::MonitorFound,
        PipelineEvent::BusyShown@ == EventView::BusyShown,
{
}

/// What is cut out of a screenshot of which a selection reaches past the end: the rows that lie
/// inside, the first `kept` of them, in their order and byte for byte.
pub proof fn law_cut_out_keeps_the_rows_that_fit(
    shot: ShotView,
    rect: CaptureRect,
    kept: nat,
    r: int,
    j: int,
)
    requires
        kept <= rect.height,
        forall|q: int|
            0 <= q < rect.height ==> (#[trigger] crate::capture::row_fits(
                shot.rgba.len(),
                shot.width as int,
                rect.x as int,
                rect.y as int,
                rect.width as int,
                q,
            ) <==> q < kept),
        0 <= r < kept,
        0 <= j < rect.width * 4,
    ensures
        cut_out(shot, rect).len() == kept * rect.width * 4,
        0 <= r * rect.width * 4 + j < cut_out(shot, rect).len(),
        cut_out(shot, rect)[r * rect.width * 4 + j] == shot.rgba[((rect.y + r) * shot.width
            + rect.x) * 4 + j],
{
    crate::capture::law_crop_leaves_out_rows_past_the_end(
        shot.rgba,
        shot.width as int,
        rect.x as int,
        rect.y as int,
        rect.width as int,
        rect.height as nat,
        kept,
    );
    crate::capture::law_crop_keeps_the_rows_that_fit(
        shot.rgba,
        shot.width as int,
        rect.x as int,
        rect.y as int,
        rect.width as int,
        rect.height as nat,
        kept,
        r,
        j,
    );
}

/// A selection of which a row lies outside the screenshot, or that has no pixels, is no picture:
/// it ends in the encoder's error, or in the one for a buffer that is too short.
pub proof fn law_incomplete_selections_are_refused(shot: ShotView, rect: CaptureRect)
    ensures
        cut_out(shot, rect).len() < rect.width * rect.height * 4 ==> snipped(shot, rect) == Err::<
            Seq<u8>,
            ErrorView,
        >(ErrorView::Capture("invalid RGBA dimensions for PNG"@)),
        cut_out(shot, rect).len() >= rect.width * rect.height * 4 && rect.width * 4 <= usize::MAX
            ==> match crate::capture::png_file(cut_out(shot, rect), rect.width, rect.height) {
            Ok(file) => snipped(shot, rect) == Ok::<Seq<u8>, ErrorView>(file),
            Err(e) => snipped(shot, rect) == Err::<Seq<u8>, ErrorView>(
                ErrorView::Capture("PNG encode error: "@ + e),
            ),
        },
{
    crate::capture::law_encoding_passes_on_the_encoders_answer(
        cut_out(shot, rect),
        rect.width,
        rect.height,
    );
}

/// A rectangle lies inside a screenshot exactly where it has pixels, no edge of it is past the
/// screenshot's, and the screenshot has all of its bytes.
pub proof fn law_inside_is_past_no_edge(rect: CaptureRect, shot: ShotView)
    ensures
        is_inside(rect, shot) <==> {
            &&& rect.width >= 1
            &&& rect.height >= 1
            &&& rect.x + rect.width <= shot.width
            &&& rect.y + rect.height <= shot.height
            &&& shot.rgba.len() >= shot.width * shot.height * 4
        },
{
}

/// A picture and its base64 text belong together, in a size that can be handled.
pub proof fn law_snips_hold_their_own_text(s: Snip)
    ensures
        s.wf() <==> s.png_b64@ == base64(s.png@) && is_encodable(s.png@.len()),
{
}

/// Every event can be taken at every stage, but for a selection on a screenshot, which must lie
/// where its offsets are numbers of 32 bits.
pub proof fn law_only_selections_can_be_out_of_range(
    stage: StageView,
    event: EventView,
    shot: ShotView,
    x: u32,
    y: u32,
    w: u32,
    h: u32,
)
    ensures
        stage !is Selecting ==> in_range(stage, event),
        event !is OverlayClosed ==> in_range(stage, event),
        in_range(stage, EventView::OverlayClosed(None)),
        in_range(stage, EventView::OverlayClosed(Some(CaptureEvent::Cancelled))),
        in_range(
            StageView::Selecting(shot),
            EventView::OverlayClosed(Some(CaptureEvent::Selection { x, y, w, h })),
        ) <==> {
            &&& y + h < 0x1_0000_0000
            &&& w * h * 4 < 0x1_0000_0000
            &&& h == 0 || ((y + h - 1) * shot.width + x) * 4 < 0x1_0000_0000
        },
{
}

/// After a capture begins, those that run are the ones that ran and the new one; after one ends,
/// the ones that ran but for it. A capture was told to wind down where it runs and is flagged.
pub proof fn law_running_captures_are_kept_track_of(slot: SlotView, id: u64, other: u64)
    requires
        slot.wf(),
        slot.next < u64::MAX,
    ensures
        slot.begun().running.contains_key(other) <==> slot.running.contains_key(other) || other
            == slot.next,
        slot.begun().next == slot.next + 1,
        slot.begun().active == Some(slot.next),
        slot.finished(id).next == slot.next,
        slot.running.contains_key(other) && other != id ==> slot.finished(id).running[other]
            == slot.running[other],
        slot.finished(id).running.contains_key(other) <==> slot.running.contains_key(other)
            && other != id,
        slot.finished(id).active == if slot.active == Some(id) {
            None
        } else {
            slot.active
        },
        slot.finished(id).wf(),
        slot.is_cancelled(other) <==> slot.running.contains_key(other) && slot.running[other].cancel,
        slot.is_cancelled(other) <==> slot.running.contains_key(other) && slot.active != Some(
            other,
        ),
{
}

/// Actions are what their views say one by one and in their order.
pub proof fn law_actions_are_shown_in_order(actions: Seq<PipelineAction>, views: Seq<ActionView>)
    ensures
        all_show(actions, views) ==> actions.len() == views.len(),
        all_show(actions, views) ==> forall|i: int|
            0 <= i < actions.len() ==> shows(#[trigger] actions[i], views[i]),
{
}

} // verus!
