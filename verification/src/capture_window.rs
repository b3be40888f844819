//! The fullscreen overlay on which the user drags a selection.
//!
//! The handler decides; a shell around it owns the window, performs the actions that the handler
//! answers with, in their order, and reports what happened as inputs.

use crate::pixels::{
    bordered, blitted, blit_pixels, copy_pixels, darken_pixels, dim_levels, dimmed_levels,
    draw_border, fill_pixels, relevelled, rgb, rgba_to_softbuffer,
};
use std::sync::Arc;
use vstd::prelude::*;

verus! {

/// What the overlay can be told to do.
pub enum CaptureCommand {
    /// Show a screenshot, dimmed, on the monitor at the given position, and let the user select.
    StartCapture {
        rgba: Arc<Vec<u8>>,
        img_w: u32,
        img_h: u32,
        monitor_x: i32,
        monitor_y: i32,
    },
    /// Close, and report the selection as cancelled.
    Close,
    /// Close without a report: whoever waits for one finds the channel closed.
    Cancel,
}

/// What the overlay reports.
#[derive(Debug, Clone, Copy, PartialEq, Eq, Structural)]
pub enum CaptureEvent {
    Selection { x: u32, y: u32, w: u32, h: u32 },
    Cancelled,
}

/// The command that opens the overlay on a screenshot.
pub fn start_capture(
    rgba: Arc<Vec<u8>>,
    img_w: u32,
    img_h: u32,
    monitor_x: i32,
    monitor_y: i32,
) -> (r: CaptureCommand)
    ensures
        r == (CaptureCommand::StartCapture { rgba, img_w, img_h, monitor_x, monitor_y }),
{
    CaptureCommand::StartCapture { rgba, img_w, img_h, monitor_x, monitor_y }
}

/// The command that closes the overlay and reports a cancelled selection.
pub fn close_capture() -> (r: CaptureCommand)
    ensures
        r == CaptureCommand::Close,
{
    CaptureCommand::Close
}

/// The command that closes the overlay without a report.
pub fn cancel_capture() -> (r: CaptureCommand)
    ensures
        r == CaptureCommand::Cancel,
{
    CaptureCommand::Cancel
}

/// A pointer position in whole pixels; a position left of or above the screen counts as zero.
#[derive(Debug, Clone, Copy, PartialEq, Eq, Structural)]
pub struct PixelPosition {
    pub x: u32,
    pub y: u32,
}

/// The smaller of two coordinates.
pub open spec fn lower(a: u32, b: u32) -> u32 {
    if a <= b {
        a
    } else {
        b
    }
}

/// How far two coordinates are apart.
pub open spec fn distance(a: u32, b: u32) -> u32 {
    if a <= b {
        (b - a) as u32
    } else {
        (a - b) as u32
    }
}

/// The rectangle that has `a` and `b` as opposite corners: left, top, width and height.
pub open spec fn corner_rect(a: PixelPosition, b: PixelPosition) -> (u32, u32, u32, u32) {
    (lower(a.x, b.x), lower(a.y, b.y), distance(a.x, b.x), distance(a.y, b.y))
}

/// The rectangle spanned by two opposite corners.
pub fn normalize_rect(a: PixelPosition, b: PixelPosition) -> (r: (u32, u32, u32, u32))
    ensures
        r == corner_rect(a, b),
{
    let (x1, x2): (u32, u32) = if a.x <= b.x {
        (a.x, b.x)
    } else {
        (b.x, a.x)
    };
    let (y1, y2): (u32, u32) = if a.y <= b.y {
        (a.y, b.y)
    } else {
        (b.y, a.y)
    };
    (x1, y1, x2 - x1, y2 - y1)
}

/// A selection in progress.
pub struct CaptureSession {
    pub img_w: u32,
    pub img_h: u32,
    pub original_pixels: Vec<u32>,
    pub darkened_pixels: Vec<u32>,
    pub drag_start: Option<PixelPosition>,
    pub selection: Option<(u32, u32, u32, u32)>,
    pub is_dragging: bool,
    pub mouse_pos: PixelPosition,
    pub surface_ready: bool,
    pub shown: bool,
}

pub enum HandlerState {
    Idle,
    Selecting(CaptureSession),
}

pub struct CaptureHandler {
    pub state: HandlerState,
}

/// What the shell is to do.
pub enum OverlayAction {
    /// Create a hidden fullscreen window on the monitor at the given position.
    OpenWindow { rgba: Arc<Vec<u8>>, img_w: u32, img_h: u32, monitor_x: i32, monitor_y: i32 },
    /// Destroy the window, if there is one, and let go of the session's channel.
    CloseWindow,
    /// Report an event to whoever started the capture.
    Send(CaptureEvent),
    /// Give the drawing surface a new size.
    ResizeSurface { width: u32, height: u32 },
    /// Ask for a redraw.
    RequestRedraw,
    /// Fetch the frame buffer and have it painted.
    Paint,
    /// Put the painted frame buffer on the screen.
    Present,
    /// Make the window visible.
    ShowWindow,
}

#[derive(Debug, Clone, Copy, PartialEq, Eq, Structural)]
pub enum PointerButton {
    Left,
    Right,
    Other,
}

#[derive(Debug, Clone, Copy, PartialEq, Eq, Structural)]
pub enum TouchStage {
    Started,
    Moved,
    Ended,
    Cancelled,
}

/// What the window reports.
#[derive(Debug, Clone, Copy, PartialEq, Eq, Structural)]
pub enum WindowInput {
    Resized { width: u32, height: u32 },
    RedrawRequested,
    Key { escape: bool, pressed: bool },
    Mouse { button: PointerButton, pressed: bool },
    CursorMoved { position: PixelPosition },
    Touch { stage: TouchStage, location: PixelPosition },
    CloseRequested,
    Other,
}

/// The overlay's next state and what the shell is to do.
pub type Reaction = (HandlerState, Seq<OverlayAction>);

/// A press of the pointer begins a drag where the pointer is.
pub open spec fn after_press(st: HandlerState) -> Reaction {
    match st {
        HandlerState::Idle => (st, seq![]),
        HandlerState::Selecting(s) => (
            HandlerState::Selecting(
                CaptureSession {
                    drag_start: Some(s.mouse_pos),
                    is_dragging: true,
                    selection: None,
                    ..s
                },
            ),
            seq![],
        ),
    }
}

/// What a drag that ends now has selected, where that is a rectangle of more than four pixels
/// each way.
pub open spec fn dragged_selection(st: HandlerState) -> Option<CaptureEvent> {
    match st {
        HandlerState::Selecting(s) => {
            let rect = match s.drag_start {
                Some(start) => Some(corner_rect(start, s.mouse_pos)),
                None => s.selection,
            };
            match rect {
                Some((x, y, w, h)) => if s.is_dragging && w > 4 && h > 4 {
                    Some(CaptureEvent::Selection { x, y, w, h })
                } else {
                    None
                },
                None => None,
            }
        },
        HandlerState::Idle => None,
    }
}

/// A release of the pointer closes the overlay and then, where a drag has selected something,
/// reports it.
pub open spec fn after_release(st: HandlerState) -> Reaction {
    match dragged_selection(st) {
        Some(event) => (
            HandlerState::Idle,
            seq![OverlayAction::CloseWindow, OverlayAction::Send(event)],
        ),
        None => (HandlerState::Idle, seq![OverlayAction::CloseWindow]),
    }
}

/// A move of the pointer is followed, and redrawn while a drag is on.
pub open spec fn after_move(st: HandlerState, position: PixelPosition) -> Reaction {
    match st {
        HandlerState::Idle => (st, seq![]),
        HandlerState::Selecting(s) => (
            HandlerState::Selecting(CaptureSession { mouse_pos: position, ..s }),
            if s.is_dragging {
                seq![OverlayAction::RequestRedraw]
            } else {
                seq![]
            },
        ),
    }
}

/// A cancel is reported where a selection was in progress; the overlay closes.
pub open spec fn after_cancel(st: HandlerState) -> Reaction {
    (
        HandlerState::Idle,
        if st is Selecting {
            seq![OverlayAction::Send(CaptureEvent::Cancelled), OverlayAction::CloseWindow]
        } else {
            seq![OverlayAction::CloseWindow]
        },
    )
}

/// A window that has got a size is resized and redrawn.
pub open spec fn after_resize(st: HandlerState, width: u32, height: u32) -> Reaction {
    match st {
        HandlerState::Selecting(s) => if width > 0 && height > 0 {
            (
                HandlerState::Selecting(CaptureSession { surface_ready: true, ..s }),
                seq![OverlayAction::ResizeSurface { width, height }, OverlayAction::RequestRedraw],
            )
        } else {
            (st, seq![])
        },
        HandlerState::Idle => (st, seq![]),
    }
}

/// Two reactions, one after the other.
pub open spec fn followed_by(first: Reaction, second: Reaction) -> Reaction {
    (second.0, first.1 + second.1)
}

/// The reaction to a window input. A pen or a finger moves and presses like the mouse; Escape,
/// the right button, a lost touch and a request to close all cancel.
pub open spec fn reaction(st: HandlerState, input: WindowInput) -> Reaction {
    match input {
        WindowInput::Resized { width, height } => after_resize(st, width, height),
        WindowInput::RedrawRequested => (
            st,
            if st is Selecting && st->Selecting_0.surface_ready {
                seq![OverlayAction::Paint]
            } else {
                seq![]
            },
        ),
        WindowInput::Key { escape, pressed } => if escape && pressed {
            after_cancel(st)
        } else {
            (st, seq![])
        },
        WindowInput::Mouse { button, pressed } => match button {
            PointerButton::Left => if pressed {
                after_press(st)
            } else {
                after_release(st)
            },
            PointerButton::Right => if pressed {
                after_cancel(st)
            } else {
                (st, seq![])
            },
            PointerButton::Other => (st, seq![]),
        },
        WindowInput::CursorMoved { position } => after_move(st, position),
        WindowInput::Touch { stage, location } => {
            let moved = after_move(st, location);
            match stage {
                TouchStage::Started => followed_by(moved, after_press(moved.0)),
                TouchStage::Moved => moved,
                TouchStage::Ended => followed_by(moved, after_release(moved.0)),
                TouchStage::Cancelled => after_cancel(st),
            }
        },
        WindowInput::CloseRequested => after_cancel(st),
        WindowInput::Other => (st, seq![]),
    }
}

/// The reaction to a command. A new capture replaces the one in progress without a report.
pub open spec fn command_reaction(st: HandlerState, command: CaptureCommand) -> Reaction {
    match command {
        CaptureCommand::StartCapture { rgba, img_w, img_h, monitor_x, monitor_y } => (
            HandlerState::Idle,
            seq![
                OverlayAction::CloseWindow,
                OverlayAction::OpenWindow { rgba, img_w, img_h, monitor_x, monitor_y },
            ],
        ),
        CaptureCommand::Close => after_cancel(st),
        CaptureCommand::Cancel => (HandlerState::Idle, seq![OverlayAction::CloseWindow]),
    }
}

impl CaptureHandler {
    /// A handler with no capture in progress.
    pub fn idle() -> (r: CaptureHandler)
        ensures
            r.state == HandlerState::Idle,
    {
        CaptureHandler { state: HandlerState::Idle }
    }

    /// Begins a drag at the pointer's position.
    pub fn handle_drag_press(&mut self) -> (actions: Vec<OverlayAction>)
        ensures
            (final(self).state, actions@) == after_press(old(self).state),
    {
        if let HandlerState::Selecting(session) = &mut self.state {
            session.drag_start = Some(session.mouse_pos);
            session.is_dragging = true;
            session.selection = None;
        }
        Vec::new()
    }

    /// Ends a drag and closes the overlay.
    pub fn handle_drag_release(&mut self) -> (actions: Vec<OverlayAction>)
        ensures
            (final(self).state, actions@) == after_release(old(self).state),
    {
        let mut event: Option<CaptureEvent> = None;
        if let HandlerState::Selecting(session) = &self.state {
            if session.is_dragging {
                let rect: Option<(u32, u32, u32, u32)> = match session.drag_start {
                    Some(start) => Some(normalize_rect(start, session.mouse_pos)),
                    None => session.selection,
                };
                if let Some((x, y, w, h)) = rect {
                    if w > 4 && h > 4 {
                        event = Some(CaptureEvent::Selection { x, y, w, h });
                    }
                }
            }
        }
        self.state = HandlerState::Idle;
        let mut actions: Vec<OverlayAction> = Vec::new();
        actions.push(OverlayAction::CloseWindow);
        if let Some(selected) = event {
            actions.push(OverlayAction::Send(selected));
        }
        proof {
            assert(actions@ =~= after_release(old(self).state).1);
        }
        actions
    }

    /// Follows the pointer.
    pub fn handle_pen_move(&mut self, position: PixelPosition) -> (actions: Vec<OverlayAction>)
        ensures
            (final(self).state, actions@) == after_move(old(self).state, position),
    {
        let mut actions: Vec<OverlayAction> = Vec::new();
        if let HandlerState::Selecting(session) = &mut self.state {
            session.mouse_pos = position;
            if session.is_dragging {
                actions.push(OverlayAction::RequestRedraw);
            }
        }
        proof {
            assert(actions@ =~= after_move(old(self).state, position).1);
        }
        actions
    }

    /// Cancels the selection in progress.
    pub fn handle_cancel(&mut self) -> (actions: Vec<OverlayAction>)
        ensures
            (final(self).state, actions@) == after_cancel(old(self).state),
    {
        let mut actions: Vec<OverlayAction> = Vec::new();
        if let HandlerState::Selecting(_) = &self.state {
            actions.push(OverlayAction::Send(CaptureEvent::Cancelled));
        }
        actions.push(OverlayAction::CloseWindow);
        self.state = HandlerState::Idle;
        proof {
            assert(actions@ =~= after_cancel(old(self).state).1);
        }
        actions
    }

    fn handle_resize(&mut self, width: u32, height: u32) -> (actions: Vec<OverlayAction>)
        ensures
            (final(self).state, actions@) == after_resize(old(self).state, width, height),
    {
        let mut actions: Vec<OverlayAction> = Vec::new();
        if let HandlerState::Selecting(session) = &mut self.state {
            if width > 0 && height > 0 {
                session.surface_ready = true;
                actions.push(OverlayAction::ResizeSurface { width, height });
                actions.push(OverlayAction::RequestRedraw);
            }
        }
        proof {
            assert(actions@ =~= after_resize(old(self).state, width, height).1);
        }
        actions
    }

    /// Reacts to a window input.
    pub fn window_event(&mut self, input: WindowInput) -> (actions: Vec<OverlayAction>)
        ensures
            (final(self).state, actions@) == reaction(old(self).state, input),
    {
        match input {
            WindowInput::Resized { width, height } => self.handle_resize(width, height),
            WindowInput::RedrawRequested => {
                let mut actions: Vec<OverlayAction> = Vec::new();
                if let HandlerState::Selecting(session) = &self.state {
                    if session.surface_ready {
                        actions.push(OverlayAction::Paint);
                    }
                }
                proof {
                    assert(actions@ =~= reaction(self.state, input).1);
                }
                actions
            },
            WindowInput::Key { escape, pressed } => if escape && pressed {
                self.handle_cancel()
            } else {
                Vec::new()
            },
            WindowInput::Mouse { button, pressed } => match button {
                PointerButton::Left => if pressed {
                    self.handle_drag_press()
                } else {
                    self.handle_drag_release()
                },
                PointerButton::Right => if pressed {
                    self.handle_cancel()
                } else {
                    Vec::new()
                },
                PointerButton::Other => Vec::new(),
            },
            WindowInput::CursorMoved { position } => self.handle_pen_move(position),
            WindowInput::Touch { stage, location } => match stage {
                TouchStage::Started => {
                    let mut actions: Vec<OverlayAction> = self.handle_pen_move(location);
                    let mut more: Vec<OverlayAction> = self.handle_drag_press();
                    actions.append(&mut more);
                    actions
                },
                TouchStage::Moved => self.handle_pen_move(location),
                TouchStage::Ended => {
                    let mut actions: Vec<OverlayAction> = self.handle_pen_move(location);
                    let mut more: Vec<OverlayAction> = self.handle_drag_release();
                    actions.append(&mut more);
                    actions
                },
                TouchStage::Cancelled => self.handle_cancel(),
            },
            WindowInput::CloseRequested => self.handle_cancel(),
            WindowInput::Other => Vec::new(),
        }
    }

    /// Reacts to a command.
    pub fn user_event(&mut self, command: CaptureCommand) -> (actions: Vec<OverlayAction>)
        ensures
            (final(self).state, actions@) == command_reaction(old(self).state, command),
    {
        match command {
            CaptureCommand::StartCapture { rgba, img_w, img_h, monitor_x, monitor_y } => {
                self.state = HandlerState::Idle;
                let mut actions: Vec<OverlayAction> = Vec::new();
                actions.push(OverlayAction::CloseWindow);
                actions.push(
                    OverlayAction::OpenWindow { rgba, img_w, img_h, monitor_x, monitor_y },
                );
                proof {
                    assert(actions@ =~= command_reaction(old(self).state, command).1);
                }
                actions
            },
            CaptureCommand::Close => self.handle_cancel(),
            CaptureCommand::Cancel => {
                self.state = HandlerState::Idle;
                let mut actions: Vec<OverlayAction> = Vec::new();
                actions.push(OverlayAction::CloseWindow);
                proof {
                    assert(actions@ =~= command_reaction(old(self).state, command).1);
                }
                actions
            },
        }
    }
}

/// The colour of the selection's border.
pub const BORDER_COLOR: u32 = 0x004A9EFF;

/// How many pixels wide the selection's border is.
pub const BORDER_LINES: u32 = 2;

/// The screenshot in the frame buffer's pixel format.
pub open spec fn packed(rgba: Seq<u8>) -> Seq<u32> {
    Seq::new(rgba.len() / 4, |i: int| rgb(rgba[4 * i], rgba[4 * i + 1], rgba[4 * i + 2]))
}

/// The screenshot as the overlay shows it outside the selection.
pub open spec fn darkened(pixels: Seq<u32>) -> Seq<u32> {
    pixels.map_values(|p: u32| relevelled(p, dimmed_levels()))
}

impl CaptureSession {
    /// A drag is on exactly while it has a starting point, and the far corner of a selection
    /// can be worked out.
    pub open spec fn wf(self) -> bool {
        &&& self.is_dragging <==> self.drag_start is Some
        &&& self.selection matches Some(rect) ==> rect.0 + rect.2 <= u32::MAX && rect.1 + rect.3
            <= u32::MAX
    }

    /// A frame buffer of `len` pixels can be painted: the picture's size can be worked out, and
    /// where the buffer has that size, so has the darkened picture.
    pub open spec fn can_paint(self, len: nat) -> bool {
        &&& self.img_w * self.img_h <= u32::MAX
        &&& len == self.img_w * self.img_h ==> self.darkened_pixels@.len() == len
    }

    /// The rectangle that is to be shown bright.
    pub open spec fn bright_rect(self) -> Option<(u32, u32, u32, u32)> {
        if self.is_dragging {
            match self.drag_start {
                Some(start) => Some(corner_rect(start, self.mouse_pos)),
                None => None,
            }
        } else {
            self.selection
        }
    }

    /// The far corner of the rectangle that is to be shown bright can be worked out.
    pub open spec fn corner_fits(self) -> bool {
        match self.bright_rect() {
            Some((x, y, w, h)) => w > 0 && h > 0 ==> x + w <= u32::MAX && y + h <= u32::MAX,
            None => true,
        }
    }

    /// What a frame buffer of `len` pixels holds once it is painted. A buffer that does not have
    /// the picture's size is blacked out. Otherwise it shows the darkened picture with the
    /// original in the bright rectangle and a border on that.
    pub open spec fn frame(self, len: nat) -> Seq<u32> {
        if len != self.img_w * self.img_h {
            Seq::new(len, |i: int| 0u32)
        } else {
            match self.bright_rect() {
                Some((x, y, w, h)) => if w > 0 && h > 0 {
                    selection_shown(
                        self.darkened_pixels@,
                        self.original_pixels@,
                        self.img_w as int,
                        self.img_h as int,
                        x as int,
                        y as int,
                        w as int,
                        h as int,
                    )
                } else {
                    self.darkened_pixels@
                },
                None => self.darkened_pixels@,
            }
        }
    }

    /// Whether the far corner of the rectangle that is to be shown bright can be worked out.
    pub fn corner_in_range(&self) -> (r: bool)
        ensures
            r == self.corner_fits(),
    {
        let rect: Option<(u32, u32, u32, u32)> = if self.is_dragging {
            match self.drag_start {
                Some(start) => Some(normalize_rect(start, self.mouse_pos)),
                None => None,
            }
        } else {
            self.selection
        };
        match rect {
            Some((x, y, w, h)) => w == 0 || h == 0 || (w <= u32::MAX - x && h <= u32::MAX - y),
            None => true,
        }
    }

    /// Whether a frame buffer of `len` pixels can be painted.
    pub fn paintable(&self, len: usize) -> (r: bool)
        ensures
            r == self.can_paint(len as nat),
    {
        proof {
            assert(0 <= self.img_w * self.img_h <= 0xFFFF_FFFF * 0xFFFF_FFFF) by (nonlinear_arith)
                requires
                    0 <= self.img_w <= 0xFFFF_FFFF,
                    0 <= self.img_h <= 0xFFFF_FFFF,
            ;
        }
        let size: u64 = self.img_w as u64 * self.img_h as u64;
        size <= u32::MAX as u64 && (len as u64 != size || self.darkened_pixels.len() == len)
    }
}

/// The darkened picture with a rectangle of the original on it, framed.
pub open spec fn selection_shown(
    dark: Seq<u32>,
    bright: Seq<u32>,
    img_w: int,
    img_h: int,
    x: int,
    y: int,
    w: int,
    h: int,
) -> Seq<u32> {
    bordered(
        blitted(dark, img_w, bright, img_w, x, y, x, y, w, h as nat),
        img_w,
        img_h,
        x,
        y,
        w,
        h,
        BORDER_COLOR,
        BORDER_LINES as int,
    )
}

impl HandlerState {
    /// The session in progress, if there is one, is consistent.
    pub open spec fn wf(self) -> bool {
        self matches HandlerState::Selecting(s) ==> s.wf()
    }
}

proof fn lemma_inside_64_bits(img_w: u32, x: u32, y: u32, w: u32, h: u32)
    requires
        x + w <= u32::MAX,
        y + h <= u32::MAX,
    ensures
        crate::pixels::blit_fits(img_w, x, y, w, h),
{
    if h > 0 {
        assert((y + h - 1) * img_w <= 0xFFFF_FFFE * 0xFFFF_FFFF) by (nonlinear_arith)
            requires
                0 <= y + h - 1 <= 0xFFFF_FFFE,
                0 <= img_w <= 0xFFFF_FFFF,
        ;
    }
}

/// The surface has got its first size.
pub open spec fn made_ready(st: HandlerState) -> HandlerState {
    match st {
        HandlerState::Idle => st,
        HandlerState::Selecting(s) => HandlerState::Selecting(
            CaptureSession { surface_ready: true, ..s },
        ),
    }
}

/// The reaction to a frame buffer of `len` pixels before the window is shown: where it has the
/// picture's size it is presented, and the window is shown.
pub open spec fn after_prepaint(st: HandlerState, len: nat) -> Reaction {
    match st {
        HandlerState::Idle => (st, seq![]),
        HandlerState::Selecting(s) => if len == s.img_w * s.img_h {
            (
                HandlerState::Selecting(CaptureSession { shown: true, ..s }),
                seq![OverlayAction::Present, OverlayAction::ShowWindow],
            )
        } else {
            (st, seq![])
        },
    }
}

/// The reaction to a frame buffer of `len` pixels: it is presented, and where it has the
/// picture's size and the window is not shown yet, the window is shown.
pub open spec fn after_paint(st: HandlerState, len: nat) -> Reaction {
    match st {
        HandlerState::Idle => (st, seq![]),
        HandlerState::Selecting(s) => {
            let fits = len == s.img_w * s.img_h;
            (
                HandlerState::Selecting(CaptureSession { shown: s.shown || fits, ..s }),
                if fits && !s.shown {
                    seq![OverlayAction::Present, OverlayAction::ShowWindow]
                } else {
                    seq![OverlayAction::Present]
                },
            )
        },
    }
}

/// Paints a frame buffer.
pub fn redraw_session(session: &CaptureSession, buffer: &mut [u32])
    requires
        session.corner_fits(),
        session.can_paint(old(buffer)@.len()),
    ensures
        final(buffer)@ == session.frame(old(buffer)@.len()),
{
    let expected: u32 = session.img_w * session.img_h;
    if buffer.len() as u64 != expected as u64 {
        fill_pixels(buffer, 0);
        return;
    }
    copy_pixels(buffer, session.darkened_pixels.as_slice());
    let rect: Option<(u32, u32, u32, u32)> = if session.is_dragging {
        match session.drag_start {
            Some(start) => Some(normalize_rect(start, session.mouse_pos)),
            None => None,
        }
    } else {
        session.selection
    };
    if let Some((x, y, w, h)) = rect {
        if w > 0 && h > 0 {
            proof {
                lemma_inside_64_bits(session.img_w, x, y, w, h);
            }
            blit_pixels(
                buffer,
                session.img_w,
                session.original_pixels.as_slice(),
                session.img_w,
                x,
                y,
                x,
                y,
                w,
                h,
            );
            draw_border(
                buffer,
                session.img_w,
                session.img_h,
                x,
                y,
                w,
                h,
                BORDER_COLOR,
                BORDER_LINES,
            );
        }
    }
}

impl CaptureHandler {
    /// Begins a session once the shell has tried to create the window. Where that failed, the
    /// capture is reported as cancelled; otherwise the surface is to take the picture's size,
    /// unless the picture is empty.
    pub fn open_window(&mut self, created: bool, rgba: &[u8], img_w: u32, img_h: u32) -> (actions:
        Vec<OverlayAction>)
        ensures
            !created ==> final(self).state == old(self).state && actions@ == seq![
                OverlayAction::Send(CaptureEvent::Cancelled),
            ],
            created ==> {
                &&& final(self).state matches HandlerState::Selecting(s)
                &&& s.img_w == img_w
                &&& s.img_h == img_h
                &&& s.original_pixels@ == packed(rgba@)
                &&& s.darkened_pixels@ == darkened(packed(rgba@))
                &&& s.drag_start is None
                &&& s.selection is None
                &&& !s.is_dragging
                &&& s.mouse_pos == (PixelPosition { x: 0, y: 0 })
                &&& !s.surface_ready
                &&& !s.shown
            },
            created ==> actions@ == if img_w > 0 && img_h > 0 {
                seq![OverlayAction::ResizeSurface { width: img_w, height: img_h }]
            } else {
                seq![]
            },
            old(self).state.wf() ==> final(self).state.wf(),
    {
        let mut actions: Vec<OverlayAction> = Vec::new();
        if !created {
            actions.push(OverlayAction::Send(CaptureEvent::Cancelled));
            return actions;
        }
        let original_pixels: Vec<u32> = rgba_to_softbuffer(rgba);
        let levels: Vec<u8> = dim_levels();
        let darkened_pixels: Vec<u32> = darken_pixels(
            original_pixels.as_slice(),
            levels.as_slice(),
        );
        proof {
            assert(original_pixels@ =~= packed(rgba@));
            assert(darkened_pixels@ =~= darkened(packed(rgba@)));
        }
        self.state = HandlerState::Selecting(
            CaptureSession {
                img_w,
                img_h,
                original_pixels,
                darkened_pixels,
                drag_start: None,
                selection: None,
                is_dragging: false,
                mouse_pos: PixelPosition { x: 0, y: 0 },
                surface_ready: false,
                shown: false,
            },
        );
        if img_w > 0 && img_h > 0 {
            actions.push(OverlayAction::ResizeSurface { width: img_w, height: img_h });
        }
        actions
    }

    /// Notes that the surface has got its first size.
    pub fn surface_resized(&mut self)
        ensures
            final(self).state == match old(self).state {
                HandlerState::Idle => HandlerState::Idle,
                HandlerState::Selecting(s) => HandlerState::Selecting(
                    CaptureSession { surface_ready: true, ..s },
                ),
            },
            final(self).state == made_ready(old(self).state),
    {
        if let HandlerState::Selecting(session) = &mut self.state {
            session.surface_ready = true;
        }
    }

    /// Paints the first frame before the window is shown, so that nothing blank is ever seen: the
    /// darkened picture, where the buffer has its size.
    pub fn prepaint(&mut self, buffer: &mut [u32]) -> (actions: Vec<OverlayAction>)
        requires
            old(self).state matches HandlerState::Selecting(s) ==> s.can_paint(
                old(buffer)@.len(),
            ),
        ensures
            (final(self).state, actions@) == after_prepaint(
                old(self).state,
                old(buffer)@.len(),
            ),
            match old(self).state {
                HandlerState::Selecting(s) => if old(buffer)@.len() == s.img_w * s.img_h {
                    &&& final(buffer)@ == s.darkened_pixels@
                    &&& final(self).state == HandlerState::Selecting(
                        CaptureSession { shown: true, ..s },
                    )
                    &&& actions@ == seq![OverlayAction::Present, OverlayAction::ShowWindow]
                } else {
                    &&& final(buffer)@ == old(buffer)@
                    &&& final(self).state == old(self).state
                    &&& actions@.len() == 0
                },
                HandlerState::Idle => {
                    &&& final(buffer)@ == old(buffer)@
                    &&& final(self).state == old(self).state
                    &&& actions@.len() == 0
                },
            },
    {
        let mut actions: Vec<OverlayAction> = Vec::new();
        if let HandlerState::Selecting(session) = &mut self.state {
            let expected: u32 = session.img_w * session.img_h;
            if buffer.len() as u64 == expected as u64 {
                copy_pixels(buffer, session.darkened_pixels.as_slice());
                session.shown = true;
                actions.push(OverlayAction::Present);
                actions.push(OverlayAction::ShowWindow);
                proof {
                    assert(actions@ =~= seq![OverlayAction::Present, OverlayAction::ShowWindow]);
                }
            }
        }
        actions
    }

    /// Paints a frame. The window is shown with the first frame that has the picture's size.
    pub fn paint(&mut self, buffer: &mut [u32]) -> (actions: Vec<OverlayAction>)
        requires
            old(self).state matches HandlerState::Selecting(s) ==> s.corner_fits() && s.can_paint(
                old(buffer)@.len(),
            ),
        ensures
            (final(self).state, actions@) == after_paint(old(self).state, old(buffer)@.len()),
            match old(self).state {
                HandlerState::Selecting(s) => {
                    let fits = old(buffer)@.len() == s.img_w * s.img_h;
                    &&& final(buffer)@ == s.frame(old(buffer)@.len())
                    &&& final(self).state == HandlerState::Selecting(
                        CaptureSession { shown: s.shown || fits, ..s },
                    )
                    &&& actions@ == if fits && !s.shown {
                        seq![OverlayAction::Present, OverlayAction::ShowWindow]
                    } else {
                        seq![OverlayAction::Present]
                    }
                },
                HandlerState::Idle => {
                    &&& final(buffer)@ == old(buffer)@
                    &&& final(self).state == old(self).state
                    &&& actions@.len() == 0
                },
            },
    {
        let mut actions: Vec<OverlayAction> = Vec::new();
        if let HandlerState::Selecting(session) = &mut self.state {
            let expected: u32 = session.img_w * session.img_h;
            let fits: bool = buffer.len() as u64 == expected as u64;
            redraw_session(session, buffer);
            actions.push(OverlayAction::Present);
            if fits && !session.shown {
                session.shown = true;
                actions.push(OverlayAction::ShowWindow);
                proof {
                    assert(actions@ =~= seq![OverlayAction::Present, OverlayAction::ShowWindow]);
                }
            } else {
                proof {
                    assert(actions@ =~= seq![OverlayAction::Present]);
                }
            }
        }
        actions
    }
}

/// The rectangle between two corners does not depend on which one the drag began at, and has
/// both of them as corners.
pub proof fn law_rectangle_spans_its_corners(a: PixelPosition, b: PixelPosition)
    ensures
        corner_rect(a, b) == corner_rect(b, a),
        ({
            let (x, y, w, h) = corner_rect(a, b);
            &&& (x == a.x && x + w == b.x) || (x == b.x && x + w == a.x)
            &&& (y == a.y && y + h == b.y) || (y == b.y && y + h == a.y)
        }),
{
}

/// No input makes a consistent session inconsistent, and a consistent session can work out what
/// it shows.
pub proof fn law_sessions_stay_consistent(st: HandlerState, input: WindowInput)
    requires
        st.wf(),
    ensures
        reaction(st, input).0.wf(),
        st matches HandlerState::Selecting(s) ==> s.corner_fits(),
{
}

/// The state after the pointer has moved along `path`.
pub open spec fn moved_along(st: HandlerState, path: Seq<PixelPosition>) -> HandlerState
    decreases path.len(),
{
    if path.len() == 0 {
        st
    } else {
        after_move(moved_along(st, path.drop_last()), path.last()).0
    }
}

proof fn lemma_moved_along(s: CaptureSession, path: Seq<PixelPosition>)
    ensures
        moved_along(HandlerState::Selecting(s), path) == HandlerState::Selecting(
            CaptureSession {
                mouse_pos: if path.len() == 0 {
                    s.mouse_pos
                } else {
                    path.last()
                },
                ..s
            },
        ),
    decreases path.len(),
{
    if path.len() > 0 {
        lemma_moved_along(s, path.drop_last());
    }
}

/// Pressing at `a`, moving along any path and releasing at `b` closes the overlay and only then
/// reports the rectangle between `a` and `b`, provided that it is more than four pixels wide and
/// high; otherwise the overlay closes without a report.
pub proof fn law_drag_reports_its_rectangle(
    s: CaptureSession,
    a: PixelPosition,
    path: Seq<PixelPosition>,
    b: PixelPosition,
)
    ensures
        ({
            let pressed = after_press(after_move(HandlerState::Selecting(s), a).0).0;
            let (x, y, w, h) = corner_rect(a, b);
            after_release(moved_along(pressed, path.push(b))) == (
                HandlerState::Idle,
                if w > 4 && h > 4 {
                    seq![
                        OverlayAction::CloseWindow,
                        OverlayAction::Send(CaptureEvent::Selection { x, y, w, h }),
                    ]
                } else {
                    seq![OverlayAction::CloseWindow]
                },
            )
        }),
{
    let start = CaptureSession {
        mouse_pos: a,
        drag_start: Some(a),
        is_dragging: true,
        selection: None,
        ..s
    };
    lemma_moved_along(start, path.push(b));
}

/// A tap (pressing and releasing in one place) closes the overlay and reports nothing.
pub proof fn law_tap_reports_nothing(s: CaptureSession, a: PixelPosition)
    ensures
        after_release(after_press(after_move(HandlerState::Selecting(s), a).0).0) == (
            HandlerState::Idle,
            seq![OverlayAction::CloseWindow],
        ),
{
}

/// How many of `actions` are reports.
pub open spec fn reports(actions: Seq<OverlayAction>) -> nat
    decreases actions.len(),
{
    if actions.len() == 0 {
        0
    } else {
        reports(actions.drop_last()) + if actions.last() is Send {
            1nat
        } else {
            0
        }
    }
}

proof fn lemma_reports_of_two(a: OverlayAction, b: OverlayAction)
    ensures
        reports(seq![]) == 0,
        reports(seq![a]) == if a is Send { 1nat } else { 0 },
        reports(seq![b]) == if b is Send { 1nat } else { 0 },
        reports(seq![a, b]) == reports(seq![a]) + reports(seq![b]),
{
    reveal_with_fuel(reports, 3);
    assert(seq![a].drop_last() =~= Seq::<OverlayAction>::empty());
    assert(seq![b].drop_last() =~= Seq::<OverlayAction>::empty());
    assert(seq![a, b].drop_last() =~= seq![a]);
}

proof fn lemma_reports_add(a: Seq<OverlayAction>, b: Seq<OverlayAction>)
    ensures
        reports(a + b) == reports(a) + reports(b),
    decreases b.len(),
{
    if b.len() == 0 {
        assert(a + b =~= a);
    } else {
        lemma_reports_add(a, b.drop_last());
        assert((a + b).drop_last() =~= a + b.drop_last());
    }
}

/// A capture is reported at most once: an input makes for at most one report, a report comes
/// only with the end of the session, and an overlay without a session reports nothing and stays
/// without one.
pub proof fn law_capture_is_reported_at_most_once(st: HandlerState, input: WindowInput)
    ensures
        reports(reaction(st, input).1) <= 1,
        reports(reaction(st, input).1) == 1 ==> reaction(st, input).0 == HandlerState::Idle,
        st == HandlerState::Idle ==> reaction(st, input).0 == HandlerState::Idle && reports(
            reaction(st, input).1,
        ) == 0,
{
    let close = OverlayAction::CloseWindow;
    let cancelled = OverlayAction::Send(CaptureEvent::Cancelled);
    lemma_reports_of_two(cancelled, close);
    lemma_reports_of_two(close, cancelled);
    lemma_reports_of_two(OverlayAction::RequestRedraw, close);
    lemma_reports_of_two(OverlayAction::Paint, close);
    if let WindowInput::Resized { width, height } = input {
        lemma_reports_of_two(
            OverlayAction::ResizeSurface { width, height },
            OverlayAction::RequestRedraw,
        );
    }
    if let Some(event) = dragged_selection(st) {
        lemma_reports_of_two(close, OverlayAction::Send(event));
    }
    if let WindowInput::Touch { stage, location } = input {
        let moved = after_move(st, location);
        if let Some(event) = dragged_selection(moved.0) {
            lemma_reports_of_two(close, OverlayAction::Send(event));
        }
        lemma_reports_add(moved.1, after_release(moved.0).1);
        lemma_reports_add(moved.1, after_press(moved.0).1);
    }
}

/// Every input that ends a session has the window closed.
pub proof fn law_overlay_never_lingers(st: HandlerState, input: WindowInput)
    requires
        st is Selecting,
        reaction(st, input).0 == HandlerState::Idle,
    ensures
        reaction(st, input).1.contains(OverlayAction::CloseWindow),
{
    let close = OverlayAction::CloseWindow;
    let actions = reaction(st, input).1;
    if let WindowInput::Touch { stage, location } = input {
        let moved = after_move(st, location);
        if stage == TouchStage::Ended {
            let k = moved.1.len() as int;
            assert(actions[k] == close);
        } else {
            assert(actions[1] == close);
        }
    } else if input == (WindowInput::Mouse { button: PointerButton::Left, pressed: false }) {
        assert(actions[0] == close);
    } else {
        assert(actions[1] == close);
    }
}

/// A pen or a finger draws like the mouse: putting it down is moving there and pressing, lifting
/// it is moving there and releasing.
pub proof fn law_pen_draws_like_the_mouse(st: HandlerState, location: PixelPosition)
    ensures
        ({
            let moved = reaction(st, WindowInput::CursorMoved { position: location });
            let left = PointerButton::Left;
            &&& reaction(st, WindowInput::Touch { stage: TouchStage::Moved, location }) == moved
            &&& reaction(st, WindowInput::Touch { stage: TouchStage::Started, location })
                == followed_by(
                moved,
                reaction(moved.0, WindowInput::Mouse { button: left, pressed: true }),
            )
            &&& reaction(st, WindowInput::Touch { stage: TouchStage::Ended, location })
                == followed_by(
                moved,
                reaction(moved.0, WindowInput::Mouse { button: left, pressed: false }),
            )
        }),
{
}

/// With a selection inside the picture, a painted frame shows, in column `c` of row `r`: the
/// border colour on the selection's edge, the original inside it and the darkened picture
/// everywhere else.
pub proof fn law_frame_shows_the_selection(
    dark: Seq<u32>,
    bright: Seq<u32>,
    img_w: int,
    img_h: int,
    x: int,
    y: int,
    w: int,
    h: int,
    c: int,
    r: int,
)
    requires
        0 <= x,
        0 <= y,
        BORDER_LINES <= w,
        BORDER_LINES <= h,
        x + w <= img_w,
        y + h <= img_h,
        0 <= c < img_w,
        0 <= r < img_h,
        dark.len() == img_w * img_h,
        bright.len() == img_w * img_h,
    ensures
        selection_shown(dark, bright, img_w, img_h, x, y, w, h)[r * img_w + c]
            == if crate::pixels::in_frame(x, y, w, h, BORDER_LINES as int, c, r) {
            BORDER_COLOR
        } else if x <= c < x + w && y <= r < y + h {
            bright[r * img_w + c]
        } else {
            dark[r * img_w + c]
        },
{
    assert(0 <= r * img_w) by (nonlinear_arith)
        requires
            0 <= r,
            0 <= img_w,
    ;
    assert(r * img_w + img_w <= img_w * img_h) by (nonlinear_arith)
        requires
            r + 1 <= img_h,
            0 <= img_w,
    ;
    crate::pixels::law_border_is_the_inner_frame(
        img_w,
        img_h,
        x,
        y,
        w,
        h,
        BORDER_LINES as int,
        c,
        r,
    );
    crate::pixels::law_blit_copies_the_rectangle(
        dark,
        img_w,
        bright,
        img_w,
        x,
        y,
        x,
        y,
        w,
        h as nat,
        c,
        r,
    );
}

/// A session whose surface is ready is painted whenever a redraw is asked for, dragging or not;
/// before that, and without a session, a redraw does nothing. A redraw changes nothing.
pub proof fn law_redraw_paints(st: HandlerState)
    ensures
        ({
            let (next, actions) = reaction(st, WindowInput::RedrawRequested);
            &&& next == st
            &&& st is Selecting && st->Selecting_0.surface_ready ==> actions == seq![
                OverlayAction::Paint,
            ]
            &&& st is Idle || !st->Selecting_0.surface_ready ==> actions.len() == 0
        }),
{
}

/// Two sessions over the same picture, with the same pointer and window.
pub open spec fn same_picture(a: CaptureSession, b: CaptureSession) -> bool {
    &&& a.img_w == b.img_w
    &&& a.img_h == b.img_h
    &&& a.original_pixels == b.original_pixels
    &&& a.darkened_pixels == b.darkened_pixels
    &&& a.shown == b.shown
}

/// Pressing the left button begins a drag where the pointer is, whatever was going on before, and
/// touches nothing else.
pub proof fn law_press_begins_a_drag(s: CaptureSession)
    ensures
        ({
            let (next, actions) = reaction(
                HandlerState::Selecting(s),
                WindowInput::Mouse { button: PointerButton::Left, pressed: true },
            );
            &&& actions.len() == 0
            &&& next matches HandlerState::Selecting(after)
            &&& after.is_dragging
            &&& after.drag_start == Some(s.mouse_pos)
            &&& after.selection is None
            &&& after.mouse_pos == s.mouse_pos
            &&& after.surface_ready == s.surface_ready
            &&& same_picture(after, s)
        }),
{
}

/// Moving the pointer is followed to the pixel, and redrawn exactly while a drag is on; it neither
/// begins nor ends anything.
pub proof fn law_move_is_followed(s: CaptureSession, position: PixelPosition)
    ensures
        ({
            let (next, actions) = reaction(
                HandlerState::Selecting(s),
                WindowInput::CursorMoved { position },
            );
            &&& s.is_dragging ==> actions == seq![OverlayAction::RequestRedraw]
            &&& !s.is_dragging ==> actions.len() == 0
            &&& next matches HandlerState::Selecting(after)
            &&& after.mouse_pos == position
            &&& after.is_dragging == s.is_dragging
            &&& after.drag_start == s.drag_start
            &&& after.selection == s.selection
            &&& after.surface_ready == s.surface_ready
            &&& same_picture(after, s)
        }),
{
}

/// A window that has got a size makes the surface ready in that size and asks for a redraw; one
/// without a size changes nothing.
pub proof fn law_resize_makes_ready(s: CaptureSession, width: u32, height: u32)
    ensures
        ({
            let before = HandlerState::Selecting(s);
            let (next, actions) = reaction(before, WindowInput::Resized { width, height });
            &&& width == 0 || height == 0 ==> next == before && actions.len() == 0
            &&& width > 0 && height > 0 ==> {
                &&& actions == seq![
                    OverlayAction::ResizeSurface { width, height },
                    OverlayAction::RequestRedraw,
                ]
                &&& next matches HandlerState::Selecting(after)
                &&& after.surface_ready
                &&& after.mouse_pos == s.mouse_pos
                &&& after.is_dragging == s.is_dragging
                &&& after.drag_start == s.drag_start
                &&& after.selection == s.selection
                &&& same_picture(after, s)
            }
        }),
{
}

/// The inputs that cancel: Escape, the right button, a touch that is lost, the window's close
/// button.
pub open spec fn is_cancel(input: WindowInput) -> bool {
    ||| input == (WindowInput::Key { escape: true, pressed: true })
    ||| input == (WindowInput::Mouse { button: PointerButton::Right, pressed: true })
    ||| input == WindowInput::CloseRequested
    ||| input matches WindowInput::Touch { stage, .. } && stage == TouchStage::Cancelled
}

/// Every way to cancel a session reports it as cancelled and closes the window, in this order,
/// whatever the session was doing.
pub proof fn law_every_cancel_is_reported(s: CaptureSession, input: WindowInput)
    requires
        is_cancel(input),
    ensures
        reaction(HandlerState::Selecting(s), input) == (
            HandlerState::Idle,
            seq![OverlayAction::Send(CaptureEvent::Cancelled), OverlayAction::CloseWindow],
        ),
{
}

/// Inputs that mean nothing to the overlay change nothing: keys other than a press of Escape,
/// a release of the right button, other buttons and everything else.
pub proof fn law_other_inputs_change_nothing(st: HandlerState, input: WindowInput)
    requires
        match input {
            WindowInput::Key { escape, pressed } => !escape || !pressed,
            WindowInput::Mouse { button, pressed } => button == PointerButton::Other || (button
                == PointerButton::Right && !pressed),
            WindowInput::Other => true,
            _ => false,
        },
    ensures
        reaction(st, input).0 == st,
        reaction(st, input).1.len() == 0,
{
}

/// Without a session no input opens, paints or reports anything: at most the window is closed.
pub proof fn law_idle_overlay_stays_idle(input: WindowInput, i: int)
    requires
        0 <= i < reaction(HandlerState::Idle, input).1.len(),
    ensures
        reaction(HandlerState::Idle, input).0 == HandlerState::Idle,
        reaction(HandlerState::Idle, input).1[i] == OverlayAction::CloseWindow,
{
}

/// The state after the pointer was reported at each position of `path`.
pub open spec fn followed(st: HandlerState, path: Seq<PixelPosition>) -> HandlerState
    decreases path.len(),
{
    if path.len() == 0 {
        st
    } else {
        reaction(
            followed(st, path.drop_last()),
            WindowInput::CursorMoved { position: path.last() },
        ).0
    }
}

proof fn lemma_followed(s: CaptureSession, path: Seq<PixelPosition>)
    ensures
        followed(HandlerState::Selecting(s), path) == moved_along(HandlerState::Selecting(s), path),
    decreases path.len(),
{
    if path.len() > 0 {
        lemma_followed(s, path.drop_last());
    }
}

/// A drag as the window reports it, by mouse: the pointer comes to `a`, the left button goes
/// down, the pointer wanders and comes to `b`, the button goes up. Where the rectangle between `a`
/// and `b` is more than four pixels wide and high the window closes and then the rectangle is
/// reported, otherwise the window closes and nothing is reported.
pub proof fn law_mouse_drag_selects(
    s: CaptureSession,
    a: PixelPosition,
    path: Seq<PixelPosition>,
    b: PixelPosition,
    x: u32,
    y: u32,
    w: u32,
    h: u32,
)
    requires
        x == if a.x <= b.x { a.x } else { b.x },
        y == if a.y <= b.y { a.y } else { b.y },
        w == if a.x <= b.x { b.x - a.x } else { a.x - b.x },
        h == if a.y <= b.y { b.y - a.y } else { a.y - b.y },
    ensures
        ({
            let left = PointerButton::Left;
            let at_a = reaction(
                HandlerState::Selecting(s),
                WindowInput::CursorMoved { position: a },
            ).0;
            let down = reaction(at_a, WindowInput::Mouse { button: left, pressed: true }).0;
            let at_b = followed(down, path.push(b));
            reaction(at_b, WindowInput::Mouse { button: left, pressed: false }) == (
                HandlerState::Idle,
                if w > 4 && h > 4 {
                    seq![
                        OverlayAction::CloseWindow,
                        OverlayAction::Send(CaptureEvent::Selection { x, y, w, h }),
                    ]
                } else {
                    seq![OverlayAction::CloseWindow]
                },
            )
        }),
{
    law_drag_reports_its_rectangle(s, a, path, b);
    let start = CaptureSession {
        mouse_pos: a,
        drag_start: Some(a),
        is_dragging: true,
        selection: None,
        ..s
    };
    lemma_followed(start, path.push(b));
}

/// Letting go of the button without a drag closes the window and reports nothing.
pub proof fn law_release_without_a_drag_reports_nothing(s: CaptureSession)
    requires
        !s.is_dragging,
    ensures
        reaction(
            HandlerState::Selecting(s),
            WindowInput::Mouse { button: PointerButton::Left, pressed: false },
        ) == (HandlerState::Idle, seq![OverlayAction::CloseWindow]),
{
}

/// A command to start closes what is open and opens the new screenshot on its monitor; one to
/// close reports a session as cancelled; one to cancel reports nothing. All leave no session.
pub proof fn law_commands_replace_close_and_cancel(
    st: HandlerState,
    rgba: Arc<Vec<u8>>,
    img_w: u32,
    img_h: u32,
    monitor_x: i32,
    monitor_y: i32,
)
    ensures
        command_reaction(
            st,
            CaptureCommand::StartCapture { rgba, img_w, img_h, monitor_x, monitor_y },
        ) == (
            HandlerState::Idle,
            seq![
                OverlayAction::CloseWindow,
                OverlayAction::OpenWindow { rgba, img_w, img_h, monitor_x, monitor_y },
            ],
        ),
        st is Selecting ==> command_reaction(st, CaptureCommand::Close) == (
            HandlerState::Idle,
            seq![OverlayAction::Send(CaptureEvent::Cancelled), OverlayAction::CloseWindow],
        ),
        st is Idle ==> command_reaction(st, CaptureCommand::Close) == (
            HandlerState::Idle,
            seq![OverlayAction::CloseWindow],
        ),
        command_reaction(st, CaptureCommand::Cancel) == (
            HandlerState::Idle,
            seq![OverlayAction::CloseWindow],
        ),
{
}

/// The pictures that a session holds are the screenshot's: pixel `i` of the bright one has the
/// first three bytes of its four as red, green and blue, and pixel `i` of the dark one eleven
/// twentieths of each.
pub proof fn law_session_holds_the_screenshot(rgba: Seq<u8>, i: int)
    requires
        0 <= i < rgba.len() / 4,
    ensures
        packed(rgba).len() == rgba.len() / 4,
        darkened(packed(rgba)).len() == rgba.len() / 4,
        crate::pixels::red(packed(rgba)[i]) == rgba[4 * i],
        crate::pixels::green(packed(rgba)[i]) == rgba[4 * i + 1],
        crate::pixels::blue(packed(rgba)[i]) == rgba[4 * i + 2],
        packed(rgba)[i] < 0x100_0000,
        crate::pixels::red(darkened(packed(rgba))[i]) == rgba[4 * i] as int * 11 / 20,
        crate::pixels::green(darkened(packed(rgba))[i]) == rgba[4 * i + 1] as int * 11 / 20,
        crate::pixels::blue(darkened(packed(rgba))[i]) == rgba[4 * i + 2] as int * 11 / 20,
        darkened(packed(rgba))[i] < 0x100_0000,
{
    crate::pixels::law_packing_keeps_levels(rgba[4 * i], rgba[4 * i + 1], rgba[4 * i + 2]);
    crate::pixels::law_dimming_is_level_by_level(packed(rgba)[i]);
}

/// A frame without a rectangle to show is the dark picture, and one of another size than the
/// picture is black.
pub proof fn law_frame_without_a_rectangle_is_dark(s: CaptureSession, len: nat)
    ensures
        s.frame(len).len() == len || len == s.img_w * s.img_h,
        len != s.img_w * s.img_h ==> forall|i: int|
            0 <= i < len ==> #[trigger] s.frame(len)[i] == 0,
        len == s.img_w * s.img_h && !s.is_dragging && s.selection is None ==> s.frame(len)
            == s.darkened_pixels@,
        len == s.img_w * s.img_h && !s.is_dragging ==> match s.selection {
            Some((_, _, w, h)) => w == 0 || h == 0 ==> s.frame(len) == s.darkened_pixels@,
            None => s.frame(len) == s.darkened_pixels@,
        },
        len == s.img_w * s.img_h && s.is_dragging && s.drag_start is None ==> s.frame(len)
            == s.darkened_pixels@,
        len == s.img_w * s.img_h && s.is_dragging && s.drag_start is Some && (s.drag_start->0.x
            == s.mouse_pos.x || s.drag_start->0.y == s.mouse_pos.y) ==> s.frame(len)
            == s.darkened_pixels@,
{
}

/// While a drag is on, the frame shows in column `c` of row `r` what the user is to see: the
/// border's blue within two pixels of the edge of the rectangle between the drag's start and the
/// pointer, the bright picture further inside, and the dark picture outside.
pub proof fn law_frame_follows_the_drag(
    s: CaptureSession,
    start: PixelPosition,
    x: int,
    y: int,
    x2: int,
    y2: int,
    c: int,
    r: int,
)
    requires
        s.is_dragging,
        s.drag_start == Some(start),
        x == if start.x <= s.mouse_pos.x { start.x } else { s.mouse_pos.x },
        x2 == if start.x <= s.mouse_pos.x { s.mouse_pos.x } else { start.x },
        y == if start.y <= s.mouse_pos.y { start.y } else { s.mouse_pos.y },
        y2 == if start.y <= s.mouse_pos.y { s.mouse_pos.y } else { start.y },
        x + 2 <= x2 <= s.img_w,
        y + 2 <= y2 <= s.img_h,
        0 <= c < s.img_w,
        0 <= r < s.img_h,
        s.darkened_pixels@.len() == s.img_w * s.img_h,
        s.original_pixels@.len() == s.img_w * s.img_h,
    ensures
        ({
            let pixel = s.frame((s.img_w * s.img_h) as nat)[r * s.img_w + c];
            let inside = x <= c < x2 && y <= r < y2;
            let deep = x + 2 <= c < x2 - 2 && y + 2 <= r < y2 - 2;
            &&& deep ==> pixel == s.original_pixels@[r * s.img_w + c]
            &&& inside && !deep ==> pixel == 0x4A9EFF
            &&& !inside ==> pixel == s.darkened_pixels@[r * s.img_w + c]
        }),
{
    assert(0 <= s.img_w * s.img_h) by (nonlinear_arith)
        requires
            0 <= s.img_w,
            0 <= s.img_h,
    ;
    law_frame_shows_the_selection(
        s.darkened_pixels@,
        s.original_pixels@,
        s.img_w as int,
        s.img_h as int,
        x,
        y,
        x2 - x,
        y2 - y,
        c,
        r,
    );
}

/// Letting go of the button in a drag closes the window and reports the rectangle between where
/// the drag began and the pointer, or what was selected where the drag has no beginning; a
/// rectangle of four pixels or less either way is not reported.
pub proof fn law_release_reports_what_was_dragged(
    s: CaptureSession,
    x: u32,
    y: u32,
    w: u32,
    h: u32,
)
    requires
        s.is_dragging,
        match s.drag_start {
            Some(a) => {
                &&& x == if a.x <= s.mouse_pos.x { a.x } else { s.mouse_pos.x }
                &&& y == if a.y <= s.mouse_pos.y { a.y } else { s.mouse_pos.y }
                &&& w == if a.x <= s.mouse_pos.x { s.mouse_pos.x - a.x } else { a.x - s.mouse_pos.x }
                &&& h == if a.y <= s.mouse_pos.y { s.mouse_pos.y - a.y } else { a.y - s.mouse_pos.y }
            },
            None => s.selection == Some((x, y, w, h)),
        },
    ensures
        reaction(
            HandlerState::Selecting(s),
            WindowInput::Mouse { button: PointerButton::Left, pressed: false },
        ) == (
            HandlerState::Idle,
            if w > 4 && h > 4 {
                seq![
                    OverlayAction::CloseWindow,
                    OverlayAction::Send(CaptureEvent::Selection { x, y, w, h }),
                ]
            } else {
                seq![OverlayAction::CloseWindow]
            },
        ),
{
}

/// Without a session the window is closed by every cancel and by letting go of the button or the
/// pen, and nothing is done on any other input.
pub proof fn law_idle_overlay_closes_on_cancel_and_release(input: WindowInput)
    ensures
        ({
            let released = match input {
                WindowInput::Mouse { button, pressed } => button == PointerButton::Left && !pressed,
                WindowInput::Touch { stage, .. } => stage == TouchStage::Ended,
                _ => false,
            };
            &&& is_cancel(input) || released ==> reaction(HandlerState::Idle, input) == (
                HandlerState::Idle,
                seq![OverlayAction::CloseWindow],
            )
            &&& !is_cancel(input) && !released ==> reaction(HandlerState::Idle, input) == (
                HandlerState::Idle,
                Seq::<OverlayAction>::empty(),
            )
        }),
{
}

/// Putting a pen or a finger down begins a drag right there; a drag that was on is redrawn first.
pub proof fn law_touch_begins_a_drag_where_it_is(s: CaptureSession, location: PixelPosition)
    ensures
        ({
            let (next, actions) = reaction(
                HandlerState::Selecting(s),
                WindowInput::Touch { stage: TouchStage::Started, location },
            );
            &&& s.is_dragging ==> actions == seq![OverlayAction::RequestRedraw]
            &&& !s.is_dragging ==> actions.len() == 0
            &&& next matches HandlerState::Selecting(after)
            &&& after.is_dragging
            &&& after.drag_start == Some(location)
            &&& after.mouse_pos == location
            &&& after.selection is None
            &&& after.surface_ready == s.surface_ready
            &&& same_picture(after, s)
        }),
{
}

/// Lifting the pen or the finger at `b` in a drag that began at `a` asks for a redraw, closes the
/// window and reports the rectangle between the two, unless it is four pixels or less either way.
pub proof fn law_touch_drag_selects(
    s: CaptureSession,
    a: PixelPosition,
    b: PixelPosition,
    x: u32,
    y: u32,
    w: u32,
    h: u32,
)
    requires
        s.is_dragging,
        s.drag_start == Some(a),
        x == if a.x <= b.x { a.x } else { b.x },
        y == if a.y <= b.y { a.y } else { b.y },
        w == if a.x <= b.x { b.x - a.x } else { a.x - b.x },
        h == if a.y <= b.y { b.y - a.y } else { a.y - b.y },
    ensures
        reaction(
            HandlerState::Selecting(s),
            WindowInput::Touch { stage: TouchStage::Ended, location: b },
        ) == (
            HandlerState::Idle,
            if w > 4 && h > 4 {
                seq![
                    OverlayAction::RequestRedraw,
                    OverlayAction::CloseWindow,
                    OverlayAction::Send(CaptureEvent::Selection { x, y, w, h }),
                ]
            } else {
                seq![OverlayAction::RequestRedraw, OverlayAction::CloseWindow]
            },
        ),
{
    let moved = CaptureSession { mouse_pos: b, ..s };
    assert(after_move(HandlerState::Selecting(s), b).0 == HandlerState::Selecting(moved));
    let first = seq![OverlayAction::RequestRedraw];
    assert(first + seq![OverlayAction::CloseWindow] =~= seq![
        OverlayAction::RequestRedraw,
        OverlayAction::CloseWindow,
    ]);
    let send = OverlayAction::Send(CaptureEvent::Selection { x, y, w, h });
    assert(first + seq![OverlayAction::CloseWindow, send] =~= seq![
        OverlayAction::RequestRedraw,
        OverlayAction::CloseWindow,
        send,
    ]);
}

/// Of two reactions, one after the other, the state is that of the second and the actions are
/// those of the first and then those of the second.
pub proof fn law_reactions_follow_each_other(first: Reaction, second: Reaction)
    ensures
        followed_by(first, second).0 == second.0,
        followed_by(first, second).1 == first.1 + second.1,
{
}

/// What a session shows bright: in a drag the rectangle from its start to the pointer, otherwise
/// the selection as it stands. It can be worked out wherever a far corner is a number of 32 bits,
/// which that of a drag always is.
pub proof fn law_drag_is_shown_before_the_selection(s: CaptureSession)
    ensures
        s.is_dragging && s.drag_start is Some ==> s.bright_rect() == Some(
            corner_rect(s.drag_start->0, s.mouse_pos),
        ),
        s.is_dragging && s.drag_start is None ==> s.bright_rect() is None,
        !s.is_dragging ==> s.bright_rect() == s.selection,
        s.is_dragging || s.selection is None ==> s.corner_fits(),
        !s.is_dragging && s.selection is Some ==> (s.corner_fits() <==> {
            let (x, y, w, h) = s.selection->0;
            w == 0 || h == 0 || (x + w < 0x1_0000_0000 && y + h < 0x1_0000_0000)
        }),
{
}

/// A frame can be painted exactly where the number of the picture's pixels is one of 32 bits and
/// the dark picture has as many pixels as a buffer of the picture's size.
pub proof fn law_paintable_is_what_fits(s: CaptureSession, len: nat)
    ensures
        s.can_paint(len) <==> {
            &&& s.img_w * s.img_h < 0x1_0000_0000
            &&& len != s.img_w * s.img_h || s.darkened_pixels@.len() == len
        },
{
}

/// Whatever the rectangle, also one that is thin or reaches past the picture: a frame with a
/// bright rectangle shows the border's blue on the rectangle's border, two lines wide, and
/// everywhere else the dark picture with the rectangle of the bright one copied over it.
pub proof fn law_frame_is_border_over_bright_over_dark(
    s: CaptureSession,
    x: u32,
    y: u32,
    w: u32,
    h: u32,
    i: int,
)
    requires
        s.bright_rect() == Some((x, y, w, h)),
        w > 0,
        h > 0,
        s.darkened_pixels@.len() == s.img_w * s.img_h,
        0 <= i < s.img_w * s.img_h,
    ensures
        ({
            let frame = s.frame((s.img_w * s.img_h) as nat);
            let (bw, bh) = (s.img_w as int, s.img_h as int);
            let blue = crate::pixels::on_border(
                i,
                bw,
                bh,
                x as int,
                y as int,
                w as int,
                h as int,
                2,
            );
            let copied = blitted(
                s.darkened_pixels@,
                bw,
                s.original_pixels@,
                bw,
                x as int,
                y as int,
                x as int,
                y as int,
                w as int,
                h as nat,
            );
            &&& frame.len() == s.img_w * s.img_h
            &&& blue ==> frame[i] == 0x4A9EFF
            &&& !blue ==> frame[i] == copied[i]
        }),
{
    crate::pixels::law_blit_copies_row_by_row(
        s.darkened_pixels@,
        s.img_w as int,
        s.original_pixels@,
        s.img_w as int,
        x as int,
        y as int,
        x as int,
        y as int,
        w as int,
        h as nat,
        i,
        h - 1,
    );
}

/// A session is kept but for the two flags that say whether the surface is ready and the window
/// shown.
pub open spec fn keeps_its_drag(after: CaptureSession, before: CaptureSession) -> bool {
    &&& after.img_w == before.img_w
    &&& after.img_h == before.img_h
    &&& after.original_pixels == before.original_pixels
    &&& after.darkened_pixels == before.darkened_pixels
    &&& after.drag_start == before.drag_start
    &&& after.selection == before.selection
    &&& after.is_dragging == before.is_dragging
    &&& after.mouse_pos == before.mouse_pos
}

/// The window is shown with the first frame of the picture's size, after that frame is presented,
/// and never again; every other frame is presented and that is all. Painting touches nothing of a
/// session but that it notes the window as shown.
pub proof fn law_window_is_shown_with_the_first_full_frame(
    s: CaptureSession,
    len: nat,
    next_len: nat,
)
    ensures
        ({
            let (next, actions) = after_paint(HandlerState::Selecting(s), len);
            let again = after_paint(next, next_len).1;
            &&& len == s.img_w * s.img_h && !s.shown ==> actions == seq![
                OverlayAction::Present,
                OverlayAction::ShowWindow,
            ]
            &&& len != s.img_w * s.img_h || s.shown ==> actions == seq![OverlayAction::Present]
            &&& len == s.img_w * s.img_h ==> again == seq![OverlayAction::Present]
            &&& next matches HandlerState::Selecting(after)
            &&& after.shown <==> s.shown || len == s.img_w * s.img_h
            &&& after.surface_ready == s.surface_ready
            &&& keeps_its_drag(after, s)
        }),
{
}

/// A first frame of the picture's size, painted before the window is shown, shows it, so that the
/// frames that follow are only presented; one of another size does nothing.
pub proof fn law_window_is_shown_painted(s: CaptureSession, len: nat, next_len: nat)
    ensures
        ({
            let st = HandlerState::Selecting(s);
            let (next, actions) = after_prepaint(st, len);
            &&& len != s.img_w * s.img_h ==> next == st && actions.len() == 0
            &&& len == s.img_w * s.img_h ==> {
                &&& actions == seq![OverlayAction::Present, OverlayAction::ShowWindow]
                &&& after_paint(next, next_len).1 == seq![OverlayAction::Present]
                &&& next matches HandlerState::Selecting(after)
                &&& after.shown
                &&& after.surface_ready == s.surface_ready
                &&& keeps_its_drag(after, s)
            }
        }),
{
}

/// Once the surface has its size a session is ready, so that the next redraw paints; nothing else
/// of it changes, and without a session nothing is painted.
pub proof fn law_ready_sessions_are_painted(s: CaptureSession, len: nat)
    ensures
        reaction(
            made_ready(HandlerState::Selecting(s)),
            WindowInput::RedrawRequested,
        ).1 == seq![OverlayAction::Paint],
        ({
            &&& made_ready(HandlerState::Selecting(s)) matches HandlerState::Selecting(after)
            &&& after.surface_ready
            &&& after.shown == s.shown
            &&& keeps_its_drag(after, s)
        }),
        made_ready(HandlerState::Idle) == HandlerState::Idle,
        after_paint(HandlerState::Idle, len) == (
            HandlerState::Idle,
            Seq::<OverlayAction>::empty(),
        ),
        after_prepaint(HandlerState::Idle, len) == (
            HandlerState::Idle,
            Seq::<OverlayAction>::empty(),
        ),
{
}

} // verus!
