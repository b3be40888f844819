//! Captures, step by step.

use rs_sc::capture::MonitorInfo;
use rs_sc::capture_window::{CaptureCommand, CaptureEvent};
use rs_sc::encoding::encode_base64;
use rs_sc::error::AppError;
use rs_sc::models::CaptureRect;
use rs_sc::pipeline::{
    snip, ActiveCapture, CapturePipeline, CaptureSlot, Flow, PipelineAction, PipelineEvent,
    Screenshot,
};
use std::sync::Arc;

fn shot() -> Screenshot {
    Screenshot {
        rgba: Arc::new((0..10 * 8 * 4).map(|i| i as u8).collect()),
        width: 10,
        height: 8,
        monitor: MonitorInfo { x: -10, y: 5, width: 10, height: 8 },
    }
}

fn selection() -> PipelineEvent {
    PipelineEvent::OverlayClosed(Some(CaptureEvent::Selection { x: 1, y: 2, w: 6, h: 5 }))
}

fn show(actions: Vec<PipelineAction>) -> Vec<String> {
    actions
        .into_iter()
        .map(|a| match a {
            PipelineAction::FindMonitor => "find".to_string(),
            PipelineAction::CaptureScreen => "capture".to_string(),
            PipelineAction::StartOverlay(CaptureCommand::StartCapture {
                rgba,
                img_w,
                img_h,
                monitor_x,
                monitor_y,
            }) => format!("overlay {} {} {} {} {}", rgba.len(), img_w, img_h, monitor_x, monitor_y),
            PipelineAction::StartOverlay(_) => unreachable!(),
            PipelineAction::ShowBusy { image_base64 } => format!("busy {}", image_base64),
            PipelineAction::Translate { png } => format!("translate {}", encode_base64(&png)),
            PipelineAction::EmitError { message } => format!("error {}", message),
            PipelineAction::EmitThinking => "thinking".to_string(),
            PipelineAction::EmitLoaded(r) => format!("loaded {} {}", r.text, r.image_base64),
            PipelineAction::Stash { png_b64 } => format!("stash {}", png_b64),
            PipelineAction::ShowInk { image_base64, monitor } => {
                format!("ink {} {} {}", image_base64, monitor.x, monitor.y)
            }
            PipelineAction::TooLarge => "large".to_string(),
            PipelineAction::Finish(Ok(())) => "done".to_string(),
            PipelineAction::Finish(Err(e)) => format!("failed {}", e.message()),
        })
        .collect()
}

fn go(p: CapturePipeline, event: PipelineEvent, cancelled: bool) -> (CapturePipeline, Vec<String>) {
    assert!(p.accepts(&event));
    let (p, actions) = p.step(event, cancelled);
    (p, show(actions))
}

fn selecting(flow: Flow) -> CapturePipeline {
    let (p, a) = go(CapturePipeline::new(flow), PipelineEvent::Started, false);
    assert_eq!(a, vec!["find"]);
    let (p, a) = go(p, PipelineEvent::MonitorFound, false);
    assert_eq!(a, vec!["capture"]);
    let (p, a) = go(p, PipelineEvent::Captured(shot()), false);
    assert_eq!(a, vec!["overlay 320 10 8 -10 5"]);
    p
}

fn png_text() -> String {
    let s = snip(&shot(), CaptureRect { x: 1, y: 2, width: 6, height: 5 }).unwrap().unwrap();
    assert_eq!(encode_base64(&s.png), s.png_b64);
    s.png_b64
}

#[test]
fn snip_is_the_png_of_the_rectangle() {
    let s = snip(&shot(), CaptureRect { x: 1, y: 2, width: 6, height: 5 }).unwrap().unwrap();
    let back = image::load_from_memory(&s.png).unwrap().to_rgba8();
    assert_eq!((back.width(), back.height()), (6, 5));
    assert_eq!(back.into_raw(), rs_sc::capture::crop_rgba(&shot().rgba, 10, 1, 2, 6, 5));
    let off = snip(&shot(), CaptureRect { x: 0, y: 6, width: 6, height: 5 }).unwrap();
    match off {
        Err(AppError::Capture(m)) => assert_eq!(m, "invalid RGBA dimensions for PNG"),
        _ => unreachable!(),
    }
}

#[test]
fn translation_shows_the_window_before_it_asks() {
    let b64 = png_text();
    let (p, a) = go(selecting(Flow::Translate), selection(), false);
    assert_eq!(a, vec![format!("busy {}", b64)]);
    let (p, a) = go(p, PipelineEvent::BusyShown, false);
    assert_eq!(a, vec![format!("translate {}", b64)]);
    let (p, a) = go(p, PipelineEvent::Translated(Ok(("hi".to_string(), true))), false);
    assert_eq!(a, vec!["thinking".to_string(), format!("loaded hi {}", b64)]);
    let (mut p, a) = go(p, PipelineEvent::Delivered(Ok(())), false);
    assert_eq!(a, vec!["done"]);
    for event in [PipelineEvent::Started, PipelineEvent::BusyShown, selection()] {
        let (done, a) = go(p, event, false);
        assert!(a.is_empty());
        p = done;
    }
}

#[test]
fn thinking_is_mentioned_only_where_there_was_some() {
    let (p, _) = go(selecting(Flow::Translate), selection(), false);
    let (p, _) = go(p, PipelineEvent::BusyShown, false);
    let (_, a) = go(p, PipelineEvent::Translated(Ok(("hi".to_string(), false))), false);
    assert_eq!(a, vec![format!("loaded hi {}", png_text())]);
}

#[test]
fn handwriting_keeps_the_selection_and_asks_nothing() {
    let b64 = png_text();
    let (p, a) = go(selecting(Flow::Ink), selection(), false);
    assert_eq!(a, vec![format!("stash {}", b64), format!("ink {} -10 5", b64)]);
    let failed = PipelineEvent::Delivered(Err(AppError::Tauri("gone".to_string())));
    let (_, a) = go(p, failed, false);
    assert_eq!(a, vec!["failed Tauri error: gone"]);
}

#[test]
fn cancelled_captures_end_without_a_result() {
    let (_, a) = go(CapturePipeline::new(Flow::Translate), PipelineEvent::Started, true);
    assert_eq!(a, vec!["done"]);
    let (p, _) = go(CapturePipeline::new(Flow::Ink), PipelineEvent::Started, false);
    let (_, a) = go(p, PipelineEvent::MonitorFound, true);
    assert_eq!(a, vec!["done"]);
    let (_, a) = go(selecting(Flow::Translate), selection(), true);
    assert_eq!(a, vec!["done"]);
    let (p, _) = go(selecting(Flow::Translate), selection(), false);
    let (_, a) = go(p, PipelineEvent::BusyShown, true);
    assert_eq!(a, vec!["error 已取消", "done"]);
    let (p, _) = go(selecting(Flow::Translate), selection(), false);
    let (p, _) = go(p, PipelineEvent::BusyShown, false);
    let (_, a) = go(p, PipelineEvent::Translated(Ok(("hi".to_string(), true))), true);
    assert_eq!(a, vec!["done"]);
}

#[test]
fn only_handwriting_looks_at_the_flag_after_the_screenshot() {
    for (flow, expected) in
        [(Flow::Ink, "done"), (Flow::Translate, "overlay 320 10 8 -10 5")]
    {
        let (p, _) = go(CapturePipeline::new(flow), PipelineEvent::Started, false);
        let (p, _) = go(p, PipelineEvent::MonitorFound, false);
        let (_, a) = go(p, PipelineEvent::Captured(shot()), true);
        assert_eq!(a, vec![expected]);
    }
}

#[test]
fn overlay_without_a_selection_ends_quietly() {
    for report in [None, Some(CaptureEvent::Cancelled)] {
        let (_, a) = go(selecting(Flow::Ink), PipelineEvent::OverlayClosed(report), false);
        assert_eq!(a, vec!["done"]);
    }
}

#[test]
fn failures_are_reported_as_errors() {
    let failed = || PipelineEvent::Failed(AppError::Capture("no screen".to_string()));
    let broke = || PipelineEvent::TaskFailed { error: "x".to_string() };
    let start = || go(CapturePipeline::new(Flow::Translate), PipelineEvent::Started, false).0;
    assert_eq!(go(start(), failed(), true).1, vec!["failed capture error: no screen"]);
    assert_eq!(go(start(), broke(), false).1, vec!["failed capture error: find monitor: x"]);
    let capturing = || go(start(), PipelineEvent::MonitorFound, false).0;
    assert_eq!(go(capturing(), failed(), false).1, vec!["failed capture error: no screen"]);
    assert_eq!(go(capturing(), broke(), false).1, vec!["failed capture error: capture task: x"]);
    let off = CaptureEvent::Selection { x: 0, y: 7, w: 6, h: 6 };
    let (_, a) = go(selecting(Flow::Translate), PipelineEvent::OverlayClosed(Some(off)), false);
    assert_eq!(a, vec!["failed capture error: invalid RGBA dimensions for PNG"]);
}

#[test]
fn model_errors_are_shown_and_returned() {
    for (error, expected) in [
        (AppError::Ai("x".to_string()), vec!["error AI error: x", "failed AI error: x"]),
        (AppError::Capture("cancelled".to_string()), vec!["error 已取消", "done"]),
        (AppError::Ai("cancelled".to_string()), vec!["error AI error: cancelled", "failed AI error: cancelled"]),
    ] {
        let (p, _) = go(selecting(Flow::Translate), selection(), false);
        let (p, _) = go(p, PipelineEvent::BusyShown, false);
        assert_eq!(go(p, PipelineEvent::Translated(Err(error)), false).1, expected);
    }
}

#[test]
fn selections_out_of_range_are_told_apart() {
    let far = CaptureEvent::Selection { x: 0, y: u32::MAX, w: 9, h: 9 };
    assert!(!selecting(Flow::Ink).accepts(&PipelineEvent::OverlayClosed(Some(far))));
    assert!(selecting(Flow::Ink).accepts(&PipelineEvent::OverlayClosed(None)));
    let far = PipelineEvent::OverlayClosed(Some(far));
    let (_, actions) = selecting(Flow::Ink).step(far, true);
    assert_eq!(show(actions), vec!["done"]);
}

#[test]
fn screen_is_captured_once() {
    let (p, a) = go(selecting(Flow::Translate), PipelineEvent::MonitorFound, false);
    assert!(a.is_empty());
    let (p, a) = go(p, PipelineEvent::Captured(shot()), false);
    assert!(a.is_empty());
    let (_, a) = go(p, selection(), false);
    assert_eq!(a, vec![format!("busy {}", png_text())]);
}

#[test]
fn cancelling_is_idempotent() {
    let mut capture = ActiveCapture::new();
    assert!(!capture.cancel);
    assert!(matches!(capture.cancel(), CaptureCommand::Cancel));
    assert!(matches!(capture.cancel(), CaptureCommand::Cancel));
    assert!(capture.cancel);
}

#[test]
fn newest_capture_interrupts_the_one_before() {
    let mut slot = CaptureSlot::new();
    let (a, command) = slot.begin();
    assert!(command.is_none());
    assert!(!slot.cancelled(a));
    let (b, command) = slot.begin();
    assert!(matches!(command, Some(CaptureCommand::Cancel)));
    assert!(slot.cancelled(a));
    assert!(!slot.cancelled(b));
    let (c, _) = slot.begin();
    assert!(slot.cancelled(a) && slot.cancelled(b) && !slot.cancelled(c));
}

#[test]
fn end_of_an_interrupted_capture_is_harmless() {
    let mut slot = CaptureSlot::new();
    let (a, _) = slot.begin();
    let (b, _) = slot.begin();
    slot.finish(a);
    assert!(slot.has_room());
    assert!(!slot.cancelled(b));
    let (c, command) = slot.begin();
    assert!(command.is_some() && slot.cancelled(b));
    slot.finish(b);
    slot.finish(c);
    let (_, command) = slot.begin();
    assert!(command.is_none());
}
