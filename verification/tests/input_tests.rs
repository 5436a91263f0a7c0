use glim::domain::{MrNote, MrView};
use glim::event::{AtlantisAction, GlimEvent, Key, KeyPress};
use glim::id::{MrIid, PipelineId, ProjectId};
use glim::input::processor::mr_view::{InputEffect, MrViewProcessor};
use glim::input::processor::pipeline_actions::{PipelineActionsProcessor, PipelineActionsState};
use glim::ui::popup::mr_view_popup::{MrViewMode, MrViewState};

fn note(author: &str, body: &str, atlantis: bool) -> MrNote {
    MrNote { author_username: author.to_string(), body: body.to_string(), created_at: None, is_atlantis: atlantis }
}

fn mr(iid: u64, notes: Vec<MrNote>) -> MrView {
    MrView {
        iid: MrIid::new(iid),
        title: "Add feature".to_string(),
        state: "opened".to_string(),
        author_username: "ann".to_string(),
        web_url: "https://gitlab.example/mr/7".to_string(),
        notes,
    }
}

fn key(code: Key) -> GlimEvent {
    GlimEvent::InputKey(KeyPress::plain(code))
}

fn popup() -> (MrViewProcessor, Option<MrViewState>) {
    let mut p = MrViewProcessor::new(ProjectId::new(3));
    let mut s = MrViewState::new(ProjectId::new(3));
    s.set_mr(mr(7, vec![]));
    s.set_notes(vec![note("bob", "looks good", false), note("atlantis", "plan output", true)]);
    let mut ui = Some(s);
    p.apply(&GlimEvent::MrLoaded(ProjectId::new(3), mr(7, vec![])), &mut ui);
    (p, ui)
}

fn mode(ui: &Option<MrViewState>) -> MrViewMode {
    ui.as_ref().unwrap().mode
}

#[test]
fn escape_closes_the_mr_popup() {
    let (mut p, mut ui) = popup();
    let out = p.apply(&key(Key::Esc), &mut ui);
    assert!(matches!(&out[..], [InputEffect::Dispatch(GlimEvent::MrViewClose)]));
    let out = p.apply(&key(Key::Char('q')), &mut ui);
    assert!(matches!(&out[..], [InputEffect::Dispatch(GlimEvent::MrViewClose)]));
}

#[test]
fn scrolling_wraps_around_the_comments() {
    let (mut p, mut ui) = popup();
    assert_eq!(ui.as_ref().unwrap().selected, Some(0));
    p.apply(&key(Key::Char('k')), &mut ui);
    assert_eq!(ui.as_ref().unwrap().selected, Some(1));
    p.apply(&key(Key::Down), &mut ui);
    assert_eq!(ui.as_ref().unwrap().selected, Some(0));
    p.apply(&key(Key::Char('j')), &mut ui);
    assert_eq!(ui.as_ref().unwrap().selected, Some(1));
    p.apply(&key(Key::Up), &mut ui);
    assert_eq!(ui.as_ref().unwrap().selected, Some(0));
}

#[test]
fn w_opens_the_merge_request_page() {
    let (mut p, mut ui) = popup();
    let out = p.apply(&key(Key::Char('w')), &mut ui);
    assert!(matches!(&out[..], [InputEffect::OpenUrl(u)] if u == "https://gitlab.example/mr/7"));
}

#[test]
fn atlantis_commands_only_on_atlantis_comments() {
    let (mut p, mut ui) = popup();
    p.apply(&key(Key::Char('a')), &mut ui);
    assert_eq!(mode(&ui), MrViewMode::Scrolling);
    p.apply(&key(Key::Char('j')), &mut ui);
    p.apply(&key(Key::Char('a')), &mut ui);
    assert_eq!(mode(&ui), MrViewMode::AtlantisAction { note_idx: 1, selected: 0 });
    p.apply(&key(Key::Char('l')), &mut ui);
    assert_eq!(mode(&ui), MrViewMode::AtlantisAction { note_idx: 1, selected: 1 });
    let out = p.apply(&key(Key::Enter), &mut ui);
    assert!(matches!(
        &out[..],
        [InputEffect::Dispatch(GlimEvent::MrAtlantisAction(pid, iid, AtlantisAction::Apply))]
            if *pid == ProjectId::new(3) && *iid == MrIid::new(7)
    ));
    assert_eq!(mode(&ui), MrViewMode::Scrolling);
}

#[test]
fn atlantis_choice_moves_left_and_escapes() {
    let (mut p, mut ui) = popup();
    p.apply(&key(Key::Down), &mut ui);
    p.apply(&key(Key::Char('a')), &mut ui);
    p.apply(&key(Key::Right), &mut ui);
    p.apply(&key(Key::Char('h')), &mut ui);
    let out = p.apply(&key(Key::Enter), &mut ui);
    assert!(matches!(&out[..], [InputEffect::Dispatch(GlimEvent::MrAtlantisAction(_, _, AtlantisAction::Plan))]));
    p.apply(&key(Key::Char('a')), &mut ui);
    let out = p.apply(&key(Key::Esc), &mut ui);
    assert!(out.is_empty());
    assert_eq!(mode(&ui), MrViewMode::Scrolling);
}

#[test]
fn composing_posts_the_comment() {
    let (mut p, mut ui) = popup();
    p.apply(&key(Key::Tab), &mut ui);
    assert_eq!(mode(&ui), MrViewMode::Composing);
    p.apply(&key(Key::Char('h')), &mut ui);
    p.apply(&key(Key::Char('i')), &mut ui);
    assert_eq!(ui.as_ref().unwrap().comment(), "hi");
    let out = p.apply(&key(Key::Enter), &mut ui);
    assert!(matches!(&out[..], [InputEffect::Dispatch(GlimEvent::MrNotePost(_, iid, body))] if *iid == MrIid::new(7) && body == "hi"));
    assert_eq!(mode(&ui), MrViewMode::Scrolling);
    assert_eq!(ui.as_ref().unwrap().comment(), "");
}

#[test]
fn empty_comment_is_not_posted() {
    let (mut p, mut ui) = popup();
    p.apply(&key(Key::Char('i')), &mut ui);
    let out = p.apply(&key(Key::Enter), &mut ui);
    assert!(out.is_empty());
    assert_eq!(mode(&ui), MrViewMode::Scrolling);
}

#[test]
fn escape_while_composing_keeps_the_text() {
    let (mut p, mut ui) = popup();
    p.apply(&key(Key::Tab), &mut ui);
    p.apply(&key(Key::Char('x')), &mut ui);
    let out = p.apply(&key(Key::Esc), &mut ui);
    assert!(out.is_empty());
    assert_eq!(mode(&ui), MrViewMode::Scrolling);
    assert_eq!(ui.as_ref().unwrap().comment(), "x");
}

#[test]
fn comment_is_not_posted_before_the_mr_is_known() {
    let mut p = MrViewProcessor::new(ProjectId::new(3));
    let mut s = MrViewState::new(ProjectId::new(3));
    s.mode = MrViewMode::Composing;
    let mut ui = Some(s);
    p.apply(&key(Key::Char('x')), &mut ui);
    let out = p.apply(&key(Key::Enter), &mut ui);
    assert!(out.is_empty());
}

#[test]
fn keys_without_popup_do_nothing() {
    let mut p = MrViewProcessor::new(ProjectId::new(3));
    let mut ui: Option<MrViewState> = None;
    let out = p.apply(&key(Key::Esc), &mut ui);
    assert!(out.is_empty());
    assert!(ui.is_none());
}

fn actions() -> Option<PipelineActionsState> {
    Some(PipelineActionsState {
        actions: vec![
            GlimEvent::PipelineRetry(ProjectId::new(1), PipelineId::new(2)),
            GlimEvent::PipelineCancel(ProjectId::new(1), PipelineId::new(2)),
            GlimEvent::PipelineDelete(ProjectId::new(1), PipelineId::new(2)),
        ],
        selected: Some(0),
    })
}

#[test]
fn pipeline_actions_move_and_wrap() {
    let mut p = PipelineActionsProcessor::new();
    let mut ui = actions();
    p.apply(&key(Key::Up), &mut ui);
    assert_eq!(ui.as_ref().unwrap().selected, Some(2));
    p.apply(&key(Key::Char('j')), &mut ui);
    assert_eq!(ui.as_ref().unwrap().selected, Some(0));
    p.apply(&key(Key::Down), &mut ui);
    p.apply(&key(Key::Char('j')), &mut ui);
    assert_eq!(ui.as_ref().unwrap().selected, Some(2));
    p.apply(&key(Key::Char('k')), &mut ui);
    assert_eq!(ui.as_ref().unwrap().selected, Some(1));
}

#[test]
fn pipeline_action_is_sent_after_closing() {
    let mut p = PipelineActionsProcessor::new();
    let mut ui = actions();
    p.apply(&key(Key::Down), &mut ui);
    let out = p.apply(&key(Key::Enter), &mut ui);
    assert_eq!(out.len(), 2);
    assert!(matches!(out[0], GlimEvent::PipelineActionsClose));
    assert!(matches!(out[1], GlimEvent::PipelineCancel(_, _)));
    let out = p.apply(&key(Key::Char('o')), &mut ui);
    assert!(matches!(out[1], GlimEvent::PipelineCancel(_, _)));
}

#[test]
fn pipeline_actions_close_and_capture() {
    let mut p = PipelineActionsProcessor::new();
    let mut ui = actions();
    let out = p.apply(&key(Key::Esc), &mut ui);
    assert!(matches!(&out[..], [GlimEvent::PipelineActionsClose]));
    let out = p.apply(&key(Key::Char('q')), &mut ui);
    assert!(matches!(&out[..], [GlimEvent::PipelineActionsClose]));
    let out = p.apply(&key(Key::F(12)), &mut ui);
    assert!(matches!(&out[..], [GlimEvent::ScreenCapture]));
    let out = p.apply(&key(Key::Char('z')), &mut ui);
    assert!(out.is_empty());
    let out = p.apply(&GlimEvent::AppExit, &mut ui);
    assert!(out.is_empty());
}

#[test]
fn no_highlight_sends_only_close() {
    let mut p = PipelineActionsProcessor::new();
    let mut ui = actions();
    ui.as_mut().unwrap().selected = None;
    let out = p.apply(&key(Key::Enter), &mut ui);
    assert!(matches!(&out[..], [GlimEvent::PipelineActionsClose]));
}

fn typed(p: &mut MrViewProcessor, ui: &mut Option<MrViewState>, text: &str) {
    for c in text.chars() {
        p.apply(&key(Key::Char(c)), ui);
    }
}

fn ctrl(c: char) -> GlimEvent {
    GlimEvent::InputKey(KeyPress { code: Key::Char(c), modifiers: 2 })
}

#[test]
fn composing_edits_at_the_cursor() {
    let (mut p, mut ui) = popup();
    p.apply(&key(Key::Tab), &mut ui);
    typed(&mut p, &mut ui, "abcd");
    p.apply(&key(Key::Backspace), &mut ui);
    assert_eq!(ui.as_ref().unwrap().comment(), "abc");
    p.apply(&key(Key::Left), &mut ui);
    p.apply(&key(Key::Left), &mut ui);
    p.apply(&key(Key::Delete), &mut ui);
    assert_eq!(ui.as_ref().unwrap().comment(), "ac");
    typed(&mut p, &mut ui, "X");
    assert_eq!(ui.as_ref().unwrap().comment(), "aXc");
    p.apply(&key(Key::Home), &mut ui);
    p.apply(&key(Key::Backspace), &mut ui);
    typed(&mut p, &mut ui, "<");
    p.apply(&key(Key::End), &mut ui);
    typed(&mut p, &mut ui, ">");
    assert_eq!(ui.as_ref().unwrap().comment(), "<aXc>");
    p.apply(&key(Key::Right), &mut ui);
    p.apply(&key(Key::Delete), &mut ui);
    assert_eq!(ui.as_ref().unwrap().comment(), "<aXc>");
    assert_eq!(ui.as_ref().unwrap().comment_input.cursor(), 5);
}

#[test]
fn composing_cuts_and_pastes() {
    let (mut p, mut ui) = popup();
    p.apply(&key(Key::Tab), &mut ui);
    typed(&mut p, &mut ui, "hello world");
    p.apply(&ctrl('a'), &mut ui);
    p.apply(&ctrl('k'), &mut ui);
    assert_eq!(ui.as_ref().unwrap().comment(), "");
    p.apply(&ctrl('y'), &mut ui);
    p.apply(&ctrl('y'), &mut ui);
    assert_eq!(ui.as_ref().unwrap().comment(), "hello worldhello world");
    p.apply(&ctrl('u'), &mut ui);
    assert_eq!(ui.as_ref().unwrap().comment(), "");
    p.apply(&ctrl('y'), &mut ui);
    assert_eq!(ui.as_ref().unwrap().comment(), "hello worldhello world");
}

#[test]
fn closing_keys_work_with_any_highlight() {
    let mut p = PipelineActionsProcessor::new();
    let mut ui = actions();
    ui.as_mut().unwrap().selected = Some(9);
    let out = p.apply(&key(Key::Esc), &mut ui);
    assert!(matches!(&out[..], [GlimEvent::PipelineActionsClose]));
    p.apply(&key(Key::Down), &mut ui);
    assert_eq!(ui.as_ref().unwrap().selected, Some(1));
}
