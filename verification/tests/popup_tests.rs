use glim::domain::{MrNote, MrView};
use glim::event::{Key, KeyPress};
use glim::id::{MrIid, ProjectId};
use glim::ui::popup::mr_view_popup::{Area, MrStateTone, MrViewMode, MrViewPopup, MrViewState};
use glim::ui::widget::view_tabs::ViewTabs;
use glim::views::{InvolvementFilter, ViewConfig};

fn note(author: &str, body: &str, atlantis: bool) -> MrNote {
    MrNote { author_username: author.to_string(), body: body.to_string(), created_at: Some(0), is_atlantis: atlantis }
}

fn mr(iid: u64, notes: Vec<MrNote>) -> MrView {
    MrView {
        iid: MrIid::new(iid),
        title: "Add feature".to_string(),
        state: "merged".to_string(),
        author_username: "ann".to_string(),
        web_url: "https://gitlab.example/mr/7".to_string(),
        notes,
    }
}

#[test]
fn new_popup_is_loading() {
    let s = MrViewState::new(ProjectId::new(1));
    assert!(s.loading);
    assert!(MrViewPopup::shows_loading(&s));
    assert!(s.selected_note().is_none());
    assert_eq!(s.mode, MrViewMode::Scrolling);
    assert_eq!(s.comment(), "");
}

#[test]
fn notes_without_mr_are_dropped() {
    let mut s = MrViewState::new(ProjectId::new(1));
    s.set_notes(vec![note("a", "b", false)]);
    assert!(s.mr.is_none());
    assert!(s.selected.is_none());
}

#[test]
fn setting_notes_selects_the_first() {
    let mut s = MrViewState::new(ProjectId::new(1));
    s.set_mr(mr(7, vec![]));
    assert!(!MrViewPopup::shows_loading(&s));
    s.set_notes(vec![]);
    assert!(s.selected.is_none());
    s.set_notes(vec![note("a", "first", false), note("b", "second", false)]);
    assert_eq!(s.selected, Some(0));
    assert_eq!(s.selected_note().unwrap().body, "first");
    s.scroll_down();
    assert_eq!(s.selected_note().unwrap().body, "second");
    s.scroll_down();
    assert_eq!(s.selected, Some(0));
    s.scroll_up();
    assert_eq!(s.selected, Some(1));
}

#[test]
fn scrolling_without_comments_changes_nothing() {
    let mut s = MrViewState::new(ProjectId::new(1));
    s.scroll_up();
    s.scroll_down();
    assert!(s.selected.is_none());
    s.set_mr(mr(7, vec![]));
    s.scroll_down();
    assert!(s.selected.is_none());
}

#[test]
fn selection_past_the_comments_names_none() {
    let mut s = MrViewState::new(ProjectId::new(1));
    s.set_mr(mr(7, vec![note("a", "x", false)]));
    s.selected = Some(5);
    assert!(s.selected_note().is_none());
}

#[test]
fn cursor_sits_after_the_text_inside_the_border() {
    let mut s = MrViewState::new(ProjectId::new(1));
    let area = Area { x: 10, y: 20, width: 30, height: 3 };
    assert_eq!(s.cursor_position(area), (11, 21));
    s.edit_comment(KeyPress::plain(Key::Char('a')));
    s.edit_comment(KeyPress::plain(Key::Char('b')));
    assert_eq!(s.cursor_position(area), (13, 21));
    // never right of the border
    let narrow = Area { x: 10, y: 20, width: 2, height: 3 };
    assert_eq!(s.cursor_position(narrow), (11, 21));
    assert_eq!(s.checked_cursor_position(area), Some((13, 21)));
    let edge = Area { x: u16::MAX, y: 0, width: 0, height: 1 };
    assert_eq!(s.checked_cursor_position(edge), None);
    s.clear_comment();
    assert_eq!(s.comment(), "");
}

#[test]
fn right_edge_saturates() {
    assert_eq!(Area { x: 5, y: 0, width: 7, height: 1 }.right(), 12);
    assert_eq!(Area { x: 65530, y: 0, width: 100, height: 1 }.right(), u16::MAX);
}

#[test]
fn header_texts() {
    let m = mr(42, vec![note("a", "x", false), note("b", "y", true)]);
    assert_eq!(MrViewPopup::iid_label(&m), "!42  ");
    assert_eq!(
        MrViewPopup::summary_line(&m),
        "2 note(s) \u{2014} j/k scroll  Tab compose  a atlantis  w open  Esc close"
    );
    assert_eq!(MrViewPopup::comments_title(&m), " Comments (2) ");
    assert_eq!(MrViewPopup::state_tone("opened"), MrStateTone::Opened);
    assert_eq!(MrViewPopup::state_tone("merged"), MrStateTone::Merged);
    assert_eq!(MrViewPopup::state_tone("closed"), MrStateTone::Other);
    assert_eq!(MrViewPopup::state_tone(""), MrStateTone::Other);
}

#[test]
fn note_texts() {
    let plain = note("bob", "one\r\ntwo\n\nfour\n", false);
    assert_eq!(MrViewPopup::author_label(&plain, "01 Jan 00:00"), "@bob  ");
    assert_eq!(MrViewPopup::body_lines(&plain), vec!["one", "two", "", "four"]);
    let bot = note("atlantis", "a\nb\nc\nd\ne\nf\ng\nh\ni\nj", true);
    assert_eq!(MrViewPopup::author_label(&bot, "01 Jan 00:00"), "@atlantis  01 Jan 00:00");
    assert_eq!(MrViewPopup::body_lines(&bot), vec!["a", "b", "c", "d", "e", "f", "g", "h"]);
    assert!(MrViewPopup::body_lines(&note("x", "", false)).is_empty());
    assert_eq!(MrViewPopup::body_lines(&note("x", "tail\r", false)), vec!["tail\r"]);
}

#[test]
fn atlantis_buttons_and_highlight() {
    assert_eq!(MrViewPopup::atlantis_buttons(), ("[ atlantis plan ]", "[ atlantis apply ]"));
    let choosing = MrViewMode::AtlantisAction { note_idx: 2, selected: 1 };
    assert_eq!(MrViewPopup::atlantis_highlight(choosing, 2), Some(1));
    assert_eq!(MrViewPopup::atlantis_highlight(choosing, 1), None);
    assert_eq!(MrViewPopup::atlantis_highlight(MrViewMode::AtlantisAction { note_idx: 0, selected: 0 }, 0), Some(0));
    assert_eq!(MrViewPopup::atlantis_highlight(MrViewMode::Scrolling, 0), None);
}

#[test]
fn input_titles() {
    assert_eq!(MrViewPopup::input_title(MrViewMode::Composing), " New Comment (Enter submit  Esc cancel) ");
    assert_eq!(MrViewPopup::input_title(MrViewMode::Scrolling), " New Comment (Tab to compose) ");
}

#[test]
fn tabs_mark_the_active_view() {
    let views = vec![
        ViewConfig { name: "My Work".to_string(), key: "1".to_string(), search_filter: None, recent_days: Some(14), involvement: Some(InvolvementFilter::Contributor) },
        ViewConfig { name: "All".to_string(), key: "3".to_string(), search_filter: None, recent_days: None, involvement: None },
    ];
    let tabs = ViewTabs::new(&views, 1, false).tabs();
    assert_eq!(tabs.len(), 2);
    assert_eq!(tabs[0].label, " [1] My Work ");
    assert!(!tabs[0].active);
    assert_eq!(tabs[1].label, " [3] All ");
    assert!(tabs[1].active);
    let tabs = ViewTabs::new(&views, 1, true).tabs();
    assert_eq!(tabs[1].label, " [3] All\u{2026} ");
    assert_eq!(tabs[0].label, " [1] My Work ");
    let tabs = ViewTabs::new(&views, 5, true).tabs();
    assert!(tabs.iter().all(|t| !t.active));
}
