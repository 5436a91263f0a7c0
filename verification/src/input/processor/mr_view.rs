use vstd::prelude::*;
use crate::event::{events_view, AtlantisAction, GlimEvent, GlimEventView, Key, KeyPress};
use crate::id::{MrIid, ProjectId};
use crate::ui::popup::mr_view_popup::{
    can_scroll_down, edited, scrolled_down, scrolled_up, MrViewMode, MrViewState, MrViewStateView,
};

verus! {

/// Outside work an input processor asks for.
pub enum InputEffect {
    /// Send an event to the application's queue.
    Dispatch(GlimEvent),
    /// Open a page in the browser; a failure is ignored.
    OpenUrl(String),
}

pub enum InputEffectView {
    Dispatch(GlimEventView),
    OpenUrl(Seq<char>),
}

impl View for InputEffect {
    type V = InputEffectView;

    open spec fn view(&self) -> InputEffectView {
        match self {
            InputEffect::Dispatch(e) => InputEffectView::Dispatch(e@),
            InputEffect::OpenUrl(u) => InputEffectView::OpenUrl(u@),
        }
    }
}

pub open spec fn effects_view(s: Seq<InputEffect>) -> Seq<InputEffectView> {
    s.map_values(|e: InputEffect| e@)
}

/// Handles keys while the merge request popup is open.
pub struct MrViewProcessor {
    project_id: ProjectId,
    mr_iid: Option<MrIid>,
}

pub struct MrViewProcessorView {
    pub project_id: ProjectId,
    pub mr_iid: Option<MrIid>,
}

impl View for MrViewProcessor {
    type V = MrViewProcessorView;

    closed spec fn view(&self) -> MrViewProcessorView {
        MrViewProcessorView { project_id: self.project_id, mr_iid: self.mr_iid }
    }
}

/// The popup with another mode.
pub open spec fn in_mode(st: MrViewStateView, mode: MrViewMode) -> MrViewStateView {
    MrViewStateView { mode, ..st }
}

/// The selected comment is an Atlantis comment.
pub open spec fn atlantis_selected(st: MrViewStateView) -> bool {
    st.selected matches Some(i) && st.mr matches Some(mr) && i < mr.notes.len() && mr.notes[i as int].is_atlantis
}

/// Whether handling the event is possible: moving down needs a selection below the
/// largest index.
pub open spec fn mr_view_can_apply(e: GlimEventView, s: Option<MrViewStateView>) -> bool {
    match e {
        GlimEventView::InputKey(key) => match s {
            Some(st) => st.mode == MrViewMode::Scrolling && (key.code == Key::Char('j') || key.code == Key::Down)
                ==> can_scroll_down(st),
            None => true,
        },
        _ => true,
    }
}

/// A key while scrolling: close, move, start writing, choose an Atlantis command for an
/// Atlantis comment, or open the merge request in the browser.
pub open spec fn scrolling_key(st: MrViewStateView, code: Key) -> (MrViewStateView, Seq<InputEffectView>) {
    if code == Key::Esc || code == Key::Char('q') {
        (st, seq![InputEffectView::Dispatch(GlimEventView::MrViewClose)])
    } else if code == Key::Char('j') || code == Key::Down {
        (MrViewStateView { selected: scrolled_down(st), ..st }, Seq::empty())
    } else if code == Key::Char('k') || code == Key::Up {
        (MrViewStateView { selected: scrolled_up(st), ..st }, Seq::empty())
    } else if code == Key::Tab || code == Key::Char('i') {
        (in_mode(st, MrViewMode::Composing), Seq::empty())
    } else if code == Key::Char('a') {
        if atlantis_selected(st) {
            (in_mode(st, MrViewMode::AtlantisAction { note_idx: st.selected->0, selected: 0 }), Seq::empty())
        } else {
            (st, Seq::empty())
        }
    } else if code == Key::Char('w') {
        match st.mr {
            Some(mr) => (st, seq![InputEffectView::OpenUrl(mr.web_url)]),
            None => (st, Seq::empty()),
        }
    } else {
        (st, Seq::empty())
    }
}

/// What the processor does with an event: `p2` and `s2` are the processor and the popup
/// afterwards, `out` the outside work. While writing, keys other than Esc and Enter edit
/// the comment as the input widget does, which this leaves open.
pub open spec fn mr_view_transition(
    p: MrViewProcessorView,
    e: GlimEventView,
    s: Option<MrViewStateView>,
    p2: MrViewProcessorView,
    s2: Option<MrViewStateView>,
    out: Seq<InputEffectView>,
) -> bool {
    match e {
        GlimEventView::MrLoaded(_, mr) => p2 == (MrViewProcessorView { mr_iid: Some(mr.iid), ..p }) && s2 == s
            && out == Seq::<InputEffectView>::empty(),
        GlimEventView::InputKey(key) => {
            &&& p2 == p
            &&& match s {
                None => s2 is None && out == Seq::<InputEffectView>::empty(),
                Some(st) => s2 matches Some(x) && match st.mode {
                    MrViewMode::Scrolling => x == scrolling_key(st, key.code).0 && out == scrolling_key(st, key.code).1,
                    MrViewMode::Composing => composing_ok(st, key, p.project_id, p.mr_iid, x, out),
                    MrViewMode::AtlantisAction { note_idx, selected } => atlantis_ok(
                        st,
                        key.code,
                        note_idx,
                        selected,
                        p.project_id,
                        p.mr_iid,
                        x,
                        out,
                    ),
                },
            }
        },
        _ => p2 == p && s2 == s && out == Seq::<InputEffectView>::empty(),
    }
}

pub open spec fn opt_state_view(s: Option<MrViewState>) -> Option<MrViewStateView> {
    match s {
        Some(st) => Some(st@),
        None => None,
    }
}

/// Handles a key while scrolling.
fn handle_scrolling(state: &mut MrViewState, code: Key, out: &mut Vec<InputEffect>)
    requires
        old(out)@.len() == 0,
        (code == Key::Char('j') || code == Key::Down) ==> can_scroll_down(old(state)@),
    ensures
        final(state)@ == scrolling_key(old(state)@, code).0,
        effects_view(final(out)@) == scrolling_key(old(state)@, code).1,
{
    if code == Key::Esc || code == Key::Char('q') {
        out.push(InputEffect::Dispatch(GlimEvent::MrViewClose));
    } else if code == Key::Char('j') || code == Key::Down {
        state.scroll_down();
    } else if code == Key::Char('k') || code == Key::Up {
        state.scroll_up();
    } else if code == Key::Tab || code == Key::Char('i') {
        state.mode = MrViewMode::Composing;
    } else if code == Key::Char('a') {
        match state.selected {
            Some(idx) => {
                let atlantis = match &state.mr {
                    Some(mr) => idx < mr.notes.len() && mr.notes[idx].is_atlantis,
                    None => false,
                };
                if atlantis {
                    state.mode = MrViewMode::AtlantisAction { note_idx: idx, selected: 0 };
                }
            },
            None => {},
        }
    } else if code == Key::Char('w') {
        match &state.mr {
            Some(mr) => {
                let url = mr.web_url.clone();
                out.push(InputEffect::OpenUrl(url));
            },
            None => {},
        }
    }
    assert(effects_view(out@) =~= scrolling_key(old(state)@, code).1);
}

/// What writing a comment does with a key.
pub open spec fn composing_ok(
    st: MrViewStateView,
    key: KeyPress,
    project_id: ProjectId,
    mr_iid: Option<MrIid>,
    s2: MrViewStateView,
    out: Seq<InputEffectView>,
) -> bool {
    if key.code == Key::Esc {
        s2 == in_mode(st, MrViewMode::Scrolling) && out == Seq::<InputEffectView>::empty()
    } else if key.code == Key::Enter {
        match mr_iid {
            Some(iid) => if st.comment.len() > 0 {
                &&& s2 == (MrViewStateView {
                    mode: MrViewMode::Scrolling,
                    comment: Seq::empty(),
                    cursor: 0,
                    cut: Seq::empty(),
                    last_cut: false,
                    ..st
                })
                &&& out == seq![InputEffectView::Dispatch(GlimEventView::MrNotePost(project_id, iid, st.comment))]
            } else {
                s2 == in_mode(st, MrViewMode::Scrolling) && out == Seq::<InputEffectView>::empty()
            },
            None => s2 == in_mode(st, MrViewMode::Scrolling) && out == Seq::<InputEffectView>::empty(),
        }
    } else {
        edited(st, key, s2) && out == Seq::<InputEffectView>::empty()
    }
}

/// Handles a key while writing a comment.
fn handle_composing(
    state: &mut MrViewState,
    key: KeyPress,
    project_id: ProjectId,
    mr_iid: Option<MrIid>,
    out: &mut Vec<InputEffect>,
)
    requires
        old(out)@.len() == 0,
    ensures
        composing_ok(old(state)@, key, project_id, mr_iid, final(state)@, effects_view(final(out)@)),
{
    let code = key.code;
    if code == Key::Esc {
        state.mode = MrViewMode::Scrolling;
    } else if code == Key::Enter {
        match mr_iid {
            Some(iid) => {
                let body = state.comment();
                if body.unicode_len() > 0 {
                    out.push(InputEffect::Dispatch(GlimEvent::MrNotePost(project_id, iid, body)));
                    state.clear_comment();
                }
            },
            None => {},
        }
        state.mode = MrViewMode::Scrolling;
    } else {
        state.edit_comment(key);
    }
    proof {
        if out@.len() == 0 {
            assert(effects_view(out@) =~= Seq::<InputEffectView>::empty());
        } else {
            assert(effects_view(out@) =~= seq![out@[0]@]);
        }
    }
}

/// What choosing an Atlantis command does with a key.
pub open spec fn atlantis_ok(
    st: MrViewStateView,
    code: Key,
    note_idx: usize,
    selected: usize,
    project_id: ProjectId,
    mr_iid: Option<MrIid>,
    s2: MrViewStateView,
    out: Seq<InputEffectView>,
) -> bool {
    if code == Key::Esc {
        s2 == in_mode(st, MrViewMode::Scrolling) && out == Seq::<InputEffectView>::empty()
    } else if code == Key::Left || code == Key::Char('h') {
        s2 == in_mode(st, MrViewMode::AtlantisAction { note_idx, selected: 0 }) && out == Seq::<InputEffectView>::empty()
    } else if code == Key::Right || code == Key::Char('l') {
        s2 == in_mode(st, MrViewMode::AtlantisAction { note_idx, selected: 1 }) && out == Seq::<InputEffectView>::empty()
    } else if code == Key::Enter {
        &&& s2 == in_mode(st, MrViewMode::Scrolling)
        &&& out == match mr_iid {
            Some(iid) => seq![InputEffectView::Dispatch(GlimEventView::MrAtlantisAction(
                project_id,
                iid,
                if selected == 0 { AtlantisAction::Plan } else { AtlantisAction::Apply },
            ))],
            None => Seq::<InputEffectView>::empty(),
        }
    } else {
        s2 == st && out == Seq::<InputEffectView>::empty()
    }
}

/// Handles a key while choosing an Atlantis command.
fn handle_atlantis(
    state: &mut MrViewState,
    code: Key,
    note_idx: usize,
    selected: usize,
    project_id: ProjectId,
    mr_iid: Option<MrIid>,
    out: &mut Vec<InputEffect>,
)
    requires
        old(out)@.len() == 0,
    ensures
        atlantis_ok(old(state)@, code, note_idx, selected, project_id, mr_iid, final(state)@, effects_view(final(out)@)),
{
    if code == Key::Esc {
        state.mode = MrViewMode::Scrolling;
    } else if code == Key::Left || code == Key::Char('h') {
        state.mode = MrViewMode::AtlantisAction { note_idx, selected: 0 };
    } else if code == Key::Right || code == Key::Char('l') {
        state.mode = MrViewMode::AtlantisAction { note_idx, selected: 1 };
    } else if code == Key::Enter {
        match mr_iid {
            Some(iid) => {
                let action = if selected == 0 {
                    AtlantisAction::Plan
                } else {
                    AtlantisAction::Apply
                };
                out.push(InputEffect::Dispatch(GlimEvent::MrAtlantisAction(project_id, iid, action)));
            },
            None => {},
        }
        state.mode = MrViewMode::Scrolling;
    }
    proof {
        if out@.len() == 0 {
            assert(effects_view(out@) =~= Seq::<InputEffectView>::empty());
        } else {
            assert(effects_view(out@) =~= seq![out@[0]@]);
        }
    }
}

impl MrViewProcessor {
    /// A processor for the merge request popup of a project; the merge request is not
    /// known yet.
    pub fn new(project_id: ProjectId) -> (r: Self)
        ensures
            r@.project_id == project_id,
            r@.mr_iid is None,
    {
        MrViewProcessor { project_id, mr_iid: None }
    }

    /// Handles an event with the popup's state, if the popup is open, and returns the
    /// outside work to do.
    pub fn apply(&mut self, event: &GlimEvent, ui: &mut Option<MrViewState>) -> (r: Vec<InputEffect>)
        requires
            mr_view_can_apply(event@, opt_state_view(*old(ui))),
        ensures
            mr_view_transition(old(self)@, event@, opt_state_view(*old(ui)), final(self)@, opt_state_view(*final(ui)), effects_view(r@)),
    {
        let mut out: Vec<InputEffect> = Vec::new();
        assert(effects_view(out@) =~= Seq::<InputEffectView>::empty());
        match event {
            GlimEvent::MrLoaded(_, mr) => {
                self.mr_iid = Some(mr.iid);
            },
            GlimEvent::InputKey(key) => {
                match ui.take() {
                    None => {},
                    Some(mut state) => {
                        let code = key.code;
                        match state.mode {
                            MrViewMode::Scrolling => {
                                handle_scrolling(&mut state, code, &mut out);
                            },
                            MrViewMode::Composing => {
                                handle_composing(&mut state, *key, self.project_id, self.mr_iid, &mut out);
                            },
                            MrViewMode::AtlantisAction { note_idx, selected } => {
                                handle_atlantis(&mut state, code, note_idx, selected, self.project_id, self.mr_iid, &mut out);
                            },
                        }
                        *ui = Some(state);
                    },
                }
            },
            _ => {},
        }
        out
    }
}

/// While scrolling through `n` comments with comment `i` selected, `j` and Down select the
/// next comment and wrap from the last to the first; `k` and Up select the previous one and
/// wrap from the first to the last. Without a selection, moving starts from the first.
pub proof fn law_scroll_keys_step(st: MrViewStateView, code: Key)
    requires
        st.mr is Some,
        0 < st.mr->0.notes.len() <= usize::MAX,
        st.selected matches Some(i) ==> i < st.mr->0.notes.len(),
        code == Key::Char('j') || code == Key::Down || code == Key::Char('k') || code == Key::Up,
    ensures
        ({
            let n = st.mr->0.notes.len() as int;
            let i: int = match st.selected {
                Some(i) => i as int,
                None => 0,
            };
            let after = scrolling_key(st, code);
            &&& after.1 == Seq::<InputEffectView>::empty()
            &&& after.0 == (MrViewStateView { selected: after.0.selected, ..st })
            &&& (code == Key::Char('j') || code == Key::Down) ==> after.0.selected == Some(
                (if i + 1 < n { i + 1 } else { 0 }) as usize,
            )
            &&& (code == Key::Char('k') || code == Key::Up) ==> after.0.selected == Some(
                (if i > 0 { i - 1 } else { n - 1 }) as usize,
            )
        }),
{
    let n = st.mr->0.notes.len() as int;
    let i: int = match st.selected {
        Some(i) => i as int,
        None => 0,
    };
    if i + 1 < n {
        vstd::arithmetic::div_mod::lemma_fundamental_div_mod_converse(i + 1, n, 0, i + 1);
    } else {
        vstd::arithmetic::div_mod::lemma_fundamental_div_mod_converse(i + 1, n, 1, 0);
    }
}

} // verus!
