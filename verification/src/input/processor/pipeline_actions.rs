use vstd::prelude::*;
use crate::event::{events_view, GlimEvent, GlimEventView, Key, KeyPress};
use crate::modulo::floor_mod;

verus! {

/// The state of the pipeline actions popup: the actions on offer and the highlighted one.
pub struct PipelineActionsState {
    pub actions: Vec<GlimEvent>,
    pub selected: Option<usize>,
}

pub struct PipelineActionsView {
    pub actions: Seq<GlimEventView>,
    pub selected: Option<usize>,
}

impl View for PipelineActionsState {
    type V = PipelineActionsView;

    open spec fn view(&self) -> PipelineActionsView {
        PipelineActionsView { actions: events_view(self.actions@), selected: self.selected }
    }
}

/// The highlight after moving by `delta`, wrapping around at either end; nothing changes
/// without actions.
pub open spec fn moved_selection(s: PipelineActionsView, delta: i32) -> Option<usize> {
    if s.actions.len() == 0 {
        s.selected
    } else {
        let i: int = match s.selected {
            Some(i) => i as int,
            None => 0,
        };
        Some(floor_mod(i + delta, s.actions.len() as int) as usize)
    }
}

/// The highlight, if any, names an action.
pub open spec fn selection_in_range(s: PipelineActionsView) -> bool {
    s.selected matches Some(i) ==> i < s.actions.len()
}

impl PipelineActionsState {
    /// A copy of the action at position `idx`.
    pub fn copy_selected_action(&self, idx: usize) -> (r: GlimEvent)
        requires
            idx < self@.actions.len(),
        ensures
            r@ == self@.actions[idx as int],
    {
        self.actions[idx].clone()
    }

    /// Moves the highlight one step by `delta` (up for -1, down for 1), wrapping around.
    pub fn handle_selection(&mut self, delta: i32)
        requires
            -1 <= delta <= 1,
        ensures
            final(self)@ == (PipelineActionsView { selected: moved_selection(old(self)@, delta), ..old(self)@ }),
            old(self)@.actions.len() > 0 ==> selection_in_range(final(self)@),
    {
        let n = self.actions.len();
        if n == 0 {
            return;
        }
        let i0: usize = match self.selected {
            Some(i) => i,
            None => 0,
        };
        let i: usize = i0 % n;
        proof {
            let k = i0 as int / n as int;
            vstd::arithmetic::div_mod::lemma_fundamental_div_mod(i0 as int, n as int);
            vstd::arithmetic::div_mod::lemma_mod_bound(i0 as int, n as int);
            // i0 + delta and i + delta differ by a multiple of n
            assert(i0 + delta == (i + delta) + n * k);
            vstd::arithmetic::div_mod::lemma_mod_multiples_vanish(k, i + delta, n as int);
            assert((i0 + delta) % (n as int) == (i + delta) % (n as int)) by {
                vstd::arithmetic::mul::lemma_mul_is_commutative(n as int, k);
            }
        }
        let m: usize = if delta < 0 {
            if i == 0 { n - 1 } else { i - 1 }
        } else if delta > 0 {
            if i + 1 == n { 0 } else { i + 1 }
        } else {
            i
        };
        proof {
            let x = i + delta;
            if delta < 0 && i == 0 {
                vstd::arithmetic::div_mod::lemma_fundamental_div_mod_converse(x, n as int, -1, n - 1);
            } else if delta > 0 && i + 1 == n {
                vstd::arithmetic::div_mod::lemma_fundamental_div_mod_converse(x, n as int, 1, 0);
            } else {
                vstd::arithmetic::div_mod::lemma_fundamental_div_mod_converse(x, n as int, 0, x);
            }
        }
        self.selected = Some(m);
    }
}

/// What a key does in the popup: Esc or q closes it; up, down, k and j move the highlight;
/// Enter or o closes it and sends the highlighted action; F12 asks for a screen capture.
pub open spec fn pipeline_actions_key(
    s: Option<PipelineActionsView>,
    key: KeyPress,
) -> (Option<PipelineActionsView>, Seq<GlimEventView>) {
    let code = key.code;
    if code == Key::Esc || code == Key::Char('q') {
        (s, seq![GlimEventView::PipelineActionsClose])
    } else if code == Key::Up || code == Key::Char('k') || code == Key::Down || code == Key::Char('j') {
        let delta: i32 = if code == Key::Up || code == Key::Char('k') { -1i32 } else { 1i32 };
        match s {
            Some(st) => (Some(PipelineActionsView { selected: moved_selection(st, delta), ..st }), Seq::empty()),
            None => (s, Seq::empty()),
        }
    } else if code == Key::Enter || code == Key::Char('o') {
        match s->0.selected {
            Some(idx) => (s, seq![GlimEventView::PipelineActionsClose, s->0.actions[idx as int]]),
            None => (s, seq![GlimEventView::PipelineActionsClose]),
        }
    } else if code == Key::F(12) {
        (s, seq![GlimEventView::ScreenCapture])
    } else {
        (s, Seq::empty())
    }
}

pub open spec fn opt_actions_view(s: Option<PipelineActionsState>) -> Option<PipelineActionsView> {
    match s {
        Some(st) => Some(st@),
        None => None,
    }
}

/// Whether a key can be handled: choosing (Enter or o) needs the popup, with a highlight,
/// if any, that names an action.
pub open spec fn pipeline_actions_can_handle(s: Option<PipelineActionsView>, key: KeyPress) -> bool {
    (key.code == Key::Enter || key.code == Key::Char('o')) ==> (s matches Some(st) && selection_in_range(st))
}

/// Handles keys while the pipeline actions popup is open.
pub struct PipelineActionsProcessor {}

impl PipelineActionsProcessor {
    pub fn new() -> (r: Self) {
        PipelineActionsProcessor {  }
    }

    /// Handles a key with the popup's state and returns the events to send.
    fn process(&self, key: &KeyPress, ui: &mut Option<PipelineActionsState>) -> (r: Vec<GlimEvent>)
        requires
            pipeline_actions_can_handle(opt_actions_view(*old(ui)), *key),
        ensures
            (opt_actions_view(*final(ui)), events_view(r@)) == pipeline_actions_key(opt_actions_view(*old(ui)), *key),
    {
        let code = key.code;
        let mut out: Vec<GlimEvent> = Vec::new();
        if code == Key::Esc || code == Key::Char('q') {
            out.push(GlimEvent::PipelineActionsClose);
        } else if code == Key::Up || code == Key::Char('k') || code == Key::Down || code == Key::Char('j') {
            let delta: i32 = if code == Key::Up || code == Key::Char('k') { -1 } else { 1 };
            match ui {
                Some(state) => state.handle_selection(delta),
                None => {},
            }
        } else if code == Key::Enter || code == Key::Char('o') {
            let state = ui.as_ref().unwrap();
            let action = match state.selected {
                Some(idx) => Some(state.copy_selected_action(idx)),
                None => None,
            };
            out.push(GlimEvent::PipelineActionsClose);
            match action {
                Some(a) => out.push(a),
                None => {},
            }
        } else if code == Key::F(12) {
            out.push(GlimEvent::ScreenCapture);
        }
        assert(events_view(out@) =~= pipeline_actions_key(opt_actions_view(*old(ui)), *key).1);
        out
    }

    /// Handles an event: key presses go to the popup, everything else is ignored.
    pub fn apply(&mut self, event: &GlimEvent, ui: &mut Option<PipelineActionsState>) -> (r: Vec<GlimEvent>)
        requires
            event@ matches GlimEventView::InputKey(key) ==> pipeline_actions_can_handle(opt_actions_view(*old(ui)), key),
        ensures
            match event@ {
                GlimEventView::InputKey(key) => (opt_actions_view(*final(ui)), events_view(r@))
                    == pipeline_actions_key(opt_actions_view(*old(ui)), key),
                _ => *final(ui) == *old(ui) && r@.len() == 0,
            },
    {
        match event {
            GlimEvent::InputKey(key) => self.process(key, ui),
            _ => Vec::new(),
        }
    }
}

/// Moving the highlight down and back up, or up and back down, returns it to the action
/// it was on.
pub proof fn law_selection_moves_undo(s: PipelineActionsView)
    requires
        s.selected is Some,
        selection_in_range(s),
        s.actions.len() <= usize::MAX,
    ensures
        moved_selection(PipelineActionsView { selected: moved_selection(s, 1i32), ..s }, -1i32) == s.selected,
        moved_selection(PipelineActionsView { selected: moved_selection(s, -1i32), ..s }, 1i32) == s.selected,
{
    let n = s.actions.len() as int;
    let i = s.selected->0 as int;
    if i + 1 < n {
        vstd::arithmetic::div_mod::lemma_fundamental_div_mod_converse(i + 1, n, 0, i + 1);
    } else {
        vstd::arithmetic::div_mod::lemma_fundamental_div_mod_converse(i + 1, n, 1, 0);
        vstd::arithmetic::div_mod::lemma_fundamental_div_mod_converse(-1, n, -1, n - 1);
    }
    vstd::arithmetic::div_mod::lemma_fundamental_div_mod_converse(i, n, 0, i);
    if i > 0 {
        vstd::arithmetic::div_mod::lemma_fundamental_div_mod_converse(i - 1, n, 0, i - 1);
    } else {
        vstd::arithmetic::div_mod::lemma_fundamental_div_mod_converse(-1, n, -1, n - 1);
        vstd::arithmetic::div_mod::lemma_fundamental_div_mod_converse(n, n, 1, 0);
    }
}

/// Moving the highlight keeps it on an action.
pub proof fn law_selection_stays_in_range(s: PipelineActionsView, delta: i32)
    requires
        selection_in_range(s),
    ensures
        selection_in_range(PipelineActionsView { selected: moved_selection(s, delta), ..s }),
{
    if s.actions.len() > 0 {
        let i: int = match s.selected {
            Some(i) => i as int,
            None => 0,
        };
        vstd::arithmetic::div_mod::lemma_mod_bound(i + delta, s.actions.len() as int);
    }
}

} // verus!
