use vstd::prelude::*;
use crate::domain::{notes_view, MrNote, MrNoteView, MrView, MrViewModel};
use crate::event::{Key, KeyPress};
use crate::id::ProjectId;
use crate::text::{decimal, decimal_text, first_lines, text_lines};
use crossterm::event::KeyCode as TermKey;

verus! {

#[verifier::external_type_specification]
#[verifier::external_body]
pub struct ExInput(tui_input::Input);

#[verifier::external_type_specification]
#[verifier::external_body]
pub struct ExTermKey(crossterm::event::KeyCode);

/// The text held by a `tui_input::Input`.
pub uninterp spec fn input_text(input: tui_input::Input) -> Seq<char>;

/// The cursor of a `tui_input::Input`: how many characters of its text precede it.
pub uninterp spec fn input_cursor(input: tui_input::Input) -> usize;

/// The cut buffer of a `tui_input::Input`: the text that Ctrl+Y puts back.
pub uninterp spec fn input_cut(input: tui_input::Input) -> Seq<char>;

/// Whether the last request a `tui_input::Input` handled cut text; a following cut then adds
/// to the buffer instead of replacing it.
pub uninterp spec fn input_last_cut(input: tui_input::Input) -> bool;

/// The character position where the grapheme cluster before position `cursor` of `text`
/// starts (`unicode_segmentation::GraphemeCursor::prev_boundary`).
pub uninterp spec fn grapheme_start_before(text: Seq<char>, cursor: nat) -> int;

/// The character position where the grapheme cluster after position `cursor` of `text`
/// ends (`unicode_segmentation::GraphemeCursor::next_boundary`).
pub uninterp spec fn grapheme_end_after(text: Seq<char>, cursor: nat) -> int;

/// What a word edit (Ctrl/Alt word moves and deletions) does to an input's text, cursor, cut
/// buffer and cut flag; words follow Unicode word boundaries.
pub uninterp spec fn word_edit(text: Seq<char>, cursor: usize, cut: Seq<char>, last_cut: bool, key: KeyPress) -> EditView;

/// The editing state of a text input.
pub struct EditView {
    pub text: Seq<char>,
    pub cursor: usize,
    pub cut: Seq<char>,
    pub last_cut: bool,
}

/// The editing state of a `tui_input::Input`.
pub open spec fn edit_view(input: tui_input::Input) -> EditView {
    EditView {
        text: input_text(input),
        cursor: input_cursor(input),
        cut: input_cut(input),
        last_cut: input_last_cut(input),
    }
}

/// The cursor lies within the text, and the text and cut buffer are as long as a `String`
/// can be.
pub open spec fn edit_ok(e: EditView) -> bool {
    e.cursor <= e.text.len() <= isize::MAX && e.cut.len() <= isize::MAX
}

/// The modifier bits that crossterm knows (the low six).
pub open spec fn mods(key: KeyPress) -> int {
    (key.modifiers as int) % 64
}

/// The key with exactly these modifiers (0 none, 2 Control, 4 Alt, 32 Meta).
pub open spec fn is_key(key: KeyPress, code: Key, m: int) -> bool {
    key.code == code && mods(key) == m
}

/// Whether a grapheme cluster boundary lies at position `k` of `t` for certain: at either
/// end, or between two ASCII characters other than a carriage return and a line feed.
pub open spec fn boundary_at(t: Seq<char>, k: int) -> bool {
    ||| k == 0
    ||| k == t.len()
    ||| (0 < k < t.len() && (t[k - 1] as u32) < 128 && (t[k] as u32) < 128 && !(t[k - 1] == '\r' && t[k] == '\n'))
}

/// The cut buffer after `deleted` is cut: it replaces the buffer, or joins it on the given
/// side when the last request also cut.
pub open spec fn cut_added(e: EditView, deleted: Seq<char>, left: bool) -> Seq<char> {
    if e.last_cut {
        if left {
            deleted + e.cut
        } else {
            e.cut + deleted
        }
    } else {
        deleted
    }
}

/// A key that edits by words.
pub open spec fn word_key(key: KeyPress) -> bool {
    ||| is_key(key, Key::Left, 2)
    ||| is_key(key, Key::Char('b'), 32)
    ||| is_key(key, Key::Right, 2)
    ||| is_key(key, Key::Char('f'), 32)
    ||| is_key(key, Key::Char('w'), 2)
    ||| is_key(key, Key::Char('d'), 32)
    ||| is_key(key, Key::Backspace, 32)
    ||| is_key(key, Key::Backspace, 4)
    ||| is_key(key, Key::Delete, 2)
}

/// Backspace or Ctrl+H.
pub open spec fn deletes_back(key: KeyPress) -> bool {
    is_key(key, Key::Backspace, 0) || is_key(key, Key::Char('h'), 2)
}

/// Left or Ctrl+B.
pub open spec fn moves_left(key: KeyPress) -> bool {
    is_key(key, Key::Left, 0) || is_key(key, Key::Char('b'), 2)
}

/// Right or Ctrl+F.
pub open spec fn moves_right(key: KeyPress) -> bool {
    is_key(key, Key::Right, 0) || is_key(key, Key::Char('f'), 2)
}

/// What a key does to a text input `e` (with the cursor within the text), giving `f`: a
/// typed character goes in at the cursor; Backspace and Delete remove the grapheme cluster
/// before or after the cursor; Left and Right move over one; Home and End go to either end;
/// Ctrl+Y puts the cut buffer back at the cursor; Ctrl+U cuts the whole line and Ctrl+K the
/// rest of it; word keys do as `word_edit` says; other keys change nothing. Every request
/// but a cut clears the cut flag; moving or deleting past either end changes nothing.
pub open spec fn after_key(e: EditView, key: KeyPress, f: EditView) -> bool {
    let c = e.cursor as int;
    let n = e.text.len() as int;
    if types_char(key) {
        n < isize::MAX ==> f == (EditView {
            text: e.text.insert(c, key.code->Char_0),
            cursor: (c + 1) as usize,
            last_cut: false,
            ..e
        })
    } else if deletes_back(key) || moves_left(key) {
        if c == 0 {
            f == e
        } else {
            let p = grapheme_start_before(e.text, c as nat);
            &&& 0 <= p < c
            &&& (boundary_at(e.text, c - 1) ==> p == c - 1)
            &&& f == if deletes_back(key) {
                EditView { text: e.text.subrange(0, p) + e.text.subrange(c, n), cursor: p as usize, last_cut: false, ..e }
            } else {
                EditView { cursor: p as usize, last_cut: false, ..e }
            }
        }
    } else if is_key(key, Key::Delete, 0) || moves_right(key) {
        if c == n {
            f == e
        } else {
            let q = grapheme_end_after(e.text, c as nat);
            &&& c < q <= n
            &&& (boundary_at(e.text, c + 1) ==> q == c + 1)
            &&& f == if moves_right(key) {
                EditView { cursor: q as usize, last_cut: false, ..e }
            } else {
                EditView { text: e.text.subrange(0, c) + e.text.subrange(q, n), last_cut: false, ..e }
            }
        }
    } else if is_key(key, Key::Home, 0) || is_key(key, Key::Char('a'), 2) {
        f == (EditView { cursor: 0, last_cut: false, ..e })
    } else if is_key(key, Key::End, 0) || is_key(key, Key::Char('e'), 2) {
        f == (EditView { cursor: n as usize, last_cut: false, ..e })
    } else if is_key(key, Key::Char('y'), 2) {
        if e.cut.len() == 0 {
            f == (EditView { last_cut: false, ..e })
        } else {
            n + e.cut.len() <= isize::MAX ==> f == (EditView {
                text: e.text.subrange(0, c) + e.cut + e.text.subrange(c, n),
                cursor: (c + e.cut.len()) as usize,
                last_cut: false,
                ..e
            })
        }
    } else if is_key(key, Key::Char('u'), 2) {
        if n == 0 {
            f == (EditView { last_cut: true, ..e })
        } else {
            f == (EditView { text: Seq::empty(), cursor: 0, cut: cut_added(e, e.text, c == n), last_cut: true })
        }
    } else if is_key(key, Key::Char('k'), 2) {
        f == (EditView {
            text: e.text.subrange(0, c),
            cut: cut_added(e, e.text.subrange(c, n), false),
            last_cut: true,
            ..e
        })
    } else if word_key(key) {
        f == word_edit(e.text, e.cursor, e.cut, e.last_cut, key)
    } else {
        f == e
    }
}

/// A key that the input turns into typing its character: a character with no modifier,
/// with Shift, or with Control and Alt together (the modifier bits that crossterm knows are
/// the low six).
pub open spec fn types_char(key: KeyPress) -> bool {
    key.code is Char && ((key.modifiers as int) % 64 == 0 || (key.modifiers as int) % 64 == 1
        || (key.modifiers as int) % 64 == 6)
}

/// A new, empty text input.
///
/// Calls `tui_input::Input::default` (derived): empty text, cursor at 0, empty cut buffer,
/// no cut last.
#[verifier::external_body]
fn empty_input() -> (r: tui_input::Input)
    ensures
        edit_view(r) == (EditView { text: Seq::empty(), cursor: 0, cut: Seq::empty(), last_cut: false }),
{
    tui_input::Input::default()
}

/// The text of an input.
///
/// Calls `tui_input::Input::value`, which hands out the text the input holds.
#[verifier::external_body]
fn input_value(input: &tui_input::Input) -> (r: String)
    ensures
        r@ == input_text(*input),
{
    input.value().to_string()
}

/// The display column of an input's cursor.
pub uninterp spec fn input_cursor_column(input: tui_input::Input) -> usize;

/// The column of the cursor of an input, counting the display width of the characters
/// before it.
///
/// Calls `tui_input::Input::visual_cursor`; the result is named `input_cursor_column`.
#[verifier::external_body]
fn visual_cursor(input: &tui_input::Input) -> (r: usize)
    ensures
        r == input_cursor_column(*input),
{
    input.visual_cursor()
}

/// A rectangle of terminal cells.
#[derive(Debug, Clone, Copy, PartialEq, Eq, Structural)]
pub struct Area {
    pub x: u16,
    pub y: u16,
    pub width: u16,
    pub height: u16,
}

/// The sum of two cell coordinates, kept at the largest coordinate.
pub open spec fn sat_add(a: u16, b: u16) -> u16 {
    if a + b > u16::MAX {
        u16::MAX
    } else {
        (a + b) as u16
    }
}

impl Area {
    /// The column just right of the area.
    pub fn right(&self) -> (r: u16)
        ensures
            r == sat_add(self.x, self.width),
    {
        self.x.saturating_add(self.width)
    }
}

/// The crossterm key code for a key.
#[verifier::external_body]
fn crossterm_code(code: Key) -> TermKey {
    match code {
        Key::Char(c) => TermKey::Char(c), Key::Esc => TermKey::Esc, Key::Enter => TermKey::Enter,
        Key::Tab => TermKey::Tab, Key::BackTab => TermKey::BackTab, Key::Backspace => TermKey::Backspace,
        Key::Delete => TermKey::Delete, Key::Insert => TermKey::Insert, Key::Up => TermKey::Up,
        Key::Down => TermKey::Down, Key::Left => TermKey::Left, Key::Right => TermKey::Right,
        Key::Home => TermKey::Home, Key::End => TermKey::End, Key::PageUp => TermKey::PageUp,
        Key::PageDown => TermKey::PageDown, Key::F(n) => TermKey::F(n), Key::Other => TermKey::Null,
    }
}

/// Edits an input with a key press.
///
/// Calls `tui_input::backend::crossterm::EventHandler::handle_event` with the key as a
/// crossterm key press. `to_input_request` turns the key into a request and `Input::handle`
/// performs it; the contract restates both as `after_key`, naming what the Unicode
/// grapheme and word segmentation decide (`grapheme_start_before`, `grapheme_end_after`,
/// `word_edit`). The cursor counts the characters preceding it, so it stays within the text;
/// a `String` holds at most `isize::MAX` bytes. Growing the text past that panics, as any
/// `String` does, and is not stated.
#[verifier::external_body]
fn input_handle_key(input: &mut tui_input::Input, key: KeyPress)
    ensures
        edit_ok(edit_view(*final(input))),
        edit_ok(edit_view(*old(input))) ==> after_key(edit_view(*old(input)), key, edit_view(*final(input))),
        edit_ok(edit_view(*old(input))) && (deletes_back(key) || moves_left(key)) && input_cursor(*old(input)) > 0
            ==> input_cursor(*final(input)) == grapheme_start_before(
            input_text(*old(input)),
            input_cursor(*old(input)) as nat,
        ),
        edit_ok(edit_view(*old(input))) && moves_right(key) && input_cursor(*old(input)) < input_text(
            *old(input),
        ).len() ==> input_cursor(*final(input)) == grapheme_end_after(
            input_text(*old(input)),
            input_cursor(*old(input)) as nat,
        ),
        edit_ok(edit_view(*old(input))) && word_key(key) ==> edit_view(*final(input)) == word_edit(
            input_text(*old(input)),
            input_cursor(*old(input)),
            input_cut(*old(input)),
            input_last_cut(*old(input)),
            key,
        ),
{
    let modifiers = crossterm::event::KeyModifiers::from_bits_truncate(key.modifiers);
    let event = crossterm::event::Event::Key(crossterm::event::KeyEvent::new(crossterm_code(key.code), modifiers));
    tui_input::backend::crossterm::EventHandler::handle_event(input, &event);
}

/// What the merge request popup is doing.
#[derive(Debug, Clone, Copy, PartialEq, Eq, Structural)]
pub enum MrViewMode {
    /// Moving through the comments.
    Scrolling,
    /// Writing a new comment.
    Composing,
    /// Choosing an Atlantis command for an Atlantis comment.
    AtlantisAction { note_idx: usize, selected: usize },
}

/// The state of the merge request popup.
pub struct MrViewState {
    pub project_id: ProjectId,
    pub mr: Option<MrView>,
    pub loading: bool,
    /// The highlighted comment.
    pub selected: Option<usize>,
    pub mode: MrViewMode,
    pub comment_input: tui_input::Input,
}

pub struct MrViewStateView {
    pub project_id: ProjectId,
    pub mr: Option<MrViewModel>,
    pub loading: bool,
    pub selected: Option<usize>,
    pub mode: MrViewMode,
    pub comment: Seq<char>,
    pub cursor: usize,
    pub cut: Seq<char>,
    pub last_cut: bool,
}

pub open spec fn opt_mr_view(mr: Option<MrView>) -> Option<MrViewModel> {
    match mr {
        Some(m) => Some(m@),
        None => None,
    }
}

impl View for MrViewState {
    type V = MrViewStateView;

    open spec fn view(&self) -> MrViewStateView {
        MrViewStateView {
            project_id: self.project_id,
            mr: opt_mr_view(self.mr),
            loading: self.loading,
            selected: self.selected,
            mode: self.mode,
            comment: input_text(self.comment_input),
            cursor: input_cursor(self.comment_input),
            cut: input_cut(self.comment_input),
            last_cut: input_last_cut(self.comment_input),
        }
    }
}

/// The selection after moving up: wraps from the first comment to the last; nothing
/// changes without comments.
pub open spec fn scrolled_up(s: MrViewStateView) -> Option<usize> {
    match s.mr {
        Some(mr) => if mr.notes.len() == 0 {
            s.selected
        } else {
            let i = match s.selected {
                Some(i) => i,
                None => 0,
            };
            Some(if i == 0 { (mr.notes.len() - 1) as usize } else { (i - 1) as usize })
        },
        None => s.selected,
    }
}

/// The selection after moving down: wraps from the last comment to the first.
pub open spec fn scrolled_down(s: MrViewStateView) -> Option<usize> {
    match s.mr {
        Some(mr) => if mr.notes.len() == 0 {
            s.selected
        } else {
            let i = match s.selected {
                Some(i) => i,
                None => 0,
            };
            Some(((i + 1) % (mr.notes.len() as int)) as usize)
        },
        None => s.selected,
    }
}

/// Moving down is possible: the selection is not at the largest index while there are
/// comments.
pub open spec fn can_scroll_down(s: MrViewStateView) -> bool {
    !(s.mr matches Some(mr) && mr.notes.len() > 0 && s.selected == Some(usize::MAX))
}

impl MrViewState {
    /// A popup for a project's merge request, loading, with nothing selected.
    pub fn new(project_id: ProjectId) -> (r: Self)
        ensures
            r@.project_id == project_id,
            r@.mr is None,
            r@.loading,
            r@.selected is None,
            r@.mode == MrViewMode::Scrolling,
            r@.comment == Seq::<char>::empty(),
            r@.cursor == 0,
            r@.cut == Seq::<char>::empty(),
            !r@.last_cut,
    {
        MrViewState {
            project_id,
            mr: None,
            loading: true,
            selected: None,
            mode: MrViewMode::Scrolling,
            comment_input: empty_input(),
        }
    }

    /// Shows a loaded merge request.
    pub fn set_mr(&mut self, mr: MrView)
        ensures
            final(self)@ == (MrViewStateView { mr: Some(mr@), loading: false, ..old(self)@ }),
    {
        self.mr = Some(mr);
        self.loading = false;
    }

    /// Replaces the comments of the shown merge request and selects the first one if
    /// there are any; without a merge request nothing changes.
    pub fn set_notes(&mut self, notes: Vec<MrNote>)
        ensures
            match old(self)@.mr {
                Some(mr) => final(self)@ == (MrViewStateView {
                    mr: Some(MrViewModel { notes: notes_view(notes@), ..mr }),
                    selected: if notes@.len() > 0 { Some(0usize) } else { old(self)@.selected },
                    ..old(self)@
                }),
                None => final(self)@ == old(self)@,
            },
    {
        match self.mr.take() {
            Some(mut mr) => {
                let nonempty = notes.len() > 0;
                mr.notes = notes;
                self.mr = Some(mr);
                if nonempty {
                    self.selected = Some(0);
                }
            },
            None => {},
        }
    }

    /// Selects the previous comment, wrapping to the last.
    pub fn scroll_up(&mut self)
        ensures
            final(self)@ == (MrViewStateView { selected: scrolled_up(old(self)@), ..old(self)@ }),
    {
        match &self.mr {
            Some(mr) => {
                let n = mr.notes.len();
                if n == 0 {
                    return;
                }
                let i = match self.selected {
                    Some(i) => i,
                    None => 0,
                };
                let new = if i == 0 { n - 1 } else { i - 1 };
                self.selected = Some(new);
            },
            None => {},
        }
    }

    /// Selects the next comment, wrapping to the first.
    pub fn scroll_down(&mut self)
        requires
            can_scroll_down(old(self)@),
        ensures
            final(self)@ == (MrViewStateView { selected: scrolled_down(old(self)@), ..old(self)@ }),
    {
        match &self.mr {
            Some(mr) => {
                let n = mr.notes.len();
                if n == 0 {
                    return;
                }
                let i = match self.selected {
                    Some(i) => i,
                    None => 0,
                };
                let new = (i + 1) % n;
                self.selected = Some(new);
            },
            None => {},
        }
    }

    /// The selected comment, if the selection names one.
    pub fn selected_note(&self) -> (r: Option<&MrNote>)
        ensures
            match r {
                Some(n) => self@.mr matches Some(mr) && self@.selected matches Some(i) && i < mr.notes.len()
                    && n@ == mr.notes[i as int],
                None => !(self@.mr matches Some(mr) && self@.selected matches Some(i) && i < mr.notes.len()),
            },
    {
        match &self.mr {
            Some(mr) => match self.selected {
                Some(i) => if i < mr.notes.len() {
                    Some(&mr.notes[i])
                } else {
                    None
                },
                None => None,
            },
            None => None,
        }
    }

    /// The text being written.
    pub fn comment(&self) -> (r: String)
        ensures
            r@ == self@.comment,
    {
        input_value(&self.comment_input)
    }

    /// Empties the comment input.
    pub fn clear_comment(&mut self)
        ensures
            final(self)@ == (MrViewStateView { comment: Seq::empty(), cursor: 0, cut: Seq::empty(), last_cut: false, ..old(self)@ }),
    {
        self.comment_input = empty_input();
    }

    /// Edits the comment with a key press, as `after_key` says.
    pub fn edit_comment(&mut self, key: KeyPress)
        ensures
            edited(old(self)@, key, final(self)@),
    {
        input_handle_key(&mut self.comment_input, key);
    }
}

/// The editing state of the comment.
pub open spec fn comment_edit(s: MrViewStateView) -> EditView {
    EditView { text: s.comment, cursor: s.cursor, cut: s.cut, last_cut: s.last_cut }
}

/// `after` is `before` with the comment edited by `key`: nothing but the comment's editing
/// state changes, the cursor stays within the text, and the change is what `after_key` says.
pub open spec fn edited(before: MrViewStateView, key: KeyPress, after: MrViewStateView) -> bool {
    &&& after == (MrViewStateView {
        comment: after.comment,
        cursor: after.cursor,
        cut: after.cut,
        last_cut: after.last_cut,
        ..before
    })
    &&& edit_ok(comment_edit(after))
    &&& edit_ok(comment_edit(before)) ==> after_key(comment_edit(before), key, comment_edit(after))
}

/// Where the terminal cursor goes inside the comment input drawn in `area`: one cell in
/// from its border, after the text before the cursor, but left of the right border.
pub open spec fn cursor_cell(area: Area, column: usize) -> (u16, u16) {
    let x = area.x + 1 + (column as u16);
    let right = sat_add(area.x, area.width);
    let limit: int = if right >= 1 { right - 1 } else { 0 };
    ((if x < limit { x } else { limit }) as u16, (area.y + 1) as u16)
}

/// The cursor fits on the screen: moving it one cell in and past the text stays within
/// the coordinates.
pub open spec fn cursor_fits(area: Area, column: usize) -> bool {
    area.x + 1 + (column as u16) <= u16::MAX && area.y + 1 <= u16::MAX
}

impl MrViewState {
    /// Where the terminal cursor goes inside the comment input drawn in `input_area`.
    pub fn cursor_position(&self, input_area: Area) -> (r: (u16, u16))
        requires
            cursor_fits(input_area, input_cursor_column(self.comment_input)),
        ensures
            r == cursor_cell(input_area, input_cursor_column(self.comment_input)),
    {
        let column = visual_cursor(&self.comment_input);
        let x: u16 = input_area.x + 1 + (column as u16);
        let y: u16 = input_area.y + 1;
        let right = input_area.right();
        let limit: u16 = right.saturating_sub(1);
        (if x < limit { x } else { limit }, y)
    }

    /// Where the terminal cursor goes, or nothing where it would not fit on the screen.
    pub fn checked_cursor_position(&self, input_area: Area) -> (r: Option<(u16, u16)>)
        ensures
            cursor_fits(input_area, input_cursor_column(self.comment_input)) ==> r == Some(
                cursor_cell(input_area, input_cursor_column(self.comment_input)),
            ),
            !cursor_fits(input_area, input_cursor_column(self.comment_input)) ==> r is None,
    {
        let column = visual_cursor(&self.comment_input);
        let c = column as u16;
        if input_area.x < u16::MAX && c <= u16::MAX - input_area.x - 1 && input_area.y < u16::MAX {
            Some(self.cursor_position(input_area))
        } else {
            None
        }
    }
}

/// How the state of a merge request is coloured.
#[derive(Debug, Clone, Copy, PartialEq, Eq, Structural)]
pub enum MrStateTone {
    /// `opened`
    Opened,
    /// `merged`
    Merged,
    /// Anything else, such as `closed`.
    Other,
}

/// The command buttons under an Atlantis comment, with the highlighted one, if any.
pub open spec fn atlantis_highlight_of(mode: MrViewMode, idx: usize) -> Option<usize> {
    match mode {
        MrViewMode::AtlantisAction { note_idx, selected } => if note_idx == idx {
            Some(if selected == 0 { 0usize } else { 1usize })
        } else {
            None
        },
        _ => None,
    }
}

/// The title of the comment input.
pub open spec fn input_title_of(mode: MrViewMode) -> Seq<char> {
    if mode == MrViewMode::Composing {
        " New Comment (Enter submit  Esc cancel) "@
    } else {
        " New Comment (Tab to compose) "@
    }
}

/// How many lines of a comment's text are shown.
pub const NOTE_BODY_LINES: usize = 8;

/// The merge request popup: its text, line by line, for drawing.
pub struct MrViewPopup;

impl MrViewPopup {
    /// Only the loading message is shown while loading or without a merge request.
    pub fn shows_loading(state: &MrViewState) -> (r: bool)
        ensures
            r == (state@.loading || state@.mr is None),
    {
        state.loading || state.mr.is_none()
    }

    /// The colour class of a merge request state.
    pub fn state_tone(state: &str) -> (r: MrStateTone)
        ensures
            state@ == "opened"@ ==> r == MrStateTone::Opened,
            state@ == "merged"@ ==> r == MrStateTone::Merged,
            state@ != "opened"@ && state@ != "merged"@ ==> r == MrStateTone::Other,
    {
        proof {
            reveal_strlit("opened");
            reveal_strlit("merged");
            assert("opened"@[0] != "merged"@[0]);
        }
        if crate::text::text_eq(state, "opened") {
            MrStateTone::Opened
        } else if crate::text::text_eq(state, "merged") {
            MrStateTone::Merged
        } else {
            MrStateTone::Other
        }
    }

    /// The number of the merge request as shown before its title: `!`, the number, two spaces.
    pub fn iid_label(mr: &MrView) -> (r: String)
        ensures
            r@ == "!"@ + decimal(mr@.iid.id() as nat) + "  "@,
    {
        let mut s = String::from_str("!");
        let n = decimal_text(mr.iid.value());
        s.append(n.as_str());
        s.append("  ");
        s
    }

    /// The last header line: how many comments there are and the keys that work.
    pub fn summary_line(mr: &MrView) -> (r: String)
        ensures
            r@ == decimal(mr@.notes.len()) + " note(s) — j/k scroll  Tab compose  a atlantis  w open  Esc close"@,
    {
        let mut s = decimal_text(mr.notes.len() as u64);
        s.append(" note(s) — j/k scroll  Tab compose  a atlantis  w open  Esc close");
        s
    }

    /// The title above the comments.
    pub fn comments_title(mr: &MrView) -> (r: String)
        ensures
            r@ == " Comments ("@ + decimal(mr@.notes.len()) + ") "@,
    {
        let mut s = String::from_str(" Comments (");
        let n = decimal_text(mr.notes.len() as u64);
        s.append(n.as_str());
        s.append(") ");
        s
    }

    /// The author line of a comment: `@`, the author and two spaces, then the date as given
    /// for Atlantis comments; the date of other comments is drawn on its own.
    pub fn author_label(note: &MrNote, date: &str) -> (r: String)
        ensures
            r@ == "@"@ + note@.author_username + "  "@ + (if note@.is_atlantis { date@ } else { ""@ }),
    {
        let mut s = String::from_str("@");
        s.append(note.author_username.as_str());
        s.append("  ");
        if note.is_atlantis {
            s.append(date);
        } else {
            s.append("");
        }
        s
    }

    /// The lines of a comment's text that are shown: the first eight.
    pub fn body_lines(note: &MrNote) -> (r: Vec<String>)
        ensures
            r@.len() == if text_lines(note@.body).len() < NOTE_BODY_LINES {
                text_lines(note@.body).len()
            } else {
                NOTE_BODY_LINES as nat
            },
            forall|k: int| 0 <= k < r@.len() ==> #[trigger] r@[k]@ == text_lines(note@.body)[k],
    {
        first_lines(note.body.as_str(), NOTE_BODY_LINES)
    }

    /// Which Atlantis command button under comment `idx` is highlighted: the first (plan)
    /// or the second (apply) while that comment's commands are being chosen, else none.
    pub fn atlantis_highlight(mode: MrViewMode, idx: usize) -> (r: Option<usize>)
        ensures
            r == atlantis_highlight_of(mode, idx),
    {
        match mode {
            MrViewMode::AtlantisAction { note_idx, selected } => if note_idx == idx {
                Some(if selected == 0 { 0 } else { 1 })
            } else {
                None
            },
            _ => None,
        }
    }

    /// The labels of the two Atlantis command buttons.
    pub fn atlantis_buttons() -> (r: (&'static str, &'static str))
        ensures
            r.0@ == "[ atlantis plan ]"@,
            r.1@ == "[ atlantis apply ]"@,
    {
        ("[ atlantis plan ]", "[ atlantis apply ]")
    }

    /// The title of the comment input, which says which keys work.
    pub fn input_title(mode: MrViewMode) -> (r: &'static str)
        ensures
            r@ == input_title_of(mode),
    {
        match mode {
            MrViewMode::Composing => " New Comment (Enter submit  Esc cancel) ",
            _ => " New Comment (Tab to compose) ",
        }
    }
}

/// The selection names a comment, or there is none.
pub open spec fn selection_in_notes(s: MrViewStateView) -> bool {
    s.mr matches Some(mr) && s.selected matches Some(i) ==> i < mr.notes.len()
}

/// Moving down and back up, or up and back down, returns the selection to the comment it
/// was on.
pub proof fn law_scrolling_undoes(s: MrViewStateView)
    requires
        s.mr is Some,
        s.selected is Some,
        selection_in_notes(s),
        s.mr->0.notes.len() <= usize::MAX,
    ensures
        scrolled_up(MrViewStateView { selected: scrolled_down(s), ..s }) == s.selected,
        scrolled_down(MrViewStateView { selected: scrolled_up(s), ..s }) == s.selected,
{
    let n = s.mr->0.notes.len() as int;
    let i = s.selected->0 as int;
    if i + 1 < n {
        vstd::arithmetic::div_mod::lemma_fundamental_div_mod_converse(i + 1, n, 0, i + 1);
    } else {
        vstd::arithmetic::div_mod::lemma_fundamental_div_mod_converse(i + 1, n, 1, 0);
    }
    if i > 0 {
        vstd::arithmetic::div_mod::lemma_fundamental_div_mod_converse(i, n, 0, i);
    } else {
        vstd::arithmetic::div_mod::lemma_fundamental_div_mod_converse(n, n, 1, 0);
    }
}

/// Scrolling keeps the selection on a comment.
pub proof fn law_scrolling_stays_in_range(s: MrViewStateView)
    requires
        selection_in_notes(s),
        s.mr matches Some(mr) ==> mr.notes.len() <= usize::MAX,
    ensures
        selection_in_notes(MrViewStateView { selected: scrolled_down(s), ..s }),
        selection_in_notes(MrViewStateView { selected: scrolled_up(s), ..s }),
{
    if s.mr is Some && s.mr->0.notes.len() > 0 {
        let i: int = match s.selected {
            Some(i) => i as int,
            None => 0,
        };
        vstd::arithmetic::div_mod::lemma_mod_bound(i + 1, s.mr->0.notes.len() as int);
    }
}

} // verus!
