//! The interpreter: it plays the instructions of a compiled script, one step
//! for each tick that is due. A step types one unit of pending text, or
//! takes the next instruction.

use crate::ui::document::{
    cut_region, found_column, held, newlines, offset_of, Document, DocumentView,
};
use crate::ui::geometry::{clamp, clamped, clamped_wide, Pos, Region, Size};
use crate::ui::instructions::{instruction_views, Instruction, InstructionView};
use crate::ui::markers::{generate, lookup, merged, scanned, shift_from, MarkerView};
use crate::ui::random::{scramble, Random};
use crate::ui::textbuffer::{next_unit, TextBuffer};
use crate::ui::time::Duration;
use crate::width::{str_width, unicode_str_width};
use std::collections::VecDeque;
use vstd::prelude::*;
use vstd::string::StringExecFns;

verus! {

/// What is to be done once a step was taken.
#[derive(Debug)]
pub enum Action {
    /// Nothing changed: nothing is to be drawn.
    Skip,
    /// Draw the document.
    Render,
    /// Play the sound of the unit that was typed, and draw the document.
    Play(String),
    /// Load the sounds from the directory at this path, and draw the
    /// document. A failure is reported through [`Editor::error`].
    LoadAudio(String),
}

/// What an [`Action`] stands for.
pub enum ActionView {
    Skip,
    Render,
    Play(Seq<char>),
    LoadAudio(Seq<char>),
}

impl View for Action {
    type V = ActionView;

    open spec fn view(&self) -> ActionView {
        match *self {
            Action::Skip => ActionView::Skip,
            Action::Render => ActionView::Render,
            Action::Play(unit) => ActionView::Play(unit@),
            Action::LoadAudio(path) => ActionView::LoadAudio(path@),
        }
    }
}

/// What the interpreter shows to whoever draws it.
#[derive(Debug, Default)]
pub struct DocState {
    pub screen_cursor_x: i32,
    pub screen_cursor_y: i32,
    pub offset_x: i32,
    pub offset_y: i32,
    pub cursor_x: i32,
    pub cursor_y: i32,
    pub height: u16,
    pub title: String,
    pub error: String,
    pub debug: String,
    pub popup: Option<String>,
    pub show_line_numbers: bool,
}

/// What a [`DocState`] stands for.
pub struct DocStateView {
    pub screen_cursor_x: i32,
    pub screen_cursor_y: i32,
    pub offset_x: i32,
    pub offset_y: i32,
    pub cursor_x: i32,
    pub cursor_y: i32,
    pub height: u16,
    pub title: Seq<char>,
    pub error: Seq<char>,
    pub debug: Seq<char>,
    pub popup: Option<Seq<char>>,
    pub show_line_numbers: bool,
}

impl View for DocState {
    type V = DocStateView;

    open spec fn view(&self) -> DocStateView {
        DocStateView {
            screen_cursor_x: self.screen_cursor_x,
            screen_cursor_y: self.screen_cursor_y,
            offset_x: self.offset_x,
            offset_y: self.offset_y,
            cursor_x: self.cursor_x,
            cursor_y: self.cursor_y,
            height: self.height,
            title: self.title@,
            error: self.error@,
            debug: self.debug@,
            popup: match self.popup {
                Some(message) => Some(message@),
                None => None,
            },
            show_line_numbers: self.show_line_numbers,
        }
    }
}

// -----------------------------------------------------------------------------
//   - Virtual editor -
// -----------------------------------------------------------------------------
pub struct Editor {
    doc: Document,
    cursor: Pos,
    offset: Pos,
    selected_range: Option<Region>,
    frame_time: Duration,
    current_time: Duration,
    instructions: VecDeque<Instruction>,
    type_buffer: TextBuffer,
    rand: Random,
    line_pause: Duration,
    extension: String,
    jitter: u64,
    theme: String,
}

/// What an [`Editor`] stands for.
pub struct EditorView {
    pub doc: DocumentView,
    pub cursor: Pos,
    pub offset: Pos,
    pub selected_range: Option<Region>,
    pub frame_time: Duration,
    pub current_time: Duration,
    pub instructions: Seq<InstructionView>,
    pub type_buffer: Seq<char>,
    pub rand: u64,
    pub line_pause: Duration,
    pub extension: Seq<char>,
    pub jitter: u64,
    pub theme: Seq<char>,
}

impl View for Editor {
    type V = EditorView;

    closed spec fn view(&self) -> EditorView {
        EditorView {
            doc: self.doc@,
            cursor: self.cursor,
            offset: self.offset,
            selected_range: self.selected_range,
            frame_time: self.frame_time,
            current_time: self.current_time,
            instructions: instruction_views(self.instructions@),
            type_buffer: self.type_buffer@,
            rand: self.rand@,
            line_pause: self.line_pause,
            extension: self.extension@,
            jitter: self.jitter,
            theme: self.theme@,
        }
    }
}

/// The document with `s` put in at `pos`.
pub open spec fn inserted(doc: DocumentView, pos: Pos, s: Seq<char>) -> DocumentView {
    DocumentView {
        text: doc.text.take(offset_of(doc.text, pos)) + s + doc.text.skip(
            offset_of(doc.text, pos),
        ),
        markers: if newlines(s) > 0 {
            shift_from(doc.markers, (pos.y as usize) as nat, newlines(s))
        } else {
            doc.markers
        },
    }
}

/// `n`, held to the coordinates that a cursor can have: none is negative.
pub open spec fn on_grid(n: int) -> i32 {
    if n < 0 {
        0
    } else {
        clamp(n)
    }
}

/// The instructions with the markers that a scan found put in front, to be
/// merged in at the row `row`; the instructions alone where it found none.
pub open spec fn with_markers(
    instructions: Seq<InstructionView>,
    row: usize,
    markers: Seq<MarkerView>,
) -> Seq<InstructionView> {
    if markers.len() > 0 {
        seq![InstructionView::AddMarkers { row, markers }] + instructions
    } else {
        instructions
    }
}

/// The message that reports a jump to a marker that does not exist.
pub open spec fn missing_marker(name: Seq<char>) -> Seq<char> {
    "marker \""@ + name + "\" does not exist"@
}

/// One step of the interpreter: the interpreter and what it shows behind
/// the step, and what is to be done.
pub struct Stepped {
    pub editor: EditorView,
    pub state: DocStateView,
    pub action: ActionView,
}

/// The step that types `unit`, the next unit of the pending text.
///
/// The unit is put into the document at the cursor. A line feed moves the
/// cursor to the start of the next row, and arms the line pause where one is
/// set; any other unit moves the cursor on by its width.
pub open spec fn typed(editor: EditorView, state: DocStateView) -> Stepped {
    let unit = next_unit(editor.type_buffer);
    let line_feed = unit == seq!['\n'];
    Stepped {
        editor: EditorView {
            doc: inserted(editor.doc, editor.cursor, unit),
            type_buffer: editor.type_buffer.skip(unit.len() as int),
            cursor: if line_feed {
                Pos { x: 0, y: clamp(editor.cursor.y + 1) }
            } else {
                Pos { x: clamp(editor.cursor.x + unicode_str_width(unit)), y: editor.cursor.y }
            },
            current_time: if line_feed && !editor.line_pause.is_zero() {
                editor.line_pause
            } else {
                editor.current_time
            },
            ..editor
        },
        state,
        action: ActionView::Play(unit),
    }
}

/// The step that takes `instruction`, where `editor` holds the
/// instructions behind it.
pub open spec fn executed(
    editor: EditorView,
    state: DocStateView,
    instruction: InstructionView,
) -> Stepped {
    let render = ActionView::Render;
    match instruction {
        InstructionView::LoadTypeBuffer(content) => Stepped {
            editor: EditorView {
                type_buffer: editor.type_buffer + scanned(content).content,
                instructions: with_markers(
                    editor.instructions,
                    editor.cursor.y as usize,
                    scanned(content).markers,
                ),
                ..editor
            },
            state,
            action: render,
        },
        InstructionView::Insert(content) => {
            let cursor = Pos { x: 0, y: editor.cursor.y };
            Stepped {
                editor: EditorView {
                    cursor,
                    doc: inserted(editor.doc, cursor, scanned(content).content),
                    instructions: with_markers(
                        editor.instructions,
                        editor.cursor.y as usize,
                        scanned(content).markers,
                    ),
                    ..editor
                },
                state,
                action: render,
            }
        },
        InstructionView::AddMarkers { row, markers } => Stepped {
            editor: EditorView {
                doc: DocumentView {
                    text: editor.doc.text,
                    markers: merged(editor.doc.markers, row as nat, markers),
                },
                ..editor
            },
            state,
            action: render,
        },
        InstructionView::Jump(by) => Stepped {
            editor: EditorView {
                cursor: Pos {
                    x: on_grid(editor.cursor.x + by.x),
                    y: on_grid(editor.cursor.y + by.y),
                },
                ..editor
            },
            state,
            action: render,
        },
        InstructionView::JumpToMarker(name) => match lookup(editor.doc.markers, name) {
            Some(marker) => Stepped {
                editor: EditorView { cursor: Pos { x: 0, y: clamp(marker.row as int) }, ..editor },
                state,
                action: render,
            },
            None => Stepped {
                editor: EditorView { instructions: Seq::empty(), ..editor },
                state: DocStateView { error: missing_marker(name), ..state },
                action: render,
            },
        },
        InstructionView::Select(size) => if size.is_empty() {
            Stepped { editor, state, action: render }
        } else {
            let region = Region::new(editor.cursor, size);
            Stepped {
                editor: EditorView {
                    cursor: Pos { x: (region.to.x - 1) as i32, y: (region.to.y - 1) as i32 },
                    selected_range: Some(region),
                    ..editor
                },
                state,
                action: render,
            }
        },
        InstructionView::Delete => match editor.selected_range {
            Some(region) => Stepped {
                editor: EditorView {
                    cursor: region.from,
                    selected_range: None,
                    doc: DocumentView {
                        text: cut_region(editor.doc.text, region),
                        markers: editor.doc.markers,
                    },
                    ..editor
                },
                state,
                action: render,
            },
            None => Stepped {
                editor: EditorView {
                    doc: DocumentView {
                        text: cut_region(
                            editor.doc.text,
                            Region::new(editor.cursor, Size { width: 1, height: 1 }),
                        ),
                        markers: editor.doc.markers,
                    },
                    ..editor
                },
                state,
                action: render,
            },
        },
        InstructionView::Wait(time) => Stepped {
            editor: EditorView { current_time: time, ..editor },
            state,
            action: render,
        },
        InstructionView::Speed(time) => Stepped {
            editor: EditorView { frame_time: time, ..editor },
            state,
            action: render,
        },
        InstructionView::LinePause(time) => Stepped {
            editor: EditorView { line_pause: time, ..editor },
            state,
            action: render,
        },
        InstructionView::FindInCurrentLine(needle) => match found_column(
            editor.doc.text,
            editor.cursor.y as int,
            needle,
        ) {
            Some(column) => Stepped {
                editor: EditorView {
                    cursor: Pos { x: clamp(held(column) as int), y: editor.cursor.y },
                    ..editor
                },
                state,
                action: render,
            },
            None => Stepped { editor, state, action: render },
        },
        InstructionView::SetTitle(title) => Stepped {
            editor,
            state: DocStateView { title, ..state },
            action: render,
        },
        InstructionView::SetJitter(jitter) => Stepped {
            editor: EditorView { jitter, ..editor },
            state,
            action: render,
        },
        InstructionView::ShowLineNumbers(show) => Stepped {
            editor,
            state: DocStateView { show_line_numbers: show, ..state },
            action: render,
        },
        InstructionView::Clear => Stepped {
            editor: EditorView {
                doc: DocumentView { text: Seq::empty(), markers: Seq::empty() },
                offset: Pos::zero(),
                cursor: Pos::zero(),
                ..editor
            },
            state,
            action: render,
        },
        InstructionView::SetExtension(extension) => Stepped {
            editor: EditorView { extension, ..editor },
            state,
            action: render,
        },
        InstructionView::SetTheme(theme) => Stepped {
            editor: EditorView { theme, ..editor },
            state,
            action: render,
        },
        InstructionView::LoadAudio(path) => Stepped {
            editor,
            state,
            action: ActionView::LoadAudio(path),
        },
        InstructionView::Popup(message) => Stepped {
            editor,
            state: DocStateView { popup: Some(message), ..state },
            action: render,
        },
        InstructionView::ClosePopup => Stepped {
            editor,
            state: DocStateView { popup: None, ..state },
            action: render,
        },
    }
}

/// One step: pending text is typed first; with none pending, the next
/// instruction is taken; with none left, nothing happens.
pub open spec fn applied(editor: EditorView, state: DocStateView) -> Stepped {
    if editor.type_buffer.len() > 0 {
        typed(editor, state)
    } else if editor.instructions.len() > 0 {
        executed(
            EditorView { instructions: editor.instructions.skip(1), ..editor },
            state,
            editor.instructions[0],
        )
    } else {
        Stepped { editor, state, action: ActionView::Skip }
    }
}

/// Whether a step was `stepped`: the interpreter and what it shows are what
/// the step left, and `action` is what it asks for.
pub open spec fn took(
    stepped: Stepped,
    editor: EditorView,
    state: DocStateView,
    action: ActionView,
) -> bool {
    stepped.editor == editor && stepped.state == state && stepped.action == action
}

/// The rows that are kept free below the cursor.
pub const PADDING: i32 = 7;

/// The offset of the view on one axis: where the cursor would leave the
/// view behind its last cell `last`, the view follows it; where it would
/// leave it before its first cell, the view goes back to it.
pub open spec fn scrolled(cursor: i32, offset: i32, last: int) -> i32 {
    if cursor + offset > last {
        clamp(last - cursor)
    } else if cursor + offset < 0 {
        clamp(-cursor)
    } else {
        offset
    }
}

/// The offset of the view for a canvas of the size `size`.
pub open spec fn view_offset(cursor: Pos, offset: Pos, size: Size) -> Pos {
    Pos {
        x: scrolled(cursor.x, offset.x, size.width - 1),
        y: scrolled(cursor.y, offset.y, size.height - 1 - PADDING),
    }
}

/// What is shown once the view has followed the cursor.
pub open spec fn shown(state: DocStateView, cursor: Pos, offset: Pos) -> DocStateView {
    DocStateView {
        screen_cursor_x: clamp(cursor.x + offset.x),
        screen_cursor_y: clamp(cursor.y + offset.y),
        cursor_x: cursor.x,
        cursor_y: cursor.y,
        offset_x: offset.x,
        offset_y: offset.y,
        ..state
    }
}

/// The time to the next step: the frame time and a jitter below the bound.
pub open spec fn next_delay(editor: EditorView) -> Duration {
    editor.frame_time.saturating_add(
        Duration::from_millis(
            if editor.jitter == 0 {
                0
            } else {
                scramble(editor.rand) % editor.jitter
            },
        ),
    )
}

/// One tick, `dt` behind the last one, on a canvas of the size `size`.
///
/// While the time to the next step has not passed, nothing happens. Once it
/// has, the time is set anew, one step is taken, and the view follows the
/// cursor unless the step changed nothing.
pub open spec fn ticked(editor: EditorView, state: DocStateView, size: Size, dt: Duration) -> Stepped {
    let state = DocStateView { height: size.height, ..state };
    let left = editor.current_time.saturating_sub(dt);
    if !left.is_zero() {
        Stepped {
            editor: EditorView { current_time: left, ..editor },
            state,
            action: ActionView::Skip,
        }
    } else {
        let step = applied(
            EditorView {
                current_time: next_delay(editor),
                rand: scramble(editor.rand),
                ..editor
            },
            state,
        );
        if step.action is Skip {
            step
        } else {
            let offset = view_offset(step.editor.cursor, step.editor.offset, size);
            Stepped {
                editor: EditorView { offset, ..step.editor },
                state: shown(step.state, step.editor.cursor, offset),
                action: step.action,
            }
        }
    }
}

impl EditorView {
    /// The cursor, and the region that is selected, lie on the grid: no
    /// coordinate is negative.
    pub open spec fn wf(self) -> bool {
        &&& self.cursor.x >= 0
        &&& self.cursor.y >= 0
        &&& self.selected_range matches Some(region) ==> region.from.x >= 0 && region.from.y
            >= 0
    }
}

impl Editor {
    /// The interpreter that is to play `instructions`, with an empty
    /// document and the cursor at the origin.
    pub fn new(instructions: Vec<Instruction>, frame_time: Duration, rand: Random) -> (out: Self)
        ensures
            out@ == (EditorView {
                doc: DocumentView { text: Seq::empty(), markers: Seq::empty() },
                cursor: Pos::zero(),
                offset: Pos::zero(),
                selected_range: None,
                frame_time,
                current_time: Duration::zero(),
                instructions: instruction_views(instructions@),
                type_buffer: Seq::empty(),
                rand: rand@,
                line_pause: Duration::zero(),
                extension: "txt"@,
                jitter: 20,
                theme: "togglebit"@,
            }),
            out@.wf(),
    {
        let mut queue: VecDeque<Instruction> = VecDeque::new();
        let mut instructions = instructions;
        let ghost all = instructions@;
        while instructions.len() > 0
            invariant
                instructions@.len() + queue@.len() == all.len(),
                forall|k: int| 0 <= k < instructions@.len() ==> instructions@[k] == all[k],
                forall|k: int|
                    0 <= k < queue@.len() ==> queue@[k] == all[instructions@.len() + k],
            decreases instructions.len(),
        {
            let last = instructions.pop().unwrap();
            queue.push_front(last);
        }
        assert(queue@ =~= all);
        let doc = Document::new("");
        proof {
            reveal_strlit("");
            assert(scanned(""@).content =~= Seq::<char>::empty());
            assert(scanned(""@).markers =~= Seq::<MarkerView>::empty());
        }
        Self {
            doc,
            cursor: Pos::zero(),
            offset: Pos::zero(),
            selected_range: None,
            frame_time,
            current_time: Duration::zero(),
            instructions: queue,
            type_buffer: TextBuffer::new(),
            rand,
            line_pause: Duration::zero(),
            extension: String::from_str("txt"),
            jitter: 20,
            theme: String::from_str("togglebit"),
        }
    }

    /// Ends the script and shows `msg` as its error: what is played so far stays.
    pub fn error(&mut self, state: &mut DocState, msg: String)
        ensures
            final(self)@ == (EditorView { instructions: Seq::empty(), ..old(self)@ }),
            final(state)@ == (DocStateView { error: msg@, ..old(state)@ }),
    {
        self.instructions.clear();
        state.error = msg;
        assert(instruction_views(self.instructions@) =~= Seq::<InstructionView>::empty());
    }

    /// Takes one step.
    pub fn apply(&mut self, state: &mut DocState) -> (action: Action)
        ensures
            took(applied(old(self)@, old(state)@), final(self)@, final(state)@, action@),
            old(self)@.wf() ==> final(self)@.wf(),
    {
        // If we have something to type then do that.
        // otherwise load the next instruction
        if let Some(s) = self.type_buffer.next() {
            // type next char
            self.doc.insert_str(self.cursor, s.as_str());
            let feed = String::from_str("\n");
            proof {
                reveal_strlit("\n");
                assert(feed@ =~= seq!['\n']);
            }
            if s == feed {
                self.cursor.x = 0;
                self.cursor.y = clamped(self.cursor.y as i64 + 1);
                if !self.line_pause.is_zero() {
                    self.current_time = self.line_pause;
                }
            } else {
                let width = str_width(s.as_str());
                self.cursor.x = clamped_wide(self.cursor.x as i128 + width as i128);
            }
            return Action::Play(s);
        }
        assert(self.type_buffer@ =~= old(self)@.type_buffer);
        let ghost rest = old(self)@.instructions.skip(1);
        let instruction = self.instructions.pop_front();
        proof {
            if old(self)@.instructions.len() > 0 {
                assert(instruction_views(self.instructions@) =~= rest);
            }
        }
        match instruction {
            None => {
                return Action::Skip;
            },
            Some(instruction) => match instruction {
                Instruction::LoadTypeBuffer(content) => {
                    // Make markers and all that what what
                    let (content, markers) = generate(content.as_str());
                    self.type_buffer.push(content.as_str());
                    if let Some(markers) = markers {
                        let ghost before = instruction_views(self.instructions@);
                        let added = Instruction::AddMarkers {
                            row: #[verifier::truncate]
                            (self.cursor.y as usize),
                            markers,
                        };
                        self.instructions.push_front(added);
                        assert(instruction_views(self.instructions@) =~= seq![added@] + before);
                    }
                },
                Instruction::Insert(content) => {
                    let (content, markers) = generate(content.as_str());
                    self.cursor.x = 0;
                    self.doc.insert_str(self.cursor, content.as_str());
                    if let Some(markers) = markers {
                        let ghost before = instruction_views(self.instructions@);
                        let added = Instruction::AddMarkers {
                            row: #[verifier::truncate]
                            (self.cursor.y as usize),
                            markers,
                        };
                        self.instructions.push_front(added);
                        assert(instruction_views(self.instructions@) =~= seq![added@] + before);
                    }
                },
                Instruction::AddMarkers { row, markers } => self.doc.add_markers(row, markers),
                Instruction::Jump(pos) => {
                    // Don't move the cursor past zero
                    self.cursor.x = on_the_grid(self.cursor.x as i64 + pos.x as i64);
                    self.cursor.y = on_the_grid(self.cursor.y as i64 + pos.y as i64);
                },
                Instruction::JumpToMarker(name) => {
                    let row = match self.doc.lookup_marker(name.as_str()) {
                        Some(marker) => marker.row(),
                        None => {
                            let mut msg = String::from_str("marker \"");
                            msg.append(name.as_str());
                            msg.append("\" does not exist");
                            self.error(state, msg);
                            return Action::Render;
                        },
                    };
                    self.cursor.y = if row > i32::MAX as usize {
                        i32::MAX
                    } else {
                        row as i32
                    };
                    self.cursor.x = 0;
                },
                Instruction::Select(size) => {
                    if size.width == 0 || size.height == 0 {
                        return Action::Render;
                    }
                    let region = Region::new(self.cursor, size);
                    self.cursor = Pos::new(region.to.x - 1, region.to.y - 1);
                    self.selected_range = Some(region);
                },
                Instruction::Delete => match self.selected_range {
                    Some(region) => {
                        self.selected_range = None;
                        self.cursor = region.from;
                        self.doc.delete(region);
                    },
                    None => self.doc.delete(Region::new(self.cursor, Size::new(1, 1))),
                },
                Instruction::Wait(dur) => self.current_time = dur,
                Instruction::Speed(dur) => self.frame_time = dur,
                Instruction::FindInCurrentLine(text) => {
                    let x = match self.doc.find(self.cursor, text.as_str()) {
                        Some(x) => x,
                        None => {
                            return Action::Render;
                        },
                    };
                    self.cursor.x = if x > i32::MAX as usize {
                        i32::MAX
                    } else {
                        x as i32
                    };
                },
                Instruction::LinePause(duration) => self.line_pause = duration,
                Instruction::SetTitle(title) => state.title = title,
                Instruction::SetJitter(jitter) => self.jitter = jitter,
                Instruction::ShowLineNumbers(show) => state.show_line_numbers = show,
                Instruction::Clear => {
                    self.doc.clear();
                    self.offset = Pos::zero();
                    self.cursor = Pos::zero();
                },
                Instruction::SetExtension(ext) => self.extension = ext,
                Instruction::SetTheme(theme) => self.theme = theme,
                Instruction::LoadAudio(path) => {
                    return Action::LoadAudio(path);
                },
                Instruction::Popup(message) => state.popup = Some(message),
                Instruction::ClosePopup => state.popup = None,
            },
        }
        Action::Render
    }

    /// Lets the view follow the cursor on a canvas of the size `size`, and
    /// shows where the cursor and the view are.
    pub fn update_cursor(&mut self, size: Size, state: &mut DocState)
        ensures
            final(self)@ == (EditorView {
                offset: view_offset(old(self)@.cursor, old(self)@.offset, size),
                ..old(self)@
            }),
            final(state)@ == shown(old(state)@, final(self)@.cursor, final(self)@.offset),
    {
        let height: i64 = size.height as i64 - 1 - PADDING as i64;
        let width: i64 = size.width as i64 - 1;
        self.offset.y = scroll(self.cursor.y, self.offset.y, height);
        self.offset.x = scroll(self.cursor.x, self.offset.x, width);
        state.screen_cursor_x = clamped(self.cursor.x as i64 + self.offset.x as i64);
        state.screen_cursor_y = clamped(self.cursor.y as i64 + self.offset.y as i64);
        state.cursor_x = self.cursor.x;
        state.cursor_y = self.cursor.y;
        state.offset_x = self.offset.x;
        state.offset_y = self.offset.y;
    }

    /// One tick, `dt` behind the last one, on a canvas of the size `size`.
    pub fn on_tick(&mut self, state: &mut DocState, size: Size, dt: Duration) -> (action: Action)
        ensures
            took(
                ticked(old(self)@, old(state)@, size, dt),
                final(self)@,
                final(state)@,
                action@,
            ),
            old(self)@.wf() ==> final(self)@.wf(),
    {
        state.height = size.height;
        self.current_time = self.current_time.saturating_sub(dt);
        if !self.current_time.is_zero() {
            return Action::Skip;
        }
        let jitter = self.rand.next(self.jitter);
        self.current_time = self.frame_time.saturating_add(Duration::from_millis(jitter));
        let action = self.apply(state);
        match action {
            Action::Skip => {},
            _ => {
                self.update_cursor(size, state);
            },
        }
        action
    }

    /// Where the cursor is.
    pub fn cursor(&self) -> (cursor: Pos)
        ensures
            cursor == self@.cursor,
    {
        self.cursor
    }

    /// Where the view is.
    pub fn offset(&self) -> (offset: Pos)
        ensures
            offset == self@.offset,
    {
        self.offset
    }

    /// The region that is selected, if one is.
    pub fn selected_range(&self) -> (region: Option<Region>)
        ensures
            region == self@.selected_range,
    {
        self.selected_range
    }

    /// The text of the document.
    pub fn text(&self) -> (text: String)
        ensures
            text@ == self@.doc.text,
    {
        self.doc.text()
    }

    /// The document.
    pub fn document(&self) -> (doc: &Document)
        ensures
            doc@ == self@.doc,
    {
        &self.doc
    }

    /// The name of the theme that the text is shown in.
    pub fn theme(&self) -> (theme: &String)
        ensures
            theme@ == self@.theme,
    {
        &self.theme
    }

    /// The extension that tells the language of the text.
    pub fn extension(&self) -> (extension: &String)
        ensures
            extension@ == self@.extension,
    {
        &self.extension
    }

    /// Whether nothing is left to play.
    pub fn is_done(&self) -> (done: bool)
        ensures
            done == (self@.type_buffer.len() == 0 && self@.instructions.len() == 0),
    {
        self.type_buffer.is_empty() && self.instructions.len() == 0
    }
}

/// Computes [`on_grid`].
fn on_the_grid(n: i64) -> (out: i32)
    ensures
        out == on_grid(n as int),
{
    if n < 0 {
        0
    } else {
        clamped(n)
    }
}

/// Computes [`scrolled`].
fn scroll(cursor: i32, offset: i32, last: i64) -> (out: i32)
    requires
        -8 <= last <= 0xffff,
    ensures
        out == scrolled(cursor, offset, last as int),
{
    let at = cursor as i64 + offset as i64;
    if at > last {
        clamped(last - cursor as i64)
    } else if at < 0 {
        clamped(-(cursor as i64))
    } else {
        offset
    }
}

} // verus!
