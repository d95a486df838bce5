//! The instructions a script is made of, as the parser hands them out.

use vstd::prelude::*;
use vstd::string::StringExecFns;

verus! {

/// Where the cursor is told to go.
#[derive(Debug, PartialEq)]
pub enum Dest {
    Relative { row: i32, col: i32 },
    Marker(String),
}

/// What a [`Dest`] stands for.
pub enum DestView {
    Relative { row: i32, col: i32 },
    Marker(Seq<char>),
}

impl View for Dest {
    type V = DestView;

    open spec fn view(&self) -> DestView {
        match *self {
            Dest::Relative { row, col } => DestView::Relative { row, col },
            Dest::Marker(name) => DestView::Marker(name@),
        }
    }
}

impl vstd::std_specs::convert::FromSpecImpl<(i32, i32)> for Dest {
    open spec fn obeys_from_spec() -> bool {
        true
    }

    open spec fn from_spec(v: (i32, i32)) -> Dest {
        Dest::Relative { row: v.0, col: v.1 }
    }
}

impl From<(i32, i32)> for Dest {
    fn from(v: (i32, i32)) -> (dest: Dest) {
        Dest::Relative { row: v.0, col: v.1 }
    }
}

impl vstd::std_specs::convert::FromSpecImpl<&str> for Dest {
    open spec fn obeys_from_spec() -> bool {
        false
    }

    open spec fn from_spec(v: &str) -> Dest {
        arbitrary()
    }
}

impl From<&str> for Dest {
    fn from(dest: &str) -> (out: Dest)
        ensures
            out@ == DestView::Marker(dest@),
    {
        Dest::Marker(String::from_str(dest))
    }
}

/// Where a text comes from: the script itself, or a name that was loaded.
#[derive(Debug, PartialEq)]
pub enum Source {
    Str(String),
    Ident(String),
}

/// What a [`Source`] stands for.
pub enum SourceView {
    Str(Seq<char>),
    Ident(Seq<char>),
}

impl View for Source {
    type V = SourceView;

    open spec fn view(&self) -> SourceView {
        match *self {
            Source::Str(text) => SourceView::Str(text@),
            Source::Ident(name) => SourceView::Ident(name@),
        }
    }
}

/// One command of a script.
#[derive(Debug, PartialEq)]
pub enum Instruction {
    Load(String, String),
    Find(String),
    Goto(Dest),
    Type { source: Source, trim_trailing_newline: bool, prefix_newline: bool },
    Insert(Source),
    Jitter(u64),
    Delete,
    /// This instructions requires that the cursor is placed on the
    /// same line as the src.
    ///
    /// ```text
    /// replace "hello", "good bye"
    ///
    /// text:
    /// hello
    /// hello <- cursor pos -> good bye
    /// hello
    /// ```
    Replace { src: String, replacement: Source },
    Select { width: u16, height: u16 },
    SetTitle(String),
    SetTheme(String),
    SetExtension(String),
    ShowLineNumbers(bool),
    LinePause(u64),
    Speed(u64),
    LoadAudio(String),
    Popup(String),
    ClosePopup,
    Clear,
    Wait(u64),
}

/// What an [`Instruction`] stands for.
pub enum InstructionView {
    Load(Seq<char>, Seq<char>),
    Find(Seq<char>),
    Goto(DestView),
    Type { source: SourceView, trim_trailing_newline: bool, prefix_newline: bool },
    Insert(SourceView),
    Jitter(u64),
    Delete,
    Replace { src: Seq<char>, replacement: SourceView },
    Select { width: u16, height: u16 },
    SetTitle(Seq<char>),
    SetTheme(Seq<char>),
    SetExtension(Seq<char>),
    ShowLineNumbers(bool),
    LinePause(u64),
    Speed(u64),
    LoadAudio(Seq<char>),
    Popup(Seq<char>),
    ClosePopup,
    Clear,
    Wait(u64),
}

impl View for Instruction {
    type V = InstructionView;

    open spec fn view(&self) -> InstructionView {
        match *self {
            Instruction::Load(path, key) => InstructionView::Load(path@, key@),
            Instruction::Find(needle) => InstructionView::Find(needle@),
            Instruction::Goto(dest) => InstructionView::Goto(dest@),
            Instruction::Type {
                source,
                trim_trailing_newline,
                prefix_newline,
            } => InstructionView::Type {
                source: source@,
                trim_trailing_newline,
                prefix_newline,
            },
            Instruction::Insert(source) => InstructionView::Insert(source@),
            Instruction::Jitter(jitter) => InstructionView::Jitter(jitter),
            Instruction::Delete => InstructionView::Delete,
            Instruction::Replace { src, replacement } => InstructionView::Replace {
                src: src@,
                replacement: replacement@,
            },
            Instruction::Select { width, height } => InstructionView::Select { width, height },
            Instruction::SetTitle(title) => InstructionView::SetTitle(title@),
            Instruction::SetTheme(theme) => InstructionView::SetTheme(theme@),
            Instruction::SetExtension(ext) => InstructionView::SetExtension(ext@),
            Instruction::ShowLineNumbers(show) => InstructionView::ShowLineNumbers(show),
            Instruction::LinePause(millis) => InstructionView::LinePause(millis),
            Instruction::Speed(millis) => InstructionView::Speed(millis),
            Instruction::LoadAudio(path) => InstructionView::LoadAudio(path@),
            Instruction::Popup(message) => InstructionView::Popup(message@),
            Instruction::ClosePopup => InstructionView::ClosePopup,
            Instruction::Clear => InstructionView::Clear,
            Instruction::Wait(seconds) => InstructionView::Wait(seconds),
        }
    }
}

/// The views of a sequence of instructions, one for one.
pub open spec fn instruction_views(instructions: Seq<Instruction>) -> Seq<InstructionView> {
    instructions.map_values(|i: Instruction| i@)
}

/// The instructions of a script, in the order of the script.
#[derive(Debug)]
pub struct Instructions {
    inner: Vec<Instruction>,
}

impl View for Instructions {
    type V = Seq<InstructionView>;

    closed spec fn view(&self) -> Seq<InstructionView> {
        instruction_views(self.inner@)
    }
}

impl Instructions {
    pub fn new(inner: Vec<Instruction>) -> (out: Self)
        ensures
            out@ == instruction_views(inner@),
    {
        Self { inner }
    }

    /// The instructions, in the order of the script.
    pub fn instructions(&self) -> (inner: &Vec<Instruction>)
        ensures
            instruction_views(inner@) == self@,
    {
        &self.inner
    }

    pub fn take_instructions(self) -> (inner: Vec<Instruction>)
        ensures
            instruction_views(inner@) == self@,
    {
        self.inner
    }
}

} // verus!
