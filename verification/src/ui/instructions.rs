//! The instructions that the interpreter plays.

use crate::ui::geometry::{Pos, Size};
use crate::ui::markers::{MarkerView, Markers};
use crate::ui::time::Duration;
use vstd::prelude::*;

verus! {

#[derive(Debug)]
pub enum Instruction {
    // Relative jump
    Jump(Pos),
    JumpToMarker(String),
    Select(Size),
    // -----------------------------------------------------------------------------
    //   - Modifying instructions -
    // -----------------------------------------------------------------------------
    // * Require new highlighting
    // * If the `content` contains a newline then offset all the subsequent markers
    LoadTypeBuffer(String),
    // Inserts all the content at once, unlike Type which types the content out
    // character by character
    Insert(String),
    // Remove all character in the highlighted range of the editor, or
    // if no selection exists: remove the character under the cursor
    Delete,
    Wait(Duration),
    Speed(Duration),
    LinePause(Duration),
    FindInCurrentLine(String),
    SetTitle(String),
    SetExtension(String),
    SetJitter(u64),
    SetTheme(String),
    ShowLineNumbers(bool),
    AddMarkers { row: usize, markers: Markers },
    LoadAudio(String),
    Popup(String),
    ClosePopup,
    Clear,
}

/// What an [`Instruction`] stands for.
pub enum InstructionView {
    Jump(Pos),
    JumpToMarker(Seq<char>),
    Select(Size),
    LoadTypeBuffer(Seq<char>),
    Insert(Seq<char>),
    Delete,
    Wait(Duration),
    Speed(Duration),
    LinePause(Duration),
    FindInCurrentLine(Seq<char>),
    SetTitle(Seq<char>),
    SetExtension(Seq<char>),
    SetJitter(u64),
    SetTheme(Seq<char>),
    ShowLineNumbers(bool),
    AddMarkers { row: usize, markers: Seq<MarkerView> },
    LoadAudio(Seq<char>),
    Popup(Seq<char>),
    ClosePopup,
    Clear,
}

impl View for Instruction {
    type V = InstructionView;

    open spec fn view(&self) -> InstructionView {
        match *self {
            Instruction::Jump(by) => InstructionView::Jump(by),
            Instruction::JumpToMarker(name) => InstructionView::JumpToMarker(name@),
            Instruction::Select(size) => InstructionView::Select(size),
            Instruction::LoadTypeBuffer(text) => InstructionView::LoadTypeBuffer(text@),
            Instruction::Insert(text) => InstructionView::Insert(text@),
            Instruction::Delete => InstructionView::Delete,
            Instruction::Wait(time) => InstructionView::Wait(time),
            Instruction::Speed(time) => InstructionView::Speed(time),
            Instruction::LinePause(time) => InstructionView::LinePause(time),
            Instruction::FindInCurrentLine(needle) => InstructionView::FindInCurrentLine(needle@),
            Instruction::SetTitle(title) => InstructionView::SetTitle(title@),
            Instruction::SetExtension(ext) => InstructionView::SetExtension(ext@),
            Instruction::SetJitter(jitter) => InstructionView::SetJitter(jitter),
            Instruction::SetTheme(theme) => InstructionView::SetTheme(theme@),
            Instruction::ShowLineNumbers(show) => InstructionView::ShowLineNumbers(show),
            Instruction::AddMarkers { row, markers } => InstructionView::AddMarkers {
                row,
                markers: markers@,
            },
            Instruction::LoadAudio(path) => InstructionView::LoadAudio(path@),
            Instruction::Popup(message) => InstructionView::Popup(message@),
            Instruction::ClosePopup => InstructionView::ClosePopup,
            Instruction::Clear => InstructionView::Clear,
        }
    }
}

/// The views of a sequence of instructions, one for one.
pub open spec fn instruction_views(instructions: Seq<Instruction>) -> Seq<InstructionView> {
    instructions.map_values(|i: Instruction| i@)
}

} // verus!
