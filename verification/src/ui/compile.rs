//! The compiler: from the instructions of a script to the instructions that
//! the interpreter plays.

use crate::parser;
use crate::parser::instruction::{DestView, SourceView};
use crate::parser::{Dest, Source};
pub use crate::ui::context::Context;
use crate::ui::error::{Error, ErrorView, Result};
use crate::ui::geometry::{Pos, Size};
use crate::ui::instructions::{instruction_views, Instruction, InstructionView};
use crate::ui::time::Duration;
use crate::width::{str_width, unicode_str_width};
use vstd::prelude::*;
use vstd::string::StringExecFns;

verus! {

/// A file that a script loads: its path, and its text where it could be read.
#[derive(Debug)]
pub struct File {
    pub path: String,
    pub content: Option<String>,
}

/// What a [`File`] stands for.
pub struct FileView {
    pub path: Seq<char>,
    pub content: Option<Seq<char>>,
}

impl View for File {
    type V = FileView;

    open spec fn view(&self) -> FileView {
        FileView {
            path: self.path@,
            content: match self.content {
                Some(text) => Some(text@),
                None => None,
            },
        }
    }
}

/// The views of a sequence of files, one for one.
pub open spec fn file_views(files: Seq<File>) -> Seq<FileView> {
    files.map_values(|f: File| f@)
}

/// The text of the first file from `i` on that has the path `path`; none
/// where no file has it, or the file could not be read.
pub open spec fn file_text(files: Seq<FileView>, path: Seq<char>, i: int) -> Option<Seq<char>>
    decreases files.len() - i,
{
    if i < 0 || i >= files.len() {
        None
    } else if files[i].path == path {
        files[i].content
    } else {
        file_text(files, path, i + 1)
    }
}

/// The text that a source stands for: its own, or the one that was loaded
/// under its name.
pub open spec fn resolved(
    context: Map<Seq<char>, Seq<char>>,
    source: SourceView,
) -> std::result::Result<Seq<char>, ErrorView> {
    match source {
        SourceView::Str(text) => Ok(text),
        SourceView::Ident(key) => if context.contains_key(key) {
            Ok(context[key])
        } else {
            Err(ErrorView::LoadValue(key))
        },
    }
}

/// The text without its last character where that is a line feed and `trim` asks for it.
pub open spec fn trimmed(text: Seq<char>, trim: bool) -> Seq<char> {
    if trim && text.len() > 0 && text.last() == '\n' {
        text.drop_last()
    } else {
        text
    }
}

/// What one instruction of the script compiles to, and what is loaded behind it.
pub struct Step {
    pub emitted: Seq<InstructionView>,
    pub context: Map<Seq<char>, Seq<char>>,
}

/// Compiles one instruction.
///
/// `load` keeps the text of its file under its name and emits nothing.
/// `type` emits the text for the type buffer, behind an inserted line feed
/// for `typenl`. `replace` emits four steps: find the text in the line of
/// the cursor, select it in its width, delete it, and type what replaces it.
/// Every other instruction emits one instruction.
pub open spec fn compile_one(
    instruction: parser::instruction::InstructionView,
    context: Map<Seq<char>, Seq<char>>,
    files: Seq<FileView>,
) -> std::result::Result<Step, ErrorView> {
    match instruction {
        parser::instruction::InstructionView::Load(path, key) => match file_text(files, path, 0) {
            Some(content) => Ok(
                Step { emitted: Seq::empty(), context: context.insert(key, content) },
            ),
            None => Err(ErrorView::Import(path)),
        },
        parser::instruction::InstructionView::Find(needle) => Ok(
            Step { emitted: seq![InstructionView::FindInCurrentLine(needle)], context },
        ),
        parser::instruction::InstructionView::Goto(dest) => Ok(
            Step {
                emitted: seq![
                    match dest {
                        DestView::Relative { row, col } => InstructionView::Jump(
                            Pos { x: col, y: row },
                        ),
                        DestView::Marker(name) => InstructionView::JumpToMarker(name),
                    },
                ],
                context,
            },
        ),
        parser::instruction::InstructionView::Select { width, height } => Ok(
            Step { emitted: seq![InstructionView::Select(Size { width, height })], context },
        ),
        parser::instruction::InstructionView::Delete => Ok(
            Step { emitted: seq![InstructionView::Delete], context },
        ),
        parser::instruction::InstructionView::Type {
            source,
            trim_trailing_newline,
            prefix_newline,
        } => match resolved(context, source) {
            Err(e) => Err(e),
            Ok(content) => {
                let typed = InstructionView::LoadTypeBuffer(
                    trimmed(content, trim_trailing_newline),
                );
                Ok(
                    Step {
                        emitted: if prefix_newline {
                            seq![InstructionView::Insert(seq!['\n']), typed]
                        } else {
                            seq![typed]
                        },
                        context,
                    },
                )
            },
        },
        parser::instruction::InstructionView::Insert(source) => match resolved(context, source) {
            Err(e) => Err(e),
            Ok(content) => Ok(Step { emitted: seq![InstructionView::Insert(content)], context }),
        },
        parser::instruction::InstructionView::Replace { src, replacement } => match resolved(
            context,
            replacement,
        ) {
            Err(e) => Err(e),
            Ok(content) => Ok(
                Step {
                    emitted: seq![
                        InstructionView::FindInCurrentLine(src),
                        InstructionView::Select(
                            Size { width: unicode_str_width(src) as u16, height: 1 },
                        ),
                        InstructionView::Delete,
                        InstructionView::LoadTypeBuffer(content),
                    ],
                    context,
                },
            ),
        },
        parser::instruction::InstructionView::Wait(seconds) => Ok(
            Step { emitted: seq![InstructionView::Wait(Duration::from_secs(seconds))], context },
        ),
        parser::instruction::InstructionView::Speed(millis) => Ok(
            Step { emitted: seq![InstructionView::Speed(Duration::from_millis(millis))], context },
        ),
        parser::instruction::InstructionView::LinePause(millis) => Ok(
            Step {
                emitted: seq![InstructionView::LinePause(Duration::from_millis(millis))],
                context,
            },
        ),
        parser::instruction::InstructionView::SetTitle(title) => Ok(
            Step { emitted: seq![InstructionView::SetTitle(title)], context },
        ),
        parser::instruction::InstructionView::SetExtension(ext) => Ok(
            Step { emitted: seq![InstructionView::SetExtension(ext)], context },
        ),
        parser::instruction::InstructionView::ShowLineNumbers(show) => Ok(
            Step { emitted: seq![InstructionView::ShowLineNumbers(show)], context },
        ),
        parser::instruction::InstructionView::Jitter(jitter) => Ok(
            Step { emitted: seq![InstructionView::SetJitter(jitter)], context },
        ),
        parser::instruction::InstructionView::SetTheme(theme) => Ok(
            Step { emitted: seq![InstructionView::SetTheme(theme)], context },
        ),
        parser::instruction::InstructionView::LoadAudio(path) => Ok(
            Step { emitted: seq![InstructionView::LoadAudio(path)], context },
        ),
        parser::instruction::InstructionView::Clear => Ok(
            Step { emitted: seq![InstructionView::Clear], context },
        ),
        parser::instruction::InstructionView::Popup(message) => Ok(
            Step { emitted: seq![InstructionView::Popup(message)], context },
        ),
        parser::instruction::InstructionView::ClosePopup => Ok(
            Step { emitted: seq![InstructionView::ClosePopup], context },
        ),
    }
}

/// Compiles the instructions from `i` on, in their order, with what was
/// loaded before them. The first instruction that fails ends it.
pub open spec fn compile_from(
    script: Seq<parser::instruction::InstructionView>,
    i: int,
    context: Map<Seq<char>, Seq<char>>,
    files: Seq<FileView>,
) -> std::result::Result<Seq<InstructionView>, ErrorView>
    decreases script.len() - i,
{
    if i < 0 || i >= script.len() {
        Ok(Seq::empty())
    } else {
        match compile_one(script[i], context, files) {
            Err(e) => Err(e),
            Ok(step) => match compile_from(script, i + 1, step.context, files) {
                Err(e) => Err(e),
                Ok(rest) => Ok(step.emitted + rest),
            },
        }
    }
}

/// What a script compiles to, where `files` are the files that it loads.
pub open spec fn compiled(
    script: Seq<parser::instruction::InstructionView>,
    files: Seq<FileView>,
) -> std::result::Result<Seq<InstructionView>, ErrorView> {
    compile_from(script, 0, Map::empty(), files)
}

/// The paths of the load instructions from `i` on, in their order.
pub open spec fn paths_from(script: Seq<parser::instruction::InstructionView>, i: int) -> Seq<
    Seq<char>,
>
    decreases script.len() - i,
{
    if i < 0 || i >= script.len() {
        Seq::empty()
    } else {
        match script[i] {
            parser::instruction::InstructionView::Load(path, _) => seq![path] + paths_from(
                script,
                i + 1,
            ),
            _ => paths_from(script, i + 1),
        }
    }
}

/// The views of a sequence of strings, one for one.
pub open spec fn string_views(strings: Seq<String>) -> Seq<Seq<char>> {
    strings.map_values(|s: String| s@)
}

/// The paths of the files that the script loads, in the order of the script.
pub fn load_paths(parsed_instructions: &parser::Instructions) -> (paths: Vec<String>)
    ensures
        string_views(paths@) == paths_from(parsed_instructions@, 0),
{
    let script = parsed_instructions.instructions();
    let ghost all = parsed_instructions@;
    let mut paths: Vec<String> = vec![];
    let mut i: usize = 0;
    proof {
        assert(string_views(paths@) =~= Seq::<Seq<char>>::empty());
        assert(Seq::<Seq<char>>::empty() + paths_from(all, 0) =~= paths_from(all, 0));
    }
    while i < script.len()
        invariant
            i <= script.len(),
            all == parser::instruction::instruction_views(script@),
            paths_from(all, 0) == string_views(paths@) + paths_from(all, i as int),
        decreases script.len() - i,
    {
        let ghost before = string_views(paths@);
        match &script[i] {
            parser::Instruction::Load(path, _) => {
                paths.push(path.clone());
                proof {
                    assert(string_views(paths@) =~= before.push(path@));
                    assert(before + (seq![path@] + paths_from(all, i + 1)) =~= before.push(path@)
                        + paths_from(all, i + 1));
                }
            },
            _ => {},
        }
        i += 1;
    }
    proof {
        assert(string_views(paths@) + Seq::<Seq<char>>::empty() =~= string_views(paths@));
    }
    paths
}

/// Computes [`file_text`].
fn read_file(files: &Vec<File>, path: &String) -> (out: Option<String>)
    ensures
        match file_text(file_views(files@), path@, 0) {
            Some(content) => out matches Some(text) && text@ == content,
            None => out is None,
        },
{
    let mut i: usize = 0;
    while i < files.len()
        invariant
            i <= files.len(),
            file_text(file_views(files@), path@, 0) == file_text(
                file_views(files@),
                path@,
                i as int,
            ),
        decreases files.len() - i,
    {
        if files[i].path == *path {
            return match &files[i].content {
                Some(text) => Some(text.clone()),
                None => None,
            };
        }
        i += 1;
    }
    None
}

/// Computes [`resolved`].
fn resolve(context: &Context, source: &Source) -> (out: Result<String>)
    ensures
        match resolved(context@, source@) {
            Ok(content) => out matches Ok(text) && text@ == content,
            Err(e) => out matches Err(err) && err@ == e,
        },
{
    match source {
        Source::Str(content) => Ok(content.clone()),
        Source::Ident(key) => context.load(key.as_str()),
    }
}

/// What was emitted before, followed by what the rest of the script compiles to.
pub open spec fn chain(
    emitted: Seq<InstructionView>,
    rest: std::result::Result<Seq<InstructionView>, ErrorView>,
) -> std::result::Result<Seq<InstructionView>, ErrorView> {
    match rest {
        Ok(more) => Ok(emitted + more),
        Err(e) => Err(e),
    }
}

/// What compiling hands back for a script and its files.
pub open spec fn compiles_to(
    script: Seq<parser::instruction::InstructionView>,
    files: Seq<FileView>,
    out: Result<Vec<Instruction>>,
) -> bool {
    match compiled(script, files) {
        Ok(list) => out matches Ok(instructions) && instruction_views(instructions@) == list,
        Err(e) => out matches Err(err) && err@ == e,
    }
}

/// Compiles the script, in one pass. `files` holds the files that the
/// script loads; a file that is not among them counts as one that could not
/// be read.
pub fn compile(parsed_instructions: parser::Instructions, files: &Vec<File>) -> (out: Result<
    Vec<Instruction>,
>)
    ensures
        compiles_to(parsed_instructions@, file_views(files@), out),
{
    let mut context = Context::new();
    let mut instructions: Vec<Instruction> = vec![];
    let script = parsed_instructions.instructions();
    let ghost all = parsed_instructions@;
    let ghost loaded = file_views(files@);
    let mut i: usize = 0;
    proof {
        assert(instruction_views(instructions@) =~= Seq::<InstructionView>::empty());
        let rest = compile_from(all, 0, context@, loaded);
        if let Ok(more) = rest {
            assert(Seq::<InstructionView>::empty() + more =~= more);
        }
    }
    while i < script.len()
        invariant
            i <= script.len(),
            all == parser::instruction::instruction_views(script@),
            all == parsed_instructions@,
            loaded == file_views(files@),
            compiled(all, loaded) == chain(
                instruction_views(instructions@),
                compile_from(all, i as int, context@, loaded),
            ),
        decreases script.len() - i,
    {
        let ghost before = instruction_views(instructions@);
        let ghost context_before = context@;
        let ghost step = compile_one(all[i as int], context_before, loaded);
        match &script[i] {
            parser::Instruction::Load(path, key) => {
                let content = match read_file(files, path) {
                    Some(content) => content,
                    None => {
                        return Err(Error::Import(path.clone()));
                    },
                };
                context.set(key.clone(), content);
            },
            parser::Instruction::Find(needle) => instructions.push(
                Instruction::FindInCurrentLine(needle.clone()),
            ),
            parser::Instruction::Goto(dest) => {
                let inst = match dest {
                    Dest::Relative { row, col } => Instruction::Jump(Pos::new(*col, *row)),
                    Dest::Marker(name) => Instruction::JumpToMarker(name.clone()),
                };
                instructions.push(inst);
            },
            parser::Instruction::Select { width, height } => {
                instructions.push(Instruction::Select(Size::new(*width, *height)))
            },
            parser::Instruction::Delete => instructions.push(Instruction::Delete),
            parser::Instruction::Type { source, trim_trailing_newline, prefix_newline } => {
                let mut content = match resolve(&context, source) {
                    Ok(content) => content,
                    Err(e) => {
                        return Err(e);
                    },
                };
                if *trim_trailing_newline {
                    match content.pop() {
                        Some(last) => if last != '\n' {
                            content.push(last);
                            proof {
                                let whole = resolved(context_before, source@)->Ok_0;
                                assert(whole.drop_last().push(last) =~= whole);
                            }
                        },
                        None => {},
                    }
                }
                if *prefix_newline {
                    let feed = String::from_str("\n");
                    proof {
                        reveal_strlit("\n");
                        assert(feed@ =~= seq!['\n']);
                    }
                    instructions.push(Instruction::Insert(feed));
                }
                instructions.push(Instruction::LoadTypeBuffer(content));
            },
            parser::Instruction::Insert(source) => {
                let inst = match resolve(&context, source) {
                    Ok(content) => Instruction::Insert(content),
                    Err(e) => {
                        return Err(e);
                    },
                };
                instructions.push(inst);
            },
            parser::Instruction::Replace { src, replacement } => {
                let content = match resolve(&context, replacement) {
                    Ok(content) => content,
                    Err(e) => {
                        return Err(e);
                    },
                };
                let width = #[verifier::truncate]
                (str_width(src.as_str()) as u16);
                instructions.push(Instruction::FindInCurrentLine(src.clone()));
                instructions.push(Instruction::Select(Size::new(width, 1)));
                instructions.push(Instruction::Delete);
                instructions.push(Instruction::LoadTypeBuffer(content));
            },
            parser::Instruction::Wait(seconds) => instructions.push(
                Instruction::Wait(Duration::from_secs(*seconds)),
            ),
            parser::Instruction::Speed(millis) => instructions.push(
                Instruction::Speed(Duration::from_millis(*millis)),
            ),
            parser::Instruction::LinePause(millis) => {
                instructions.push(Instruction::LinePause(Duration::from_millis(*millis)))
            },
            parser::Instruction::SetTitle(title) => instructions.push(
                Instruction::SetTitle(title.clone()),
            ),
            parser::Instruction::SetExtension(ext) => instructions.push(
                Instruction::SetExtension(ext.clone()),
            ),
            parser::Instruction::ShowLineNumbers(show) => instructions.push(
                Instruction::ShowLineNumbers(*show),
            ),
            parser::Instruction::Jitter(jitter) => instructions.push(
                Instruction::SetJitter(*jitter),
            ),
            parser::Instruction::SetTheme(theme) => instructions.push(
                Instruction::SetTheme(theme.clone()),
            ),
            parser::Instruction::LoadAudio(path) => instructions.push(
                Instruction::LoadAudio(path.clone()),
            ),
            parser::Instruction::Clear => instructions.push(Instruction::Clear),
            parser::Instruction::Popup(msg) => instructions.push(Instruction::Popup(msg.clone())),
            parser::Instruction::ClosePopup => instructions.push(Instruction::ClosePopup),
        }
        proof {
            let done = step->Ok_0;
            assert(step is Ok);
            assert(context@ == done.context);
            assert(instruction_views(instructions@) =~= before + done.emitted);
            let rest = compile_from(all, i + 1, done.context, loaded);
            if let Ok(more) = rest {
                assert(before + (done.emitted + more) =~= (before + done.emitted) + more);
            }
        }
        i += 1;
    }
    proof {
        assert(instruction_views(instructions@) + Seq::<InstructionView>::empty()
            =~= instruction_views(instructions@));
    }
    Ok(instructions)
}

} // verus!
