use parrot::parser::parse;
use parrot::ui::compile::{compile, File};
use parrot::ui::editor::{Action, DocState, Editor};
use parrot::ui::geometry::{Pos, Region, Size};
use parrot::ui::instructions::Instruction;
use parrot::ui::markers::{Marker, Markers};
use parrot::ui::random::Random;
use parrot::ui::time::Duration;

fn editor(instructions: Vec<Instruction>) -> Editor {
    Editor::new(instructions, Duration::from_millis(70), Random::new(1))
}

fn script(text: &str) -> Editor {
    let files: Vec<File> = vec![];
    editor(compile(parse(text).unwrap(), &files).unwrap())
}

/// Takes steps until nothing is left to do, and hands back what was played.
fn play(editor: &mut Editor, state: &mut DocState) -> Vec<String> {
    let mut played = vec![];
    for _ in 0..10_000 {
        match editor.apply(state) {
            Action::Skip => return played,
            Action::Play(unit) => played.push(unit),
            Action::Render | Action::LoadAudio(_) => {}
        }
    }
    panic!("the script does not end");
}

#[test]
fn types_unit_by_unit() {
    let mut editor = script("type \"a    🐇b\\nc\"");
    let mut state = DocState::default();
    assert!(matches!(editor.apply(&mut state), Action::Render));
    assert_eq!(editor.text(), "");
    let played = play(&mut editor, &mut state);
    assert_eq!(played, vec!["a", "    ", "🐇", "b", "\n", "c"]);
    assert_eq!(editor.text(), "a    🐇b\nc");
    assert_eq!(editor.cursor(), Pos::new(1, 1));
    assert!(editor.is_done());
    assert!(matches!(editor.apply(&mut state), Action::Skip));
}

#[test]
fn typing_moves_the_cursor_by_widths() {
    let mut editor = script("type \"a🐇\"");
    let mut state = DocState::default();
    editor.apply(&mut state);
    editor.apply(&mut state);
    assert_eq!(editor.cursor(), Pos::new(1, 0));
    editor.apply(&mut state);
    assert_eq!(editor.cursor(), Pos::new(3, 0));
}

#[test]
fn typing_comes_before_the_next_instruction() {
    let mut editor = script("type \"ab\"\ntitle \"late\"");
    let mut state = DocState::default();
    editor.apply(&mut state);
    editor.apply(&mut state);
    assert_eq!(state.title, "");
    editor.apply(&mut state);
    assert_eq!(state.title, "");
    editor.apply(&mut state);
    assert_eq!(state.title, "late");
}

#[test]
fn markers_of_typed_text_land_on_their_rows() {
    let mut editor = script(
        "type \"fn main() {\\n// @body\\n}\\n\"
goto body
type \"    body();\\n\"",
    );
    let mut state = DocState::default();
    play(&mut editor, &mut state);
    assert_eq!(editor.text(), "fn main() {\n    body();\n}\n");
    assert_eq!(
        editor.document().lookup_marker("body").map(|m| m.row),
        Some(2)
    );
    assert_eq!(editor.cursor(), Pos::new(0, 2));
    assert_eq!(state.error, "");
}

#[test]
fn insert_is_immediate_and_starts_the_line() {
    let mut editor = script("type \"ab\"\ninsert \"x\\n// @m\\ny\"");
    let mut state = DocState::default();
    for _ in 0..3 {
        editor.apply(&mut state);
    }
    assert_eq!(editor.cursor(), Pos::new(2, 0));
    assert!(matches!(editor.apply(&mut state), Action::Render));
    assert_eq!(editor.text(), "x\nyab");
    assert_eq!(editor.cursor(), Pos::new(0, 0));
    // the markers are merged in with the next step
    assert!(editor.document().lookup_marker("m").is_none());
    assert!(matches!(editor.apply(&mut state), Action::Render));
    assert_eq!(
        editor.document().lookup_marker("m").map(|m| m.row),
        Some(1)
    );
}

#[test]
fn jump_stays_on_the_grid() {
    let mut editor = editor(vec![
        Instruction::Jump(Pos::new(3, 4)),
        Instruction::Jump(Pos::new(-1, -1)),
        Instruction::Jump(Pos::new(-5, 2)),
        Instruction::Jump(Pos::new(i32::MAX, i32::MAX)),
        Instruction::Jump(Pos::new(i32::MIN, i32::MIN)),
    ]);
    let mut state = DocState::default();
    editor.apply(&mut state);
    assert_eq!(editor.cursor(), Pos::new(3, 4));
    editor.apply(&mut state);
    assert_eq!(editor.cursor(), Pos::new(2, 3));
    editor.apply(&mut state);
    assert_eq!(editor.cursor(), Pos::new(0, 5));
    editor.apply(&mut state);
    assert_eq!(editor.cursor(), Pos::new(i32::MAX, i32::MAX));
    editor.apply(&mut state);
    assert_eq!(editor.cursor(), Pos::new(0, 0));
}

#[test]
fn jump_to_a_missing_marker_ends_the_script() {
    let mut editor = script("insert \"text\\n\"\ngoto 1 1\ngoto nowhere\ntitle \"never\"");
    let mut state = DocState::default();
    editor.apply(&mut state);
    editor.apply(&mut state);
    assert!(matches!(editor.apply(&mut state), Action::Render));
    assert_eq!(state.error, "marker \"nowhere\" does not exist");
    assert_eq!(editor.cursor(), Pos::new(1, 1));
    assert!(editor.is_done());
    assert!(matches!(editor.apply(&mut state), Action::Skip));
    assert_eq!(state.title, "");
    assert_eq!(editor.text(), "text\n");
}

#[test]
fn select_and_delete() {
    let mut editor = script("insert \"hello world\\n\"\nfind \"world\"\nselect 5 1\ndelete");
    let mut state = DocState::default();
    editor.apply(&mut state);
    editor.apply(&mut state);
    assert_eq!(editor.cursor(), Pos::new(6, 0));
    editor.apply(&mut state);
    assert_eq!(
        editor.selected_range(),
        Some(Region::new(Pos::new(6, 0), Size::new(5, 1)))
    );
    assert_eq!(editor.cursor(), Pos::new(10, 0));
    editor.apply(&mut state);
    assert_eq!(editor.selected_range(), None);
    assert_eq!(editor.cursor(), Pos::new(6, 0));
    assert_eq!(editor.text(), "hello \n");
}

#[test]
fn select_nothing_is_no_selection() {
    for size in [Size::new(0, 0), Size::new(0, 3), Size::new(3, 0)] {
        let mut editor = editor(vec![
            Instruction::Jump(Pos::new(2, 2)),
            Instruction::Select(size),
        ]);
        let mut state = DocState::default();
        editor.apply(&mut state);
        assert!(matches!(editor.apply(&mut state), Action::Render));
        assert_eq!(editor.selected_range(), None);
        assert_eq!(editor.cursor(), Pos::new(2, 2));
    }
}

#[test]
fn delete_without_selection_takes_one_cell() {
    let mut editor = script("insert \"abc\\n\"\ngoto 0 1\ndelete\ndelete");
    let mut state = DocState::default();
    play(&mut editor, &mut state);
    assert_eq!(editor.text(), "a\n");
    assert_eq!(editor.cursor(), Pos::new(1, 0));
}

#[test]
fn replace_in_the_line_of_the_cursor() {
    let mut editor = script("insert \"let a = 1;\\nlet b = 2;\\n\"\ngoto 1 0\nreplace \"b\" \"c\"");
    let mut state = DocState::default();
    play(&mut editor, &mut state);
    assert_eq!(editor.text(), "let a = 1;\nlet c = 2;\n");
    assert_eq!(editor.cursor(), Pos::new(5, 1));
}

#[test]
fn find_leaves_the_cursor_where_nothing_is_found() {
    let mut editor = script("insert \"abc\\n\"\ngoto 0 2\nfind \"x\"");
    let mut state = DocState::default();
    play(&mut editor, &mut state);
    assert_eq!(editor.cursor(), Pos::new(2, 0));
}

#[test]
fn settings() {
    let mut editor = script(
        "title \"demo\"\nnumbers true\nextension \"rs\"\ntheme \"dark\"",
    );
    let mut state = DocState::default();
    assert_eq!(editor.extension(), "txt");
    assert_eq!(editor.theme(), "togglebit");
    play(&mut editor, &mut state);
    assert_eq!(state.title, "demo");
    assert!(state.show_line_numbers);
    assert_eq!(editor.extension(), "rs");
    assert_eq!(editor.theme(), "dark");
}

#[test]
fn popups() {
    let mut editor = editor(vec![
        Instruction::Popup("look".into()),
        Instruction::ClosePopup,
    ]);
    let mut state = DocState::default();
    assert!(matches!(editor.apply(&mut state), Action::Render));
    assert_eq!(state.popup.as_deref(), Some("look"));
    assert!(matches!(editor.apply(&mut state), Action::Render));
    assert_eq!(state.popup, None);
}

#[test]
fn load_audio_is_handed_out() {
    let mut editor = editor(vec![Instruction::LoadAudio("sounds".into())]);
    let mut state = DocState::default();
    assert!(matches!(editor.apply(&mut state), Action::LoadAudio(path) if path == "sounds"));
    // a failure is reported through the editor
    editor.error(&mut state, "no sound".to_string());
    assert_eq!(state.error, "no sound");
}

#[test]
fn clear_resets_document_and_cursor() {
    let mut editor = script("insert \"// @m\\nabc\\n\"\ngoto 1 2\nclear");
    let mut state = DocState::default();
    play(&mut editor, &mut state);
    assert_eq!(editor.text(), "");
    assert_eq!(editor.cursor(), Pos::new(0, 0));
    assert_eq!(editor.offset(), Pos::new(0, 0));
    assert!(editor.document().lookup_marker("m").is_none());
}

#[test]
fn add_markers_instruction_merges_at_the_row() {
    let mut editor = editor(vec![
        Instruction::Insert("// @a\nx\n// @b\ny\n".into()),
        Instruction::AddMarkers {
            row: 1,
            markers: Markers::from(vec![Marker::new(0, "n".to_string())]),
        },
    ]);
    let mut state = DocState::default();
    play(&mut editor, &mut state);
    let doc = editor.document();
    assert_eq!(doc.lookup_marker("a").map(|m| m.row), Some(0));
    assert_eq!(doc.lookup_marker("b").map(|m| m.row), Some(1));
    assert_eq!(doc.lookup_marker("n").map(|m| m.row), Some(1));
}

#[test]
fn ticks_wait_for_their_time() {
    let mut editor = script("type \"ab\"");
    let mut state = DocState::default();
    let size = Size::new(80, 24);
    // the first tick is due at once; the next is due after the frame time
    // and a jitter of 13 milliseconds
    assert!(matches!(
        editor.on_tick(&mut state, size, Duration::zero()),
        Action::Render
    ));
    assert_eq!(state.height, 24);
    assert!(matches!(
        editor.on_tick(&mut state, size, Duration::from_millis(82)),
        Action::Skip
    ));
    assert_eq!(editor.text(), "");
    assert!(matches!(
        editor.on_tick(&mut state, size, Duration::from_millis(1)),
        Action::Play(unit) if unit == "a"
    ));
    assert_eq!(editor.text(), "a");
    assert_eq!(state.cursor_x, 1);
    assert_eq!(state.screen_cursor_x, 1);
}

#[test]
fn one_step_for_each_tick_that_is_due() {
    let mut editor = script("type \"abc\"");
    let mut state = DocState::default();
    let size = Size::new(80, 24);
    let long = Duration::from_secs(3600);
    editor.on_tick(&mut state, size, long);
    editor.on_tick(&mut state, size, long);
    assert_eq!(editor.text(), "a");
    editor.on_tick(&mut state, size, long);
    assert_eq!(editor.text(), "ab");
}

#[test]
fn wait_and_line_pause_set_the_time() {
    let mut editor = script("linepause 500\nwait 2\ntype \"\\nx\"");
    let mut state = DocState::default();
    let size = Size::new(80, 24);
    let long = Duration::from_secs(3600);
    editor.on_tick(&mut state, size, long);
    // wait 2
    editor.on_tick(&mut state, size, long);
    assert!(matches!(
        editor.on_tick(&mut state, size, Duration::from_millis(1999)),
        Action::Skip
    ));
    // the text is loaded
    assert!(matches!(
        editor.on_tick(&mut state, size, Duration::from_millis(1)),
        Action::Render
    ));
    // the line feed is typed, and arms the pause
    assert!(matches!(
        editor.on_tick(&mut state, size, long),
        Action::Play(unit) if unit == "\n"
    ));
    assert!(matches!(
        editor.on_tick(&mut state, size, Duration::from_millis(499)),
        Action::Skip
    ));
    assert!(matches!(
        editor.on_tick(&mut state, size, Duration::from_millis(1)),
        Action::Play(unit) if unit == "x"
    ));
}

#[test]
fn speed_and_jitter() {
    let mut editor = script("speed 10\njitter 0\ntype \"ab\"");
    let mut state = DocState::default();
    let size = Size::new(80, 24);
    let long = Duration::from_secs(3600);
    editor.on_tick(&mut state, size, long);
    editor.on_tick(&mut state, size, long);
    editor.on_tick(&mut state, size, long);
    // no jitter: the next step is due after the frame time exactly
    assert!(matches!(
        editor.on_tick(&mut state, size, Duration::from_millis(9)),
        Action::Skip
    ));
    assert!(matches!(
        editor.on_tick(&mut state, size, Duration::from_millis(1)),
        Action::Play(_)
    ));
}

#[test]
fn the_view_follows_the_cursor() {
    let mut editor = editor(vec![
        Instruction::Jump(Pos::new(100, 20)),
        Instruction::Jump(Pos::new(-100, -20)),
    ]);
    let mut state = DocState::default();
    let size = Size::new(80, 24);
    let long = Duration::from_secs(3600);
    editor.on_tick(&mut state, size, long);
    // the last row that is used is 24 - 1 - 7, the last column 80 - 1
    assert_eq!(editor.offset(), Pos::new(-21, -4));
    assert_eq!((state.offset_x, state.offset_y), (-21, -4));
    assert_eq!((state.cursor_x, state.cursor_y), (100, 20));
    assert_eq!((state.screen_cursor_x, state.screen_cursor_y), (79, 16));
    editor.on_tick(&mut state, size, long);
    assert_eq!(editor.offset(), Pos::new(0, 0));
    assert_eq!((state.screen_cursor_x, state.screen_cursor_y), (0, 0));
}

#[test]
fn update_cursor_alone() {
    let mut editor = editor(vec![Instruction::Jump(Pos::new(5, 30))]);
    let mut state = DocState::default();
    editor.apply(&mut state);
    editor.update_cursor(Size::new(10, 10), &mut state);
    assert_eq!(editor.offset(), Pos::new(0, -28));
    assert_eq!(state.screen_cursor_y, 2);
    // a canvas without room
    editor.update_cursor(Size::new(0, 0), &mut state);
    assert_eq!(editor.offset(), Pos::new(-6, -38));
    assert_eq!((state.screen_cursor_x, state.screen_cursor_y), (-1, -8));
}

#[test]
fn the_cursor_never_leaves_the_grid() {
    let mut editor = script(
        "goto -3 -3
type \"ab\\ncd\\n\"
select 2 2
delete
goto -1 0
insert \"x\"
find \"x\"
goto -9 -9
delete",
    );
    let mut state = DocState::default();
    for _ in 0..100 {
        editor.apply(&mut state);
        let cursor = editor.cursor();
        assert!(cursor.x >= 0 && cursor.y >= 0);
    }
}
