use parrot::parser::parse;
use parrot::ui::compile::{compile, load_paths, File};
use parrot::ui::error::Error;
use parrot::ui::geometry::{Pos, Size};
use parrot::ui::instructions::Instruction;
use parrot::ui::time::Duration;

fn file(path: &str, content: Option<&str>) -> File {
    File {
        path: path.to_string(),
        content: content.map(|c| c.to_string()),
    }
}

fn compiled(script: &str, files: &[File]) -> Result<Vec<String>, Error> {
    let files: Vec<File> = files
        .iter()
        .map(|f| File {
            path: f.path.clone(),
            content: f.content.clone(),
        })
        .collect();
    compile(parse(script).unwrap(), &files)
        .map(|list| list.iter().map(|i| format!("{:?}", i)).collect())
}

fn shown(list: &[Instruction]) -> Vec<String> {
    list.iter().map(|i| format!("{:?}", i)).collect()
}

#[test]
fn compile_one_for_one() {
    let out = compiled(
        "find \"x\"
goto 3 4
goto top
select 2 3
delete
insert \"text\"
wait 2
speed 20
linepause 300
title \"t\"
extension \"rs\"
numbers true
jitter 5
theme \"dark\"
clear",
        &[],
    )
    .unwrap();
    let expected = shown(&[
        Instruction::FindInCurrentLine("x".into()),
        Instruction::Jump(Pos::new(4, 3)),
        Instruction::JumpToMarker("top".into()),
        Instruction::Select(Size::new(2, 3)),
        Instruction::Delete,
        Instruction::Insert("text".into()),
        Instruction::Wait(Duration::from_secs(2)),
        Instruction::Speed(Duration::from_millis(20)),
        Instruction::LinePause(Duration::from_millis(300)),
        Instruction::SetTitle("t".into()),
        Instruction::SetExtension("rs".into()),
        Instruction::ShowLineNumbers(true),
        Instruction::SetJitter(5),
        Instruction::SetTheme("dark".into()),
        Instruction::Clear,
    ]);
    assert_eq!(out, expected);
}

#[test]
fn compile_times() {
    assert_eq!(Duration::from_secs(2).nanos, 2_000_000_000);
    assert_eq!(Duration::from_millis(20).nanos, 20_000_000);
    assert_eq!(
        Duration::from_secs(u64::MAX).nanos,
        u64::MAX as u128 * 1_000_000_000
    );
    assert_eq!(Duration::zero().nanos, 0);
    assert!(Duration::zero().is_zero());
    let a = Duration::from_millis(5);
    let b = Duration::from_millis(7);
    assert_eq!(a.saturating_sub(b), Duration::zero());
    assert_eq!(b.saturating_sub(a), Duration::from_millis(2));
    assert_eq!(a.saturating_add(b), Duration::from_millis(12));
    let longest = Duration { nanos: u128::MAX };
    assert_eq!(longest.saturating_add(a), longest);
}

#[test]
fn compile_type() {
    let out = compiled("type \"ab\\n\"", &[]).unwrap();
    assert_eq!(out, shown(&[Instruction::LoadTypeBuffer("ab\n".into())]));

    // the last line feed is left out on demand, and only one
    let out = compiled("type \"ab\\n\\n\" nonl", &[]).unwrap();
    assert_eq!(out, shown(&[Instruction::LoadTypeBuffer("ab\n".into())]));

    let out = compiled("type \"ab\" nonl", &[]).unwrap();
    assert_eq!(out, shown(&[Instruction::LoadTypeBuffer("ab".into())]));

    let out = compiled("type \"\" nonl", &[]).unwrap();
    assert_eq!(out, shown(&[Instruction::LoadTypeBuffer("".into())]));

    let out = compiled("typenl \"ab\"", &[]).unwrap();
    assert_eq!(
        out,
        shown(&[
            Instruction::Insert("\n".into()),
            Instruction::LoadTypeBuffer("ab".into())
        ])
    );
}

#[test]
fn compile_replace() {
    let out = compiled("replace \"old\" \"new\"", &[]).unwrap();
    assert_eq!(
        out,
        shown(&[
            Instruction::FindInCurrentLine("old".into()),
            Instruction::Select(Size::new(3, 1)),
            Instruction::Delete,
            Instruction::LoadTypeBuffer("new".into()),
        ])
    );
    // the selection is as wide as the text is shown
    let out = compiled("replace \"🐇🐇\" \"\"", &[]).unwrap();
    assert_eq!(
        out,
        shown(&[
            Instruction::FindInCurrentLine("🐇🐇".into()),
            Instruction::Select(Size::new(4, 1)),
            Instruction::Delete,
            Instruction::LoadTypeBuffer("".into()),
        ])
    );
}

#[test]
fn compile_loaded_text() {
    let files = [file("a.rs", Some("fn a() {}\n")), file("b.rs", Some("b"))];
    let out = compiled(
        "load \"a.rs\" as a
load \"b.rs\" as b
type a nonl
insert b
replace \"x\" a
load \"b.rs\" as a
type a",
        &files,
    )
    .unwrap();
    assert_eq!(
        out,
        shown(&[
            Instruction::LoadTypeBuffer("fn a() {}".into()),
            Instruction::Insert("b".into()),
            Instruction::FindInCurrentLine("x".into()),
            Instruction::Select(Size::new(1, 1)),
            Instruction::Delete,
            Instruction::LoadTypeBuffer("fn a() {}\n".into()),
            Instruction::LoadTypeBuffer("b".into()),
        ])
    );
}

#[test]
fn compile_missing_value() {
    for script in ["type a", "insert a", "replace \"x\" a", "type a\nload \"a.rs\" as a"] {
        let err = compiled(script, &[file("a.rs", Some("text"))]).unwrap_err();
        assert!(matches!(&err, Error::LoadValue(key) if key == "a"));
        assert_eq!(err.to_string(), "\"a\" does not exist");
    }
}

#[test]
fn compile_import_failure() {
    // the file could not be read
    let err = compiled("load \"a.rs\" as a", &[file("a.rs", None)]).unwrap_err();
    assert!(matches!(&err, Error::Import(path) if path == "a.rs"));
    assert_eq!(err.to_string(), "failed to load \"a.rs\"");
    // the file is not among the files
    let err = compiled("load \"a.rs\" as a", &[file("b.rs", Some("b"))]).unwrap_err();
    assert!(matches!(&err, Error::Import(path) if path == "a.rs"));
    // the first file of a path counts
    let err = compiled(
        "load \"a.rs\" as a",
        &[file("a.rs", None), file("a.rs", Some("late"))],
    )
    .unwrap_err();
    assert!(matches!(&err, Error::Import(_)));
}

#[test]
fn compile_stops_at_the_first_error() {
    let err = compiled("type a\nload \"gone\" as b", &[]).unwrap_err();
    assert!(matches!(&err, Error::LoadValue(_)));
    let err = compiled("load \"gone\" as b\ntype a", &[]).unwrap_err();
    assert!(matches!(&err, Error::Import(_)));
}

#[test]
fn paths_of_the_loads() {
    let parsed = parse("load \"a.rs\" as a\ntype a\nload \"dir/b.rs\" as b\nload \"a.rs\" as c")
        .unwrap();
    assert_eq!(load_paths(&parsed), vec!["a.rs", "dir/b.rs", "a.rs"]);
    assert!(load_paths(&parse("wait 1").unwrap()).is_empty());
}

#[test]
fn compile_is_a_function_of_script_and_files() {
    let files = [file("a.rs", Some("text\n"))];
    let script = "load \"a.rs\" as a\ntypenl a nonl\nreplace \"t\" \"T\"\n";
    assert_eq!(
        compiled(script, &files).unwrap(),
        compiled(script, &files).unwrap()
    );
}
