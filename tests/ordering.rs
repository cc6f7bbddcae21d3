use instnoth::parser::{parse, Program};
use instnoth::resolver::{resolve_path, Request, Resolver};
use instnoth::tree::{TreeLine, TreeWalker};

fn program(text: &str) -> Program {
    parse(text).unwrap()
}

fn resolve(base: &str, roots: Vec<Program>, files: &[(&str, &str)]) -> Result<Vec<String>, String> {
    let mut r = Resolver::new(base.to_string(), roots);
    let mut answer: Option<Program> = None;
    loop {
        match r.step(answer.take()) {
            Request::Load(path) => {
                answer = files
                    .iter()
                    .find(|(p, _)| *p == path)
                    .and_then(|(_, t)| parse(t).ok());
            }
            Request::Cycle(name) => return Err(name),
            Request::Finished => {
                return Ok(r.into_order().into_iter().map(|p| p.name).collect());
            }
        }
    }
}

#[test]
fn dependencies_come_first_in_order() {
    let files = [
        ("dir/b.ext", "package: \"B\"\ndepends: \"c.ext\"\n"),
        ("dir/c.ext", "package: \"C\"\n"),
    ];
    let a = program("package: \"A\"\ndepends: \"b.ext\", \"c.ext\"\n");
    assert_eq!(resolve("dir", vec![a], &files), Ok(vec!["C".to_string(), "B".to_string(), "A".to_string()]));
}

#[test]
fn cycle_is_reported() {
    let files = [
        ("a.ext", "package: \"A\"\ndepends: \"b.ext\"\n"),
        ("b.ext", "package: \"B\"\ndepends: \"a.ext\"\n"),
    ];
    let a = program(files[0].1);
    let r = resolve("", vec![a], &files);
    assert!(r == Err("A".to_string()) || r == Err("B".to_string()));
    assert_eq!(r, Err("A".to_string()));
}

#[test]
fn cycle_stays_reported() {
    let files = [("a.ext", "package: \"A\"\ndepends: \"a.ext\"\n")];
    let mut r = Resolver::new(String::new(), vec![program(files[0].1)]);
    let first = r.step(None);
    assert!(matches!(first, Request::Load(ref p) if p.as_str() == "a.ext"));
    let again = r.step(Some(program(files[0].1)));
    assert!(matches!(again, Request::Cycle(ref n) if n.as_str() == "A"));
    assert!(matches!(r.step(None), Request::Cycle(ref n) if n.as_str() == "A"));
}

#[test]
fn same_name_takes_one_place() {
    let files = [
        ("x/one.ext", "package: \"Shared\"\nversion: \"1\"\n"),
        ("x/two.ext", "package: \"Shared\"\nversion: \"2\"\n"),
        ("x/b.ext", "package: \"B\"\ndepends: \"two.ext\"\n"),
    ];
    let a = program("package: \"A\"\ndepends: \"one.ext\" \"b.ext\"\n");
    let mut r = Resolver::new("x".to_string(), vec![a]);
    let mut answer: Option<Program> = None;
    loop {
        match r.step(answer.take()) {
            Request::Load(path) => {
                answer = files.iter().find(|(p, _)| *p == path).and_then(|(_, t)| parse(t).ok());
            }
            Request::Cycle(name) => panic!("cycle {}", name),
            Request::Finished => break,
        }
    }
    let order = r.into_order();
    let names: Vec<&str> = order.iter().map(|p| p.name.as_str()).collect();
    assert_eq!(names, vec!["Shared", "B", "A"]);
    assert_eq!(order[0].version, "1");
}

#[test]
fn missing_dependency_is_skipped() {
    let a = program("package: \"A\"\ndepends: \"gone.ext\" \"bad.ext\"\n");
    let files = [("bad.ext", "version: \"1\"\n")];
    assert_eq!(resolve("", vec![a], &files), Ok(vec!["A".to_string()]));
}

#[test]
fn roots_keep_their_order() {
    let a = program("package: \"A\"\n");
    let b = program("package: \"B\"\n");
    let a2 = program("package: \"A\"\nversion: \"2\"\n");
    assert_eq!(resolve("", vec![b, a, a2], &[]), Ok(vec!["B".to_string(), "A".to_string()]));
}

#[test]
fn base_directory_is_shared() {
    let files = [
        ("base/sub/b.ext", "package: \"Wrong\"\n"),
        ("base/c.ext", "package: \"C\"\n"),
        ("base/sub2.ext", "package: \"S\"\ndepends: \"c.ext\"\n"),
    ];
    let a = program("package: \"A\"\ndepends: \"sub2.ext\"\n");
    assert_eq!(
        resolve("base", vec![a], &files),
        Ok(vec!["C".to_string(), "S".to_string(), "A".to_string()])
    );
}

#[test]
fn paths_are_joined() {
    let s = |x: &str| x.to_string();
    assert_eq!(resolve_path(&s("dir"), &s("a.ext")), "dir/a.ext");
    assert_eq!(resolve_path(&s("dir/"), &s("a.ext")), "dir/a.ext");
    assert_eq!(resolve_path(&s(""), &s("a.ext")), "a.ext");
    assert_eq!(resolve_path(&s("dir"), &s("/abs/a.ext")), "/abs/a.ext");
}

fn tree(base: &str, roots: Vec<Program>, files: &[(&str, &str)]) -> Vec<TreeLine> {
    let mut w = TreeWalker::new(base.to_string(), roots);
    let mut answer: Option<Program> = None;
    let mut all = Vec::new();
    loop {
        let (lines, next) = w.step(answer.take());
        all.extend(lines);
        match next {
            Some(path) => {
                answer = files.iter().find(|(p, _)| *p == path).and_then(|(_, t)| parse(t).ok());
            }
            None => return all,
        }
    }
}

#[test]
fn tree_lists_each_program_once() {
    let files = [
        ("d/b.ext", "package: \"B\"\nversion: \"2\"\ndepends: \"c.ext\"\n"),
        ("d/c.ext", "package: \"C\"\nversion: \"3\"\n"),
    ];
    let a = program("package: \"A\"\nversion: \"1\"\ndepends: \"b.ext\" \"c.ext\" \"x.ext\"\n");
    let s = |x: &str| x.to_string();
    let lines = tree("d", vec![a], &files);
    assert_eq!(
        lines,
        vec![
            TreeLine::Program { depth: 0, name: s("A"), version: s("1") },
            TreeLine::Reference { depth: 0, reference: s("b.ext"), last: false, found: true },
            TreeLine::Program { depth: 1, name: s("B"), version: s("2") },
            TreeLine::Reference { depth: 1, reference: s("c.ext"), last: true, found: true },
            TreeLine::Program { depth: 2, name: s("C"), version: s("3") },
            TreeLine::Reference { depth: 0, reference: s("c.ext"), last: false, found: true },
            TreeLine::Program { depth: 1, name: s("C"), version: s("3") },
            TreeLine::Repeated { depth: 1 },
            TreeLine::Reference { depth: 0, reference: s("x.ext"), last: true, found: false },
        ]
    );
}

#[test]
fn tree_survives_cycles() {
    let files = [("a.ext", "package: \"A\"\ndepends: \"a.ext\"\n")];
    let lines = tree("", vec![program(files[0].1)], &files);
    assert_eq!(lines.len(), 4);
    assert_eq!(lines[3], TreeLine::Repeated { depth: 1 });
}

#[test]
fn declared_order_is_kept() {
    let files = [("b/x.ext", "package: \"X\"\n"), ("b/y.ext", "package: \"Y\"\n")];
    let r = program("package: \"R\"\ndepends: \"x.ext\", \"y.ext\"\n");
    assert_eq!(
        resolve("b", vec![r], &files),
        Ok(vec!["X".to_string(), "Y".to_string(), "R".to_string()])
    );
}

#[test]
fn nested_reference_uses_run_base() {
    let files = [
        ("b/sub/m.ext", "package: \"M\"\ndepends: \"n.ext\"\n"),
        ("b/n.ext", "package: \"N\"\n"),
    ];
    let r = program("package: \"R\"\ndepends: \"sub/m.ext\"\n");
    assert_eq!(
        resolve("b", vec![r], &files),
        Ok(vec!["N".to_string(), "M".to_string(), "R".to_string()])
    );
}

#[test]
fn first_root_of_a_name_wins() {
    let a1 = program("package: \"A\"\nversion: \"1\"\n");
    let a2 = program("package: \"A\"\nversion: \"2\"\n");
    let mut r = Resolver::new(String::new(), vec![a1, a2]);
    assert!(matches!(r.step(None), Request::Finished));
    let order = r.into_order();
    assert_eq!(order.len(), 1);
    assert_eq!(order[0].version, "1");
}
