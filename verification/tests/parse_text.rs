use dagrs::Action;
use dagrs::FileContentError;
use dagrs::IdAllocator;
use dagrs::ParseError;
use dagrs::YamlParser;
use dagrs::YamlTask;

fn named<'a>(tasks: &'a [YamlTask], yid: &str) -> &'a YamlTask {
    tasks.iter().find(|t| t.str_id().as_str() == yid).unwrap()
}

#[test]
fn text_with_two_tasks_builds_the_graph() {
    let text = "dagrs:\n  a:\n    name: Task a\n    cmd: echo a\n  b:\n    name: Task b\n    after: [a]\n    cmd: echo b\n";
    let parser = YamlParser;
    let mut alloc = IdAllocator::new();
    let tasks = parser.parse_tasks(text, Vec::new(), &mut alloc).unwrap();
    assert_eq!(tasks.len(), 2);
    let a = named(&tasks, "a");
    let b = named(&tasks, "b");
    assert_eq!(a.name().as_str(), "Task a");
    assert_eq!(b.name().as_str(), "Task b");
    assert_eq!(a.precursors().len(), 0);
    assert_eq!(b.precursors(), &vec![a.id()]);
    match b.action() {
        Action::Command(c) => assert_eq!(c.as_str(), "echo b"),
        _ => panic!("expected the command action"),
    }
}

#[test]
fn text_with_forward_reference_builds_the_same_graph() {
    let text = "dagrs:\n  b:\n    name: Task b\n    after: [a]\n    cmd: echo b\n  a:\n    name: Task a\n    cmd: echo a\n";
    let parser = YamlParser;
    let mut alloc = IdAllocator::new();
    let tasks = parser.parse_tasks(text, Vec::new(), &mut alloc).unwrap();
    let a = named(&tasks, "a");
    let b = named(&tasks, "b");
    assert_eq!(a.precursors().len(), 0);
    assert_eq!(b.precursors(), &vec![a.id()]);
}

#[test]
fn text_with_dangling_reference_is_rejected_whole() {
    let text = "dagrs:\n  a:\n    name: A\n    after: [z]\n    cmd: echo a\n";
    let parser = YamlParser;
    let mut alloc = IdAllocator::new();
    let r = parser.parse_tasks(text, Vec::new(), &mut alloc);
    match r {
        Err(ParseError::Task(dagrs::YamlTaskError::NotFoundPrecursor(n))) => {
            assert_eq!(n.as_str(), "A")
        },
        _ => panic!("expected the unresolved-precursor error"),
    }
}

#[test]
fn text_with_override_uses_the_override() {
    let text = "dagrs:\n  a:\n    name: A\n    cmd: echo a\n";
    let parser = YamlParser;
    let mut alloc = IdAllocator::new();
    let overrides = vec![("a".to_string(), Action::Custom(11))];
    let tasks = parser.parse_tasks(text, overrides, &mut alloc).unwrap();
    assert!(matches!(tasks[0].action(), Action::Custom(11)));
}

#[test]
fn unparsable_text_is_rejected_as_illegal_content() {
    let text = "dagrs: [1, 2\n";
    let parser = YamlParser;
    let mut alloc = IdAllocator::new();
    let r = parser.parse_tasks(text, Vec::new(), &mut alloc);
    assert!(matches!(r, Err(ParseError::Content(FileContentError::IllegalYamlContent(_)))));
}

#[test]
fn empty_text_is_rejected_as_empty() {
    let parser = YamlParser;
    let mut alloc = IdAllocator::new();
    let r = parser.parse_tasks("", Vec::new(), &mut alloc);
    assert!(matches!(r, Err(ParseError::Content(FileContentError::Empty))));
}

#[test]
fn root_key_with_no_entry_is_rejected_as_empty() {
    let parser = YamlParser;
    let mut alloc = IdAllocator::new();
    let r = parser.parse_tasks("dagrs: {}\n", Vec::new(), &mut alloc);
    assert!(matches!(r, Err(ParseError::Content(FileContentError::Empty))));
}

#[test]
fn missing_root_key_is_rejected_as_start_word_error() {
    let parser = YamlParser;
    let mut alloc = IdAllocator::new();
    let r = parser.parse_tasks("other:\n  a:\n    name: A\n    cmd: echo a\n", Vec::new(), &mut alloc);
    assert!(matches!(r, Err(ParseError::Task(dagrs::YamlTaskError::StartWordError))));
}

#[test]
fn failed_build_still_leaves_identifiers_fresh() {
    let parser = YamlParser;
    let mut alloc = IdAllocator::new();
    let bad = "dagrs:\n  a:\n    name: A\n    after: [z]\n    cmd: echo a\n";
    let good = "dagrs:\n  b:\n    name: B\n    cmd: echo b\n";
    let _ = parser.parse_tasks(bad, Vec::new(), &mut alloc);
    let tasks = parser.parse_tasks(good, Vec::new(), &mut alloc).unwrap();
    assert!(tasks[0].id() > 1);
}
