use dagrs::Action;
use dagrs::FileContentError;
use dagrs::IdAllocator;
use dagrs::Node;
use dagrs::ParseError;
use dagrs::YamlParser;
use dagrs::YamlTask;
use dagrs::YamlTaskError;

fn s(x: &str) -> Node {
    Node::Str(x.to_string())
}

fn entry(name: Option<&str>, after: Option<Vec<Node>>, cmd: Option<&str>) -> Node {
    let mut fields: Vec<(Node, Node)> = Vec::new();
    if let Some(n) = name {
        fields.push((s("name"), s(n)));
    }
    if let Some(a) = after {
        fields.push((s("after"), Node::List(a)));
    }
    if let Some(c) = cmd {
        fields.push((s("cmd"), s(c)));
    }
    Node::Dict(fields)
}

fn doc(entries: Vec<(&str, Node)>) -> Node {
    let pairs: Vec<(Node, Node)> = entries.into_iter().map(|(k, v)| (s(k), v)).collect();
    Node::Dict(vec![(s("dagrs"), Node::Dict(pairs))])
}

fn id_of<'a>(tasks: &'a [YamlTask], yid: &str) -> &'a YamlTask {
    tasks.iter().find(|t| t.str_id().as_str() == yid).unwrap()
}

#[test]
fn two_entries_resolve_to_one_edge() {
    let parser = YamlParser;
    let mut alloc = IdAllocator::new();
    let d = doc(vec![
        ("A", entry(Some("A"), None, Some("echo a"))),
        ("B", entry(Some("B"), Some(vec![s("A")]), Some("echo b"))),
    ]);
    let tasks = parser.build_tasks(&d, Vec::new(), &mut alloc).unwrap();
    assert_eq!(tasks.len(), 2);
    let a = id_of(&tasks, "A");
    let b = id_of(&tasks, "B");
    assert_eq!(a.name().as_str(), "A");
    assert_eq!(b.name().as_str(), "B");
    assert_eq!(a.precursors().len(), 0);
    assert_eq!(b.precursors(), &vec![a.id()]);
    assert_ne!(a.id(), b.id());
    match a.action() {
        Action::Command(c) => assert_eq!(c.as_str(), "echo a"),
        _ => panic!("expected the command action"),
    }
}

#[test]
fn dangling_reference_fails_whole_build() {
    let parser = YamlParser;
    let mut alloc = IdAllocator::new();
    let d = doc(vec![("A", entry(Some("A"), Some(vec![s("Z")]), Some("echo a")))]);
    let r = parser.build_tasks(&d, Vec::new(), &mut alloc);
    match r {
        Err(ParseError::Task(YamlTaskError::NotFoundPrecursor(n))) => assert_eq!(n.as_str(), "A"),
        _ => panic!("expected the unresolved-precursor error"),
    }
}

#[test]
fn dangling_reference_returns_no_task_beside_good_ones() {
    let parser = YamlParser;
    let mut alloc = IdAllocator::new();
    let d = doc(vec![
        ("A", entry(Some("A"), None, Some("echo a"))),
        ("B", entry(Some("B"), Some(vec![s("Z")]), Some("echo b"))),
        ("C", entry(Some("C"), Some(vec![s("A")]), Some("echo c"))),
    ]);
    let r = parser.build_tasks(&d, Vec::new(), &mut alloc);
    match r {
        Err(ParseError::Task(YamlTaskError::NotFoundPrecursor(n))) => assert_eq!(n.as_str(), "B"),
        _ => panic!("expected the unresolved-precursor error, not a partial task set"),
    }
}

#[test]
fn declaration_order_does_not_change_the_graph() {
    let parser = YamlParser;

    let mut alloc1 = IdAllocator::new();
    let forward = doc(vec![
        ("B", entry(Some("B"), Some(vec![s("A")]), Some("echo b"))),
        ("A", entry(Some("A"), None, Some("echo a"))),
    ]);
    let t1 = parser.build_tasks(&forward, Vec::new(), &mut alloc1).unwrap();

    let mut alloc2 = IdAllocator::new();
    let backward = doc(vec![
        ("A", entry(Some("A"), None, Some("echo a"))),
        ("B", entry(Some("B"), Some(vec![s("A")]), Some("echo b"))),
    ]);
    let t2 = parser.build_tasks(&backward, Vec::new(), &mut alloc2).unwrap();

    for tasks in [&t1, &t2] {
        let a = id_of(tasks, "A");
        let b = id_of(tasks, "B");
        assert_eq!(a.precursors().len(), 0);
        assert_eq!(b.precursors(), &vec![a.id()]);
    }
}

#[test]
fn ids_stay_unique_over_a_sequence_of_builds() {
    let parser = YamlParser;
    let mut alloc = IdAllocator::new();
    let d1 = doc(vec![
        ("A", entry(Some("A"), None, Some("echo a"))),
        ("B", entry(Some("B"), None, Some("echo b"))),
    ]);
    let d2 = doc(vec![
        ("A", entry(Some("A"), None, Some("echo a"))),
        ("C", entry(Some("C"), Some(vec![s("A")]), Some("echo c"))),
    ]);
    let t1 = parser.build_tasks(&d1, Vec::new(), &mut alloc).unwrap();
    let t2 = parser.build_tasks(&d2, Vec::new(), &mut alloc).unwrap();
    let mut ids: Vec<usize> = t1.iter().chain(t2.iter()).map(|t| t.id()).collect();
    ids.sort();
    ids.dedup();
    assert_eq!(ids.len(), 4);
}

#[test]
fn override_takes_precedence_over_cmd() {
    let parser = YamlParser;
    let mut alloc = IdAllocator::new();
    let d = doc(vec![
        ("A", entry(Some("A"), None, Some("echo a"))),
        ("B", entry(Some("B"), None, Some("echo b"))),
    ]);
    let overrides = vec![("A".to_string(), Action::Custom(7))];
    let tasks = parser.build_tasks(&d, overrides, &mut alloc).unwrap();
    let a = id_of(&tasks, "A");
    let b = id_of(&tasks, "B");
    assert!(matches!(a.action(), Action::Custom(7)));
    match b.action() {
        Action::Command(c) => assert_eq!(c.as_str(), "echo b"),
        _ => panic!("expected the command action"),
    }
}

#[test]
fn override_lets_an_entry_omit_cmd() {
    let parser = YamlParser;
    let mut alloc = IdAllocator::new();
    let d = doc(vec![("A", entry(Some("A"), None, None))]);
    let overrides = vec![("A".to_string(), Action::Custom(3))];
    let tasks = parser.build_tasks(&d, overrides, &mut alloc).unwrap();
    assert!(matches!(tasks[0].action(), Action::Custom(3)));
}

#[test]
fn unused_override_is_no_error() {
    let parser = YamlParser;
    let mut alloc = IdAllocator::new();
    let d = doc(vec![("A", entry(Some("A"), None, Some("echo a")))]);
    let overrides = vec![("Z".to_string(), Action::Custom(9))];
    let tasks = parser.build_tasks(&d, overrides, &mut alloc).unwrap();
    assert_eq!(tasks.len(), 1);
    assert!(matches!(tasks[0].action(), Action::Command(_)));
}

#[test]
fn empty_document_and_missing_root_fail_differently() {
    let parser = YamlParser;
    let mut alloc = IdAllocator::new();

    let empty = Node::Dict(vec![(s("dagrs"), Node::Dict(Vec::new()))]);
    let r1 = parser.build_tasks(&empty, Vec::new(), &mut alloc);
    assert!(matches!(r1, Err(ParseError::Content(FileContentError::Empty))));

    let no_root = Node::Dict(vec![(s("other"), Node::Dict(Vec::new()))]);
    let r2 = parser.build_tasks(&no_root, Vec::new(), &mut alloc);
    assert!(matches!(r2, Err(ParseError::Task(YamlTaskError::StartWordError))));
}

#[test]
fn missing_name_is_rejected() {
    let parser = YamlParser;
    let mut alloc = IdAllocator::new();
    let d = doc(vec![("A", entry(None, None, Some("echo a")))]);
    let r = parser.build_tasks(&d, Vec::new(), &mut alloc);
    match r {
        Err(ParseError::Task(YamlTaskError::NoNameAttr(id))) => assert_eq!(id.as_str(), "A"),
        _ => panic!("expected the missing-name error"),
    }
}

#[test]
fn missing_cmd_without_override_is_rejected() {
    let parser = YamlParser;
    let mut alloc = IdAllocator::new();
    let d = doc(vec![("A", entry(Some("task a"), None, None))]);
    let r = parser.build_tasks(&d, Vec::new(), &mut alloc);
    match r {
        Err(ParseError::Task(YamlTaskError::NoScriptAttr(n))) => assert_eq!(n.as_str(), "task a"),
        _ => panic!("expected the missing-command error"),
    }
}

#[test]
fn non_string_after_element_is_rejected() {
    let parser = YamlParser;
    let mut alloc = IdAllocator::new();
    let d = doc(vec![("A", entry(Some("A"), Some(vec![Node::Int(1)]), Some("echo a")))]);
    let r = parser.build_tasks(&d, Vec::new(), &mut alloc);
    match r {
        Err(ParseError::Task(YamlTaskError::IllegalAfterList(id))) => assert_eq!(id.as_str(), "A"),
        _ => panic!("expected the illegal-after-list error"),
    }
}

#[test]
fn after_that_is_no_list_means_no_precursor() {
    let parser = YamlParser;
    let mut alloc = IdAllocator::new();
    let d = doc(vec![(
        "A",
        Node::Dict(vec![
            (s("name"), s("A")),
            (s("after"), s("B")),
            (s("cmd"), s("echo a")),
        ]),
    )]);
    let tasks = parser.build_tasks(&d, Vec::new(), &mut alloc).unwrap();
    assert_eq!(tasks[0].precursors().len(), 0);
    assert_eq!(tasks[0].str_precursors().len(), 0);
}

#[test]
fn non_string_entry_key_is_rejected() {
    let parser = YamlParser;
    let mut alloc = IdAllocator::new();
    let d = Node::Dict(vec![(
        s("dagrs"),
        Node::Dict(vec![(Node::Int(1), entry(Some("A"), None, Some("echo a")))]),
    )]);
    let r = parser.build_tasks(&d, Vec::new(), &mut alloc);
    assert!(matches!(r, Err(ParseError::Task(YamlTaskError::IllegalKey))));
}

#[test]
fn repeated_document_identifier_is_rejected() {
    let parser = YamlParser;
    let mut alloc = IdAllocator::new();
    let d = Node::Dict(vec![(
        s("dagrs"),
        Node::Dict(vec![
            (s("A"), entry(Some("first"), None, Some("echo 1"))),
            (s("A"), entry(Some("second"), None, Some("echo 2"))),
        ]),
    )]);
    let r = parser.build_tasks(&d, Vec::new(), &mut alloc);
    match r {
        Err(ParseError::Task(YamlTaskError::DuplicateId(id))) => assert_eq!(id.as_str(), "A"),
        _ => panic!("expected the duplicate-identifier error"),
    }
}

#[test]
fn allocator_counts_up_from_one() {
    let mut alloc = IdAllocator::new();
    assert_eq!(alloc.peek(), 1);
    let first = alloc.alloc_id();
    let second = alloc.alloc_id();
    assert_eq!(first, 1);
    assert_eq!(second, 2);
    assert_eq!(alloc.peek(), 3);
}

#[test]
fn task_is_built_unresolved_and_completed_once() {
    let mut alloc = IdAllocator::new();
    let mut t = YamlTask::new(
        "A",
        vec!["B".to_string(), "C".to_string()],
        "task a".to_string(),
        Action::command("echo a"),
        &mut alloc,
    );
    assert_eq!(t.str_id().as_str(), "A");
    assert_eq!(t.name().as_str(), "task a");
    assert_eq!(t.id(), 1);
    assert_eq!(t.str_precursors(), vec!["B".to_string(), "C".to_string()]);
    assert_eq!(t.precursors().len(), 0);
    t.init_precursors(vec![4, 5]);
    assert_eq!(t.precursors(), &vec![4, 5]);
}
