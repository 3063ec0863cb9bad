//! The task-entry parser and the graph resolver.
//!
//! [`YamlParser::parse_one`] turns one entry of the generic key-value tree
//! into a task whose textual precursor references are still unresolved.
//! [`YamlParser::build_tasks`] runs the whole two-pass build over a parsed
//! document: a first pass constructs every task and records the mapping
//! from document identifier to numeric identifier, a second pass resolves
//! every textual reference through that mapping.  Any failure anywhere
//! rejects the whole document; no partial task set is ever returned.
//! [`YamlParser::parse_tasks`] does the same starting from document text,
//! handing the text to the external deserializer first.

use vstd::prelude::*;

use crate::action::Action;
use crate::action::ActionView;
use crate::error::ContentErrorView;
use crate::error::FileContentError;
use crate::error::ParseError;
use crate::error::ParseErrorView;
use crate::error::TaskErrorView;
use crate::error::YamlTaskError;
use crate::ident::IdAllocator;
use crate::node::Node;
use crate::node::dict_of;
use crate::node::get_of;
use crate::node::list_of;
use crate::node::str_of;
use crate::task::TaskView;
use crate::task::YamlTask;
use crate::yaml_input::docs_of;
use crate::yaml_input::load_docs;
use crate::yaml_input::scan_msg_of;

verus! {

// ---------------------------------------------------------------------------
// What one entry means
// ---------------------------------------------------------------------------

/// The task name an entry declares: its `name` field, a string scalar.
pub open spec fn name_of(item: Node) -> Option<Seq<char>> {
    match get_of(item, "name"@) {
        Some(v) => str_of(v),
        None => None,
    }
}

/// The command string an entry declares: its `cmd` field, a string scalar.
pub open spec fn cmd_of(item: Node) -> Option<Seq<char>> {
    match get_of(item, "cmd"@) {
        Some(v) => str_of(v),
        None => None,
    }
}

/// The texts of a sequence of nodes, when every one is a string scalar.
pub open spec fn strs_of(l: Seq<Node>) -> Option<Seq<Seq<char>>>
    decreases l.len(),
{
    if l.len() == 0 {
        Some(Seq::empty())
    } else {
        match (strs_of(l.drop_last()), str_of(l.last())) {
            (Some(init), Some(s)) => Some(init.push(s)),
            _ => None,
        }
    }
}

/// The precursor references an entry declares.  A missing `after` field,
/// like one that is no list, means zero precursors; a list with an element
/// that is no string scalar means `None`, and the entry is rejected.
pub open spec fn after_of(item: Node) -> Option<Seq<Seq<char>>> {
    match get_of(item, "after"@) {
        Some(v) => match list_of(v) {
            Some(l) => strs_of(l),
            None => Some(Seq::empty()),
        },
        None => Some(Seq::empty()),
    }
}

/// The override action supplied for document identifier `key`, scanning the
/// override pairs from position `i` on: the first match wins.
pub open spec fn override_from(ovs: Seq<(String, Action)>, key: Seq<char>, i: int) -> Option<
    ActionView,
>
    decreases ovs.len() - i,
{
    if i < 0 || i >= ovs.len() {
        None
    } else if ovs[i].0@ == key {
        Some(ovs[i].1@)
    } else {
        override_from(ovs, key, i + 1)
    }
}

/// The override action supplied for document identifier `key`, if any.
pub open spec fn override_of(ovs: Seq<(String, Action)>, key: Seq<char>) -> Option<ActionView> {
    override_from(ovs, key, 0)
}

/// The view of an optional action.
pub open spec fn opt_view(a: Option<Action>) -> Option<ActionView> {
    match a {
        Some(x) => Some(x@),
        None => None,
    }
}

/// The action an entry ends up with: the supplied override when there is
/// one — its `cmd` field is then ignored — otherwise the command action
/// built from its `cmd` field; `None` when neither is available.
pub open spec fn entry_action(item: Node, ov: Option<ActionView>) -> Option<ActionView> {
    match ov {
        Some(a) => Some(a),
        None => match cmd_of(item) {
            Some(c) => Some(ActionView::Command(c)),
            None => None,
        },
    }
}

/// Why one entry is rejected, if it is: no `name` field first, an illegal
/// `after` list second, no command and no override last.
pub open spec fn entry_err(id: Seq<char>, item: Node, ov: Option<ActionView>) -> Option<
    TaskErrorView,
> {
    if name_of(item) is None {
        Some(TaskErrorView::NoNameAttr(id))
    } else if after_of(item) is None {
        Some(TaskErrorView::IllegalAfterList(id))
    } else if entry_action(item, ov) is None {
        Some(TaskErrorView::NoScriptAttr(name_of(item).unwrap()))
    } else {
        None
    }
}

// ---------------------------------------------------------------------------
// What the whole document means
// ---------------------------------------------------------------------------

/// The task entries of a document: the dictionary under the root key.
pub open spec fn entries_of(doc: Node) -> Option<Seq<(Node, Node)>> {
    match get_of(doc, "dagrs"@) {
        Some(v) => dict_of(v),
        None => None,
    }
}

/// Whether an entry before position `i` carries the same key as entry `i`.
pub open spec fn dup_before(es: Seq<(Node, Node)>, i: int) -> bool {
    exists|j: int| 0 <= j < i && str_of(es[j].0) == str_of(es[i].0)
}

/// Why construction rejects entry `i`, if it does: a key that is no string
/// scalar, a repeated key, or a fault inside the entry itself.
pub open spec fn entry_err_at(
    es: Seq<(Node, Node)>,
    ovs: Seq<(String, Action)>,
    i: int,
) -> Option<TaskErrorView> {
    match str_of(es[i].0) {
        None => Some(TaskErrorView::IllegalKey),
        Some(k) => if dup_before(es, i) {
            Some(TaskErrorView::DuplicateId(k))
        } else {
            entry_err(k, es[i].1, override_of(ovs, k))
        },
    }
}

/// The first fault of the construction pass at or after entry `i`.
pub open spec fn pass1_err_from(
    es: Seq<(Node, Node)>,
    ovs: Seq<(String, Action)>,
    i: int,
) -> Option<TaskErrorView>
    decreases es.len() - i,
{
    if i < 0 || i >= es.len() {
        None
    } else {
        match entry_err_at(es, ovs, i) {
            Some(e) => Some(e),
            None => pass1_err_from(es, ovs, i + 1),
        }
    }
}

/// The position of the first entry at or after `i` whose key is the string
/// scalar `k`.
pub open spec fn find_key(es: Seq<(Node, Node)>, k: Seq<char>, i: int) -> Option<int>
    decreases es.len() - i,
{
    if i < 0 || i >= es.len() {
        None
    } else if str_of(es[i].0) == Some(k) {
        Some(i)
    } else {
        find_key(es, k, i + 1)
    }
}

/// The numeric identifiers the references `refs` resolve to, when every
/// one names a declared entry; task `j` of the document holds identifier
/// `base + j`.
pub open spec fn resolve_all(
    es: Seq<(Node, Node)>,
    refs: Seq<Seq<char>>,
    base: int,
) -> Option<Seq<usize>>
    decreases refs.len(),
{
    if refs.len() == 0 {
        Some(Seq::empty())
    } else {
        match (resolve_all(es, refs.drop_last(), base), find_key(es, refs.last(), 0)) {
            (Some(init), Some(j)) => Some(init.push((base + j) as usize)),
            _ => None,
        }
    }
}

/// The first fault of the resolution pass at or after task `i`: the first
/// task one of whose references names no declared entry, reported under
/// the task's name.  Defined for documents the construction pass accepts.
pub open spec fn pass2_err_from(
    es: Seq<(Node, Node)>,
    base: int,
    i: int,
) -> Option<TaskErrorView>
    decreases es.len() - i,
{
    if i < 0 || i >= es.len() {
        None
    } else if resolve_all(es, after_of(es[i].1).unwrap(), base) is None {
        Some(TaskErrorView::NotFoundPrecursor(name_of(es[i].1).unwrap()))
    } else {
        pass2_err_from(es, base, i + 1)
    }
}

/// The finished task built from entry `i`, for a document both passes
/// accept.
pub open spec fn task_view_at(
    es: Seq<(Node, Node)>,
    ovs: Seq<(String, Action)>,
    base: int,
    i: int,
) -> TaskView {
    TaskView {
        yid: str_of(es[i].0).unwrap(),
        id: (base + i) as usize,
        name: name_of(es[i].1).unwrap(),
        precursors: after_of(es[i].1).unwrap(),
        precursors_id: resolve_all(es, after_of(es[i].1).unwrap(), base).unwrap(),
        action: entry_action(es[i].1, override_of(ovs, str_of(es[i].0).unwrap())).unwrap(),
    }
}

/// The finished task set of a document both passes accept.
pub open spec fn built_tasks(
    es: Seq<(Node, Node)>,
    ovs: Seq<(String, Action)>,
    base: int,
) -> Seq<TaskView> {
    Seq::new(es.len(), |i: int| task_view_at(es, ovs, base, i))
}

/// The views of a sequence of tasks.
pub open spec fn views_of(tasks: Seq<YamlTask>) -> Seq<TaskView> {
    Seq::new(tasks.len(), |i: int| tasks[i]@)
}

/// `n` consecutive identifiers starting at `base`.
pub open spec fn id_range(base: int, n: int) -> Seq<usize> {
    Seq::new(n as nat, |i: int| (base + i) as usize)
}

/// What a build of document `doc` with overrides `ovs` returns, when the
/// allocator's next identifier is `base`: either the finished task set, or
/// the one fault that rejected the whole document.
pub open spec fn build_outcome(
    doc: Node,
    ovs: Seq<(String, Action)>,
    base: int,
) -> Result<Seq<TaskView>, ParseErrorView> {
    match entries_of(doc) {
        None => Err(ParseErrorView::Task(TaskErrorView::StartWordError)),
        Some(es) => if es.len() == 0 {
            Err(ParseErrorView::Content(ContentErrorView::Empty))
        } else if base + es.len() > usize::MAX {
            Err(ParseErrorView::IdSpaceExhausted)
        } else {
            match pass1_err_from(es, ovs, 0) {
                Some(e) => Err(ParseErrorView::Task(e)),
                None => match pass2_err_from(es, base, 0) {
                    Some(e) => Err(ParseErrorView::Task(e)),
                    None => Ok(built_tasks(es, ovs, base)),
                },
            }
        },
    }
}

/// The still-unresolved task built from entry `i` by the construction
/// pass: like [`task_view_at`], with the numeric precursor list still
/// empty.
spec fn unresolved_view_at(
    es: Seq<(Node, Node)>,
    ovs: Seq<(String, Action)>,
    base: int,
    i: int,
) -> TaskView {
    TaskView {
        yid: str_of(es[i].0).unwrap(),
        id: (base + i) as usize,
        name: name_of(es[i].1).unwrap(),
        precursors: after_of(es[i].1).unwrap(),
        precursors_id: Seq::<usize>::empty(),
        action: entry_action(es[i].1, override_of(ovs, str_of(es[i].0).unwrap())).unwrap(),
    }
}

/// The identifier recorded in the lookup table under key `k`, scanning
/// from position `i` on.
spec fn table_lookup_from(t: Seq<(String, usize)>, k: Seq<char>, i: int) -> Option<usize>
    decreases t.len() - i,
{
    if i < 0 || i >= t.len() {
        None
    } else if t[i].0@ == k {
        Some(t[i].1)
    } else {
        table_lookup_from(t, k, i + 1)
    }
}

// ---------------------------------------------------------------------------
// Supporting lemmas
// ---------------------------------------------------------------------------

/// While the construction pass accepts every entry it sees, its first
/// fault lies further on.
proof fn lemma_pass1_skip(es: Seq<(Node, Node)>, ovs: Seq<(String, Action)>, lo: int, i: int)
    requires
        0 <= lo <= i <= es.len(),
        forall|j: int| lo <= j < i ==> entry_err_at(es, ovs, j) is None,
    ensures
        pass1_err_from(es, ovs, lo) == pass1_err_from(es, ovs, i),
    decreases i - lo,
{
    if lo < i {
        lemma_pass1_skip(es, ovs, lo + 1, i);
    }
}

/// While the resolution pass resolves every task it sees, its first fault
/// lies further on.
proof fn lemma_pass2_skip(es: Seq<(Node, Node)>, base: int, lo: int, i: int)
    requires
        0 <= lo <= i <= es.len(),
        forall|j: int|
            lo <= j < i ==> resolve_all(es, after_of(es[j].1).unwrap(), base) is Some,
    ensures
        pass2_err_from(es, base, lo) == pass2_err_from(es, base, i),
    decreases i - lo,
{
    if lo < i {
        lemma_pass2_skip(es, base, lo + 1, i);
    }
}

/// A hit in the lookup table names some recorded key; a miss names none.
proof fn lemma_table_scan(t: Seq<(String, usize)>, k: Seq<char>, i: int)
    requires
        0 <= i <= t.len(),
    ensures
        table_lookup_from(t, k, i) is Some ==> exists|j: int| i <= j < t.len() && t[j].0@ == k,
        table_lookup_from(t, k, i) is None ==> forall|j: int| i <= j < t.len() ==> t[j].0@ != k,
    decreases t.len() - i,
{
    if i < t.len() {
        lemma_table_scan(t, k, i + 1);
    }
}

/// A table that records key `j` of the document under identifier
/// `base + j`, entry by entry, answers exactly as a search of the
/// document's keys does.
proof fn lemma_table_find(
    t: Seq<(String, usize)>,
    es: Seq<(Node, Node)>,
    base: int,
    k: Seq<char>,
    i: int,
)
    requires
        t.len() == es.len(),
        forall|j: int|
            0 <= j < es.len() ==> str_of(es[j].0) == Some(#[trigger] t[j].0@) && t[j].1 == (base
                + j) as usize,
        0 <= i <= t.len(),
    ensures
        table_lookup_from(t, k, i) == match find_key(es, k, i) {
            Some(j) => Some((base + j) as usize),
            None => None::<usize>,
        },
    decreases t.len() - i,
{
    if i < t.len() {
        lemma_table_find(t, es, base, k, i + 1);
    }
}

/// One reference that names no declared entry spoils the whole
/// resolution.
proof fn lemma_resolve_none(es: Seq<(Node, Node)>, refs: Seq<Seq<char>>, base: int, k: int)
    requires
        0 <= k < refs.len(),
        find_key(es, refs[k], 0) is None,
    ensures
        resolve_all(es, refs, base) is None,
    decreases refs.len(),
{
    if k < refs.len() - 1 {
        lemma_resolve_none(es, refs.drop_last(), base, k);
    }
}

/// While the construction pass accepts the whole document, it accepts
/// each of its entries.
proof fn lemma_pass1_all_ok(es: Seq<(Node, Node)>, ovs: Seq<(String, Action)>, lo: int, i: int)
    requires
        0 <= lo <= i < es.len(),
        pass1_err_from(es, ovs, lo) is None,
    ensures
        entry_err_at(es, ovs, i) is None,
    decreases i - lo,
{
    if lo < i {
        lemma_pass1_all_ok(es, ovs, lo + 1, i);
    }
}

/// One task whose references do not all resolve makes the resolution pass
/// report a fault.
proof fn lemma_pass2_hit(es: Seq<(Node, Node)>, base: int, lo: int, i: int)
    requires
        0 <= lo <= i < es.len(),
        resolve_all(es, after_of(es[i].1).unwrap(), base) is None,
    ensures
        pass2_err_from(es, base, lo) is Some,
    decreases i - lo,
{
    if lo < i && resolve_all(es, after_of(es[lo].1).unwrap(), base) is Some {
        lemma_pass2_hit(es, base, lo + 1, i);
    }
}

/// While the resolution pass accepts the whole document, every task's
/// references resolve.
proof fn lemma_pass2_all_ok(es: Seq<(Node, Node)>, base: int, lo: int, i: int)
    requires
        0 <= lo <= i < es.len(),
        pass2_err_from(es, base, lo) is None,
    ensures
        resolve_all(es, after_of(es[i].1).unwrap(), base) is Some,
    decreases i - lo,
{
    if lo < i {
        lemma_pass2_all_ok(es, base, lo + 1, i);
    }
}

/// The position a key search returns carries that key.
proof fn lemma_find_key_found(es: Seq<(Node, Node)>, k: Seq<char>, i: int)
    requires
        0 <= i,
        find_key(es, k, i) is Some,
    ensures
        i <= find_key(es, k, i).unwrap() < es.len(),
        str_of(es[find_key(es, k, i).unwrap()].0) == Some(k),
    decreases es.len() - i,
{
    if i < es.len() && str_of(es[i].0) != Some(k) {
        lemma_find_key_found(es, k, i + 1);
    }
}

/// A key search returns the position of a declared key that no earlier
/// position carries.
proof fn lemma_find_key_first(es: Seq<(Node, Node)>, k: Seq<char>, b: int, i: int)
    requires
        0 <= i <= b < es.len(),
        str_of(es[b].0) == Some(k),
        forall|j: int| i <= j < b ==> str_of(#[trigger] es[j].0) != Some(k),
    ensures
        find_key(es, k, i) == Some(b),
    decreases b - i,
{
    if i < b {
        lemma_find_key_first(es, k, b, i + 1);
    }
}

/// Each resolved identifier names the position of the entry its reference
/// declares.
proof fn lemma_resolve_index(es: Seq<(Node, Node)>, refs: Seq<Seq<char>>, base: int, k: int)
    requires
        resolve_all(es, refs, base) is Some,
        0 <= k < refs.len(),
    ensures
        resolve_all(es, refs, base).unwrap().len() == refs.len(),
        find_key(es, refs[k], 0) is Some,
        resolve_all(es, refs, base).unwrap()[k] == (base + find_key(es, refs[k], 0).unwrap())
            as usize,
    decreases refs.len(),
{
    if refs.len() > 0 {
        if k < refs.len() - 1 {
            lemma_resolve_index(es, refs.drop_last(), base, k);
        } else {
            if refs.len() > 1 {
                lemma_resolve_index(es, refs.drop_last(), base, 0);
            }
        }
    }
}

/// The length of a fully resolved reference list.
proof fn lemma_resolve_len(es: Seq<(Node, Node)>, refs: Seq<Seq<char>>, base: int)
    requires
        resolve_all(es, refs, base) is Some,
    ensures
        resolve_all(es, refs, base).unwrap().len() == refs.len(),
    decreases refs.len(),
{
    if refs.len() > 0 {
        lemma_resolve_len(es, refs.drop_last(), base);
    }
}

/// What a successful outcome tells of the document it was built from.
proof fn lemma_outcome_ok_parts(
    doc: Node,
    ovs: Seq<(String, Action)>,
    base: int,
    t: Seq<TaskView>,
)
    requires
        build_outcome(doc, ovs, base) == Ok::<Seq<TaskView>, ParseErrorView>(t),
    ensures
        entries_of(doc) is Some,
        entries_of(doc).unwrap().len() > 0,
        base + entries_of(doc).unwrap().len() <= usize::MAX,
        pass1_err_from(entries_of(doc).unwrap(), ovs, 0) is None,
        pass2_err_from(entries_of(doc).unwrap(), base, 0) is None,
        t == built_tasks(entries_of(doc).unwrap(), ovs, base),
{
}

/// A sequence with one element that is no string scalar has no text
/// sequence.
proof fn lemma_strs_none(l: Seq<Node>, i: int)
    requires
        0 <= i < l.len(),
        str_of(l[i]) is None,
    ensures
        strs_of(l) is None,
    decreases l.len(),
{
    if i < l.len() - 1 {
        lemma_strs_none(l.drop_last(), i);
    }
}

// ---------------------------------------------------------------------------
// Laws of the build
// ---------------------------------------------------------------------------

/// Identifier uniqueness across builds: the task sets of two successful
/// builds run one after the other — the second starting where the first
/// left the allocator, or anywhere beyond — share no numeric identifier,
/// and each set is free of repetition on its own.
pub proof fn lemma_builds_share_no_id(
    doc1: Node,
    doc2: Node,
    ovs1: Seq<(String, Action)>,
    ovs2: Seq<(String, Action)>,
    base1: int,
    base2: int,
    t1: Seq<TaskView>,
    t2: Seq<TaskView>,
)
    requires
        0 <= base1,
        0 <= base2,
        build_outcome(doc1, ovs1, base1) == Ok::<Seq<TaskView>, ParseErrorView>(t1),
        build_outcome(doc2, ovs2, base2) == Ok::<Seq<TaskView>, ParseErrorView>(t2),
        base1 + t1.len() <= base2,
    ensures
        forall|a: int, b: int|
            0 <= a < t1.len() && 0 <= b < t2.len() ==> #[trigger] t1[a].id != #[trigger] t2[b].id,
        forall|a: int, b: int|
            0 <= a < t1.len() && 0 <= b < t1.len() && a != b ==> t1[a].id != t1[b].id,
{
    lemma_outcome_ok_parts(doc1, ovs1, base1, t1);
    lemma_outcome_ok_parts(doc2, ovs2, base2, t2);
}

/// Forward-reference independence: in any successful build, the `k`-th
/// resolved precursor of task `a` is the identifier of task `b` exactly
/// when task `b`'s document identifier is the `k`-th textual reference of
/// task `a`.  The numeric graph thus recovers precisely the declared
/// textual graph, wherever in document order each entry stands: declaring
/// a precursor before or after the task that lists it changes nothing.
pub proof fn lemma_resolution_matches_declaration(
    doc: Node,
    ovs: Seq<(String, Action)>,
    base: int,
    t: Seq<TaskView>,
    a: int,
    k: int,
    b: int,
)
    requires
        0 <= base,
        build_outcome(doc, ovs, base) == Ok::<Seq<TaskView>, ParseErrorView>(t),
        0 <= a < t.len(),
        0 <= k < t[a].precursors.len(),
        0 <= b < t.len(),
    ensures
        t[a].precursors_id.len() == t[a].precursors.len(),
        t[a].precursors_id[k] == t[b].id <==> t[b].yid == t[a].precursors[k],
{
    lemma_outcome_ok_parts(doc, ovs, base, t);
    let es = entries_of(doc).unwrap();
    let refs = after_of(es[a].1).unwrap();
    lemma_pass2_all_ok(es, base, 0, a);
    lemma_resolve_index(es, refs, base, k);
    let j = find_key(es, refs[k], 0).unwrap();
    lemma_find_key_found(es, refs[k], 0);
    if t[b].yid == t[a].precursors[k] {
        lemma_pass1_all_ok(es, ovs, 0, b);
        assert(!dup_before(es, b));
        assert forall|j2: int| 0 <= j2 < b implies str_of(#[trigger] es[j2].0) != Some(
            refs[k],
        ) by {
            if str_of(es[j2].0) == Some(refs[k]) {
                assert(str_of(es[j2].0) == str_of(es[b].0));
            }
        }
        lemma_find_key_first(es, refs[k], b, 0);
    }
}

/// Override precedence at the entry level: an entry with a `name` field
/// and a lawful `after` list is accepted whenever an override action is
/// supplied, whatever its `cmd` field holds — the missing-command fault
/// cannot arise, and the entry's action is the override.
pub proof fn lemma_override_forces_acceptance(id: Seq<char>, item: Node, a: ActionView)
    requires
        name_of(item) is Some,
        after_of(item) is Some,
    ensures
        entry_err(id, item, Some(a)) is None,
        entry_action(item, Some(a)) == Some(a),
{
}

/// Forward-reference independence, two-build form: two documents whose
/// entry dictionaries hold the same key-entry pairs — in any two orders —
/// built with the same overrides, yield corresponding graphs.  The tasks
/// a shared document identifier names carry the same name, the same
/// textual references and the same action in both builds, and a numeric
/// edge stands between two document identifiers in one build exactly
/// when it stands between the same two in the other; only the numeric
/// identifiers themselves may differ.
pub proof fn lemma_declaration_order_immaterial(
    doc1: Node,
    doc2: Node,
    ovs: Seq<(String, Action)>,
    base1: int,
    base2: int,
    t1: Seq<TaskView>,
    t2: Seq<TaskView>,
    a1: int,
    a2: int,
    b1: int,
    b2: int,
    k: int,
)
    requires
        0 <= base1,
        0 <= base2,
        build_outcome(doc1, ovs, base1) == Ok::<Seq<TaskView>, ParseErrorView>(t1),
        build_outcome(doc2, ovs, base2) == Ok::<Seq<TaskView>, ParseErrorView>(t2),
        entries_of(doc1).unwrap().to_multiset() == entries_of(doc2).unwrap().to_multiset(),
        0 <= a1 < t1.len(),
        0 <= a2 < t2.len(),
        t1[a1].yid == t2[a2].yid,
        0 <= b1 < t1.len(),
        0 <= b2 < t2.len(),
        t1[b1].yid == t2[b2].yid,
        0 <= k < t1[a1].precursors.len(),
    ensures
        t1[a1].name == t2[a2].name,
        t1[a1].precursors == t2[a2].precursors,
        t1[a1].action == t2[a2].action,
        t1[a1].precursors_id[k] == t1[b1].id <==> t2[a2].precursors_id[k] == t2[b2].id,
{
    lemma_outcome_ok_parts(doc1, ovs, base1, t1);
    lemma_outcome_ok_parts(doc2, ovs, base2, t2);
    let es1 = entries_of(doc1).unwrap();
    let es2 = entries_of(doc2).unwrap();
    lemma_pass1_all_ok(es1, ovs, 0, a1);
    lemma_pass1_all_ok(es2, ovs, 0, a2);
    assert(t1[a1] == built_tasks(es1, ovs, base1)[a1]);
    assert(t2[a2] == built_tasks(es2, ovs, base2)[a2]);
    assert(str_of(es1[a1].0) == Some(t1[a1].yid));
    assert(str_of(es2[a2].0) == Some(t2[a2].yid));
    lemma_same_entries_match(es1, es2, ovs, a1, a2);
    lemma_resolution_matches_declaration(doc1, ovs, base1, t1, a1, k, b1);
    lemma_resolution_matches_declaration(doc2, ovs, base2, t2, a2, k, b2);
}

/// Two accepted entry sequences holding the same pairs assign a shared
/// key the very same entry node, so everything the entry alone
/// determines is the same in both.
proof fn lemma_same_entries_match(
    es1: Seq<(Node, Node)>,
    es2: Seq<(Node, Node)>,
    ovs: Seq<(String, Action)>,
    a1: int,
    a2: int,
)
    requires
        pass1_err_from(es1, ovs, 0) is None,
        pass1_err_from(es2, ovs, 0) is None,
        es1.to_multiset() == es2.to_multiset(),
        0 <= a1 < es1.len(),
        0 <= a2 < es2.len(),
        str_of(es1[a1].0) == str_of(es2[a2].0),
    ensures
        es1[a1] == es2[a2],
{
    es1.to_multiset_ensures();
    es2.to_multiset_ensures();
    assert(es1.contains(es1[a1]));
    assert(es2.to_multiset().count(es1[a1]) > 0);
    assert(es2.contains(es1[a1]));
    let j = choose|j: int| 0 <= j < es2.len() && es2[j] == es1[a1];
    if j != a2 {
        lemma_pass1_all_ok(es2, ovs, 0, if j < a2 { a2 } else { j });
        assert(dup_before(es2, if j < a2 { a2 } else { j }));
    }
}

/// All or nothing on a dangling reference: a document in which any single
/// entry's `after` list names a document identifier that no entry
/// declares is rejected whole — the build yields an error and not one
/// task.
pub proof fn lemma_dangling_rejects_document(
    doc: Node,
    ovs: Seq<(String, Action)>,
    base: int,
    i: int,
    k: int,
)
    requires
        entries_of(doc) is Some,
        0 <= i < entries_of(doc).unwrap().len(),
        after_of(entries_of(doc).unwrap()[i].1) is Some,
        0 <= k < after_of(entries_of(doc).unwrap()[i].1).unwrap().len(),
        find_key(entries_of(doc).unwrap(), after_of(entries_of(doc).unwrap()[i].1).unwrap()[k], 0)
            is None,
    ensures
        build_outcome(doc, ovs, base) is Err,
{
    let es = entries_of(doc).unwrap();
    let refs = after_of(es[i].1).unwrap();
    lemma_resolve_none(es, refs, base, k);
    if es.len() > 0 && base + es.len() <= usize::MAX && pass1_err_from(es, ovs, 0) is None {
        lemma_pass2_hit(es, base, 0, i);
    }
}

/// Override precedence: when an override action is supplied for a task's
/// document identifier, the built task carries that override, whatever
/// `cmd` field its entry declares.
pub proof fn lemma_override_precedence(
    doc: Node,
    ovs: Seq<(String, Action)>,
    base: int,
    t: Seq<TaskView>,
    i: int,
    a: ActionView,
)
    requires
        build_outcome(doc, ovs, base) == Ok::<Seq<TaskView>, ParseErrorView>(t),
        0 <= i < t.len(),
        override_of(ovs, t[i].yid) == Some(a),
    ensures
        t[i].action == a,
{
    lemma_outcome_ok_parts(doc, ovs, base, t);
}

/// Empty-document rejection: a document whose root key holds a dictionary
/// with zero entries fails with the empty-document error — a different
/// error from the one a missing root key gives.
pub proof fn lemma_empty_document_rejected(doc: Node, ovs: Seq<(String, Action)>, base: int)
    requires
        entries_of(doc) == Some(Seq::<(Node, Node)>::empty()),
    ensures
        build_outcome(doc, ovs, base) == Err::<Seq<TaskView>, ParseErrorView>(
            ParseErrorView::Content(ContentErrorView::Empty),
        ),
{
}

/// A document with no dictionary under the root key fails with the
/// missing-root-key error.
pub proof fn lemma_missing_root_rejected(doc: Node, ovs: Seq<(String, Action)>, base: int)
    requires
        entries_of(doc) is None,
    ensures
        build_outcome(doc, ovs, base) == Err::<Seq<TaskView>, ParseErrorView>(
            ParseErrorView::Task(TaskErrorView::StartWordError),
        ),
{
}

// ---------------------------------------------------------------------------
// Executable helpers
// ---------------------------------------------------------------------------

/// The identifier the lookup table records under `key`, if any.
#[verifier::loop_isolation(false)]
fn lookup_table(table: &Vec<(String, usize)>, key: &String) -> (r: Option<usize>)
    ensures
        r == table_lookup_from(table@, key@, 0),
{
    let mut i: usize = 0;
    while i < table.len()
        invariant
            i <= table.len(),
            table_lookup_from(table@, key@, 0) == table_lookup_from(table@, key@, i as int),
        decreases table.len() - i,
    {
        if table[i].0 == *key {
            return Some(table[i].1);
        }
        i = i + 1;
    }
    None
}

/// The override action supplied for document identifier `key`, if any:
/// the first pair with that key wins.
#[verifier::loop_isolation(false)]
fn pick_override(ovs: &Vec<(String, Action)>, key: &String) -> (r: Option<Action>)
    ensures
        opt_view(r) == override_of(ovs@, key@),
{
    let mut i: usize = 0;
    while i < ovs.len()
        invariant
            i <= ovs.len(),
            override_from(ovs@, key@, 0) == override_from(ovs@, key@, i as int),
        decreases ovs.len() - i,
    {
        if ovs[i].0 == *key {
            return Some(ovs[i].1.duplicate());
        }
        i = i + 1;
    }
    None
}

// ---------------------------------------------------------------------------
// The parser
// ---------------------------------------------------------------------------

/// The configuration file parser: entry parsing, and the two-pass build.
pub struct YamlParser;

impl YamlParser {
    /// Parse one entry of the document into a still-unresolved task.
    ///
    /// The entry must declare a `name`; its `after` list, if a list is
    /// there, must hold string scalars only; its action is the supplied
    /// override if one is given, otherwise the command built from its
    /// `cmd` field, which must then be there.  On success one numeric
    /// identifier is drawn from the allocator; on failure the allocator is
    /// untouched.
    #[verifier::loop_isolation(false)]
    pub fn parse_one(
        &self,
        id: &str,
        item: &Node,
        specific_action: Option<Action>,
        alloc: &mut IdAllocator,
    ) -> (r: Result<YamlTask, YamlTaskError>)
        requires
            old(alloc).wf(),
            old(alloc).next_id() < usize::MAX,
        ensures
            final(alloc).wf(),
            match r {
                Ok(t) => {
                    &&& entry_err(id@, *item, opt_view(specific_action)) is None
                    &&& t@ == (TaskView {
                        yid: id@,
                        id: old(alloc).next_id(),
                        name: name_of(*item).unwrap(),
                        precursors: after_of(*item).unwrap(),
                        precursors_id: Seq::<usize>::empty(),
                        action: entry_action(*item, opt_view(specific_action)).unwrap(),
                    })
                    &&& final(alloc).next_id() == old(alloc).next_id() + 1
                    &&& final(alloc).issued() == old(alloc).issued().push(old(alloc).next_id())
                },
                Err(e) => {
                    &&& entry_err(id@, *item, opt_view(specific_action)) == Some(e@)
                    &&& *final(alloc) == *old(alloc)
                },
            },
    {
        let name: String = match item.get("name") {
            Some(v) => match v.as_str() {
                Some(s) => s.to_owned(),
                None => {
                    return Err(YamlTaskError::NoNameAttr(id.to_owned()));
                },
            },
            None => {
                return Err(YamlTaskError::NoNameAttr(id.to_owned()));
            },
        };
        let mut precursors: Vec<String> = Vec::new();
        match item.get("after") {
            Some(v) => match v {
                Node::List(l) => {
                    let mut i: usize = 0;
                    while i < l.len()
                        invariant
                            i <= l.len(),
                            strs_of(l@.take(i as int)) == Some(precursors.deep_view()),
                        decreases l.len() - i,
                    {
                        let ghost prefix = precursors.deep_view();
                        match &l[i] {
                            Node::Str(s) => {
                                precursors.push(s.clone());
                            },
                            _ => {
                                proof {
                                    lemma_strs_none(l@, i as int);
                                }
                                return Err(YamlTaskError::IllegalAfterList(id.to_owned()));
                            },
                        }
                        proof {
                            assert(l@.take(i as int + 1).drop_last() =~= l@.take(i as int));
                            assert(precursors.deep_view() =~= prefix.push(l@[i as int]->Str_0@));
                        }
                        i = i + 1;
                    }
                    proof {
                        assert(l@.take(l@.len() as int) =~= l@);
                    }
                },
                _ => {},
            },
            None => {},
        }
        let action: Action = match specific_action {
            Some(a) => a,
            None => match item.get("cmd") {
                Some(v) => match v.as_str() {
                    Some(c) => Action::command(c),
                    None => {
                        return Err(YamlTaskError::NoScriptAttr(name));
                    },
                },
                None => {
                    return Err(YamlTaskError::NoScriptAttr(name));
                },
            },
        };
        Ok(YamlTask::new(id, precursors, name, action, alloc))
    }

    /// Build the whole task set of a parsed document, all or nothing.
    ///
    /// The document must hold a dictionary of entries under the root key,
    /// with at least one entry.  A first pass builds one task per entry in
    /// document order, rejecting a key that is no string scalar, a
    /// repeated key, and every fault of [`YamlParser::parse_one`]; a
    /// second pass resolves every textual reference through the mapping
    /// the first pass recorded, rejecting a reference that no entry
    /// declares.  Any fault rejects the whole document and no task is
    /// returned.  The result, success or fault alike, is exactly
    /// [`build_outcome`] of the document, the overrides and the
    /// allocator's position.  Identifiers drawn before a fault stay
    /// consumed: the allocator never hands one out twice, whatever became
    /// of the build that drew it.
    #[verifier::loop_isolation(false)]
    pub fn build_tasks(
        &self,
        doc: &Node,
        specific_actions: Vec<(String, Action)>,
        alloc: &mut IdAllocator,
    ) -> (r: Result<Vec<YamlTask>, ParseError>)
        requires
            old(alloc).wf(),
        ensures
            final(alloc).wf(),
            old(alloc).issued().is_prefix_of(final(alloc).issued()),
            final(alloc).next_id() >= old(alloc).next_id(),
            match r {
                Ok(tasks) => {
                    &&& build_outcome(*doc, specific_actions@, old(alloc).next_id() as int)
                        == Ok::<Seq<TaskView>, ParseErrorView>(views_of(tasks@))
                    &&& final(alloc).next_id() == old(alloc).next_id() + tasks@.len()
                    &&& final(alloc).issued() == old(alloc).issued() + id_range(
                        old(alloc).next_id() as int,
                        tasks@.len() as int,
                    )
                },
                Err(e) => build_outcome(*doc, specific_actions@, old(alloc).next_id() as int)
                    == Err::<Seq<TaskView>, ParseErrorView>(e@),
            },
    {
        let ghost base = old(alloc).next_id() as int;
        let entries: &Vec<(Node, Node)> = match doc.get("dagrs") {
            Some(v) => match v {
                Node::Dict(es) => es,
                _ => {
                    return Err(ParseError::Task(YamlTaskError::StartWordError));
                },
            },
            None => {
                return Err(ParseError::Task(YamlTaskError::StartWordError));
            },
        };
        if entries.len() == 0 {
            return Err(ParseError::Content(FileContentError::Empty));
        }
        if entries.len() > usize::MAX - alloc.peek() {
            return Err(ParseError::IdSpaceExhausted);
        }
        let ghost es = entries@;
        let ghost ovs = specific_actions@;
        let ghost n = entries@.len() as int;

        // Pass 1: construction, in document order.
        let mut tasks: Vec<YamlTask> = Vec::new();
        let mut table: Vec<(String, usize)> = Vec::new();
        let mut i: usize = 0;
        proof {
            assert(old(alloc).issued() + id_range(base, 0) =~= old(alloc).issued());
        }
        while i < entries.len()
            invariant
                i <= entries.len(),
                tasks@.len() == i,
                table@.len() == i,
                alloc.wf(),
                alloc.next_id() == base + i,
                alloc.issued() == old(alloc).issued() + id_range(base, i as int),
                forall|j: int| 0 <= j < i ==> #[trigger] entry_err_at(es, ovs, j) is None,
                forall|j: int|
                    0 <= j < i ==> #[trigger] tasks@[j]@ == unresolved_view_at(es, ovs, base, j),
                forall|j: int|
                    0 <= j < i ==> str_of(es[j].0) == Some(#[trigger] table@[j].0@)
                        && table@[j].1 == (base + j) as usize,
            decreases entries.len() - i,
        {
            let ghost ii = i as int;
            let key: String = match &entries[i].0 {
                Node::Str(s) => s.clone(),
                _ => {
                    proof {
                        lemma_pass1_skip(es, ovs, 0, ii);
                    }
                    return Err(ParseError::Task(YamlTaskError::IllegalKey));
                },
            };
            if lookup_table(&table, &key).is_some() {
                proof {
                    lemma_table_scan(table@, key@, 0);
                    lemma_pass1_skip(es, ovs, 0, ii);
                }
                return Err(ParseError::Task(YamlTaskError::DuplicateId(key)));
            }
            proof {
                lemma_table_scan(table@, key@, 0);
                assert(str_of(es[ii].0) == Some(key@));
                assert forall|j: int| 0 <= j < ii implies str_of(es[j].0) != str_of(
                    es[ii].0,
                ) by {
                    assert(table@[j].0@ != key@);
                }
                assert(!dup_before(es, ii));
            }
            let ov: Option<Action> = pick_override(&specific_actions, &key);
            let task = match self.parse_one(key.as_str(), &entries[i].1, ov, alloc) {
                Ok(t) => t,
                Err(e) => {
                    proof {
                        lemma_pass1_skip(es, ovs, 0, ii);
                    }
                    return Err(ParseError::Task(e));
                },
            };
            let tid = task.id();
            table.push((key, tid));
            tasks.push(task);
            proof {
                assert(old(alloc).issued() + id_range(base, ii) + Seq::<usize>::empty().push(
                    (base + ii) as usize,
                ) =~= old(alloc).issued() + id_range(base, ii + 1));
            }
            i = i + 1;
        }
        proof {
            lemma_pass1_skip(es, ovs, 0, n);
        }

        // Pass 2: resolution, through the recorded mapping.
        let ghost tbl = table@;
        let mut resolved: Vec<YamlTask> = Vec::new();
        while tasks.len() > 0
            invariant
                resolved@.len() + tasks@.len() == n,
                table@ == tbl,
                forall|j: int|
                    0 <= j < resolved@.len() ==> #[trigger] resolved@[j]@ == task_view_at(
                        es,
                        ovs,
                        base,
                        j,
                    ),
                forall|m: int|
                    0 <= m < tasks@.len() ==> #[trigger] tasks@[m]@ == unresolved_view_at(
                        es,
                        ovs,
                        base,
                        resolved@.len() + m,
                    ),
                forall|j: int|
                    0 <= j < resolved@.len() ==> resolve_all(
                        es,
                        after_of(#[trigger] es[j].1).unwrap(),
                        base,
                    ) is Some,
            decreases tasks@.len(),
        {
            let ghost idx = resolved@.len() as int;
            let mut task = tasks.remove(0);
            let pres: Vec<String> = task.str_precursors();
            let mut pres_id: Vec<usize> = Vec::new();
            let mut k: usize = 0;
            proof {
                assert(pres.deep_view().take(0) =~= Seq::<Seq<char>>::empty());
            }
            while k < pres.len()
                invariant
                    k <= pres@.len(),
                    resolve_all(es, pres.deep_view().take(k as int), base) == Some(pres_id@),
                decreases pres@.len() - k,
            {
                let ghost kk = k as int;
                match lookup_table(&table, &pres[k]) {
                    Some(pid) => {
                        pres_id.push(pid);
                    },
                    None => {
                        proof {
                            lemma_table_find(table@, es, base, pres@[kk]@, 0);
                            lemma_resolve_none(es, pres.deep_view(), base, kk);
                            lemma_pass2_skip(es, base, 0, idx);
                        }
                        return Err(
                            ParseError::Task(
                                YamlTaskError::NotFoundPrecursor(task.name().clone()),
                            ),
                        );
                    },
                }
                proof {
                    lemma_table_find(table@, es, base, pres@[kk]@, 0);
                    assert(pres.deep_view().take(kk + 1).drop_last() =~= pres.deep_view().take(
                        kk,
                    ));
                    assert(pres.deep_view().take(kk + 1).last() == pres.deep_view()[kk]);
                }
                k = k + 1;
            }
            proof {
                assert(pres.deep_view().take(pres@.len() as int) =~= pres.deep_view());
            }
            task.init_precursors(pres_id);
            resolved.push(task);
        }
        proof {
            lemma_pass2_skip(es, base, 0, n);
            assert(views_of(resolved@) =~= built_tasks(es, ovs, base));
        }
        Ok(resolved)
    }

    /// Build the whole task set from document text.
    ///
    /// The text goes to the external deserializer, whose result is a
    /// function of the text alone, named by [`docs_of`] and
    /// [`scan_msg_of`]: text the deserializer refuses fails as illegal
    /// content under its message, text that yields no document at all
    /// fails as empty, and otherwise the result is exactly
    /// [`build_outcome`] of the first document — the same build that
    /// [`YamlParser::build_tasks`] performs on a parsed tree.  Every
    /// successful outcome moreover carries fresh, pairwise distinct
    /// numeric identifiers, and every resolved precursor identifier names
    /// a task of the same build: the numeric graph has no dangling edge.
    pub fn parse_tasks(
        &self,
        content: &str,
        specific_actions: Vec<(String, Action)>,
        alloc: &mut IdAllocator,
    ) -> (r: Result<Vec<YamlTask>, ParseError>)
        requires
            old(alloc).wf(),
        ensures
            final(alloc).wf(),
            old(alloc).issued().is_prefix_of(final(alloc).issued()),
            final(alloc).next_id() >= old(alloc).next_id(),
            match docs_of(content@) {
                None => {
                    &&& *final(alloc) == *old(alloc)
                    &&& r matches Err(e) && e@ == ParseErrorView::Content(
                        ContentErrorView::IllegalYamlContent(scan_msg_of(content@)),
                    )
                },
                Some(docs) => {
                    &&& (docs.len() == 0 ==> *final(alloc) == *old(alloc) && (r matches Err(e)
                        && e@ == ParseErrorView::Content(ContentErrorView::Empty)))
                    &&& (docs.len() > 0 ==> match r {
                        Ok(tasks) => build_outcome(
                            docs[0],
                            specific_actions@,
                            old(alloc).next_id() as int,
                        ) == Ok::<Seq<TaskView>, ParseErrorView>(views_of(tasks@)),
                        Err(e) => build_outcome(
                            docs[0],
                            specific_actions@,
                            old(alloc).next_id() as int,
                        ) == Err::<Seq<TaskView>, ParseErrorView>(e@),
                    })
                },
            },
            match r {
                Ok(tasks) => {
                    &&& final(alloc).next_id() == old(alloc).next_id() + tasks@.len()
                    &&& final(alloc).issued() == old(alloc).issued() + id_range(
                        old(alloc).next_id() as int,
                        tasks@.len() as int,
                    )
                    &&& forall|a: int, b: int|
                        0 <= a < tasks@.len() && 0 <= b < tasks@.len() && a != b
                            ==> #[trigger] tasks@[a]@.id != #[trigger] tasks@[b]@.id
                    &&& forall|a: int|
                        0 <= a < tasks@.len() ==> old(alloc).next_id() <= #[trigger] tasks@[a]@.id
                            < final(alloc).next_id()
                    &&& forall|a: int, k: int|
                        0 <= a < tasks@.len() && 0 <= k < tasks@[a]@.precursors_id.len()
                            ==> exists|b: int|
                            0 <= b < tasks@.len() && tasks@[b]@.id == #[trigger] tasks@[a]@.precursors_id[k]
                },
                Err(_) => true,
            },
    {
        let ghost base = old(alloc).next_id() as int;
        let docs: Vec<Node> = match load_docs(content) {
            Ok(d) => d,
            Err(m) => {
                return Err(ParseError::Content(FileContentError::IllegalYamlContent(m)));
            },
        };
        if docs.len() == 0 {
            return Err(ParseError::Content(FileContentError::Empty));
        }
        let r = self.build_tasks(&docs[0], specific_actions, alloc);
        proof {
            let root = docs@[0];
            if r is Ok {
                let tasks = r->Ok_0;
                let ovs = specific_actions@;
                assert(build_outcome(root, ovs, base) == Ok::<Seq<TaskView>, ParseErrorView>(
                    views_of(tasks@),
                ));
                lemma_outcome_ok_parts(root, ovs, base, views_of(tasks@));
                let es = entries_of(root).unwrap();
                assert(views_of(tasks@).len() == tasks@.len());
                assert(built_tasks(es, ovs, base).len() == es.len());
                assert(tasks@.len() == es.len());
                assert forall|a: int|
                    0 <= a < tasks@.len() implies #[trigger] tasks@[a]@ == task_view_at(
                    es,
                    ovs,
                    base,
                    a,
                ) by {
                    assert(tasks@[a]@ == views_of(tasks@)[a]);
                    assert(views_of(tasks@)[a] == built_tasks(es, ovs, base)[a]);
                }
                assert forall|a: int, b: int|
                    0 <= a < tasks@.len() && 0 <= b < tasks@.len() && a != b
                        implies #[trigger] tasks@[a]@.id != #[trigger] tasks@[b]@.id by {
                    assert(tasks@[a]@.id == (base + a) as usize);
                    assert(tasks@[b]@.id == (base + b) as usize);
                }
                assert forall|a: int|
                    0 <= a < tasks@.len() implies base <= #[trigger] tasks@[a]@.id < base
                    + tasks@.len() by {
                    assert(tasks@[a]@.id == (base + a) as usize);
                }
                assert forall|a: int, k: int|
                    0 <= a < tasks@.len() && 0 <= k < tasks@[a]@.precursors_id.len()
                        implies exists|b: int|
                        0 <= b < tasks@.len() && tasks@[b]@.id == #[trigger] tasks@[a]@.precursors_id[k] by {
                    let refs = after_of(es[a].1).unwrap();
                    lemma_pass2_all_ok(es, base, 0, a);
                    lemma_resolve_len(es, refs, base);
                    lemma_resolve_index(es, refs, base, k);
                    let j = find_key(es, refs[k], 0).unwrap();
                    lemma_find_key_found(es, refs[k], 0);
                    assert(tasks@[j]@.id == tasks@[a]@.precursors_id[k]);
                }
            }
        }
        r
    }
}

} // verus!
