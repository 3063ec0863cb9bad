//! The task value a configuration entry is built into.
//!
//! A task is created during entry parsing with its textual precursor
//! references still unresolved, then completed exactly once by the graph
//! resolver, which fills the numeric precursor list.  Afterwards it is
//! handed whole to the downstream scheduler and never touched again.

use vstd::prelude::*;

use crate::action::Action;
use crate::action::ActionView;
use crate::ident::IdAllocator;

verus! {

/// One task of the graph under construction.
pub struct YamlTask {
    /// The identifier this entry carries inside its document.
    yid: String,
    /// The process-unique numeric identifier.
    id: usize,
    /// The human-readable name; not required to be unique.
    name: String,
    /// Precursor references as written in the document.
    precursors: Vec<String>,
    /// Numeric identifiers of the precursors; empty until resolution.
    precursors_id: Vec<usize>,
    /// The executable payload.
    action: Action,
}

/// The mathematical value of a [`YamlTask`].
#[verifier::ext_equal]
pub struct TaskView {
    pub yid: Seq<char>,
    pub id: usize,
    pub name: Seq<char>,
    pub precursors: Seq<Seq<char>>,
    pub precursors_id: Seq<usize>,
    pub action: ActionView,
}

impl View for YamlTask {
    type V = TaskView;

    closed spec fn view(&self) -> TaskView {
        TaskView {
            yid: self.yid@,
            id: self.id,
            name: self.name@,
            precursors: self.precursors.deep_view(),
            precursors_id: self.precursors_id@,
            action: self.action@,
        }
    }
}

impl YamlTask {
    /// Build a task from one parsed entry.  The numeric identifier is drawn
    /// from the allocator; the numeric precursor list starts empty and is
    /// filled later by the resolver.
    pub fn new(
        yaml_id: &str,
        precursors: Vec<String>,
        name: String,
        action: Action,
        alloc: &mut IdAllocator,
    ) -> (t: Self)
        requires
            old(alloc).wf(),
            old(alloc).next_id() < usize::MAX,
        ensures
            final(alloc).wf(),
            final(alloc).next_id() == old(alloc).next_id() + 1,
            final(alloc).issued() == old(alloc).issued().push(old(alloc).next_id()),
            t@ == (TaskView {
                yid: yaml_id@,
                id: old(alloc).next_id(),
                name: name@,
                precursors: precursors.deep_view(),
                precursors_id: Seq::<usize>::empty(),
                action: action@,
            }),
    {
        YamlTask {
            yid: yaml_id.to_owned(),
            id: alloc.alloc_id(),
            name,
            precursors,
            precursors_id: Vec::new(),
            action,
        }
    }

    /// Fill the numeric precursor list, once the identifiers of every task
    /// of the document are known.  Every other field keeps its value.
    pub fn init_precursors(&mut self, pres_id: Vec<usize>)
        ensures
            final(self)@ == (TaskView { precursors_id: pres_id@, ..old(self)@ }),
    {
        self.precursors_id = pres_id;
    }

    /// The precursor references as written in the document.
    pub fn str_precursors(&self) -> (r: Vec<String>)
        ensures
            r.deep_view() == self@.precursors,
    {
        let mut out: Vec<String> = Vec::new();
        let mut i: usize = 0;
        while i < self.precursors.len()
            invariant
                i <= self.precursors.len(),
                out@.len() == i,
                forall|j: int| 0 <= j < i ==> out@[j] == self.precursors@[j],
            decreases self.precursors.len() - i,
        {
            out.push(self.precursors[i].clone());
            i = i + 1;
        }
        proof {
            assert(out@ =~= self.precursors@);
        }
        out
    }

    /// The identifier this entry carries inside its document.
    pub fn str_id(&self) -> (r: &String)
        ensures
            r@ == self@.yid,
    {
        &self.yid
    }

    /// The process-unique numeric identifier.
    pub fn id(&self) -> (r: usize)
        ensures
            r == self@.id,
    {
        self.id
    }

    /// The human-readable name.
    pub fn name(&self) -> (r: &String)
        ensures
            r@ == self@.name,
    {
        &self.name
    }

    /// The numeric identifiers of the precursors; empty before resolution.
    pub fn precursors(&self) -> (r: &Vec<usize>)
        ensures
            r@ == self@.precursors_id,
    {
        &self.precursors_id
    }

    /// The executable payload.
    pub fn action(&self) -> (r: Action)
        ensures
            r@ == self@.action,
    {
        self.action.duplicate()
    }
}

} // verus!
