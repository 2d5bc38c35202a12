//! Elements of the shared document, the edits made to them, and the batch
//! in which one process hands its edits to the others.

use vstd::prelude::*;
use crate::json::{Json, JsonV, entries_view, clone_entries};

verus! {

/// A node of the document tree. Its identity is `id`, not its position.
#[derive(Debug, PartialEq)]
pub struct PlaitElement {
    pub id: String,
    pub element_type: String,
    pub shape: Option<String>,
    /// The geometric points, kept as they came (pairs of numbers).
    pub points: Option<Json>,
    pub children: Option<Vec<PlaitElement>>,
    pub text: Option<String>,
    pub fill: Option<String>,
    pub stroke: Option<String>,
    /// Named properties beside the well-known ones.
    pub extra: Vec<(String, Json)>,
}

/// Insertion of `node` at `path`.
#[derive(Debug, PartialEq)]
pub struct InsertNodeOperation {
    pub path: Vec<u64>,
    pub node: PlaitElement,
}

/// Removal of `node` at `path`.
#[derive(Debug, PartialEq)]
pub struct RemoveNodeOperation {
    pub path: Vec<u64>,
    pub node: PlaitElement,
}

/// Replacement of the node at `path` (`node`), or an update of some of its
/// properties.
#[derive(Debug, PartialEq)]
pub struct SetNodeOperation {
    pub path: Vec<u64>,
    pub node: Option<PlaitElement>,
    pub properties: Option<Vec<(String, Json)>>,
    pub new_properties: Option<Vec<(String, Json)>>,
}

/// One edit of the document.
#[derive(Debug, PartialEq)]
pub enum Operation {
    Insert(InsertNodeOperation),
    Remove(RemoveNodeOperation),
    SetNode(SetNodeOperation),
    /// An edit of a shape this engine does not know, carried unchanged.
    Generic(Json),
}

/// The unit of replication: the edits of one process, stamped once when
/// they were published.
#[derive(Debug, PartialEq)]
pub struct DDSBoardChangeData {
    pub operations: Vec<Operation>,
    pub timestamp: String,
    pub source_id: String,
    pub children: Option<Vec<PlaitElement>>,
    pub viewport: Option<Json>,
}

/// The model of a [`PlaitElement`].
pub struct ElementModel {
    pub id: Seq<char>,
    pub element_type: Seq<char>,
    pub shape: Option<Seq<char>>,
    pub points: Option<JsonV>,
    pub children: Option<Seq<ElementModel>>,
    pub text: Option<Seq<char>>,
    pub fill: Option<Seq<char>>,
    pub stroke: Option<Seq<char>>,
    pub extra: Seq<(Seq<char>, JsonV)>,
}

/// The model of an [`Operation`].
pub enum OperationModel {
    Insert { path: Seq<u64>, node: ElementModel },
    Remove { path: Seq<u64>, node: ElementModel },
    SetNode {
        path: Seq<u64>,
        node: Option<ElementModel>,
        properties: Option<Seq<(Seq<char>, JsonV)>>,
        new_properties: Option<Seq<(Seq<char>, JsonV)>>,
    },
    Generic(JsonV),
}

/// The model of a [`DDSBoardChangeData`].
pub struct BatchModel {
    pub operations: Seq<OperationModel>,
    pub timestamp: Seq<char>,
    pub source_id: Seq<char>,
    pub children: Option<Seq<ElementModel>>,
    pub viewport: Option<JsonV>,
}

pub open spec fn opt_str_view(s: Option<String>) -> Option<Seq<char>> {
    match s {
        Some(t) => Some(t@),
        None => None,
    }
}

pub open spec fn opt_json_view(j: Option<Json>) -> Option<JsonV> {
    match j {
        Some(v) => Some(v@),
        None => None,
    }
}

pub open spec fn opt_entries_view(m: Option<Vec<(String, Json)>>) -> Option<Seq<(Seq<char>, JsonV)>> {
    match m {
        Some(v) => Some(entries_view(v@)),
        None => None,
    }
}

impl PlaitElement {
    pub open spec fn view(&self) -> ElementModel
        decreases self,
    {
        ElementModel {
            id: self.id@,
            element_type: self.element_type@,
            shape: opt_str_view(self.shape),
            points: opt_json_view(self.points),
            children: match &self.children {
                Some(c) => Some(elements_view(c@)),
                None => None,
            },
            text: opt_str_view(self.text),
            fill: opt_str_view(self.fill),
            stroke: opt_str_view(self.stroke),
            extra: entries_view(self.extra@),
        }
    }
}

/// The models of a sequence of elements.
pub open spec fn elements_view(s: Seq<PlaitElement>) -> Seq<ElementModel>
    decreases s,
{
    if s.len() == 0 {
        seq![]
    } else {
        elements_view(s.drop_last()).push(s.last().view())
    }
}

pub open spec fn opt_elements_view(c: Option<Vec<PlaitElement>>) -> Option<Seq<ElementModel>> {
    match c {
        Some(v) => Some(elements_view(v@)),
        None => None,
    }
}

impl Operation {
    pub open spec fn view(&self) -> OperationModel {
        match self {
            Operation::Insert(o) => OperationModel::Insert { path: o.path@, node: o.node@ },
            Operation::Remove(o) => OperationModel::Remove { path: o.path@, node: o.node@ },
            Operation::SetNode(o) => OperationModel::SetNode {
                path: o.path@,
                node: match &o.node {
                    Some(n) => Some(n@),
                    None => None,
                },
                properties: opt_entries_view(o.properties),
                new_properties: opt_entries_view(o.new_properties),
            },
            Operation::Generic(j) => OperationModel::Generic(j@),
        }
    }
}

/// The models of a sequence of operations.
pub open spec fn operations_view(s: Seq<Operation>) -> Seq<OperationModel> {
    Seq::new(s.len(), |i: int| s[i]@)
}

impl DDSBoardChangeData {
    pub open spec fn view(&self) -> BatchModel {
        BatchModel {
            operations: operations_view(self.operations@),
            timestamp: self.timestamp@,
            source_id: self.source_id@,
            children: opt_elements_view(self.children),
            viewport: opt_json_view(self.viewport),
        }
    }
}

impl OperationModel {
    /// The path that the operation addresses, if it has one.
    pub open spec fn path(self) -> Option<Seq<u64>> {
        match self {
            OperationModel::Insert { path, .. } => Some(path),
            OperationModel::Remove { path, .. } => Some(path),
            OperationModel::SetNode { path, .. } => Some(path),
            OperationModel::Generic(_) => None,
        }
    }
}

pub fn clone_opt_string(s: &Option<String>) -> (r: Option<String>)
    ensures
        opt_str_view(r) == opt_str_view(*s),
{
    match s {
        Some(t) => Some(t.clone()),
        None => None,
    }
}

pub fn clone_opt_json(j: &Option<Json>) -> (r: Option<Json>)
    ensures
        opt_json_view(r) == opt_json_view(*j),
{
    match j {
        Some(v) => Some(v.deep_clone()),
        None => None,
    }
}

pub fn clone_opt_entries(m: &Option<Vec<(String, Json)>>) -> (r: Option<Vec<(String, Json)>>)
    ensures
        opt_entries_view(r) == opt_entries_view(*m),
{
    match m {
        Some(v) => Some(clone_entries(v)),
        None => None,
    }
}

pub fn clone_path(p: &Vec<u64>) -> (r: Vec<u64>)
    ensures
        r@ == p@,
{
    let mut r: Vec<u64> = Vec::new();
    let mut i: usize = 0;
    while i < p.len()
        invariant
            i <= p.len(),
            r@ == p@.subrange(0, i as int),
        decreases p.len() - i,
    {
        r.push(p[i]);
        i = i + 1;
    }
    assert(r@ =~= p@);
    r
}

impl PlaitElement {
    /// A copy of the element and of all its descendants.
    pub fn deep_clone(&self) -> (r: PlaitElement)
        ensures
            r@ == self@,
        decreases self,
    {
        let children = match &self.children {
            Some(c) => {
                proof {
                    assert(decreases_to!(self => self.children));
                }
                Some(clone_elements(c))
            },
            None => None,
        };
        PlaitElement {
            id: self.id.clone(),
            element_type: self.element_type.clone(),
            shape: clone_opt_string(&self.shape),
            points: clone_opt_json(&self.points),
            children,
            text: clone_opt_string(&self.text),
            fill: clone_opt_string(&self.fill),
            stroke: clone_opt_string(&self.stroke),
            extra: clone_entries(&self.extra),
        }
    }
}

/// A copy of a sequence of elements.
pub fn clone_elements(v: &Vec<PlaitElement>) -> (r: Vec<PlaitElement>)
    ensures
        elements_view(r@) == elements_view(v@),
    decreases v,
{
    let mut r: Vec<PlaitElement> = Vec::new();
    let mut i: usize = 0;
    while i < v.len()
        invariant
            i <= v.len(),
            elements_view(r@) == elements_view(v@.subrange(0, i as int)),
        decreases v.len() - i,
    {
        proof {
            assert(decreases_to!(v => v[i as int]));
        }
        let c = v[i].deep_clone();
        let ghost r0 = r@;
        r.push(c);
        proof {
            assert(v@.subrange(0, i + 1).drop_last() =~= v@.subrange(0, i as int));
            assert(r@.drop_last() =~= r0);
        }
        i = i + 1;
    }
    assert(v@.subrange(0, v.len() as int) =~= v@);
    r
}

pub fn clone_opt_elements(c: &Option<Vec<PlaitElement>>) -> (r: Option<Vec<PlaitElement>>)
    ensures
        opt_elements_view(r) == opt_elements_view(*c),
{
    match c {
        Some(v) => Some(clone_elements(v)),
        None => None,
    }
}

impl Operation {
    /// A copy of the operation.
    pub fn deep_clone(&self) -> (r: Operation)
        ensures
            r@ == self@,
    {
        match self {
            Operation::Insert(o) => Operation::Insert(
                InsertNodeOperation { path: clone_path(&o.path), node: o.node.deep_clone() },
            ),
            Operation::Remove(o) => Operation::Remove(
                RemoveNodeOperation { path: clone_path(&o.path), node: o.node.deep_clone() },
            ),
            Operation::SetNode(o) => {
                let node = match &o.node {
                    Some(n) => Some(n.deep_clone()),
                    None => None,
                };
                Operation::SetNode(
                    SetNodeOperation {
                        path: clone_path(&o.path),
                        node,
                        properties: clone_opt_entries(&o.properties),
                        new_properties: clone_opt_entries(&o.new_properties),
                    },
                )
            },
            Operation::Generic(j) => Operation::Generic(j.deep_clone()),
        }
    }
}

/// A copy of a sequence of operations.
pub fn clone_operations(v: &Vec<Operation>) -> (r: Vec<Operation>)
    ensures
        operations_view(r@) == operations_view(v@),
{
    let mut r: Vec<Operation> = Vec::new();
    let mut i: usize = 0;
    while i < v.len()
        invariant
            i <= v.len(),
            r@.len() == i,
            operations_view(r@) =~= operations_view(v@.subrange(0, i as int)),
        decreases v.len() - i,
    {
        let c = v[i].deep_clone();
        let ghost r0 = r@;
        r.push(c);
        proof {
            assert forall|k: int| 0 <= k <= i implies #[trigger] r@[k]@ == v@[k]@ by {
                if k < i {
                    assert(r@[k] == r0[k]);
                    assert(operations_view(r0)[k] == operations_view(v@.subrange(0, i as int))[k]);
                }
            }
        }
        i = i + 1;
    }
    assert(v@.subrange(0, v.len() as int) =~= v@);
    r
}

impl DDSBoardChangeData {
    /// A copy of the batch.
    pub fn deep_clone(&self) -> (r: DDSBoardChangeData)
        ensures
            r@ == self@,
    {
        DDSBoardChangeData {
            operations: clone_operations(&self.operations),
            timestamp: self.timestamp.clone(),
            source_id: self.source_id.clone(),
            children: clone_opt_elements(&self.children),
            viewport: clone_opt_json(&self.viewport),
        }
    }
}

} // verus!
