//! The wire form of a batch: a structured value with named fields, in which
//! an operation is told apart by its shape and its `type` text, and an
//! operation of an unknown shape is carried unchanged.

use vstd::prelude::*;
use vstd::utf8::{valid_utf8, decode_utf8};
use crate::json::{
    Json, JsonV, lookup, lemma_lookup_concat, clone_entries, clone_values, push_entry,
    append_entries, object_find, name_is, entries_view, values_view, lemma_values_view,
};
use crate::model::{
    PlaitElement, ElementModel, elements_view, opt_str_view, opt_json_view, opt_entries_view,
    Operation, OperationModel, InsertNodeOperation, RemoveNodeOperation, SetNodeOperation,
    DDSBoardChangeData, BatchModel, operations_view,
};

verus! {

/// A value that a lookup finds in some entries stands lower than them.
pub proof fn lemma_lookup_decreases(es: Seq<(Seq<char>, JsonV)>, k: Seq<char>)
    ensures
        match lookup(es, k) {
            Some(v) => decreases_to!(es => v),
            None => true,
        },
    decreases es.len(),
{
    if es.len() > 0 {
        assert(decreases_to!(es => es[0]));
        assert(decreases_to!(es[0] => es[0].1));
        if es[0].0 != k {
            lemma_lookup_decreases(es.drop_first(), k);
            assert(decreases_to!(es => es.subrange(1, es.len() as int)));
            assert(es.drop_first() == es.subrange(1, es.len() as int));
        }
    }
}

/// `null` for an absent text.
pub open spec fn opt_str_json(s: Option<Seq<char>>) -> JsonV {
    match s {
        Some(t) => JsonV::Str(t),
        None => JsonV::Null,
    }
}

/// One entry where there is a value, none where there is not.
pub open spec fn opt_entry(k: Seq<char>, v: Option<JsonV>) -> Seq<(Seq<char>, JsonV)> {
    match v {
        Some(x) => seq![(k, x)],
        None => seq![],
    }
}

pub open spec fn opt_str_entry(k: Seq<char>, s: Option<Seq<char>>) -> Seq<(Seq<char>, JsonV)> {
    match s {
        Some(t) => seq![(k, JsonV::Str(t))],
        None => seq![],
    }
}

/// The names of an element's well-known fields.
pub open spec fn is_element_key(k: Seq<char>) -> bool {
    k == "id"@ || k == "type"@ || k == "shape"@ || k == "points"@ || k == "children"@ || k
        == "text"@ || k == "fill"@ || k == "stroke"@
}

/// Holds of an entry that is not one of an element's well-known fields.
pub open spec fn unknown_entry() -> spec_fn((Seq<char>, JsonV)) -> bool {
    |e: (Seq<char>, JsonV)| !is_element_key(e.0)
}

/// The wire form of an element: its well-known fields, then the others.
pub open spec fn element_json(e: ElementModel) -> JsonV
    decreases e, 2nat,
{
    JsonV::Object(element_entries(e))
}

/// The fields of the wire form of an element: the well-known ones, then
/// the others.
pub open spec fn element_entries(e: ElementModel) -> Seq<(Seq<char>, JsonV)>
    decreases e, 1nat,
{
    joined(element_segments(e), 0) + e.extra
}

/// The wire forms of a sequence of elements.
pub open spec fn elements_json(s: Seq<ElementModel>) -> Seq<JsonV>
    decreases s, 0nat,
{
    if s.len() == 0 {
        seq![]
    } else {
        elements_json(s.drop_last()).push(element_json(s.last()))
    }
}

/// A required text field.
pub open spec fn req_str(v: Option<JsonV>) -> Option<Seq<char>> {
    match v {
        Some(JsonV::Str(s)) => Some(s),
        _ => None,
    }
}

/// An optional text field: `Some(None)` where it is absent or `null`, `None`
/// where it holds anything but a text.
pub open spec fn opt_str_of(v: Option<JsonV>) -> Option<Option<Seq<char>>> {
    match v {
        None => Some(None),
        Some(JsonV::Null) => Some(None),
        Some(JsonV::Str(s)) => Some(Some(s)),
        _ => None,
    }
}

/// An optional field of any value: absent where it is absent or `null`.
pub open spec fn opt_value_of(v: Option<JsonV>) -> Option<JsonV> {
    match v {
        None => None,
        Some(JsonV::Null) => None,
        Some(x) => Some(x),
    }
}

/// The element that a value is the wire form of, or `None` where it is the
/// wire form of none.
pub open spec fn element_of(j: JsonV) -> Option<ElementModel>
    decreases j, 0nat,
{
    match j {
        JsonV::Object(es) => {
            proof {
                lemma_lookup_decreases(es, "children"@);
            }
            element_of_fields(
                es,
                match lookup(es, "children"@) {
                    None => Some(None),
                    Some(JsonV::Null) => Some(None),
                    Some(JsonV::Array(s)) => match elements_of(s) {
                        Some(c) => Some(Some(c)),
                        None => None,
                    },
                    _ => None,
                },
            )
        },
        _ => None,
    }
}

/// The element whose wire form has the fields `es`, given what its
/// children field holds (`None` where it holds no children).
#[verifier::opaque]
pub open spec fn element_of_fields(
    es: Seq<(Seq<char>, JsonV)>,
    children: Option<Option<Seq<ElementModel>>>,
) -> Option<ElementModel> {
    match (
        req_str(lookup(es, "id"@)),
        req_str(lookup(es, "type"@)),
        opt_str_of(lookup(es, "shape"@)),
        children,
        opt_str_of(lookup(es, "text"@)),
        opt_str_of(lookup(es, "fill"@)),
        opt_str_of(lookup(es, "stroke"@)),
    ) {
        (Some(id), Some(t), Some(shape), Some(children), Some(text), Some(fill), Some(stroke)) => Some(
            ElementModel {
                id,
                element_type: t,
                shape,
                points: opt_value_of(lookup(es, "points"@)),
                children,
                text,
                fill,
                stroke,
                extra: es.filter(unknown_entry()),
            },
        ),
        _ => None,
    }
}

/// The elements that some values are the wire forms of.
pub open spec fn elements_of(s: Seq<JsonV>) -> Option<Seq<ElementModel>>
    decreases s, 0nat,
{
    if s.len() == 0 {
        Some(seq![])
    } else {
        match (elements_of(s.drop_last()), element_of(s.last())) {
            (Some(a), Some(e)) => Some(a.push(e)),
            _ => None,
        }
    }
}

/// The field names and operation types of the wire forms differ from one
/// another.
pub proof fn lemma_names_distinct()
    ensures
        "id"@ != "type"@,
        "id"@ != "shape"@,
        "id"@ != "points"@,
        "id"@ != "children"@,
        "id"@ != "text"@,
        "id"@ != "fill"@,
        "id"@ != "stroke"@,
        "type"@ != "shape"@,
        "type"@ != "points"@,
        "type"@ != "children"@,
        "type"@ != "text"@,
        "type"@ != "fill"@,
        "type"@ != "stroke"@,
        "shape"@ != "points"@,
        "shape"@ != "children"@,
        "shape"@ != "text"@,
        "shape"@ != "fill"@,
        "shape"@ != "stroke"@,
        "points"@ != "children"@,
        "points"@ != "text"@,
        "points"@ != "fill"@,
        "points"@ != "stroke"@,
        "children"@ != "text"@,
        "children"@ != "fill"@,
        "children"@ != "stroke"@,
        "text"@ != "fill"@,
        "text"@ != "stroke"@,
        "fill"@ != "stroke"@,
        "type"@ != "path"@,
        "type"@ != "node"@,
        "type"@ != "properties"@,
        "type"@ != "new_properties"@,
        "path"@ != "node"@,
        "path"@ != "properties"@,
        "path"@ != "new_properties"@,
        "node"@ != "properties"@,
        "node"@ != "new_properties"@,
        "properties"@ != "new_properties"@,
        "operations"@ != "timestamp"@,
        "operations"@ != "source_id"@,
        "operations"@ != "children"@,
        "operations"@ != "viewport"@,
        "timestamp"@ != "source_id"@,
        "timestamp"@ != "children"@,
        "timestamp"@ != "viewport"@,
        "source_id"@ != "children"@,
        "source_id"@ != "viewport"@,
        "children"@ != "viewport"@,
        "insert_node"@ != "remove_node"@,
        "insert_node"@ != "set_node"@,
        "remove_node"@ != "set_node"@,
        "added"@ != "removed"@,
        "added"@ != "modified"@,
        "added"@ != "timestamp"@,
        "removed"@ != "modified"@,
        "removed"@ != "timestamp"@,
        "modified"@ != "timestamp"@,
{
    reveal_strlit("added");
    reveal_strlit("children");
    reveal_strlit("fill");
    reveal_strlit("id");
    reveal_strlit("insert_node");
    reveal_strlit("modified");
    reveal_strlit("new_properties");
    reveal_strlit("node");
    reveal_strlit("operations");
    reveal_strlit("path");
    reveal_strlit("points");
    reveal_strlit("properties");
    reveal_strlit("remove_node");
    reveal_strlit("removed");
    reveal_strlit("set_node");
    reveal_strlit("shape");
    reveal_strlit("source_id");
    reveal_strlit("stroke");
    reveal_strlit("text");
    reveal_strlit("timestamp");
    reveal_strlit("type");
    reveal_strlit("viewport");
    assert("id"@.len() != "type"@.len());
    assert("id"@.len() != "shape"@.len());
    assert("id"@.len() != "points"@.len());
    assert("id"@.len() != "children"@.len());
    assert("id"@.len() != "text"@.len());
    assert("id"@.len() != "fill"@.len());
    assert("id"@.len() != "stroke"@.len());
    assert("type"@.len() != "shape"@.len());
    assert("type"@.len() != "points"@.len());
    assert("type"@.len() != "children"@.len());
    assert("type"@[1] != "text"@[1]);
    assert("type"@[0] != "fill"@[0]);
    assert("type"@.len() != "stroke"@.len());
    assert("shape"@.len() != "points"@.len());
    assert("shape"@.len() != "children"@.len());
    assert("shape"@.len() != "text"@.len());
    assert("shape"@.len() != "fill"@.len());
    assert("shape"@.len() != "stroke"@.len());
    assert("points"@.len() != "children"@.len());
    assert("points"@.len() != "text"@.len());
    assert("points"@.len() != "fill"@.len());
    assert("points"@[0] != "stroke"@[0]);
    assert("children"@.len() != "text"@.len());
    assert("children"@.len() != "fill"@.len());
    assert("children"@.len() != "stroke"@.len());
    assert("text"@[0] != "fill"@[0]);
    assert("text"@.len() != "stroke"@.len());
    assert("fill"@.len() != "stroke"@.len());
    assert("type"@[0] != "path"@[0]);
    assert("type"@[0] != "node"@[0]);
    assert("type"@.len() != "properties"@.len());
    assert("type"@.len() != "new_properties"@.len());
    assert("path"@[0] != "node"@[0]);
    assert("path"@.len() != "properties"@.len());
    assert("path"@.len() != "new_properties"@.len());
    assert("node"@.len() != "properties"@.len());
    assert("node"@.len() != "new_properties"@.len());
    assert("properties"@.len() != "new_properties"@.len());
    assert("operations"@.len() != "timestamp"@.len());
    assert("operations"@.len() != "source_id"@.len());
    assert("operations"@.len() != "children"@.len());
    assert("operations"@.len() != "viewport"@.len());
    assert("timestamp"@[0] != "source_id"@[0]);
    assert("timestamp"@.len() != "children"@.len());
    assert("timestamp"@.len() != "viewport"@.len());
    assert("source_id"@.len() != "children"@.len());
    assert("source_id"@.len() != "viewport"@.len());
    assert("children"@[0] != "viewport"@[0]);
    assert("insert_node"@[0] != "remove_node"@[0]);
    assert("insert_node"@.len() != "set_node"@.len());
    assert("remove_node"@.len() != "set_node"@.len());
    assert("added"@.len() != "removed"@.len());
    assert("added"@.len() != "modified"@.len());
    assert("added"@.len() != "timestamp"@.len());
    assert("removed"@.len() != "modified"@.len());
    assert("removed"@.len() != "timestamp"@.len());
    assert("modified"@.len() != "timestamp"@.len());
}

/// A lookup finds the first entry under its name.
pub proof fn lemma_lookup_at(es: Seq<(Seq<char>, JsonV)>, k: Seq<char>, i: int)
    requires
        0 <= i < es.len(),
        es[i].0 == k,
        forall|j: int| 0 <= j < i ==> #[trigger] es[j].0 != k,
    ensures
        lookup(es, k) == Some(es[i].1),
    decreases i,
{
    if i > 0 {
        assert(es[0].0 != k);
        lemma_lookup_at(es.drop_first(), k, i - 1);
    }
}

/// A lookup of a name that no entry has finds nothing.
pub proof fn lemma_lookup_none(es: Seq<(Seq<char>, JsonV)>, k: Seq<char>)
    requires
        forall|j: int| 0 <= j < es.len() ==> #[trigger] es[j].0 != k,
    ensures
        lookup(es, k) is None,
    decreases es.len(),
{
    if es.len() > 0 {
        assert(es[0].0 != k);
        lemma_lookup_none(es.drop_first(), k);
    }
}

/// A filter that holds of every item keeps them all; one that holds of none
/// keeps none.
pub proof fn lemma_filter_all_or_none<A>(s: Seq<A>, p: spec_fn(A) -> bool)
    ensures
        (forall|i: int| 0 <= i < s.len() ==> p(#[trigger] s[i])) ==> s.filter(p) == s,
        (forall|i: int| 0 <= i < s.len() ==> !p(#[trigger] s[i])) ==> s.filter(p) == Seq::<A>::empty(),
    decreases s.len(),
{
    reveal(Seq::filter);
    if s.len() > 0 {
        lemma_filter_all_or_none(s.drop_last(), p);
        if forall|i: int| 0 <= i < s.len() ==> p(#[trigger] s[i]) {
            assert forall|i: int| 0 <= i < s.drop_last().len() implies p(#[trigger] s.drop_last()[i]) by {
                assert(s.drop_last()[i] == s[i]);
            }
            assert(p(s[s.len() - 1]));
            assert(s.drop_last().push(s.last()) =~= s);
        }
        if forall|i: int| 0 <= i < s.len() ==> !p(#[trigger] s[i]) {
            assert forall|i: int| 0 <= i < s.drop_last().len() implies !p(#[trigger] s.drop_last()[i]) by {
                assert(s.drop_last()[i] == s[i]);
            }
            assert(!p(s[s.len() - 1]));
        }
    } else {
        assert(s =~= Seq::<A>::empty());
    }
}

/// What the wire form of an element keeps: points that are not `null`,
/// other fields under names that are not well-known, and children that keep
/// it too.
pub open spec fn element_wf(e: ElementModel) -> bool
    decreases e, 0nat,
{
    &&& e.points != Some(JsonV::Null)
    &&& forall|i: int| 0 <= i < e.extra.len() ==> !is_element_key(#[trigger] e.extra[i].0)
    &&& match e.children {
        Some(c) => elements_wf(c),
        None => true,
    }
}

pub open spec fn elements_wf(s: Seq<ElementModel>) -> bool
    decreases s, 0nat,
{
    s.len() == 0 || (elements_wf(s.drop_last()) && element_wf(s.last()))
}

/// The value under `k` in a run of at most one entry.
pub open spec fn seg_find(s: Seq<(Seq<char>, JsonV)>, k: Seq<char>) -> Option<JsonV> {
    if s.len() == 1 && s[0].0 == k {
        Some(s[0].1)
    } else {
        None
    }
}

pub open spec fn first_of(a: Option<JsonV>, b: Option<JsonV>) -> Option<JsonV> {
    if a is Some {
        a
    } else {
        b
    }
}

/// A lookup in a run of at most one entry.
pub proof fn lemma_lookup_seg(s: Seq<(Seq<char>, JsonV)>, k: Seq<char>)
    requires
        s.len() <= 1,
    ensures
        lookup(s, k) == seg_find(s, k),
{
    if s.len() == 1 && s[0].0 != k {
        assert(lookup(s.drop_first(), k) is None);
    }
}

/// A lookup in runs of at most one entry each, from the `i`-th on, followed
/// by entries that do not hold the name.
pub proof fn lemma_lookup_segments(
    segs: Seq<Seq<(Seq<char>, JsonV)>>,
    i: int,
    x: Seq<(Seq<char>, JsonV)>,
    k: Seq<char>,
)
    requires
        0 <= i <= segs.len(),
        forall|n: int| 0 <= n < segs.len() ==> (#[trigger] segs[n]).len() <= 1,
        forall|j: int| 0 <= j < x.len() ==> #[trigger] x[j].0 != k,
    ensures
        lookup(joined(segs, i) + x, k) == found_in(segs, i, k),
    decreases segs.len() - i,
{
    if i == segs.len() {
        assert(joined(segs, i) + x =~= x);
        lemma_lookup_none(x, k);
    } else {
        lemma_lookup_segments(segs, i + 1, x, k);
        assert(joined(segs, i) + x =~= segs[i] + (joined(segs, i + 1) + x));
        lemma_lookup_concat(segs[i], joined(segs, i + 1) + x, k);
        lemma_lookup_seg(segs[i], k);
    }
}

/// The runs from the `i`-th on, one after the other.
pub open spec fn joined(segs: Seq<Seq<(Seq<char>, JsonV)>>, i: int) -> Seq<(Seq<char>, JsonV)>
    decreases segs.len() - i,
{
    if i < 0 || i >= segs.len() {
        seq![]
    } else {
        segs[i] + joined(segs, i + 1)
    }
}

/// The value under `k` in the first run, from the `i`-th on, that holds it.
pub open spec fn found_in(segs: Seq<Seq<(Seq<char>, JsonV)>>, i: int, k: Seq<char>) -> Option<JsonV>
    decreases segs.len() - i,
{
    if i < 0 || i >= segs.len() {
        None
    } else {
        first_of(seg_find(segs[i], k), found_in(segs, i + 1, k))
    }
}

/// The runs of the well-known fields of an element.
pub open spec fn element_segments(e: ElementModel) -> Seq<Seq<(Seq<char>, JsonV)>>
    decreases e, 0nat,
{
    seq![
        seq![("id"@, JsonV::Str(e.id))],
        seq![("type"@, JsonV::Str(e.element_type))],
        seq![("shape"@, opt_str_json(e.shape))],
        seq![
            ("points"@, match e.points {
                Some(p) => p,
                None => JsonV::Null,
            }),
        ],
        match e.children {
            Some(c) => seq![("children"@, JsonV::Array(elements_json(c)))],
            None => seq![],
        },
        opt_str_entry("text"@, e.text),
        opt_str_entry("fill"@, e.fill),
        opt_str_entry("stroke"@, e.stroke),
    ]
}

pub proof fn lemma_element_segments(e: ElementModel)
    ensures
        element_entries(e) == joined(element_segments(e), 0) + e.extra,
        forall|i: int| 0 <= i < 8 ==> (#[trigger] element_segments(e)[i]).len() <= 1,
        forall|i: int| 0 <= i < 8 ==> (#[trigger] element_segments(e)[i]).len() == 1 ==> is_element_key(element_segments(e)[i][0].0),
        element_segments(e).len() == 8,
{
}

/// A lookup of a well-known name in the wire form of an element.
pub proof fn lemma_element_lookup(e: ElementModel, k: Seq<char>)
    requires
        element_wf(e),
        is_element_key(k),
    ensures
        lookup(element_entries(e), k) == found_in(element_segments(e), 0, k),
{
    lemma_element_segments(e);
    lemma_lookup_segments(element_segments(e), 0, e.extra, k);
}

/// Where the wire form of an element holds its `id` field.
pub proof fn lemma_element_field_id(e: ElementModel)
    requires
        element_wf(e),
    ensures
        lookup(element_entries(e), "id"@) == Some(JsonV::Str(e.id)),
{
    lemma_element_lookup(e, "id"@);
    lemma_names_distinct();
    reveal_with_fuel(found_in, 9);
}

/// Where the wire form of an element holds its `type` field.
pub proof fn lemma_element_field_type(e: ElementModel)
    requires
        element_wf(e),
    ensures
        lookup(element_entries(e), "type"@) == Some(JsonV::Str(e.element_type)),
{
    lemma_element_lookup(e, "type"@);
    lemma_names_distinct();
    reveal_with_fuel(found_in, 9);
}

/// Where the wire form of an element holds its `shape` field.
pub proof fn lemma_element_field_shape(e: ElementModel)
    requires
        element_wf(e),
    ensures
        lookup(element_entries(e), "shape"@) == Some(opt_str_json(e.shape)),
{
    lemma_element_lookup(e, "shape"@);
    lemma_names_distinct();
    reveal_with_fuel(found_in, 9);
}

/// Where the wire form of an element holds its `points` field.
pub proof fn lemma_element_field_points(e: ElementModel)
    requires
        element_wf(e),
    ensures
        lookup(element_entries(e), "points"@) == Some(match e.points {
            Some(p) => p,
            None => JsonV::Null,
        }),
{
    lemma_element_lookup(e, "points"@);
    lemma_names_distinct();
    reveal_with_fuel(found_in, 9);
}

/// Where the wire form of an element holds its `children` field.
pub proof fn lemma_element_field_children(e: ElementModel)
    requires
        element_wf(e),
    ensures
        lookup(element_entries(e), "children"@) == match e.children {
            Some(ch) => Some(JsonV::Array(elements_json(ch))),
            None => None,
        },
{
    lemma_element_lookup(e, "children"@);
    lemma_names_distinct();
    reveal_with_fuel(found_in, 9);
}

/// Where the wire form of an element holds its `text` field.
pub proof fn lemma_element_field_text(e: ElementModel)
    requires
        element_wf(e),
    ensures
        lookup(element_entries(e), "text"@) == match e.text {
            Some(v) => Some(JsonV::Str(v)),
            None => None,
        },
{
    lemma_element_lookup(e, "text"@);
    lemma_names_distinct();
    reveal_with_fuel(found_in, 9);
}

/// Where the wire form of an element holds its `fill` field.
pub proof fn lemma_element_field_fill(e: ElementModel)
    requires
        element_wf(e),
    ensures
        lookup(element_entries(e), "fill"@) == match e.fill {
            Some(v) => Some(JsonV::Str(v)),
            None => None,
        },
{
    lemma_element_lookup(e, "fill"@);
    lemma_names_distinct();
    reveal_with_fuel(found_in, 9);
}

/// Where the wire form of an element holds its `stroke` field.
pub proof fn lemma_element_field_stroke(e: ElementModel)
    requires
        element_wf(e),
    ensures
        lookup(element_entries(e), "stroke"@) == match e.stroke {
            Some(v) => Some(JsonV::Str(v)),
            None => None,
        },
{
    lemma_element_lookup(e, "stroke"@);
    lemma_names_distinct();
    reveal_with_fuel(found_in, 9);
}

/// The fields of the wire form of an element that are not well-known are
/// its other fields.
pub proof fn lemma_element_extra(e: ElementModel)
    requires
        element_wf(e),
    ensures
        element_entries(e).filter(unknown_entry()) == e.extra,
{
    let g = element_segments(e);
    let known = joined(g, 0);
    lemma_element_segments(e);
    assert forall|j: int| 0 <= j < known.len() implies !unknown_entry()(#[trigger] known[j]) by {
        lemma_joined_keys(g, 0, j);
    }
    lemma_filter_all_or_none(known, unknown_entry());
    lemma_filter_all_or_none(e.extra, unknown_entry());
    Seq::filter_distributes_over_add(known, e.extra, unknown_entry());
    assert(element_entries(e).filter(unknown_entry()) =~= e.extra);
}

/// Every entry of joined runs is the entry of one run.
pub proof fn lemma_joined_keys(segs: Seq<Seq<(Seq<char>, JsonV)>>, i: int, j: int)
    requires
        0 <= i <= segs.len(),
        forall|n: int| 0 <= n < segs.len() ==> (#[trigger] segs[n]).len() <= 1,
        forall|n: int| 0 <= n < segs.len() ==> (#[trigger] segs[n]).len() == 1 ==> is_element_key(segs[n][0].0),
        0 <= j < joined(segs, i).len(),
    ensures
        is_element_key(joined(segs, i)[j].0),
    decreases segs.len() - i,
{
    if i < segs.len() {
        if j < segs[i].len() {
            assert(joined(segs, i)[j] == segs[i][j]);
        } else {
            lemma_joined_keys(segs, i + 1, j - segs[i].len());
            assert(joined(segs, i)[j] == joined(segs, i + 1)[j - segs[i].len()]);
        }
    }
}

/// Fields that hold an element's values decode to it.
pub proof fn lemma_element_of_fields(
    e: ElementModel,
    es: Seq<(Seq<char>, JsonV)>,
    ch: Option<Option<Seq<ElementModel>>>,
)
    requires
        e.points != Some(JsonV::Null),
        ch == Some(e.children),
        lookup(es, "id"@) == Some(JsonV::Str(e.id)),
        lookup(es, "type"@) == Some(JsonV::Str(e.element_type)),
        lookup(es, "shape"@) == Some(opt_str_json(e.shape)),
        lookup(es, "points"@) == Some(match e.points {
            Some(p) => p,
            None => JsonV::Null,
        }),
        lookup(es, "text"@) == (match e.text {
            Some(v) => Some(JsonV::Str(v)),
            None => None,
        }),
        lookup(es, "fill"@) == (match e.fill {
            Some(v) => Some(JsonV::Str(v)),
            None => None,
        }),
        lookup(es, "stroke"@) == (match e.stroke {
            Some(v) => Some(JsonV::Str(v)),
            None => None,
        }),
        es.filter(unknown_entry()) == e.extra,
    ensures
        element_of_fields(es, ch) == Some(e),
{
    reveal(element_of_fields);
}

#[verifier::rlimit(100)]
pub proof fn lemma_element_round_trip(e: ElementModel)
    requires
        element_wf(e),
    ensures
        element_of(element_json(e)) == Some(e),
    decreases e, 0nat,
{
    lemma_element_field_id(e);
    lemma_element_field_type(e);
    lemma_element_field_shape(e);
    lemma_element_field_points(e);
    lemma_element_field_children(e);
    lemma_element_field_text(e);
    lemma_element_field_fill(e);
    lemma_element_field_stroke(e);
    lemma_element_extra(e);
    let es = element_entries(e);
    if e.children is Some {
        lemma_elements_round_trip(e.children->Some_0);
    }
    let ch: Option<Option<Seq<ElementModel>>> = match lookup(es, "children"@) {
        None => Some(None),
        Some(JsonV::Null) => Some(None),
        Some(JsonV::Array(s)) => match elements_of(s) {
            Some(c) => Some(Some(c)),
            None => None,
        },
        _ => None,
    };
    assert(ch == Some(e.children));
    lemma_element_of_fields(e, es, ch);
}

pub proof fn lemma_elements_round_trip(s: Seq<ElementModel>)
    requires
        elements_wf(s),
    ensures
        elements_of(elements_json(s)) == Some(s),
    decreases s, 0nat,
{
    if s.len() > 0 {
        lemma_elements_round_trip(s.drop_last());
        lemma_element_round_trip(s.last());
        let j = elements_json(s);
        assert(j == elements_json(s.drop_last()).push(element_json(s.last())));
        assert(j.drop_last() =~= elements_json(s.drop_last()));
        assert(j.last() == element_json(s.last()));
        assert(elements_of(j.drop_last()) == Some(s.drop_last()));
        assert(element_of(j.last()) == Some(s.last()));
        assert(s.drop_last().push(s.last()) =~= s);
    } else {
        assert(elements_json(s) =~= Seq::<JsonV>::empty());
        assert(s =~= Seq::<ElementModel>::empty());
    }
}

/// The well-known fields of the wire form of an element, one after the
/// other.
pub open spec fn element_known_entries(e: ElementModel) -> Seq<(Seq<char>, JsonV)> {
    seq![
        ("id"@, JsonV::Str(e.id)),
        ("type"@, JsonV::Str(e.element_type)),
        ("shape"@, opt_str_json(e.shape)),
        ("points"@, match e.points {
            Some(p) => p,
            None => JsonV::Null,
        }),
    ] + match e.children {
        Some(c) => seq![("children"@, JsonV::Array(elements_json(c)))],
        None => seq![],
    } + opt_str_entry("text"@, e.text) + opt_str_entry("fill"@, e.fill) + opt_str_entry("stroke"@, e.stroke)
}

pub proof fn lemma_element_entries_direct(e: ElementModel)
    ensures
        element_entries(e) == element_known_entries(e) + e.extra,
{
    let g = element_segments(e);
    reveal_with_fuel(joined, 9);
    assert(joined(g, 8) =~= Seq::<(Seq<char>, JsonV)>::empty());
    assert(joined(g, 0) =~= element_known_entries(e));
}

/// `null` for an absent text.
fn opt_str_to_json(s: &Option<String>) -> (r: Json)
    ensures
        r@ == opt_str_json(opt_str_view(*s)),
{
    match s {
        Some(t) => Json::Str(t.clone()),
        None => Json::Null,
    }
}

/// Appends the entry `(k, s)` where there is a text `s`.
fn push_opt_str(es: &mut Vec<(String, Json)>, k: &str, s: &Option<String>)
    ensures
        entries_view(final(es)@) == entries_view(old(es)@) + opt_str_entry(k@, opt_str_view(*s)),
{
    match s {
        Some(t) => {
            push_entry(es, k, Json::Str(t.clone()));
            assert(entries_view(es@) =~= entries_view(old(es)@) + opt_str_entry(k@, opt_str_view(*s)));
        },
        None => {
            assert(entries_view(es@) =~= entries_view(old(es)@) + opt_str_entry(k@, opt_str_view(*s)));
        },
    }
}

impl PlaitElement {
    /// The wire form of the element.
    pub fn to_json(&self) -> (r: Json)
        ensures
            r@ == element_json(self@),
        decreases self,
    {
        let ghost e = self@;
        let mut es: Vec<(String, Json)> = Vec::new();
        push_entry(&mut es, "id", Json::Str(self.id.clone()));
        push_entry(&mut es, "type", Json::Str(self.element_type.clone()));
        push_entry(&mut es, "shape", opt_str_to_json(&self.shape));
        let points = match &self.points {
            Some(p) => p.deep_clone(),
            None => Json::Null,
        };
        push_entry(&mut es, "points", points);
        let ghost head = entries_view(es@);
        assert(head =~= seq![
            ("id"@, JsonV::Str(e.id)),
            ("type"@, JsonV::Str(e.element_type)),
            ("shape"@, opt_str_json(e.shape)),
            ("points"@, match e.points {
                Some(p) => p,
                None => JsonV::Null,
            }),
        ]);
        match &self.children {
            Some(c) => {
                proof {
                    assert(decreases_to!(self => self.children));
                }
                let items = elements_to_json(c);
                push_entry(&mut es, "children", Json::Array(items));
                assert(entries_view(es@) =~= head + seq![("children"@, JsonV::Array(elements_json(e.children->Some_0)))]);
            },
            None => {
                assert(entries_view(es@) =~= head + Seq::<(Seq<char>, JsonV)>::empty());
            },
        }
        push_opt_str(&mut es, "text", &self.text);
        push_opt_str(&mut es, "fill", &self.fill);
        push_opt_str(&mut es, "stroke", &self.stroke);
        assert(entries_view(es@) == element_known_entries(e));
        append_entries(&mut es, &self.extra);
        proof {
            lemma_element_entries_direct(e);
        }
        Json::Object(es)
    }
}

/// The wire forms of a sequence of elements.
pub fn elements_to_json(v: &Vec<PlaitElement>) -> (r: Vec<Json>)
    ensures
        values_view(r@) == elements_json(elements_view(v@)),
    decreases v,
{
    let mut r: Vec<Json> = Vec::new();
    let mut i: usize = 0;
    while i < v.len()
        invariant
            i <= v@.len(),
            values_view(r@) == elements_json(elements_view(v@.subrange(0, i as int))),
        decreases v.len() - i,
    {
        proof {
            assert(decreases_to!(v => v[i as int]));
        }
        let x = v[i].to_json();
        let ghost r0 = r@;
        r.push(x);
        proof {
            assert(r@.drop_last() =~= r0);
            let s1 = v@.subrange(0, i + 1);
            assert(s1.drop_last() =~= v@.subrange(0, i as int));
            assert(elements_view(s1).drop_last() == elements_view(s1.drop_last()));
        }
        i = i + 1;
    }
    assert(v@.subrange(0, v@.len() as int) =~= v@);
    r
}

/// A required text field.
fn req_str_field(m: &Vec<(String, Json)>, k: &str) -> (r: Option<String>)
    ensures
        opt_str_view(r) == req_str(lookup(entries_view(m@), k@)),
{
    match object_find(m, k) {
        Some(i) => match &m[i].1 {
            Json::Str(t) => Some(t.clone()),
            _ => None,
        },
        None => None,
    }
}

/// An optional text field: `Some(None)` where it is absent or `null`.
fn opt_str_field(m: &Vec<(String, Json)>, k: &str) -> (r: Option<Option<String>>)
    ensures
        match r {
            Some(x) => opt_str_of(lookup(entries_view(m@), k@)) == Some(opt_str_view(x)),
            None => opt_str_of(lookup(entries_view(m@), k@)) is None,
        },
{
    match object_find(m, k) {
        Some(i) => match &m[i].1 {
            Json::Null => Some(None),
            Json::Str(t) => Some(Some(t.clone())),
            _ => None,
        },
        None => Some(None),
    }
}

/// An optional field of any value: absent where it is absent or `null`.
fn opt_value_field(m: &Vec<(String, Json)>, k: &str) -> (r: Option<Json>)
    ensures
        opt_json_view(r) == opt_value_of(lookup(entries_view(m@), k@)),
{
    match object_find(m, k) {
        Some(i) => match &m[i].1 {
            Json::Null => None,
            v => Some(v.deep_clone()),
        },
        None => None,
    }
}

/// Whether a name is that of one of an element's well-known fields.
fn is_element_name(k: &String) -> (r: bool)
    ensures
        r == is_element_key(k@),
{
    name_is(k, "id") || name_is(k, "type") || name_is(k, "shape") || name_is(k, "points")
        || name_is(k, "children") || name_is(k, "text") || name_is(k, "fill") || name_is(k, "stroke")
}

/// Copies of the entries that are not an element's well-known fields.
fn unknown_entries(m: &Vec<(String, Json)>) -> (r: Vec<(String, Json)>)
    ensures
        entries_view(r@) == entries_view(m@).filter(unknown_entry()),
{
    let mut r: Vec<(String, Json)> = Vec::new();
    let mut i: usize = 0;
    while i < m.len()
        invariant
            i <= m@.len(),
            entries_view(r@) == entries_view(m@.subrange(0, i as int)).filter(unknown_entry()),
        decreases m.len() - i,
    {
        let ghost r0 = r@;
        let ghost s1 = m@.subrange(0, i + 1);
        proof {
            assert(s1.drop_last() =~= m@.subrange(0, i as int));
            assert(entries_view(s1) == entries_view(m@.subrange(0, i as int)).push((m@[i as int].0@, m@[i as int].1@)));
            entries_view(m@.subrange(0, i as int)).lemma_filter_push((m@[i as int].0@, m@[i as int].1@), unknown_entry());
        }
        if !is_element_name(&m[i].0) {
            let k = m[i].0.clone();
            let v = m[i].1.deep_clone();
            r.push((k, v));
            assert(r@.drop_last() =~= r0);
        }
        i = i + 1;
    }
    assert(m@.subrange(0, m@.len() as int) =~= m@);
    r
}

/// Where a prefix of some values fails to decode to elements, all of them do.
pub proof fn lemma_elements_of_prefix(s: Seq<JsonV>, n: int)
    requires
        0 <= n <= s.len(),
        elements_of(s.subrange(0, n)) is None,
    ensures
        elements_of(s) is None,
    decreases s.len() - n,
{
    if n < s.len() {
        let t = s.subrange(0, n + 1);
        assert(t.drop_last() =~= s.subrange(0, n));
        assert(elements_of(t) is None);
        lemma_elements_of_prefix(s, n + 1);
    } else {
        assert(s.subrange(0, n) =~= s);
    }
}

/// The element that a value is the wire form of.
pub fn element_from_json(j: &Json) -> (r: Option<PlaitElement>)
    ensures
        match r {
            Some(e) => element_of(j@) == Some(e@),
            None => element_of(j@) is None,
        },
    decreases j,
{
    match j {
        Json::Object(m) => {
            let ghost es = entries_view(m@);
            let children: Option<Option<Vec<PlaitElement>>> = match object_find(m, "children") {
                None => Some(None),
                Some(i) => match &m[i].1 {
                    Json::Null => Some(None),
                    Json::Array(v) => {
                        proof {
                            assert(decreases_to!(j => m));
                            assert(decreases_to!(m => m[i as int]));
                            assert(decreases_to!(m[i as int] => m[i as int].1));
                        }
                        match elements_from_json(v) {
                            Some(c) => Some(Some(c)),
                            None => None,
                        }
                    },
                    _ => None,
                },
            };
            let ghost ch: Option<Option<Seq<ElementModel>>> = match lookup(es, "children"@) {
                None => Some(None),
                Some(JsonV::Null) => Some(None),
                Some(JsonV::Array(s)) => match elements_of(s) {
                    Some(c) => Some(Some(c)),
                    None => None,
                },
                _ => None,
            };
            assert(ch == match children {
                Some(Some(c)) => Some(Some(elements_view(c@))),
                Some(None) => Some(None),
                None => None,
            });
            assert(element_of(j@) == element_of_fields(es, ch));
            let id = req_str_field(m, "id");
            let element_type = req_str_field(m, "type");
            let shape = opt_str_field(m, "shape");
            let text = opt_str_field(m, "text");
            let fill = opt_str_field(m, "fill");
            let stroke = opt_str_field(m, "stroke");
            proof {
                reveal(element_of_fields);
            }
            match (id, element_type, shape, children, text, fill, stroke) {
                (Some(id), Some(element_type), Some(shape), Some(children), Some(text), Some(fill), Some(stroke)) => {
                    let points = opt_value_field(m, "points");
                    let extra = unknown_entries(m);
                    Some(PlaitElement { id, element_type, shape, points, children, text, fill, stroke, extra })
                },
                _ => None,
            }
        },
        _ => None,
    }
}

/// The elements that some values are the wire forms of.
pub fn elements_from_json(v: &Vec<Json>) -> (r: Option<Vec<PlaitElement>>)
    ensures
        match r {
            Some(c) => elements_of(values_view(v@)) == Some(elements_view(c@)),
            None => elements_of(values_view(v@)) is None,
        },
    decreases v,
{
    let ghost s = values_view(v@);
    proof {
        lemma_values_view(v@);
    }
    let mut r: Vec<PlaitElement> = Vec::new();
    let mut i: usize = 0;
    while i < v.len()
        invariant
            i <= v@.len(),
            s == values_view(v@),
            s.len() == v@.len(),
            forall|k: int| 0 <= k < v@.len() ==> #[trigger] s[k] == v@[k]@,
            elements_of(s.subrange(0, i as int)) == Some(elements_view(r@)),
        decreases v.len() - i,
    {
        proof {
            assert(decreases_to!(v => v[i as int]));
        }
        let ghost t = s.subrange(0, i + 1);
        assert(t.drop_last() =~= s.subrange(0, i as int));
        assert(t.last() == v@[i as int]@);
        match element_from_json(&v[i]) {
            Some(e) => {
                let ghost r0 = r@;
                r.push(e);
                assert(r@.drop_last() =~= r0);
            },
            None => {
                proof {
                    lemma_elements_of_prefix(s, i + 1);
                }
                return None;
            },
        }
        i = i + 1;
    }
    assert(s.subrange(0, v@.len() as int) =~= s);
    Some(r)
}

/// The wire form of a path: an array of its indices.
pub open spec fn path_json(p: Seq<u64>) -> JsonV {
    JsonV::Array(Seq::new(p.len(), |i: int| JsonV::UInt(p[i])))
}

/// The path that a value is the wire form of.
pub open spec fn path_of(v: Option<JsonV>) -> Option<Seq<u64>> {
    match v {
        Some(JsonV::Array(s)) => if forall|i: int| 0 <= i < s.len() ==> (#[trigger] s[i]) is UInt {
            Some(Seq::new(s.len(), |i: int| s[i]->UInt_0))
        } else {
            None
        },
        _ => None,
    }
}

pub open spec fn opt_node_json(n: Option<ElementModel>) -> Option<JsonV> {
    match n {
        Some(e) => Some(element_json(e)),
        None => None,
    }
}

pub open spec fn opt_object_json(m: Option<Seq<(Seq<char>, JsonV)>>) -> Option<JsonV> {
    match m {
        Some(es) => Some(JsonV::Object(es)),
        None => None,
    }
}

/// The wire form of an operation: an object whose `type` names the kind of
/// edit; an operation of an unknown shape is its value unchanged.
pub open spec fn operation_json(o: OperationModel) -> JsonV {
    match o {
        OperationModel::Insert { path, node } => JsonV::Object(
            seq![
                ("type"@, JsonV::Str("insert_node"@)),
                ("path"@, path_json(path)),
                ("node"@, element_json(node)),
            ],
        ),
        OperationModel::Remove { path, node } => JsonV::Object(
            seq![
                ("type"@, JsonV::Str("remove_node"@)),
                ("path"@, path_json(path)),
                ("node"@, element_json(node)),
            ],
        ),
        OperationModel::SetNode { path, node, properties, new_properties } => JsonV::Object(
            joined(set_node_segments(path, node, properties, new_properties), 0),
        ),
        OperationModel::Generic(j) => j,
    }
}

/// The runs of the fields of the wire form of a set-node operation.
pub open spec fn set_node_segments(
    path: Seq<u64>,
    node: Option<ElementModel>,
    properties: Option<Seq<(Seq<char>, JsonV)>>,
    new_properties: Option<Seq<(Seq<char>, JsonV)>>,
) -> Seq<Seq<(Seq<char>, JsonV)>> {
    seq![
        seq![("type"@, JsonV::Str("set_node"@))],
        seq![("path"@, path_json(path))],
        opt_entry("node"@, opt_node_json(node)),
        opt_entry("properties"@, opt_object_json(properties)),
        opt_entry("new_properties"@, opt_object_json(new_properties)),
    ]
}

/// An optional node: `Some(None)` where absent or `null`, `None` where it is
/// no element.
pub open spec fn opt_node_of(v: Option<JsonV>) -> Option<Option<ElementModel>> {
    match v {
        None => Some(None),
        Some(JsonV::Null) => Some(None),
        Some(x) => match element_of(x) {
            Some(e) => Some(Some(e)),
            None => None,
        },
    }
}

/// Optional properties: `Some(None)` where absent or `null`, `None` where it
/// is no object.
pub open spec fn opt_object_of(v: Option<JsonV>) -> Option<Option<Seq<(Seq<char>, JsonV)>>> {
    match v {
        None => Some(None),
        Some(JsonV::Null) => Some(None),
        Some(JsonV::Object(es)) => Some(Some(es)),
        _ => None,
    }
}

/// The operation that a value is the wire form of: an insertion, removal or
/// set-node operation where the value has that shape, else the value itself
/// as an operation of an unknown shape.
pub open spec fn operation_of(j: JsonV) -> OperationModel {
    match j {
        JsonV::Object(es) => match (req_str(lookup(es, "type"@)), path_of(lookup(es, "path"@))) {
            (Some(t), Some(path)) => if t == "insert_node"@ {
                match opt_node_of(lookup(es, "node"@)) {
                    Some(Some(node)) => OperationModel::Insert { path, node },
                    _ => OperationModel::Generic(j),
                }
            } else if t == "remove_node"@ {
                match opt_node_of(lookup(es, "node"@)) {
                    Some(Some(node)) => OperationModel::Remove { path, node },
                    _ => OperationModel::Generic(j),
                }
            } else if t == "set_node"@ {
                match (
                    opt_node_of(lookup(es, "node"@)),
                    opt_object_of(lookup(es, "properties"@)),
                    opt_object_of(lookup(es, "new_properties"@)),
                ) {
                    (Some(node), Some(properties), Some(new_properties)) => OperationModel::SetNode {
                        path,
                        node,
                        properties,
                        new_properties,
                    },
                    _ => OperationModel::Generic(j),
                }
            } else {
                OperationModel::Generic(j)
            },
            _ => OperationModel::Generic(j),
        },
        _ => OperationModel::Generic(j),
    }
}

/// What the wire form of an operation keeps: well-formed nodes, and for an
/// operation of an unknown shape, a value that is not of a known shape.
pub open spec fn operation_wf(o: OperationModel) -> bool {
    match o {
        OperationModel::Insert { node, .. } => element_wf(node),
        OperationModel::Remove { node, .. } => element_wf(node),
        OperationModel::SetNode { node, .. } => match node {
            Some(n) => element_wf(n),
            None => true,
        },
        OperationModel::Generic(j) => operation_of(j) == OperationModel::Generic(j),
    }
}

pub proof fn lemma_path_round_trip(p: Seq<u64>)
    ensures
        path_of(Some(path_json(p))) == Some(p),
{
    let s = Seq::new(p.len(), |i: int| JsonV::UInt(p[i]));
    assert(forall|i: int| 0 <= i < s.len() ==> (#[trigger] s[i]) is UInt);
    assert(Seq::new(s.len(), |i: int| s[i]->UInt_0) =~= p);
}

pub proof fn lemma_operation_round_trip(o: OperationModel)
    requires
        operation_wf(o),
    ensures
        operation_of(operation_json(o)) == o,
{
    lemma_names_distinct();
    match o {
        OperationModel::Insert { path, node } => {
            let es = seq![
                ("type"@, JsonV::Str("insert_node"@)),
                ("path"@, path_json(path)),
                ("node"@, element_json(node)),
            ];
            lemma_lookup_at(es, "type"@, 0);
            lemma_lookup_at(es, "path"@, 1);
            lemma_lookup_at(es, "node"@, 2);
            lemma_path_round_trip(path);
            lemma_element_round_trip(node);
        },
        OperationModel::Remove { path, node } => {
            let es = seq![
                ("type"@, JsonV::Str("remove_node"@)),
                ("path"@, path_json(path)),
                ("node"@, element_json(node)),
            ];
            lemma_lookup_at(es, "type"@, 0);
            lemma_lookup_at(es, "path"@, 1);
            lemma_lookup_at(es, "node"@, 2);
            lemma_path_round_trip(path);
            lemma_element_round_trip(node);
        },
        OperationModel::SetNode { path, node, properties, new_properties } => {
            lemma_set_node_fields(path, node, properties, new_properties);
            lemma_path_round_trip(path);
            if node is Some {
                lemma_element_round_trip(node->Some_0);
            }
        },
        OperationModel::Generic(j) => {},
    }
}

/// Where the wire form of a set-node operation holds each of its fields.
pub proof fn lemma_set_node_fields(
    path: Seq<u64>,
    node: Option<ElementModel>,
    properties: Option<Seq<(Seq<char>, JsonV)>>,
    new_properties: Option<Seq<(Seq<char>, JsonV)>>,
)
    ensures
        ({
            let es = joined(set_node_segments(path, node, properties, new_properties), 0);
            &&& lookup(es, "type"@) == Some(JsonV::Str("set_node"@))
            &&& lookup(es, "path"@) == Some(path_json(path))
            &&& lookup(es, "node"@) == opt_node_json(node)
            &&& lookup(es, "properties"@) == opt_object_json(properties)
            &&& lookup(es, "new_properties"@) == opt_object_json(new_properties)
        }),
{
    let g = set_node_segments(path, node, properties, new_properties);
    let x = Seq::<(Seq<char>, JsonV)>::empty();
    assert(joined(g, 0) + x =~= joined(g, 0));
    assert forall|n: int| 0 <= n < g.len() implies (#[trigger] g[n]).len() <= 1 by {}
    lemma_names_distinct();
    reveal_with_fuel(found_in, 6);
    lemma_lookup_segments(g, 0, x, "type"@);
    lemma_lookup_segments(g, 0, x, "path"@);
    lemma_lookup_segments(g, 0, x, "node"@);
    lemma_lookup_segments(g, 0, x, "properties"@);
    lemma_lookup_segments(g, 0, x, "new_properties"@);
}

/// The wire form of a path.
fn path_to_json(p: &Vec<u64>) -> (r: Json)
    ensures
        r@ == path_json(p@),
{
    let mut items: Vec<Json> = Vec::new();
    let mut i: usize = 0;
    while i < p.len()
        invariant
            i <= p@.len(),
            values_view(items@) == Seq::new(i as nat, |k: int| JsonV::UInt(p@[k])),
        decreases p.len() - i,
    {
        let ghost r0 = items@;
        items.push(Json::UInt(p[i]));
        assert(items@.drop_last() =~= r0);
        assert(items@.last()@ == JsonV::UInt(p@[i as int]));
        assert(values_view(items@) == values_view(r0).push(JsonV::UInt(p@[i as int])));
        assert(values_view(items@) =~= Seq::new((i + 1) as nat, |k: int| JsonV::UInt(p@[k])));
        i = i + 1;
    }
    Json::Array(items)
}

/// The path under `k`.
fn path_field(m: &Vec<(String, Json)>, k: &str) -> (r: Option<Vec<u64>>)
    ensures
        match r {
            Some(p) => path_of(lookup(entries_view(m@), k@)) == Some(p@),
            None => path_of(lookup(entries_view(m@), k@)) is None,
        },
{
    match object_find(m, k) {
        Some(i) => match &m[i].1 {
            Json::Array(v) => {
                let ghost s = values_view(v@);
                proof {
                    lemma_values_view(v@);
                }
                assert(lookup(entries_view(m@), k@) == Some(JsonV::Array(s)));
                let mut p: Vec<u64> = Vec::new();
                let mut n: usize = 0;
                while n < v.len()
                    invariant
                        n <= v@.len(),
                        s == values_view(v@),
                        s.len() == v@.len(),
                        forall|k: int| 0 <= k < v@.len() ==> #[trigger] s[k] == v@[k]@,
                        p@.len() == n,
                        lookup(entries_view(m@), k@) == Some(JsonV::Array(s)),
                        forall|k: int| 0 <= k < n ==> (#[trigger] s[k]) is UInt && s[k]->UInt_0 == p@[k],
                    decreases v.len() - n,
                {
                    match &v[n] {
                        Json::UInt(x) => {
                            p.push(*x);
                        },
                        _ => {
                            assert(!(s[n as int] is UInt));
                            assert(!(forall|k: int| 0 <= k < s.len() ==> (#[trigger] s[k]) is UInt));
                            return None;
                        },
                    }
                    n = n + 1;
                }
                assert(Seq::new(s.len(), |k: int| s[k]->UInt_0) =~= p@);
                Some(p)
            },
            _ => None,
        },
        None => None,
    }
}

/// An optional node.
fn opt_node_field(m: &Vec<(String, Json)>, k: &str) -> (r: Option<Option<PlaitElement>>)
    ensures
        match r {
            Some(Some(e)) => opt_node_of(lookup(entries_view(m@), k@)) == Some(Some(e@)),
            Some(None) => opt_node_of(lookup(entries_view(m@), k@)) == Some(None::<ElementModel>),
            None => opt_node_of(lookup(entries_view(m@), k@)) is None,
        },
{
    match object_find(m, k) {
        Some(i) => match &m[i].1 {
            Json::Null => Some(None),
            v => match element_from_json(v) {
                Some(e) => Some(Some(e)),
                None => None,
            },
        },
        None => Some(None),
    }
}

/// Optional properties.
fn opt_object_field(m: &Vec<(String, Json)>, k: &str) -> (r: Option<Option<Vec<(String, Json)>>>)
    ensures
        match r {
            Some(x) => opt_object_of(lookup(entries_view(m@), k@)) == Some(opt_entries_view(x)),
            None => opt_object_of(lookup(entries_view(m@), k@)) is None,
        },
{
    match object_find(m, k) {
        Some(i) => match &m[i].1 {
            Json::Null => Some(None),
            Json::Object(es) => Some(Some(clone_entries(es))),
            _ => None,
        },
        None => Some(None),
    }
}

pub proof fn lemma_set_node_direct(
    path: Seq<u64>,
    node: Option<ElementModel>,
    properties: Option<Seq<(Seq<char>, JsonV)>>,
    new_properties: Option<Seq<(Seq<char>, JsonV)>>,
)
    ensures
        joined(set_node_segments(path, node, properties, new_properties), 0) == seq![
            ("type"@, JsonV::Str("set_node"@)),
            ("path"@, path_json(path)),
        ] + opt_entry("node"@, opt_node_json(node)) + opt_entry("properties"@, opt_object_json(properties))
            + opt_entry("new_properties"@, opt_object_json(new_properties)),
{
    let g = set_node_segments(path, node, properties, new_properties);
    reveal_with_fuel(joined, 6);
    assert(joined(g, 5) =~= Seq::<(Seq<char>, JsonV)>::empty());
    assert(joined(g, 0) =~= seq![
        ("type"@, JsonV::Str("set_node"@)),
        ("path"@, path_json(path)),
    ] + opt_entry("node"@, opt_node_json(node)) + opt_entry("properties"@, opt_object_json(properties))
        + opt_entry("new_properties"@, opt_object_json(new_properties)));
}

impl Operation {
    /// The wire form of the operation.
    pub fn to_json(&self) -> (r: Json)
        ensures
            r@ == operation_json(self@),
    {
        match self {
            Operation::Insert(o) => {
                let mut es: Vec<(String, Json)> = Vec::new();
                push_entry(&mut es, "type", Json::Str("insert_node".to_owned()));
                push_entry(&mut es, "path", path_to_json(&o.path));
                push_entry(&mut es, "node", o.node.to_json());
                assert(self@ == OperationModel::Insert { path: o.path@, node: o.node@ });
                assert(entries_view(es@) =~= seq![
                    ("type"@, JsonV::Str("insert_node"@)),
                    ("path"@, path_json(o.path@)),
                    ("node"@, element_json(o.node@)),
                ]);
                let r = Json::Object(es);
                assert(r@ == JsonV::Object(entries_view(es@)));
                assert(operation_json(self@) == JsonV::Object(seq![
                    ("type"@, JsonV::Str("insert_node"@)),
                    ("path"@, path_json(o.path@)),
                    ("node"@, element_json(o.node@)),
                ]));
                r
            },
            Operation::Remove(o) => {
                let mut es: Vec<(String, Json)> = Vec::new();
                push_entry(&mut es, "type", Json::Str("remove_node".to_owned()));
                push_entry(&mut es, "path", path_to_json(&o.path));
                push_entry(&mut es, "node", o.node.to_json());
                assert(self@ == OperationModel::Remove { path: o.path@, node: o.node@ });
                assert(entries_view(es@) =~= seq![
                    ("type"@, JsonV::Str("remove_node"@)),
                    ("path"@, path_json(o.path@)),
                    ("node"@, element_json(o.node@)),
                ]);
                let r = Json::Object(es);
                assert(r@ == JsonV::Object(entries_view(es@)));
                r
            },
            Operation::SetNode(o) => {
                let ghost op = self@;
                let mut es: Vec<(String, Json)> = Vec::new();
                push_entry(&mut es, "type", Json::Str("set_node".to_owned()));
                push_entry(&mut es, "path", path_to_json(&o.path));
                let ghost head = entries_view(es@);
                assert(head =~= seq![("type"@, JsonV::Str("set_node"@)), ("path"@, path_json(o.path@))]);
                match &o.node {
                    Some(n) => {
                        push_entry(&mut es, "node", n.to_json());
                    },
                    None => {},
                }
                let ghost h2 = entries_view(es@);
                assert(h2 =~= head + opt_entry("node"@, opt_node_json(op->SetNode_node)));
                match &o.properties {
                    Some(p) => {
                        push_entry(&mut es, "properties", Json::Object(clone_entries(p)));
                    },
                    None => {},
                }
                let ghost h3 = entries_view(es@);
                assert(h3 =~= h2 + opt_entry("properties"@, opt_object_json(op->SetNode_properties)));
                match &o.new_properties {
                    Some(p) => {
                        push_entry(&mut es, "new_properties", Json::Object(clone_entries(p)));
                    },
                    None => {},
                }
                assert(entries_view(es@) =~= h3 + opt_entry("new_properties"@, opt_object_json(op->SetNode_new_properties)));
                proof {
                    lemma_set_node_direct(o.path@, op->SetNode_node, op->SetNode_properties, op->SetNode_new_properties);
                }
                let r = Json::Object(es);
                assert(r@ == JsonV::Object(entries_view(es@)));
                r
            },
            Operation::Generic(j) => j.deep_clone(),
        }
    }
}

/// The operation that a value is the wire form of; a value of an unknown
/// shape is kept as it is.
pub fn operation_from_json(j: &Json) -> (r: Operation)
    ensures
        r@ == operation_of(j@),
{
    match j {
        Json::Object(m) => {
            let t = req_str_field(m, "type");
            let path = path_field(m, "path");
            match (t, path) {
                (Some(t), Some(path)) => {
                    if name_is(&t, "insert_node") {
                        match opt_node_field(m, "node") {
                            Some(Some(node)) => Operation::Insert(InsertNodeOperation { path, node }),
                            _ => Operation::Generic(j.deep_clone()),
                        }
                    } else if name_is(&t, "remove_node") {
                        match opt_node_field(m, "node") {
                            Some(Some(node)) => Operation::Remove(RemoveNodeOperation { path, node }),
                            _ => Operation::Generic(j.deep_clone()),
                        }
                    } else if name_is(&t, "set_node") {
                        let node = opt_node_field(m, "node");
                        let properties = opt_object_field(m, "properties");
                        let new_properties = opt_object_field(m, "new_properties");
                        match (node, properties, new_properties) {
                            (Some(node), Some(properties), Some(new_properties)) => Operation::SetNode(
                                SetNodeOperation { path, node, properties, new_properties },
                            ),
                            _ => Operation::Generic(j.deep_clone()),
                        }
                    } else {
                        Operation::Generic(j.deep_clone())
                    }
                },
                _ => Operation::Generic(j.deep_clone()),
            }
        },
        _ => Operation::Generic(j.deep_clone()),
    }
}

/// Why a payload is not a batch.
#[derive(PartialEq, Eq, Structural, Debug, Clone, Copy)]
pub enum CodecError {
    /// The bytes are not UTF-8 text.
    InvalidEncoding,
    /// The text is not the wire form of a batch.
    MalformedPayload,
}

/// The wire forms of a sequence of operations.
pub open spec fn operations_json(s: Seq<OperationModel>) -> Seq<JsonV> {
    Seq::new(s.len(), |i: int| operation_json(s[i]))
}

/// The runs of the fields of the wire form of a batch.
pub open spec fn batch_segments(b: BatchModel) -> Seq<Seq<(Seq<char>, JsonV)>> {
    seq![
        seq![("operations"@, JsonV::Array(operations_json(b.operations)))],
        seq![("timestamp"@, JsonV::Str(b.timestamp))],
        seq![("source_id"@, JsonV::Str(b.source_id))],
        opt_entry("children"@, match b.children {
            Some(c) => Some(JsonV::Array(elements_json(c))),
            None => None,
        }),
        opt_entry("viewport"@, b.viewport),
    ]
}

/// The wire form of a batch: its operations, stamp and origin, then the
/// document state where it carries any.
pub open spec fn batch_json(b: BatchModel) -> JsonV {
    JsonV::Object(joined(batch_segments(b), 0))
}

/// Optional children: `Some(None)` where absent or `null`.
pub open spec fn children_of(v: Option<JsonV>) -> Option<Option<Seq<ElementModel>>> {
    match v {
        None => Some(None),
        Some(JsonV::Null) => Some(None),
        Some(JsonV::Array(s)) => match elements_of(s) {
            Some(c) => Some(Some(c)),
            None => None,
        },
        _ => None,
    }
}

/// The batch that a value is the wire form of, or `None` where a required
/// field is missing or a field holds a value of the wrong shape.
pub open spec fn batch_of(j: JsonV) -> Option<BatchModel> {
    match j {
        JsonV::Object(es) => match (
            lookup(es, "operations"@),
            req_str(lookup(es, "timestamp"@)),
            req_str(lookup(es, "source_id"@)),
            children_of(lookup(es, "children"@)),
        ) {
            (Some(JsonV::Array(ops)), Some(timestamp), Some(source_id), Some(children)) => Some(
                BatchModel {
                    operations: Seq::new(ops.len(), |i: int| operation_of(ops[i])),
                    timestamp,
                    source_id,
                    children,
                    viewport: opt_value_of(lookup(es, "viewport"@)),
                },
            ),
            _ => None,
        },
        _ => None,
    }
}

/// What the wire form of a batch keeps: operations and children that keep
/// theirs, and a viewport that is not `null`.
pub open spec fn batch_wf(b: BatchModel) -> bool {
    &&& forall|i: int| 0 <= i < b.operations.len() ==> operation_wf(#[trigger] b.operations[i])
    &&& match b.children {
        Some(c) => elements_wf(c),
        None => true,
    }
    &&& b.viewport != Some(JsonV::Null)
}

/// Where the wire form of a batch holds each of its fields.
pub proof fn lemma_batch_fields(b: BatchModel)
    ensures
        ({
            let es = joined(batch_segments(b), 0);
            &&& lookup(es, "operations"@) == Some(JsonV::Array(operations_json(b.operations)))
            &&& lookup(es, "timestamp"@) == Some(JsonV::Str(b.timestamp))
            &&& lookup(es, "source_id"@) == Some(JsonV::Str(b.source_id))
            &&& lookup(es, "children"@) == (match b.children {
                Some(c) => Some(JsonV::Array(elements_json(c))),
                None => None,
            })
            &&& lookup(es, "viewport"@) == b.viewport
        }),
{
    let g = batch_segments(b);
    let x = Seq::<(Seq<char>, JsonV)>::empty();
    assert(joined(g, 0) + x =~= joined(g, 0));
    assert forall|n: int| 0 <= n < g.len() implies (#[trigger] g[n]).len() <= 1 by {}
    lemma_names_distinct();
    reveal_with_fuel(found_in, 6);
    lemma_lookup_segments(g, 0, x, "operations"@);
    lemma_lookup_segments(g, 0, x, "timestamp"@);
    lemma_lookup_segments(g, 0, x, "source_id"@);
    lemma_lookup_segments(g, 0, x, "children"@);
    lemma_lookup_segments(g, 0, x, "viewport"@);
}

/// Decoding the wire form of a batch gives the batch back, for every kind of
/// operation, one of an unknown shape included.
pub proof fn lemma_batch_round_trip(b: BatchModel)
    requires
        batch_wf(b),
    ensures
        batch_of(batch_json(b)) == Some(b),
{
    lemma_batch_fields(b);
    let ops = operations_json(b.operations);
    assert forall|i: int| 0 <= i < b.operations.len() implies operation_of(#[trigger] ops[i]) == b.operations[i] by {
        lemma_operation_round_trip(b.operations[i]);
    }
    assert(Seq::new(ops.len(), |i: int| operation_of(ops[i])) =~= b.operations);
    if b.children is Some {
        lemma_elements_round_trip(b.children->Some_0);
    }
}

pub proof fn lemma_batch_direct(b: BatchModel)
    ensures
        joined(batch_segments(b), 0) == seq![
            ("operations"@, JsonV::Array(operations_json(b.operations))),
            ("timestamp"@, JsonV::Str(b.timestamp)),
            ("source_id"@, JsonV::Str(b.source_id)),
        ] + opt_entry("children"@, match b.children {
            Some(c) => Some(JsonV::Array(elements_json(c))),
            None => None,
        }) + opt_entry("viewport"@, b.viewport),
{
    let g = batch_segments(b);
    reveal_with_fuel(joined, 6);
    assert(joined(g, 5) =~= Seq::<(Seq<char>, JsonV)>::empty());
    assert(joined(g, 0) =~= seq![
        ("operations"@, JsonV::Array(operations_json(b.operations))),
        ("timestamp"@, JsonV::Str(b.timestamp)),
        ("source_id"@, JsonV::Str(b.source_id)),
    ] + opt_entry("children"@, match b.children {
        Some(c) => Some(JsonV::Array(elements_json(c))),
        None => None,
    }) + opt_entry("viewport"@, b.viewport));
}

/// The wire forms of a sequence of operations.
fn operations_to_json(v: &Vec<Operation>) -> (r: Vec<Json>)
    ensures
        values_view(r@) == operations_json(operations_view(v@)),
{
    let mut r: Vec<Json> = Vec::new();
    let mut i: usize = 0;
    while i < v.len()
        invariant
            i <= v@.len(),
            values_view(r@) == Seq::new(i as nat, |k: int| operation_json(v@[k]@)),
        decreases v.len() - i,
    {
        let x = v[i].to_json();
        let ghost r0 = r@;
        r.push(x);
        assert(r@.drop_last() =~= r0);
        assert(values_view(r@) == values_view(r0).push(x@));
        assert(values_view(r@) =~= Seq::new((i + 1) as nat, |k: int| operation_json(v@[k]@)));
        i = i + 1;
    }
    assert(operations_json(operations_view(v@)) =~= Seq::new(v@.len(), |k: int| operation_json(v@[k]@)));
    r
}

/// The wire form of a batch.
pub fn encode_batch(b: &DDSBoardChangeData) -> (r: Json)
    ensures
        r@ == batch_json(b@),
{
    let ghost m = b@;
    let mut es: Vec<(String, Json)> = Vec::new();
    push_entry(&mut es, "operations", Json::Array(operations_to_json(&b.operations)));
    push_entry(&mut es, "timestamp", Json::Str(b.timestamp.clone()));
    push_entry(&mut es, "source_id", Json::Str(b.source_id.clone()));
    let ghost head = entries_view(es@);
    assert(head =~= seq![
        ("operations"@, JsonV::Array(operations_json(m.operations))),
        ("timestamp"@, JsonV::Str(m.timestamp)),
        ("source_id"@, JsonV::Str(m.source_id)),
    ]);
    match &b.children {
        Some(c) => {
            push_entry(&mut es, "children", Json::Array(elements_to_json(c)));
        },
        None => {},
    }
    let ghost h2 = entries_view(es@);
    assert(h2 =~= head + opt_entry("children"@, match m.children {
        Some(c) => Some(JsonV::Array(elements_json(c))),
        None => None,
    }));
    match &b.viewport {
        Some(v) => {
            push_entry(&mut es, "viewport", v.deep_clone());
        },
        None => {},
    }
    assert(entries_view(es@) =~= h2 + opt_entry("viewport"@, m.viewport));
    proof {
        lemma_batch_direct(m);
    }
    let r = Json::Object(es);
    assert(r@ == JsonV::Object(entries_view(es@)));
    r
}

/// Optional children.
fn children_field(m: &Vec<(String, Json)>, k: &str) -> (r: Option<Option<Vec<PlaitElement>>>)
    ensures
        match r {
            Some(Some(c)) => children_of(lookup(entries_view(m@), k@)) == Some(Some(elements_view(c@))),
            Some(None) => children_of(lookup(entries_view(m@), k@)) == Some(None::<Seq<ElementModel>>),
            None => children_of(lookup(entries_view(m@), k@)) is None,
        },
{
    match object_find(m, k) {
        Some(i) => match &m[i].1 {
            Json::Null => Some(None),
            Json::Array(v) => match elements_from_json(v) {
                Some(c) => Some(Some(c)),
                None => None,
            },
            _ => None,
        },
        None => Some(None),
    }
}

/// The operations that some values are the wire forms of.
fn operations_from_json(v: &Vec<Json>) -> (r: Vec<Operation>)
    ensures
        operations_view(r@) == Seq::new(v@.len(), |i: int| operation_of(values_view(v@)[i])),
{
    let ghost s = values_view(v@);
    proof {
        lemma_values_view(v@);
    }
    let mut r: Vec<Operation> = Vec::new();
    let mut i: usize = 0;
    while i < v.len()
        invariant
            i <= v@.len(),
            s == values_view(v@),
            s.len() == v@.len(),
            forall|k: int| 0 <= k < v@.len() ==> #[trigger] s[k] == v@[k]@,
            r@.len() == i,
            forall|k: int| 0 <= k < i ==> #[trigger] r@[k]@ == operation_of(s[k]),
        decreases v.len() - i,
    {
        let o = operation_from_json(&v[i]);
        r.push(o);
        i = i + 1;
    }
    assert(operations_view(r@) =~= Seq::new(v@.len(), |i: int| operation_of(s[i])));
    r
}

/// The operations under `k`, where it holds an array.
fn operations_field(m: &Vec<(String, Json)>, k: &str) -> (r: Option<Vec<Operation>>)
    ensures
        match r {
            Some(o) => exists|s: Seq<JsonV>|
                lookup(entries_view(m@), k@) == Some(JsonV::Array(s))
                    && operations_view(o@) == Seq::new(s.len(), |i: int| operation_of(s[i])),
            None => !(lookup(entries_view(m@), k@) matches Some(JsonV::Array(_))),
        },
{
    match object_find(m, k) {
        Some(i) => match &m[i].1 {
            Json::Array(v) => {
                let o = operations_from_json(v);
                proof {
                    lemma_values_view(v@);
                    assert(lookup(entries_view(m@), k@) == Some(JsonV::Array(values_view(v@))));
                }
                Some(o)
            },
            _ => None,
        },
        None => None,
    }
}

/// The batch that a value is the wire form of; `MalformedPayload` where a
/// required field is missing or a field holds a value of the wrong shape.
pub fn decode_batch(j: &Json) -> (r: Result<DDSBoardChangeData, CodecError>)
    ensures
        match r {
            Ok(b) => batch_of(j@) == Some(b@),
            Err(e) => e == CodecError::MalformedPayload && batch_of(j@) is None,
        },
{
    match j {
        Json::Object(m) => {
            let ops = operations_field(m, "operations");
            let timestamp = req_str_field(m, "timestamp");
            let source_id = req_str_field(m, "source_id");
            let children = children_field(m, "children");
            match (ops, timestamp, source_id, children) {
                (Some(operations), Some(timestamp), Some(source_id), Some(children)) => {
                    let viewport = opt_value_field(m, "viewport");
                    let b = DDSBoardChangeData { operations, timestamp, source_id, children, viewport };
                    Ok(b)
                },
                _ => Err(CodecError::MalformedPayload),
            }
        },
        _ => Err(CodecError::MalformedPayload),
    }
}

/// Relies on `String::from_utf8`: the text of the bytes where they are
/// UTF-8, an error where they are not.
#[verifier::external_body]
fn utf8_to_string(bytes: Vec<u8>) -> (r: Option<String>)
    ensures
        match r {
            Some(s) => valid_utf8(bytes@) && s@ == decode_utf8(bytes@),
            None => !valid_utf8(bytes@),
        },
{
    String::from_utf8(bytes).ok()
}

/// The text of a payload; `InvalidEncoding` where its bytes are not UTF-8.
pub fn payload_text(bytes: Vec<u8>) -> (r: Result<String, CodecError>)
    ensures
        match r {
            Ok(s) => valid_utf8(bytes@) && s@ == decode_utf8(bytes@),
            Err(e) => e == CodecError::InvalidEncoding && !valid_utf8(bytes@),
        },
{
    match utf8_to_string(bytes) {
        Some(s) => Ok(s),
        None => Err(CodecError::InvalidEncoding),
    }
}

/// The added, removed and modified elements of the document, as one
/// process saw them at `timestamp`: the fine-grained form of a change.
#[derive(Debug, PartialEq)]
pub struct ElementChangesData {
    pub added: Vec<Json>,
    pub removed: Vec<Json>,
    pub modified: Vec<Json>,
    pub timestamp: String,
}

/// The model of an [`ElementChangesData`].
pub struct ElementChangesModel {
    pub added: Seq<JsonV>,
    pub removed: Seq<JsonV>,
    pub modified: Seq<JsonV>,
    pub timestamp: Seq<char>,
}

impl ElementChangesData {
    pub open spec fn view(&self) -> ElementChangesModel {
        ElementChangesModel {
            added: values_view(self.added@),
            removed: values_view(self.removed@),
            modified: values_view(self.modified@),
            timestamp: self.timestamp@,
        }
    }
}

/// The wire form of a fine-grained change.
pub open spec fn element_changes_json(c: ElementChangesModel) -> JsonV {
    JsonV::Object(
        seq![
            ("added"@, JsonV::Array(c.added)),
            ("removed"@, JsonV::Array(c.removed)),
            ("modified"@, JsonV::Array(c.modified)),
            ("timestamp"@, JsonV::Str(c.timestamp)),
        ],
    )
}

/// An array field.
pub open spec fn array_of(v: Option<JsonV>) -> Option<Seq<JsonV>> {
    match v {
        Some(JsonV::Array(s)) => Some(s),
        _ => None,
    }
}

/// The fine-grained change that a value is the wire form of, or `None`
/// where a field is missing or of the wrong shape.
pub open spec fn element_changes_of(j: JsonV) -> Option<ElementChangesModel> {
    match j {
        JsonV::Object(es) => match (
            array_of(lookup(es, "added"@)),
            array_of(lookup(es, "removed"@)),
            array_of(lookup(es, "modified"@)),
            req_str(lookup(es, "timestamp"@)),
        ) {
            (Some(added), Some(removed), Some(modified), Some(timestamp)) => Some(
                ElementChangesModel { added, removed, modified, timestamp },
            ),
            _ => None,
        },
        _ => None,
    }
}

/// Decoding the wire form of a fine-grained change gives it back.
pub proof fn lemma_element_changes_round_trip(c: ElementChangesModel)
    ensures
        element_changes_of(element_changes_json(c)) == Some(c),
{
    lemma_names_distinct();
    let es = seq![
        ("added"@, JsonV::Array(c.added)),
        ("removed"@, JsonV::Array(c.removed)),
        ("modified"@, JsonV::Array(c.modified)),
        ("timestamp"@, JsonV::Str(c.timestamp)),
    ];
    lemma_lookup_at(es, "added"@, 0);
    lemma_lookup_at(es, "removed"@, 1);
    lemma_lookup_at(es, "modified"@, 2);
    lemma_lookup_at(es, "timestamp"@, 3);
}

/// A copy of the array under `k`, where it holds one.
fn array_field(m: &Vec<(String, Json)>, k: &str) -> (r: Option<Vec<Json>>)
    ensures
        match r {
            Some(v) => array_of(lookup(entries_view(m@), k@)) == Some(values_view(v@)),
            None => array_of(lookup(entries_view(m@), k@)) is None,
        },
{
    match object_find(m, k) {
        Some(i) => match &m[i].1 {
            Json::Array(v) => Some(clone_values(v)),
            _ => None,
        },
        None => None,
    }
}

/// The wire form of a fine-grained change.
pub fn encode_element_changes(c: &ElementChangesData) -> (r: Json)
    ensures
        r@ == element_changes_json(c@),
{
    let mut es: Vec<(String, Json)> = Vec::new();
    push_entry(&mut es, "added", Json::Array(clone_values(&c.added)));
    push_entry(&mut es, "removed", Json::Array(clone_values(&c.removed)));
    push_entry(&mut es, "modified", Json::Array(clone_values(&c.modified)));
    push_entry(&mut es, "timestamp", Json::Str(c.timestamp.clone()));
    assert(entries_view(es@) =~= seq![
        ("added"@, JsonV::Array(c@.added)),
        ("removed"@, JsonV::Array(c@.removed)),
        ("modified"@, JsonV::Array(c@.modified)),
        ("timestamp"@, JsonV::Str(c@.timestamp)),
    ]);
    let r = Json::Object(es);
    assert(r@ == JsonV::Object(entries_view(es@)));
    r
}

/// The fine-grained change that a value is the wire form of;
/// `MalformedPayload` where a field is missing or of the wrong shape.
pub fn decode_element_changes(j: &Json) -> (r: Result<ElementChangesData, CodecError>)
    ensures
        match r {
            Ok(c) => element_changes_of(j@) == Some(c@),
            Err(e) => e == CodecError::MalformedPayload && element_changes_of(j@) is None,
        },
{
    match j {
        Json::Object(m) => {
            let added = array_field(m, "added");
            let removed = array_field(m, "removed");
            let modified = array_field(m, "modified");
            let timestamp = req_str_field(m, "timestamp");
            match (added, removed, modified, timestamp) {
                (Some(added), Some(removed), Some(modified), Some(timestamp)) => Ok(
                    ElementChangesData { added, removed, modified, timestamp },
                ),
                _ => Err(CodecError::MalformedPayload),
            }
        },
        _ => Err(CodecError::MalformedPayload),
    }
}

} // verus!
