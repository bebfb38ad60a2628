//! Configuration documents: a value for every leaf field of a layout, each
//! leaf addressed by its field path (the names of the records that lead to it,
//! then its own name).

use vstd::prelude::*;

use crate::error::ConfigError;
use crate::format::{
    copy_value, empty_object, json_as_i64, json_as_u64, json_at, json_is_object, json_kind, kind_of,
    lemma_json_at_first, member, set_member, JsonKind,
};

verus! {

/// A field path as a sequence of segment strings.
pub open spec fn segs(p: Vec<String>) -> Seq<Seq<char>> {
    p@.map_values(|s: String| s@)
}

/// A list of field paths, each as a sequence of segment strings.
pub open spec fn path_list(ps: Vec<Vec<String>>) -> Seq<Seq<Seq<char>>> {
    ps@.map_values(|p: Vec<String>| segs(p))
}

/// `p` is a leading part of `q`: `q` is `p` itself or lies inside the record `p` names.
pub open spec fn is_prefix(p: Seq<Seq<char>>, q: Seq<Seq<char>>) -> bool {
    p.len() <= q.len() && q.subrange(0, p.len() as int) == p
}

/// One leaf field: where it stands and what it holds.
pub struct Field {
    pub path: Vec<String>,
    pub value: serde_json::Value,
}

/// The model of a list of fields: each field's path and value.
pub open spec fn entries(fields: Seq<Field>) -> Seq<(Seq<Seq<char>>, serde_json::Value)> {
    fields.map_values(|f: Field| (segs(f.path), f.value))
}

/// The type of a leaf: which values it accepts.
#[derive(Debug, Clone, Copy, PartialEq, Eq, Structural)]
pub enum LeafType {
    Bool,
    Text,
    /// Any number, integer or not.
    Float,
    I8,
    I16,
    I32,
    I64,
    U8,
    U16,
    U32,
    U64,
}

/// One leaf of a layout: its path, its type, and the value it takes when
/// nothing else is given.
pub struct Leaf {
    pub path: Vec<String>,
    pub ty: LeafType,
    pub default: serde_json::Value,
}

/// The layout of a configuration record: every leaf, in order.
pub struct Schema {
    pub fields: Vec<Leaf>,
}

/// A configuration value: one value for every leaf of its layout.
pub struct Document {
    pub fields: Vec<Field>,
}

/// A sparse overlay: values for some of the leaves of a layout, the others absent.
pub struct Sparse {
    pub fields: Vec<Field>,
}

impl Schema {
    /// Each leaf's path and default value.
    pub open spec fn view(&self) -> Seq<(Seq<Seq<char>>, serde_json::Value)> {
        self.fields@.map_values(|l: Leaf| (segs(l.path), l.default))
    }

    /// Each leaf's type.
    pub open spec fn types(&self) -> Seq<LeafType> {
        self.fields@.map_values(|l: Leaf| l.ty)
    }

    /// Every path is non-empty, no path leads into another leaf (so no two
    /// are equal), and every default is accepted by its leaf's type.
    pub open spec fn wf(&self) -> bool {
        &&& prefix_free(self@)
        &&& leaves_fit(self@, self.types())
    }
}

impl Document {
    pub open spec fn view(&self) -> Seq<(Seq<Seq<char>>, serde_json::Value)> {
        entries(self.fields@)
    }

    /// The document has exactly the leaves of `schema`, in its order.
    pub open spec fn conforms(&self, schema: &Schema) -> bool {
        same_paths(self@, schema@)
    }
}

impl Sparse {
    pub open spec fn view(&self) -> Seq<(Seq<Seq<char>>, serde_json::Value)> {
        entries(self.fields@)
    }
}

/// `a` and `b` have the same leaf paths, in the same order.
pub open spec fn same_paths(
    a: Seq<(Seq<Seq<char>>, serde_json::Value)>,
    b: Seq<(Seq<Seq<char>>, serde_json::Value)>,
) -> bool {
    &&& a.len() == b.len()
    &&& forall|i: int| 0 <= i < a.len() ==> #[trigger] a[i].0 == b[i].0
}

/// The document that `v` holds for `schema`, when every leaf is present in `v`.
pub open spec fn full_of(schema: Seq<(Seq<Seq<char>>, serde_json::Value)>, v: serde_json::Value) -> Seq<
    (Seq<Seq<char>>, serde_json::Value),
> {
    Seq::new(schema.len(), |i: int| (schema[i].0, json_at(v, schema[i].0)->0))
}

/// An integer within the given bounds.
pub open spec fn signed_in(x: serde_json::Value, lo: int, hi: int) -> bool {
    json_as_i64(x) matches Some(n) && lo <= n <= hi
}

/// A non-negative integer no greater than `hi`.
pub open spec fn unsigned_in(x: serde_json::Value, hi: int) -> bool {
    json_as_u64(x) matches Some(n) && n <= hi
}

/// The type `t` accepts the value `x`.
pub open spec fn fits(x: serde_json::Value, t: LeafType) -> bool {
    match t {
        LeafType::Bool => json_kind(x) == JsonKind::Bool,
        LeafType::Text => json_kind(x) == JsonKind::Text,
        LeafType::Float => json_kind(x) == JsonKind::Number,
        LeafType::I8 => signed_in(x, -0x80, 0x7f),
        LeafType::I16 => signed_in(x, -0x8000, 0x7fff),
        LeafType::I32 => signed_in(x, -0x8000_0000, 0x7fff_ffff),
        LeafType::I64 => json_as_i64(x) is Some,
        LeafType::U8 => unsigned_in(x, 0xff),
        LeafType::U16 => unsigned_in(x, 0xffff),
        LeafType::U32 => unsigned_in(x, 0xffff_ffff),
        LeafType::U64 => json_as_u64(x) is Some,
    }
}

/// Every value of `es` is accepted by the type at the same index.
pub open spec fn leaves_fit(es: Seq<(Seq<Seq<char>>, serde_json::Value)>, types: Seq<LeafType>) -> bool {
    &&& es.len() == types.len()
    &&& forall|i: int| 0 <= i < es.len() ==> fits(#[trigger] es[i].1, types[i])
}

/// Every leaf of `schema` is present in `v`, with a value its type accepts.
pub open spec fn complete_in(
    schema: Seq<(Seq<Seq<char>>, serde_json::Value)>,
    types: Seq<LeafType>,
    v: serde_json::Value,
) -> bool {
    forall|i: int|
        0 <= i < schema.len() ==> ((#[trigger] json_at(v, schema[i].0)) matches Some(x) && fits(x, types[i]))
}

/// Every leaf of `schema` that `v` holds has a value its type accepts.
pub open spec fn kinds_fit(
    schema: Seq<(Seq<Seq<char>>, serde_json::Value)>,
    types: Seq<LeafType>,
    v: serde_json::Value,
) -> bool {
    forall|i: int|
        0 <= i < schema.len() ==> ((#[trigger] json_at(v, schema[i].0)) matches Some(x) ==> fits(x, types[i]))
}

/// `e` reports a leaf of `schema` that `v` lacks, or holds with a value its type refuses.
pub open spec fn reports_bad_leaf(
    e: ConfigError,
    schema: Seq<(Seq<Seq<char>>, serde_json::Value)>,
    types: Seq<LeafType>,
    v: serde_json::Value,
) -> bool {
    exists|i: int|
        0 <= i < schema.len() && match e {
            ConfigError::MissingField(p) => segs(p) == schema[i].0 && #[trigger] json_at(v, schema[i].0) is None,
            ConfigError::MismatchedField(p) => segs(p) == schema[i].0 && (json_at(v, schema[i].0) matches Some(x)
                && !fits(x, types[i])),
            _ => false,
        }
}

/// Each value of the overlay `o` that stands at a leaf of `schema` is accepted by that leaf's type.
pub open spec fn overlay_fits(
    o: Seq<(Seq<Seq<char>>, serde_json::Value)>,
    schema: Seq<(Seq<Seq<char>>, serde_json::Value)>,
    types: Seq<LeafType>,
) -> bool {
    forall|j: int, i: int|
        0 <= j < o.len() && 0 <= i < schema.len() && #[trigger] o[j].0 == #[trigger] schema[i].0 ==> fits(
            o[j].1,
            types[i],
        )
}

/// Whether the type `t` accepts the value `x`.
pub fn leaf_fits(x: &serde_json::Value, t: LeafType) -> (r: bool)
    ensures
        r == fits(*x, t),
{
    match t {
        LeafType::Bool => kind_of(x) == JsonKind::Bool,
        LeafType::Text => kind_of(x) == JsonKind::Text,
        LeafType::Float => kind_of(x) == JsonKind::Number,
        LeafType::I8 => match x.as_i64() {
            Some(n) => -0x80 <= n && n <= 0x7f,
            None => false,
        },
        LeafType::I16 => match x.as_i64() {
            Some(n) => -0x8000 <= n && n <= 0x7fff,
            None => false,
        },
        LeafType::I32 => match x.as_i64() {
            Some(n) => -0x8000_0000 <= n && n <= 0x7fff_ffff,
            None => false,
        },
        LeafType::I64 => x.as_i64().is_some(),
        LeafType::U8 => match x.as_u64() {
            Some(n) => n <= 0xff,
            None => false,
        },
        LeafType::U16 => match x.as_u64() {
            Some(n) => n <= 0xffff,
            None => false,
        },
        LeafType::U32 => match x.as_u64() {
            Some(n) => n <= 0xffff_ffff,
            None => false,
        },
        LeafType::U64 => x.as_u64().is_some(),
    }
}

/// The leaves among the first `n` of `schema` that are present in `v`, with their values.
pub open spec fn sparse_of(
    schema: Seq<(Seq<Seq<char>>, serde_json::Value)>,
    v: serde_json::Value,
    n: nat,
) -> Seq<(Seq<Seq<char>>, serde_json::Value)>
    decreases n,
{
    if n == 0 {
        Seq::empty()
    } else {
        let before = sparse_of(schema, v, (n - 1) as nat);
        let p = schema[n - 1].0;
        match json_at(v, p) {
            Some(x) => before.push((p, x)),
            None => before,
        }
    }
}

/// The value of the first entry whose path is `q`.
pub open spec fn lookup(es: Seq<(Seq<Seq<char>>, serde_json::Value)>, q: Seq<Seq<char>>) -> Option<
    serde_json::Value,
>
    decreases es.len(),
{
    if es.len() == 0 {
        None
    } else if es[0].0 == q {
        Some(es[0].1)
    } else {
        lookup(es.drop_first(), q)
    }
}

/// Some path of `paths` selects the leaf at `q` (names it, or a record around it).
pub open spec fn covered(paths: Seq<Seq<Seq<char>>>, q: Seq<Seq<char>>) -> bool {
    exists|k: int| 0 <= k < paths.len() && is_prefix(#[trigger] paths[k], q)
}

/// The path `p` names a leaf of `base`, or a record that holds one.
pub open spec fn known(base: Seq<(Seq<Seq<char>>, serde_json::Value)>, p: Seq<Seq<char>>) -> bool {
    exists|i: int| 0 <= i < base.len() && is_prefix(p, #[trigger] base[i].0)
}

/// The value a leaf of `base` takes after the merge: the overlay's value where
/// the leaf is selected and the overlay has it, else its own.
pub open spec fn merged_value(
    e: (Seq<Seq<char>>, serde_json::Value),
    overlay: Seq<(Seq<Seq<char>>, serde_json::Value)>,
    paths: Seq<Seq<Seq<char>>>,
) -> serde_json::Value {
    if covered(paths, e.0) && lookup(overlay, e.0) is Some {
        lookup(overlay, e.0)->0
    } else {
        e.1
    }
}

/// `base` with the selected leaves that `overlay` supplies replaced.
pub open spec fn merged(
    base: Seq<(Seq<Seq<char>>, serde_json::Value)>,
    overlay: Seq<(Seq<Seq<char>>, serde_json::Value)>,
    paths: Seq<Seq<Seq<char>>>,
) -> Seq<(Seq<Seq<char>>, serde_json::Value)> {
    Seq::new(base.len(), |i: int| (base[i].0, merged_value(base[i], overlay, paths)))
}

/// A copy of a field path.
pub fn copy_path(p: &Vec<String>) -> (r: Vec<String>)
    ensures
        segs(r) == segs(*p),
{
    let mut r: Vec<String> = Vec::new();
    let mut i: usize = 0;
    while i < p.len()
        invariant
            i <= p@.len(),
            r@.len() == i,
            forall|j: int| 0 <= j < i ==> #[trigger] r@[j]@ == p@[j]@,
        decreases p@.len() - i,
    {
        r.push(p[i].clone());
        i = i + 1;
    }
    assert(segs(r) =~= segs(*p));
    r
}

/// Whether `q` begins with the segments of `p`.
pub fn starts_with(q: &Vec<String>, p: &Vec<String>) -> (r: bool)
    ensures
        r == is_prefix(segs(*p), segs(*q)),
{
    if p.len() > q.len() {
        return false;
    }
    let mut i: usize = 0;
    while i < p.len()
        invariant
            p@.len() <= q@.len(),
            i <= p@.len(),
            forall|j: int| 0 <= j < i ==> #[trigger] q@[j]@ == p@[j]@,
        decreases p@.len() - i,
    {
        if q[i] != p[i] {
            assert(segs(*q).subrange(0, segs(*p).len() as int)[i as int] != segs(*p)[i as int]);
            return false;
        }
        i = i + 1;
    }
    assert(segs(*q).subrange(0, segs(*p).len() as int) =~= segs(*p));
    true
}

/// The value reached from `root` along `path`.
pub fn value_at(root: &serde_json::Value, path: &Vec<String>) -> (r: Option<serde_json::Value>)
    requires
        path@.len() > 0,
    ensures
        r == json_at(*root, segs(*path)),
{
    let ghost sp = segs(*path);
    assert(sp.take(1).drop_last() =~= sp.take(0));
    assert(json_at(*root, sp.take(0)) == Some(*root));
    assert(sp.take(1).last() == path@[0]@);
    let mut cur = member(root, &path[0]);
    let mut i: usize = 1;
    while i < path.len()
        invariant
            1 <= i <= path@.len(),
            sp == segs(*path),
            cur == json_at(*root, sp.take(i as int)),
        decreases path@.len() - i,
    {
        assert(sp.take(i + 1).drop_last() =~= sp.take(i as int));
        assert(sp.take(i + 1).last() == path@[i as int]@);
        match cur {
            Some(c) => {
                cur = member(&c, &path[i]);
            },
            None => {},
        }
        i = i + 1;
    }
    assert(sp.take(path@.len() as int) =~= sp);
    cur
}

impl Document {
    /// Reads a complete document for `schema` out of a decoded value: every
    /// leaf of the layout must be present with a value of the kind of its
    /// default, else the first leaf that is not is reported.
    pub fn from_value(schema: &Schema, v: &serde_json::Value) -> (r: Result<Document, ConfigError>)
        requires
            schema.wf(),
        ensures
            r is Ok <==> complete_in(schema@, schema.types(), *v),
            r matches Ok(d) ==> d@ == full_of(schema@, *v),
            r matches Err(e) ==> reports_bad_leaf(e, schema@, schema.types(), *v),
    {
        let mut out: Vec<Field> = Vec::new();
        let mut i: usize = 0;
        while i < schema.fields.len()
            invariant
                schema.wf(),
                i <= schema@.len(),
                out@.len() == i,
                forall|j: int|
                    0 <= j < i ==> segs(#[trigger] out@[j].path) == schema@[j].0 && json_at(*v, schema@[j].0)
                        == Some(out@[j].value) && fits(out@[j].value, schema.types()[j]),
            decreases schema@.len() - i,
        {
            let path = &schema.fields[i].path;
            assert(segs(*path) == schema@[i as int].0);
            assert(schema@[i as int].0.len() > 0);
            match value_at(v, path) {
                Some(x) => {
                    assert(schema.types()[i as int] == schema.fields@[i as int].ty);
                    if !leaf_fits(&x, schema.fields[i].ty) {
                        let e = ConfigError::MismatchedField(copy_path(path));
                        assert(reports_bad_leaf(e, schema@, schema.types(), *v)) by {
                            assert(json_at(*v, schema@[i as int].0) == Some(x));
                        }
                        return Err(e);
                    }
                    out.push(Field { path: copy_path(path), value: x });
                },
                None => {
                    let e = ConfigError::MissingField(copy_path(path));
                    assert(reports_bad_leaf(e, schema@, schema.types(), *v)) by {
                        assert(json_at(*v, schema@[i as int].0) is None);
                    }
                    return Err(e);
                },
            }
            i = i + 1;
        }
        let d = Document { fields: out };
        assert(d@ =~= full_of(schema@, *v));
        assert(complete_in(schema@, schema.types(), *v)) by {
            assert forall|j: int| 0 <= j < schema@.len() implies ((#[trigger] json_at(*v, schema@[j].0)) matches Some(x)
                && fits(x, schema.types()[j])) by {
                assert(segs(out@[j].path) == schema@[j].0);
            }
        }
        Ok(d)
    }

    /// A copy of the value at leaf `path`, if the document has that leaf.
    pub fn get(&self, path: &Vec<String>) -> (r: Option<serde_json::Value>)
        ensures
            r == lookup(self@, segs(*path)),
    {
        find(&self.fields, path)
    }
}

impl Sparse {
    /// Reads a sparse overlay for `schema` out of a decoded value: the leaves
    /// of the layout that `v` holds, in the layout's order; the others are
    /// absent. A leaf held with a value of another kind than its default is refused.
    pub fn from_value(schema: &Schema, v: &serde_json::Value) -> (r: Result<Sparse, ConfigError>)
        requires
            schema.wf(),
        ensures
            r is Ok <==> kinds_fit(schema@, schema.types(), *v),
            r matches Ok(o) ==> o@ == sparse_of(schema@, *v, schema@.len()),
            r matches Err(e) ==> e is MismatchedField && reports_bad_leaf(e, schema@, schema.types(), *v),
    {
        let mut out: Vec<Field> = Vec::new();
        let mut i: usize = 0;
        assert(entries(out@) =~= sparse_of(schema@, *v, 0));
        while i < schema.fields.len()
            invariant
                schema.wf(),
                i <= schema@.len(),
                entries(out@) == sparse_of(schema@, *v, i as nat),
                forall|j: int|
                    0 <= j < i ==> ((#[trigger] json_at(*v, schema@[j].0)) matches Some(x) ==> fits(
                        x,
                        schema.types()[j],
                    )),
            decreases schema@.len() - i,
        {
            let path = &schema.fields[i].path;
            assert(segs(*path) == schema@[i as int].0);
            assert(schema@[i as int].0.len() > 0);
            match value_at(v, path) {
                Some(x) => {
                    assert(schema.types()[i as int] == schema.fields@[i as int].ty);
                    if !leaf_fits(&x, schema.fields[i].ty) {
                        let e = ConfigError::MismatchedField(copy_path(path));
                        assert(reports_bad_leaf(e, schema@, schema.types(), *v)) by {
                            assert(json_at(*v, schema@[i as int].0) == Some(x));
                        }
                        return Err(e);
                    }
                    let ghost before = out@;
                    out.push(Field { path: copy_path(path), value: x });
                    assert(entries(out@) =~= entries(before).push((schema@[i as int].0, x)));
                },
                None => {},
            }
            i = i + 1;
        }
        Ok(Sparse { fields: out })
    }

    /// The value the overlay supplies at leaf `path`, if any.
    pub fn get(&self, path: &Vec<String>) -> (r: Option<serde_json::Value>)
        ensures
            r == lookup(self@, segs(*path)),
    {
        find(&self.fields, path)
    }
}

/// Whether some path of `paths` selects the leaf at `q`.
fn is_covered(paths: &Vec<Vec<String>>, q: &Vec<String>) -> (r: bool)
    ensures
        r == covered(path_list(*paths), segs(*q)),
{
    let ghost ps = path_list(*paths);
    let mut k: usize = 0;
    while k < paths.len()
        invariant
            k <= paths@.len(),
            ps == path_list(*paths),
            forall|j: int| 0 <= j < k ==> !is_prefix(#[trigger] ps[j], segs(*q)),
        decreases paths@.len() - k,
    {
        assert(ps[k as int] == segs(paths@[k as int]));
        if starts_with(q, &paths[k]) {
            assert(is_prefix(ps[k as int], segs(*q)));
            return true;
        }
        k = k + 1;
    }
    false
}

/// Whether `p` names a leaf of `base` or a record that holds one.
fn is_known(base: &Document, p: &Vec<String>) -> (r: bool)
    ensures
        r == known(base@, segs(*p)),
{
    let mut i: usize = 0;
    while i < base.fields.len()
        invariant
            i <= base@.len(),
            forall|j: int| 0 <= j < i ==> !is_prefix(segs(*p), #[trigger] base@[j].0),
        decreases base@.len() - i,
    {
        if starts_with(&base.fields[i].path, p) {
            assert(is_prefix(segs(*p), base@[i as int].0));
            return true;
        }
        i = i + 1;
    }
    false
}

/// Applies a sparse overlay to `base`. A leaf of `base` takes the overlay's
/// value when one of `field_paths` names it or a record around it and the
/// overlay supplies it; every other leaf keeps its value. A path that names no
/// field of `base` is refused.
pub fn merge(base: &Document, overlay: &Sparse, field_paths: &Vec<Vec<String>>) -> (r: Result<Document, ConfigError>)
    ensures
        r is Ok <==> forall|k: int|
            0 <= k < field_paths@.len() ==> known(base@, #[trigger] path_list(*field_paths)[k]),
        r matches Ok(d) ==> d@ == merged(base@, overlay@, path_list(*field_paths)),
        r matches Err(e) ==> e matches ConfigError::UnknownField(p) && exists|k: int|
            0 <= k < field_paths@.len() && segs(p) == path_list(*field_paths)[k] && !known(
                base@,
                path_list(*field_paths)[k],
            ),
{
    let ghost ps = path_list(*field_paths);
    let mut k: usize = 0;
    while k < field_paths.len()
        invariant
            k <= field_paths@.len(),
            ps == path_list(*field_paths),
            forall|j: int| 0 <= j < k ==> known(base@, #[trigger] ps[j]),
        decreases field_paths@.len() - k,
    {
        assert(ps[k as int] == segs(field_paths@[k as int]));
        if !is_known(base, &field_paths[k]) {
            return Err(ConfigError::UnknownField(copy_path(&field_paths[k])));
        }
        k = k + 1;
    }
    let ghost target = merged(base@, overlay@, ps);
    let mut out: Vec<Field> = Vec::new();
    let mut i: usize = 0;
    while i < base.fields.len()
        invariant
            i <= base@.len(),
            ps == path_list(*field_paths),
            target == merged(base@, overlay@, ps),
            out@.len() == i,
            forall|j: int| 0 <= j < i ==> #[trigger] entries(out@)[j] == target[j],
        decreases base@.len() - i,
    {
        let f = &base.fields[i];
        let value = if is_covered(field_paths, &f.path) {
            match overlay.get(&f.path) {
                Some(x) => x,
                None => copy_value(&f.value),
            }
        } else {
            copy_value(&f.value)
        };
        let ghost before = out@;
        out.push(Field { path: copy_path(&f.path), value });
        assert(entries(out@) =~= entries(before).push(target[i as int]));
        i = i + 1;
    }
    let d = Document { fields: out };
    assert(d@ =~= target);
    Ok(d)
}

/// Each leaf of `es` stands in `v` at its path.
pub open spec fn holds_leaves(v: serde_json::Value, es: Seq<(Seq<Seq<char>>, serde_json::Value)>) -> bool {
    forall|i: int| 0 <= i < es.len() ==> #[trigger] json_at(v, es[i].0) == Some(es[i].1)
}

/// Reading a document back out of a tree that holds its leaves gives the
/// document itself: when `doc` has the leaves of the layout, each with a value
/// of its kind, a tree in which every leaf of `doc` stands at its path is
/// complete for the layout, and the document read from it for the layout is `doc`.
pub proof fn lemma_tree_round_trip(schema: Schema, doc: Document, v: serde_json::Value)
    requires
        schema.wf(),
        doc.conforms(&schema),
        leaves_fit(doc@, schema.types()),
        holds_leaves(v, doc@),
    ensures
        complete_in(schema@, schema.types(), v),
        full_of(schema@, v) == doc@,
{
    assert forall|i: int| 0 <= i < schema@.len() implies ((#[trigger] json_at(v, schema@[i].0)) matches Some(x)
        && fits(x, schema.types()[i])) by {
        assert(json_at(v, doc@[i].0) == Some(doc@[i].1));
        assert(fits(doc@[i].1, schema.types()[i]));
    }
    assert forall|i: int| 0 <= i < schema@.len() implies #[trigger] full_of(schema@, v)[i] == doc@[i] by {
        assert(json_at(v, doc@[i].0) == Some(doc@[i].1));
    }
    assert(full_of(schema@, v) =~= doc@);
}

/// Everything in `v` stands on the way to a leaf of `es`, or at or inside one.
pub open spec fn within_leaves(v: serde_json::Value, es: Seq<(Seq<Seq<char>>, serde_json::Value)>) -> bool {
    forall|q: Seq<Seq<char>>|
        #[trigger] json_at(v, q) is Some ==> q.len() == 0 || exists|k: int|
            0 <= k < es.len() && (is_prefix(q, es[k].0) || is_prefix(es[k].0, q))
}

/// Neither of `p` and `q` leads into the other.
pub open spec fn apart(p: Seq<Seq<char>>, q: Seq<Seq<char>>) -> bool {
    !is_prefix(p, q) && !is_prefix(q, p)
}

/// Every leaf path is non-empty and no leaf path leads into another.
pub open spec fn prefix_free(es: Seq<(Seq<Seq<char>>, serde_json::Value)>) -> bool {
    &&& forall|i: int| 0 <= i < es.len() ==> #[trigger] es[i].0.len() > 0
    &&& forall|i: int, j: int|
        0 <= i < es.len() && 0 <= j < es.len() && i != j ==> !is_prefix(#[trigger] es[i].0, #[trigger] es[j].0)
}

/// Every value met on the way from `v` along `q`, before its end, is an object.
pub open spec fn objects_along(v: serde_json::Value, q: Seq<Seq<char>>) -> bool {
    forall|j: int|
        0 <= j < q.len() && (#[trigger] json_at(v, q.take(j))) is Some ==> json_is_object(
            json_at(v, q.take(j))->0,
        )
}

/// Two paths that begin alike are prefix-related when their rests are.
proof fn lemma_prefix_first(p: Seq<Seq<char>>, q: Seq<Seq<char>>)
    requires
        p.len() > 0,
        q.len() > 0,
        p[0] == q[0],
    ensures
        is_prefix(q.drop_first(), p.drop_first()) ==> is_prefix(q, p),
        is_prefix(p.drop_first(), q.drop_first()) ==> is_prefix(p, q),
{
    let pr = p.drop_first();
    let qr = q.drop_first();
    if is_prefix(qr, pr) {
        assert forall|k: int| 0 <= k < q.len() implies p[k] == q[k] by {
            if k > 0 {
                assert(pr.subrange(0, qr.len() as int)[k - 1] == qr[k - 1]);
            }
        }
        assert(p.subrange(0, q.len() as int) =~= q);
    }
    if is_prefix(pr, qr) {
        assert forall|k: int| 0 <= k < p.len() implies q[k] == p[k] by {
            if k > 0 {
                assert(qr.subrange(0, pr.len() as int)[k - 1] == pr[k - 1]);
            }
        }
        assert(q.subrange(0, p.len() as int) =~= p);
    }
}

/// Puts `leaf` into `node` at the path made of the segments of `path` from
/// index `i` on, creating the records on the way that are not there yet;
/// whatever lies apart from that path stays where it was.
fn insert_at(node: &mut serde_json::Value, path: &Vec<String>, i: usize, leaf: serde_json::Value)
    requires
        i < path@.len(),
        json_is_object(*old(node)),
    ensures
        json_is_object(*final(node)),
        json_at(*final(node), segs(*path).subrange(i as int, path@.len() as int)) == Some(leaf),
        objects_along(*final(node), segs(*path).subrange(i as int, path@.len() as int)),
        forall|q: Seq<Seq<char>>|
            #![trigger json_at(*final(node), q)]
            q.len() > 0 && apart(segs(*path).subrange(i as int, path@.len() as int), q) && objects_along(
                *old(node),
                q,
            ) ==> json_at(*final(node), q) == json_at(*old(node), q),
        forall|q: Seq<Seq<char>>|
            #![trigger json_at(*final(node), q)]
            json_at(*final(node), q) is Some ==> is_prefix(q, segs(*path).subrange(i as int, path@.len() as int))
                || is_prefix(segs(*path).subrange(i as int, path@.len() as int), q) || json_at(*old(node), q) is Some,
    decreases path@.len() - i,
{
    let ghost p = segs(*path).subrange(i as int, path@.len() as int);
    let ghost before = *node;
    assert(p[0] == path@[i as int]@);
    if i == path.len() - 1 {
        set_member(node, path[i].clone(), leaf);
        proof {
            lemma_json_at_first(*node, p);
            assert(p.drop_first().len() == 0);
            assert forall|j: int| 0 <= j < p.len() && (#[trigger] json_at(*node, p.take(j))) is Some implies json_is_object(
                json_at(*node, p.take(j))->0,
            ) by {
                assert(p.take(j).len() == 0);
            }
            assert forall|q: Seq<Seq<char>>|
                #![trigger json_at(*node, q)]
                q.len() > 0 && apart(p, q) && objects_along(before, q) implies json_at(*node, q) == json_at(before, q) by {
                lemma_json_at_first(*node, q);
                lemma_json_at_first(before, q);
                if q[0] == p[0] {
                    assert(q.subrange(0, 1) =~= p);
                }
            }
            assert forall|q: Seq<Seq<char>>|
                #![trigger json_at(*node, q)]
                json_at(*node, q) is Some implies is_prefix(q, p) || is_prefix(p, q) || json_at(before, q) is Some by {
                if q.len() == 0 {
                    assert(p.subrange(0, 0) =~= q);
                } else {
                    lemma_json_at_first(*node, q);
                    lemma_json_at_first(before, q);
                    if q[0] == p[0] {
                        assert(q.subrange(0, 1) =~= p);
                    }
                }
            }
        }
    } else {
        let old_child = member(node, &path[i]);
        let mut child = match old_child {
            Some(c) => if c.is_object() {
                c
            } else {
                empty_object()
            },
            None => empty_object(),
        };
        let ghost child0 = child;
        insert_at(&mut child, path, i + 1, leaf);
        let ghost rest = segs(*path).subrange(i + 1, path@.len() as int);
        assert(p.drop_first() =~= rest);
        let ghost child1 = child;
        set_member(node, path[i].clone(), child);
        proof {
            lemma_json_at_first(*node, p);
            assert forall|j: int| 0 <= j < p.len() && (#[trigger] json_at(*node, p.take(j))) is Some implies json_is_object(
                json_at(*node, p.take(j))->0,
            ) by {
                if j > 0 {
                    lemma_json_at_first(*node, p.take(j));
                    assert(p.take(j).drop_first() =~= rest.take(j - 1));
                    assert(p.take(j)[0] == p[0]);
                } else {
                    assert(p.take(j).len() == 0);
                }
            }
            assert forall|q: Seq<Seq<char>>|
                #![trigger json_at(*node, q)]
                q.len() > 0 && apart(p, q) && objects_along(before, q) implies json_at(*node, q) == json_at(before, q) by {
                lemma_json_at_first(*node, q);
                lemma_json_at_first(before, q);
                if q[0] == p[0] {
                    if q.len() == 1 {
                        assert(p.subrange(0, 1) =~= q);
                    }
                    let qr = q.drop_first();
                    assert(qr.len() > 0);
                    assert(apart(rest, qr)) by {
                        if is_prefix(rest, qr) {
                            assert forall|k: int| 0 <= k < p.len() implies q[k] == p[k] by {
                                if k > 0 {
                                    assert(qr.subrange(0, rest.len() as int)[k - 1] == rest[k - 1]);
                                }
                            }
                            assert(q.subrange(0, p.len() as int) =~= p);
                        }
                        if is_prefix(qr, rest) {
                            assert forall|k: int| 0 <= k < q.len() implies p[k] == q[k] by {
                                if k > 0 {
                                    assert(rest.subrange(0, qr.len() as int)[k - 1] == qr[k - 1]);
                                }
                            }
                            assert(p.subrange(0, q.len() as int) =~= q);
                        }
                    }
                    assert(json_at(before, q.take(1)) == old_child) by {
                        lemma_json_at_first(before, q.take(1));
                        assert(q.take(1).drop_first().len() == 0);
                    }
                    match old_child {
                        Some(c) => {
                            assert(json_is_object(c));
                            assert(child0 == c);
                            assert(objects_along(c, qr)) by {
                                assert forall|j: int|
                                    0 <= j < qr.len() && (#[trigger] json_at(c, qr.take(j))) is Some implies json_is_object(
                                    json_at(c, qr.take(j))->0,
                                ) by {
                                    lemma_json_at_first(before, q.take(j + 1));
                                    assert(q.take(j + 1).drop_first() =~= qr.take(j));
                                }
                            }
                        },
                        None => {
                            lemma_json_at_first(child0, qr);
                            assert(objects_along(child0, qr)) by {
                                assert forall|j: int|
                                    0 <= j < qr.len() && (#[trigger] json_at(child0, qr.take(j))) is Some implies json_is_object(
                                    json_at(child0, qr.take(j))->0,
                                ) by {
                                    if j > 0 {
                                        lemma_json_at_first(child0, qr.take(j));
                                    } else {
                                        assert(qr.take(j).len() == 0);
                                    }
                                }
                            }
                        },
                    }
                }
            }
            assert forall|q: Seq<Seq<char>>|
                #![trigger json_at(*node, q)]
                json_at(*node, q) is Some implies is_prefix(q, p) || is_prefix(p, q) || json_at(before, q) is Some by {
                if q.len() == 0 {
                    assert(p.subrange(0, 0) =~= q);
                } else {
                    lemma_json_at_first(*node, q);
                    lemma_json_at_first(before, q);
                    if q[0] == p[0] {
                        let qr = q.drop_first();
                        assert(json_at(child1, qr) is Some);
                        lemma_prefix_first(p, q);
                        if !(is_prefix(qr, rest) || is_prefix(rest, qr)) {
                            assert(json_at(child0, qr) is Some);
                            if qr.len() == 0 {
                                assert(rest.subrange(0, 0) =~= qr);
                            }
                            lemma_json_at_first(child0, qr);
                        }
                    }
                }
            }
        }
    }
}

impl Document {
    /// The document as one JSON object tree. The tree holds nothing but the
    /// records on the way to the leaves and the leaves' values; when the leaf
    /// paths are non-empty and none leads into another, each leaf's value
    /// stands at its path.
    pub fn to_value(&self) -> (r: serde_json::Value)
        ensures
            json_is_object(r),
            within_leaves(r, self@),
            prefix_free(self@) ==> holds_leaves(r, self@),
    {
        let mut root = empty_object();
        let mut i: usize = 0;
        assert(within_leaves(root, self@.take(0))) by {
            assert forall|q: Seq<Seq<char>>| #[trigger] json_at(root, q) is Some implies q.len() == 0 by {
                if q.len() > 0 {
                    lemma_json_at_first(root, q);
                }
            }
        }
        while i < self.fields.len()
            invariant
                i <= self@.len(),
                json_is_object(root),
                within_leaves(root, self@.take(i as int)),
                prefix_free(self@) ==> forall|j: int|
                    0 <= j < i ==> #[trigger] json_at(root, self@[j].0) == Some(self@[j].1) && objects_along(
                        root,
                        self@[j].0,
                    ),
            decreases self@.len() - i,
        {
            let f = &self.fields[i];
            if f.path.len() > 0 {
                let ghost before = root;
                let ghost p = self@[i as int].0;
                assert(segs(f.path).subrange(0, f.path@.len() as int) =~= p);
                insert_at(&mut root, &f.path, 0, copy_value(&f.value));
                proof {
                    let es = self@.take(i + 1);
                    assert forall|q: Seq<Seq<char>>| #[trigger] json_at(root, q) is Some implies q.len() == 0 || exists|
                        k: int,
                    | 0 <= k < es.len() && (is_prefix(q, es[k].0) || is_prefix(es[k].0, q)) by {
                        if is_prefix(q, p) || is_prefix(p, q) {
                            assert(es[i as int].0 == p);
                        } else {
                            assert(json_at(before, q) is Some);
                            if q.len() > 0 {
                                let k = choose|k: int|
                                    0 <= k < i && (is_prefix(q, self@.take(i as int)[k].0) || is_prefix(
                                        self@.take(i as int)[k].0,
                                        q,
                                    ));
                                assert(es[k].0 == self@.take(i as int)[k].0);
                            }
                        }
                    }
                }
                proof {
                    if prefix_free(self@) {
                        assert forall|j: int| 0 <= j < i + 1 implies #[trigger] json_at(root, self@[j].0) == Some(
                            self@[j].1,
                        ) && objects_along(root, self@[j].0) by {
                            if j < i {
                                let q = self@[j].0;
                                assert(apart(p, q));
                                assert(q.len() > 0);
                                assert(json_at(root, q) == json_at(before, q));
                                assert forall|k: int|
                                    0 <= k < q.len() && (#[trigger] json_at(root, q.take(k))) is Some implies json_is_object(
                                    json_at(root, q.take(k))->0,
                                ) by {
                                    let qk = q.take(k);
                                    if k == 0 {
                                        assert(qk.len() == 0);
                                    } else if is_prefix(qk, p) {
                                        assert(qk.len() < p.len()) by {
                                            if qk.len() == p.len() {
                                                assert(q.subrange(0, p.len() as int) =~= p);
                                            }
                                        }
                                        assert(p.take(k) =~= qk);
                                    } else {
                                        assert(apart(p, qk)) by {
                                            if is_prefix(p, qk) {
                                                assert(q.subrange(0, p.len() as int) =~= p);
                                            }
                                        }
                                        assert(objects_along(before, qk)) by {
                                            assert forall|m: int|
                                                0 <= m < qk.len() && (#[trigger] json_at(before, qk.take(m))) is Some implies json_is_object(
                                                json_at(before, qk.take(m))->0,
                                            ) by {
                                                assert(qk.take(m) =~= q.take(m));
                                            }
                                        }
                                        assert(json_at(root, qk) == json_at(before, qk));
                                    }
                                }
                            }
                        }
                    }
                }
            }
            proof {
                let es = self@.take(i + 1);
                assert forall|q: Seq<Seq<char>>| #[trigger] json_at(root, q) is Some implies q.len() == 0 || exists|
                    k: int,
                | 0 <= k < es.len() && (is_prefix(q, es[k].0) || is_prefix(es[k].0, q)) by {
                    if q.len() > 0 && f.path@.len() == 0 {
                        let k = choose|k: int|
                            0 <= k < i && (is_prefix(q, self@.take(i as int)[k].0) || is_prefix(
                                self@.take(i as int)[k].0,
                                q,
                            ));
                        assert(es[k].0 == self@.take(i as int)[k].0);
                    }
                }
            }
            i = i + 1;
        }
        assert(self@.take(self@.len() as int) =~= self@);
        root
    }
}

/// A copy of the value of the first field of `fields` at `q`.
fn find(fields: &Vec<Field>, q: &Vec<String>) -> (r: Option<serde_json::Value>)
    ensures
        r == lookup(entries(fields@), segs(*q)),
{
    let ghost es = entries(fields@);
    assert(es.subrange(0, es.len() as int) =~= es);
    let mut i: usize = 0;
    while i < fields.len()
        invariant
            i <= fields@.len(),
            es == entries(fields@),
            lookup(es, segs(*q)) == lookup(es.subrange(i as int, es.len() as int), segs(*q)),
        decreases fields@.len() - i,
    {
        let ghost rest = es.subrange(i as int, es.len() as int);
        assert(rest.drop_first() =~= es.subrange(i + 1, es.len() as int));
        if starts_with(&fields[i].path, q) && fields[i].path.len() == q.len() {
            assert(segs(fields@[i as int].path) =~= segs(*q));
            return Some(copy_value(&fields[i].value));
        }
        proof {
            if segs(fields@[i as int].path) == segs(*q) {
                assert(segs(fields@[i as int].path).subrange(0, segs(*q).len() as int) =~= segs(
                    fields@[i as int].path,
                ));
            }
        }
        i = i + 1;
    }
    None
}

/// A merge leaves alone every leaf that the field paths do not select: when no
/// path of `field_paths` names the leaf at index `i`, or a record around it,
/// the leaf keeps the value it had in `base`, whatever the overlay supplies.
pub proof fn lemma_merge_keeps_unlisted(base: Document, overlay: Sparse, field_paths: Vec<Vec<String>>, i: int)
    requires
        0 <= i < base@.len(),
        !path_list(field_paths).contains(base@[i].0),
        forall|k: int|
            0 <= k < field_paths@.len() ==> !is_prefix(#[trigger] path_list(field_paths)[k], base@[i].0),
    ensures
        merged(base@, overlay@, path_list(field_paths))[i] == base@[i],
{
}

/// A merge applies every selected leaf that the overlay supplies: when
/// `field_paths` holds the path of the leaf at index `i` and the overlay has
/// the value `v` there, the merged leaf holds `v`.
pub proof fn lemma_merge_applies_listed(
    base: Document,
    overlay: Sparse,
    field_paths: Vec<Vec<String>>,
    i: int,
    v: serde_json::Value,
)
    requires
        0 <= i < base@.len(),
        path_list(field_paths).contains(base@[i].0),
        lookup(overlay@, base@[i].0) == Some(v),
    ensures
        merged(base@, overlay@, path_list(field_paths))[i] == (base@[i].0, v),
{
    let ps = path_list(field_paths);
    let q = base@[i].0;
    let k = choose|k: int| 0 <= k < ps.len() && ps[k] == q;
    assert(q.subrange(0, q.len() as int) =~= q);
    assert(is_prefix(ps[k], q));
}

/// A merge with no field paths changes nothing, whatever the overlay holds.
pub proof fn lemma_merge_empty_is_identity(base: Document, overlay: Sparse)
    ensures
        merged(base@, overlay@, Seq::empty()) == base@,
{
    assert(merged(base@, overlay@, Seq::empty()) =~= base@);
}

} // verus!
