//! Path tracking while walking a JSON document.
//!
//! A [`ValuePath`] pairs a borrowed JSON value with the path segments that
//! lead to it from the document root. Rendering is append-only: the root is
//! `$`, an object field renders as `.name`, and an array segment such as
//! `[3]` or `[*]` is appended as it stands.

use vstd::prelude::*;
use vstd::string::StrSliceExecFns;
use vstd::string::StringExecFns;
use vstd::pervasive::unreached;

use indexmap::IndexMap;

use crate::decimal::{dec_str, to_decimal};
use crate::json::{json_type_name, rep_of, JsonRep, JsonValue};

verus! {

/// How one path segment renders: a bracketed segment is appended as it is,
/// any other segment gets a leading dot.
pub open spec fn render_seg(seg: Seq<char>) -> Seq<char> {
    if seg.len() > 0 && seg[0] == '[' {
        seg
    } else {
        seq!['.'] + seg
    }
}

/// The rendered JSON path for a sequence of segments, starting at `$`.
pub open spec fn render_path(segs: Seq<Seq<char>>) -> Seq<char>
    decreases segs.len(),
{
    if segs.len() == 0 {
        seq!['$']
    } else {
        render_path(segs.drop_last()) + render_seg(segs.last())
    }
}

/// Whether an object's field list has a field named `key`.
pub open spec fn obj_contains(fields: Seq<(Seq<char>, JsonRep)>, key: Seq<char>) -> bool {
    exists|j: int| 0 <= j < fields.len() && fields[j].0 == key
}

/// The value of the first field named `key`, or `Null` when there is none.
pub open spec fn obj_lookup(fields: Seq<(Seq<char>, JsonRep)>, key: Seq<char>) -> JsonRep
    decreases fields.len(),
{
    if fields.len() == 0 {
        JsonRep::Null
    } else if fields[0].0 == key {
        fields[0].1
    } else {
        obj_lookup(fields.drop_first(), key)
    }
}

/// A scan that stops at the first field named `key` computes `obj_lookup`.
pub proof fn lemma_obj_lookup_at(fields: Seq<(Seq<char>, JsonRep)>, key: Seq<char>, j: int)
    requires
        0 <= j < fields.len(),
        fields[j].0 == key,
        forall|k: int| 0 <= k < j ==> fields[k].0 != key,
    ensures
        obj_contains(fields, key),
        obj_lookup(fields, key) == fields[j].1,
    decreases j,
{
    if j > 0 {
        lemma_obj_lookup_at(fields.drop_first(), key, j - 1);
    }
}

/// When the key is present, `obj_lookup` returns one of the field values.
pub proof fn lemma_obj_lookup_found(fields: Seq<(Seq<char>, JsonRep)>, key: Seq<char>)
    requires
        obj_contains(fields, key),
    ensures
        exists|j: int|
            0 <= j < fields.len() && obj_lookup(fields, key) == fields[j].1,
    decreases fields.len(),
{
    if fields[0].0 == key {
        assert(obj_lookup(fields, key) == fields[0].1);
    } else {
        let w = choose|w: int| 0 <= w < fields.len() && fields[w].0 == key;
        assert(fields.drop_first()[w - 1].0 == key);
        lemma_obj_lookup_found(fields.drop_first(), key);
        let j = choose|j: int|
            0 <= j < fields.drop_first().len() && obj_lookup(fields.drop_first(), key)
                == fields.drop_first()[j].1;
        assert(obj_lookup(fields, key) == fields[j + 1].1);
    }
}

/// The walk of `v` located at `segs`: every leaf below `v` in depth-first,
/// pre-order document order, each with the segments that lead to it.
///
/// An object recurses into every field, looking the field's key up as
/// indexing would (the first field of that name). An array recurses into its
/// elements under the shared segment `[*]` when `inspect` is set, under
/// per-element segments `[i]` when `explode` is set, and is itself a leaf
/// when neither is.
pub open spec fn walk_rep(v: JsonRep, segs: Seq<Seq<char>>, explode: bool, inspect: bool) -> Seq<
    (Seq<Seq<char>>, JsonRep),
>
    decreases v, 1int, 0int,
    via walk_rep_dec
{
    match v {
        JsonRep::Obj(fields) => walk_fields(fields, 0, segs, explode, inspect),
        JsonRep::Arr(items) => {
            if inspect || explode {
                walk_items(items, 0, segs, explode, inspect)
            } else {
                seq![(segs, v)]
            }
        },
        _ => seq![(segs, v)],
    }
}

#[via_fn]
proof fn walk_rep_dec(v: JsonRep, segs: Seq<Seq<char>>, explode: bool, inspect: bool) {
    match v {
        JsonRep::Obj(fields) => {
            assert(decreases_to!(v => fields));
        }
        JsonRep::Arr(items) => {
            assert(decreases_to!(v => items));
        }
        _ => {}
    }
}

/// The concatenated walks of an object's fields from index `i` on.
pub open spec fn walk_fields(
    fields: Seq<(Seq<char>, JsonRep)>,
    i: int,
    segs: Seq<Seq<char>>,
    explode: bool,
    inspect: bool,
) -> Seq<(Seq<Seq<char>>, JsonRep)>
    decreases fields, 0int, fields.len() - i,
    via walk_fields_dec
{
    if i < 0 || i >= fields.len() {
        Seq::empty()
    } else {
        walk_rep(obj_lookup(fields, fields[i].0), segs.push(fields[i].0), explode, inspect)
            + walk_fields(fields, i + 1, segs, explode, inspect)
    }
}

#[via_fn]
proof fn walk_fields_dec(
    fields: Seq<(Seq<char>, JsonRep)>,
    i: int,
    segs: Seq<Seq<char>>,
    explode: bool,
    inspect: bool,
) {
    if 0 <= i < fields.len() {
        lemma_obj_lookup_found(fields, fields[i].0);
        let j = choose|j: int|
            0 <= j < fields.len() && obj_lookup(fields, fields[i].0) == fields[j].1;
        assert(decreases_to!(fields => fields[j]));
        assert(decreases_to!(fields[j] => fields[j].1));
    }
}

/// The concatenated walks of an array's elements from index `i` on, under
/// `[*]` segments when `inspect` is set, else under `[i]` segments.
pub open spec fn walk_items(
    items: Seq<JsonRep>,
    i: int,
    segs: Seq<Seq<char>>,
    explode: bool,
    inspect: bool,
) -> Seq<(Seq<Seq<char>>, JsonRep)>
    decreases items, 0int, items.len() - i,
    via walk_items_dec
{
    if i < 0 || i >= items.len() {
        Seq::empty()
    } else {
        let seg = if inspect {
            seq!['[', '*', ']']
        } else {
            seq!['['] + dec_str(i as nat) + seq![']']
        };
        walk_rep(items[i], segs.push(seg), explode, inspect) + walk_items(
            items,
            i + 1,
            segs,
            explode,
            inspect,
        )
    }
}

#[via_fn]
proof fn walk_items_dec(
    items: Seq<JsonRep>,
    i: int,
    segs: Seq<Seq<char>>,
    explode: bool,
    inspect: bool,
) {
    if 0 <= i < items.len() {
        assert(decreases_to!(items => items[i]));
    }
}

/// An index into a JSON value that knows how it renders as a path segment.
pub trait JSONPathIndex {
    /// The path segment this index renders as.
    spec fn seg_spec(&self) -> Seq<char>;

    /// Whether this index selects a child of `v`.
    spec fn present_spec(&self, v: JsonRep) -> bool;

    /// The child of `v` that this index selects.
    spec fn lookup_spec(&self, v: JsonRep) -> JsonRep;

    /// Renders this index as a path segment.
    fn jsonpath(&self) -> (r: String)
        ensures
            r@ == self.seg_spec(),
    ;

    /// Selects the child of `v` at this index.
    fn lookup<'a>(&self, v: &'a JsonValue) -> (r: &'a JsonValue)
        requires
            self.present_spec(rep_of(*v)),
        ensures
            rep_of(*r) == self.lookup_spec(rep_of(*v)),
    ;
}

impl JSONPathIndex for usize {
    open spec fn seg_spec(&self) -> Seq<char> {
        seq!['['] + dec_str(*self as nat) + seq![']']
    }

    open spec fn present_spec(&self, v: JsonRep) -> bool {
        match v {
            JsonRep::Arr(items) => (*self as int) < items.len(),
            _ => false,
        }
    }

    open spec fn lookup_spec(&self, v: JsonRep) -> JsonRep {
        match v {
            JsonRep::Arr(items) => {
                if (*self as int) < items.len() {
                    items[*self as int]
                } else {
                    JsonRep::Null
                }
            },
            _ => JsonRep::Null,
        }
    }

    fn jsonpath(&self) -> (r: String) {
        proof {
            reveal_strlit("[");
            reveal_strlit("]");
        }
        let mut s = "[".to_owned();
        let digits = to_decimal(*self);
        s.append(digits.as_str());
        s.append("]");
        assert(s@ =~= self.seg_spec());
        s
    }

    fn lookup<'a>(&self, v: &'a JsonValue) -> (r: &'a JsonValue) {
        match v {
            JsonValue::Arr(items) => &items[*self],
            _ => unreached(),
        }
    }
}

impl JSONPathIndex for String {
    open spec fn seg_spec(&self) -> Seq<char> {
        self@
    }

    open spec fn present_spec(&self, v: JsonRep) -> bool {
        match v {
            JsonRep::Obj(fields) => obj_contains(fields, self@),
            _ => false,
        }
    }

    open spec fn lookup_spec(&self, v: JsonRep) -> JsonRep {
        match v {
            JsonRep::Obj(fields) => obj_lookup(fields, self@),
            _ => JsonRep::Null,
        }
    }

    fn jsonpath(&self) -> (r: String) {
        self.clone()
    }

    fn lookup<'a>(&self, v: &'a JsonValue) -> (r: &'a JsonValue) {
        match v {
            JsonValue::Obj(fields) => {
                let ghost rep_fields = rep_of(*v)->Obj_0;
                let mut j: usize = 0;
                while j < fields.len()
                    invariant
                        j <= fields.len(),
                        self.present_spec(rep_of(*v)),
                        v matches JsonValue::Obj(f) && f == fields,
                        rep_fields == rep_of(*v)->Obj_0,
                        forall|k: int| 0 <= k < j ==> rep_fields[k].0 != self@,
                    decreases fields.len() - j,
                {
                    if fields[j].0 == *self {
                        proof {
                            lemma_obj_lookup_at(rep_fields, self@, j as int);
                        }
                        return &fields[j].1;
                    }
                    j = j + 1;
                }
                proof {
                    let w = choose|w: int| 0 <= w < rep_fields.len() && rep_fields[w].0 == self@;
                    assert(false);
                }
                unreached()
            },
            _ => unreached(),
        }
    }
}

impl<'s> JSONPathIndex for &'s str {
    open spec fn seg_spec(&self) -> Seq<char> {
        (*self)@
    }

    open spec fn present_spec(&self, v: JsonRep) -> bool {
        match v {
            JsonRep::Obj(fields) => obj_contains(fields, (*self)@),
            _ => false,
        }
    }

    open spec fn lookup_spec(&self, v: JsonRep) -> JsonRep {
        match v {
            JsonRep::Obj(fields) => obj_lookup(fields, (*self)@),
            _ => JsonRep::Null,
        }
    }

    fn jsonpath(&self) -> (r: String) {
        (*self).to_owned()
    }

    fn lookup<'a>(&self, v: &'a JsonValue) -> (r: &'a JsonValue) {
        let key: String = (*self).to_owned();
        key.lookup(v)
    }
}

/// A borrowed JSON value together with its location in the document.
#[derive(Debug, PartialEq, Eq)]
pub struct ValuePath<'a> {
    pub value: &'a JsonValue,
    pub path: Vec<String>,
}

impl View for ValuePath<'_> {
    type V = (Seq<Seq<char>>, JsonRep);

    open spec fn view(&self) -> (Seq<Seq<char>>, JsonRep) {
        (self.path.deep_view(), rep_of(*self.value))
    }
}

impl DeepView for ValuePath<'_> {
    type V = (Seq<Seq<char>>, JsonRep);

    open spec fn deep_view(&self) -> (Seq<Seq<char>>, JsonRep) {
        self.view()
    }
}

impl<'a> ValuePath<'a> {
    /// Wraps `value`, located at the given path segments (the root when
    /// `path` is `None`).
    pub fn new(value: &'a JsonValue, path: Option<Vec<String>>) -> (r: ValuePath<'a>)
        ensures
            r.value == value,
            path matches Some(p) ==> r.path == p,
            path is None ==> r.path.deep_view() == Seq::<Seq<char>>::empty(),
    {
        let path = match path {
            Some(p) => p,
            None => Vec::new(),
        };
        assert(path.deep_view().len() == path@.len());
        ValuePath { value, path }
    }

    /// The rendered JSON path of this value's location.
    pub fn jsonpath(&self) -> (r: String)
        ensures
            r@ == render_path(self.path.deep_view()),
    {
        proof {
            reveal_strlit("$");
            reveal_strlit(".");
        }
        let mut out = "$".to_owned();
        assert(out@ =~= render_path(self.path.deep_view().take(0)));
        let n = self.path.len();
        for i in 0..n
            invariant
                n == self.path.len(),
                out@ == render_path(self.path.deep_view().take(i as int)),
        {
            let part = &self.path[i];
            let ghost prefix = self.path.deep_view().take(i as int);
            proof {
                reveal_strlit(".");
                assert(self.path.deep_view().take(i + 1).drop_last() =~= prefix);
                assert(self.path.deep_view().take(i + 1).last() == part@);
            }
            if !part.as_str().is_empty() && part.as_str().get_char(0) == '[' {
                out.append(part.as_str());
            } else {
                out.append(".");
                out.append(part.as_str());
            }
            assert(out@ =~= render_path(self.path.deep_view().take(i + 1)));
        }
        proof {
            assert(self.path.deep_view().take(n as int) =~= self.path.deep_view());
        }
        out
    }

    /// The child of this value at `index`, with the segment appended to the
    /// tracked path.
    pub fn index<I: JSONPathIndex>(&self, index: I) -> (r: ValuePath<'a>)
        requires
            index.present_spec(rep_of(*self.value)),
        ensures
            rep_of(*r.value) == index.lookup_spec(rep_of(*self.value)),
            r.path.deep_view() == self.path.deep_view().push(index.seg_spec()),
    {
        let mut child_path = self.path.clone();
        child_path.push(index.jsonpath());
        let r = ValuePath { value: index.lookup(self.value), path: child_path };
        assert(r.path.deep_view() =~= self.path.deep_view().push(index.seg_spec()));
        r
    }

    /// The child of this value at `index`, while `index_custom` supplies the
    /// path segment that is recorded instead.
    pub fn index_custom<I: JSONPathIndex, J: JSONPathIndex>(&self, index: I, index_custom: J) -> (r:
        ValuePath<'a>)
        requires
            index.present_spec(rep_of(*self.value)),
        ensures
            rep_of(*r.value) == index.lookup_spec(rep_of(*self.value)),
            r.path.deep_view() == self.path.deep_view().push(index_custom.seg_spec()),
    {
        let mut child_path = self.path.clone();
        child_path.push(index_custom.jsonpath());
        let r = ValuePath { value: index.lookup(self.value), path: child_path };
        assert(r.path.deep_view() =~= self.path.deep_view().push(index_custom.seg_spec()));
        r
    }
    /// Every leaf below this value: the walk of the inner value, in
    /// document order, with this value's path segments as the prefix.
    pub fn value_paths(self, explode_array: bool, inspect_arrays: bool) -> (r: Vec<ValuePath<'a>>)
        ensures
            r.deep_view() == walk_rep(
                rep_of(*self.value),
                self.path.deep_view(),
                explode_array,
                inspect_arrays,
            ),
        decreases rep_of(*self.value),
    {
        let ghost rep = rep_of(*self.value);
        let ghost segs = self.path.deep_view();
        let v: &'a JsonValue = self.value;
        let mut paths: Vec<ValuePath<'a>> = Vec::new();
        match v {
            JsonValue::Obj(fields) => {
                let ghost rf = rep->Obj_0;
                let n = fields.len();
                assert(rf.len() == n as int);
                for i in 0..n
                    invariant
                        n == fields.len(),
                        rf.len() == n as int,
                        forall|k: int|
                            0 <= k < n ==> rf[k] == (fields@[k].0@, rep_of(fields@[k].1)),
                        rep == JsonRep::Obj(rf),
                        rep == rep_of(*self.value),
                        segs == self.path.deep_view(),
                        paths.deep_view() + walk_fields(
                            rf,
                            i as int,
                            segs,
                            explode_array,
                            inspect_arrays,
                        ) == walk_fields(rf, 0, segs, explode_array, inspect_arrays),
                {
                    let key = fields[i].0.clone();
                    proof {
                        assert(rf[i as int].0 == key@);
                        assert(obj_contains(rf, key@));
                    }
                    let vp = self.index(key);
                    proof {
                        lemma_obj_lookup_found(rf, key@);
                        let j = choose|j: int|
                            0 <= j < rf.len() && obj_lookup(rf, key@) == rf[j].1;
                        if let JsonRep::Obj(rfm) = rep {
                            assert(decreases_to!(rep => rfm));
                            assert(rfm == rf);
                        }
                        assert(decreases_to!(rf => rf[j]));
                        assert(decreases_to!(rf[j] => rf[j].1));
                    }
                    let mut inner = vp.value_paths(explode_array, inspect_arrays);
                    let ghost pd = paths.deep_view();
                    let ghost innerd = inner.deep_view();
                    paths.append(&mut inner);
                    proof {
                        assert(paths.deep_view() =~= pd + innerd);
                        assert(walk_fields(rf, i as int, segs, explode_array, inspect_arrays)
                            == walk_rep(
                            obj_lookup(rf, rf[i as int].0),
                            segs.push(rf[i as int].0),
                            explode_array,
                            inspect_arrays,
                        ) + walk_fields(rf, i + 1, segs, explode_array, inspect_arrays));
                        assert(paths.deep_view() + walk_fields(
                            rf,
                            i + 1,
                            segs,
                            explode_array,
                            inspect_arrays,
                        ) =~= walk_fields(rf, 0, segs, explode_array, inspect_arrays));
                    }
                }
                assert(walk_fields(rf, n as int, segs, explode_array, inspect_arrays)
                    =~= Seq::<(Seq<Seq<char>>, JsonRep)>::empty());
                assert(paths.deep_view() =~= walk_rep(rep, segs, explode_array, inspect_arrays));
            },
            JsonValue::Arr(items) => {
                let ghost ri = rep->Arr_0;
                if inspect_arrays || explode_array {
                    let n = items.len();
                    assert(ri.len() == n as int);
                    for i in 0..n
                        invariant
                            n == items.len(),
                            ri.len() == n as int,
                            forall|k: int| 0 <= k < n ==> ri[k] == rep_of(items@[k]),
                            rep == JsonRep::Arr(ri),
                            rep == rep_of(*self.value),
                            segs == self.path.deep_view(),
                            inspect_arrays || explode_array,
                            paths.deep_view() + walk_items(
                                ri,
                                i as int,
                                segs,
                                explode_array,
                                inspect_arrays,
                            ) == walk_items(ri, 0, segs, explode_array, inspect_arrays),
                    {
                        let ghost seg = if inspect_arrays {
                            seq!['[', '*', ']']
                        } else {
                            seq!['['] + dec_str(i as nat) + seq![']']
                        };
                        let vp = if inspect_arrays {
                            let vp = self.index_custom(i, "[*]");
                            proof {
                                reveal_strlit("[*]");
                                assert("[*]"@ =~= seq!['[', '*', ']']);
                            }
                            vp
                        } else {
                            self.index(i)
                        };
                        assert(vp.path.deep_view() == segs.push(seg));
                        assert(rep_of(*vp.value) == ri[i as int]);
                        proof {
                            if let JsonRep::Arr(rim) = rep {
                                assert(decreases_to!(rep => rim));
                                assert(rim == ri);
                            }
                            assert(decreases_to!(ri => ri[i as int]));
                        }
                        let mut inner = vp.value_paths(explode_array, inspect_arrays);
                        let ghost pd = paths.deep_view();
                        let ghost innerd = inner.deep_view();
                        paths.append(&mut inner);
                        proof {
                            assert(paths.deep_view() =~= pd + innerd);
                            assert(walk_items(ri, i as int, segs, explode_array, inspect_arrays)
                                == walk_rep(
                                ri[i as int],
                                segs.push(seg),
                                explode_array,
                                inspect_arrays,
                            ) + walk_items(ri, i + 1, segs, explode_array, inspect_arrays));
                            assert(paths.deep_view() + walk_items(
                                ri,
                                i + 1,
                                segs,
                                explode_array,
                                inspect_arrays,
                            ) =~= walk_items(ri, 0, segs, explode_array, inspect_arrays));
                        }
                    }
                    assert(walk_items(ri, n as int, segs, explode_array, inspect_arrays)
                        =~= Seq::<(Seq<Seq<char>>, JsonRep)>::empty());
                    assert(paths.deep_view() =~= walk_rep(
                        rep,
                        segs,
                        explode_array,
                        inspect_arrays,
                    ));
                } else {
                    let ghost before = paths.deep_view();
                    paths.push(self);
                    assert(paths.deep_view() =~= before.push((segs, rep)));
                    assert(paths.deep_view() =~= walk_rep(
                        rep,
                        segs,
                        explode_array,
                        inspect_arrays,
                    ));
                }
            },
            _ => {
                let ghost before = paths.deep_view();
                paths.push(self);
                assert(paths.deep_view() =~= before.push((segs, rep)));
                assert(paths.deep_view() =~= walk_rep(rep, segs, explode_array, inspect_arrays));
            },
        }
        paths
    }
}

/// Listing every leaf of a JSON value with its location.
pub trait ValuePaths {
    /// The walk this value's `value_paths` returns.
    spec fn walk_model(&self, explode: bool, inspect: bool) -> Seq<(Seq<Seq<char>>, JsonRep)>;

    /// Every leaf of this value with its path from the root, in document
    /// order, walking arrays as the two flags direct.
    fn value_paths<'a>(&'a self, explode_array: bool, inspect_arrays: bool) -> (r: Vec<
        ValuePath<'a>,
    >)
        ensures
            r.deep_view() == self.walk_model(explode_array, inspect_arrays),
    ;
}

impl ValuePaths for JsonValue {
    open spec fn walk_model(&self, explode: bool, inspect: bool) -> Seq<
        (Seq<Seq<char>>, JsonRep),
    > {
        walk_rep(rep_of(*self), Seq::empty(), explode, inspect)
    }

    fn value_paths<'a>(&'a self, explode_array: bool, inspect_arrays: bool) -> (r: Vec<
        ValuePath<'a>,
    >) {
        let base = ValuePath::new(self, None);
        let r = base.value_paths(explode_array, inspect_arrays);
        assert(r.deep_view() == self.walk_model(explode_array, inspect_arrays));
        r
    }
}

/// The object-only path listing: arrays and scalars are leaves, object
/// fields extend the rendered path by `.name`.
pub open spec fn basic_paths(v: JsonRep, root: Seq<char>) -> Seq<Seq<char>>
    decreases v, 1int, 0int,
    via basic_paths_dec
{
    match v {
        JsonRep::Obj(fields) => basic_fields(fields, 0, root),
        _ => seq![root],
    }
}

#[via_fn]
proof fn basic_paths_dec(v: JsonRep, root: Seq<char>) {
    if let JsonRep::Obj(fields) = v {
        assert(decreases_to!(v => fields));
    }
}

/// The concatenated object-only listings of an object's fields from `i` on.
pub open spec fn basic_fields(
    fields: Seq<(Seq<char>, JsonRep)>,
    i: int,
    root: Seq<char>,
) -> Seq<Seq<char>>
    decreases fields, 0int, fields.len() - i,
    via basic_fields_dec
{
    if i < 0 || i >= fields.len() {
        Seq::empty()
    } else {
        basic_paths(fields[i].1, root + seq!['.'] + fields[i].0) + basic_fields(
            fields,
            i + 1,
            root,
        )
    }
}

#[via_fn]
proof fn basic_fields_dec(fields: Seq<(Seq<char>, JsonRep)>, i: int, root: Seq<char>) {
    if 0 <= i < fields.len() {
        assert(decreases_to!(fields => fields[i]));
        assert(decreases_to!(fields[i] => fields[i].1));
    }
}

/// Appends the object-only path listing of `json`, rooted at `root`, to
/// `paths`.
fn collect_json_paths(json: &JsonValue, root: String, paths: &mut Vec<String>)
    ensures
        final(paths).deep_view() == old(paths).deep_view() + basic_paths(rep_of(*json), root@),
    decreases rep_of(*json),
{
    let ghost rep = rep_of(*json);
    match json {
        JsonValue::Obj(fields) => {
            let ghost rf = rep->Obj_0;
            let n = fields.len();
            assert(rf.len() == n as int);
            for i in 0..n
                invariant
                    n == fields.len(),
                    rf.len() == n as int,
                    forall|k: int| 0 <= k < n ==> rf[k] == (fields@[k].0@, rep_of(fields@[k].1)),
                    rep == JsonRep::Obj(rf),
                    rep == rep_of(*json),
                    paths.deep_view() + basic_fields(rf, i as int, root@) == old(
                        paths,
                    ).deep_view() + basic_fields(rf, 0, root@),
            {
                proof {
                    reveal_strlit(".");
                }
                let mut obj_root = root.clone();
                obj_root.append(".");
                obj_root.append(fields[i].0.as_str());
                assert(obj_root@ =~= root@ + seq!['.'] + rf[i as int].0);
                proof {
                    if let JsonRep::Obj(rfm) = rep {
                        assert(decreases_to!(rep => rfm));
                        assert(rfm == rf);
                    }
                    assert(decreases_to!(rf => rf[i as int]));
                    assert(decreases_to!(rf[i as int] => rf[i as int].1));
                }
                let ghost pd = paths.deep_view();
                collect_json_paths(&fields[i].1, obj_root, paths);
                proof {
                    assert(basic_fields(rf, i as int, root@) == basic_paths(
                        rf[i as int].1,
                        root@ + seq!['.'] + rf[i as int].0,
                    ) + basic_fields(rf, i + 1, root@));
                    assert(paths.deep_view() + basic_fields(rf, i + 1, root@) =~= old(
                        paths,
                    ).deep_view() + basic_fields(rf, 0, root@));
                }
            }
            assert(basic_fields(rf, n as int, root@) =~= Seq::<Seq<char>>::empty());
            assert(paths.deep_view() =~= old(paths).deep_view() + basic_paths(rep, root@));
        },
        _ => {
            let ghost before = paths.deep_view();
            paths.push(root);
            assert(paths.deep_view() =~= before.push(root@));
            assert(paths.deep_view() =~= old(paths).deep_view() + basic_paths(rep, root@));
        },
    }
}

/// Lists the object-only paths of `json`: every path from the root `$`
/// through object fields to a value that is not an object.
pub fn parse_json_paths(json: &JsonValue) -> (r: Vec<String>)
    ensures
        r.deep_view() == basic_paths(rep_of(*json), seq!['$']),
{
    proof {
        reveal_strlit("$");
    }
    let root = "$".to_owned();
    assert(root@ =~= seq!['$']);
    let mut paths: Vec<String> = Vec::new();
    assert(paths.deep_view() =~= Seq::<Seq<char>>::empty());
    collect_json_paths(json, root, &mut paths);
    assert(paths.deep_view() =~= basic_paths(rep_of(*json), seq!['$']));
    paths
}

/// The object-only path listing, as a method.
pub trait Paths {
    /// The listing `paths` returns.
    spec fn paths_model(&self) -> Seq<Seq<char>>;

    /// Every object-only path of this value, rendered from the root `$`.
    fn paths(&self) -> (r: Vec<String>)
        ensures
            r.deep_view() == self.paths_model(),
    ;
}

impl Paths for JsonValue {
    open spec fn paths_model(&self) -> Seq<Seq<char>> {
        basic_paths(rep_of(*self), seq!['$'])
    }

    fn paths(&self) -> (r: Vec<String>) {
        parse_json_paths(self)
    }
}

/// What a path-to-type table holds: each rendered path's type name.
pub uninterp spec fn types_map_of(m: IndexMap<String, String>) -> Map<Seq<char>, Seq<char>>;

/// The insertion order of a path-to-type table's keys.
pub uninterp spec fn types_keys_of(m: IndexMap<String, String>) -> Seq<Seq<char>>;

/// A path-to-type table with nothing in it.
pub open spec fn empty_types() -> Map<Seq<char>, Seq<char>> {
    Map::empty()
}

/// Relies on indexmap::IndexMap::new: the new table is empty.
#[verifier::external_body]
fn types_new() -> (r: IndexMap<String, String>)
    ensures
        types_map_of(r) == empty_types(),
        types_keys_of(r) == Seq::<Seq<char>>::empty(),
{
    IndexMap::new()
}

/// Relies on indexmap::IndexMap::insert: an existing key keeps its place
/// in the order and gets the new value; a new key is appended last.
#[verifier::external_body]
fn types_insert(m: &mut IndexMap<String, String>, key: String, value: String)
    ensures
        types_map_of(*final(m)) == types_map_of(*old(m)).insert(key@, value@),
        types_keys_of(*final(m)) == (if types_map_of(*old(m)).dom().contains(key@) {
            types_keys_of(*old(m))
        } else {
            types_keys_of(*old(m)).push(key@)
        }),
{
    m.insert(key, value);
}

/// The path-to-type table of a walk: each leaf's rendered path mapped to
/// its type name, the last occurrence of a path winning, keys in first-
/// occurrence order.
pub open spec fn paths_types_maps(w: Seq<(Seq<Seq<char>>, JsonRep)>) -> (Map<
    Seq<char>,
    Seq<char>,
>, Seq<Seq<char>>)
    decreases w.len(),
{
    if w.len() == 0 {
        (Map::empty(), Seq::empty())
    } else {
        let prev = paths_types_maps(w.drop_last());
        let p = render_path(w.last().0);
        let t = json_type_name(w.last().1);
        (
            prev.0.insert(p, t),
            if prev.0.dom().contains(p) {
                prev.1
            } else {
                prev.1.push(p)
            },
        )
    }
}

/// Listing the rendered paths of a JSON value, and mapping each to the
/// type found there.
pub trait JSONPaths {
    /// The rendered path of each walked leaf, in walk order.
    spec fn json_paths_model(&self, explode: bool, inspect: bool) -> Seq<Seq<char>>;

    /// The path-to-type table of the walk.
    spec fn json_paths_types_model(&self, explode: bool, inspect: bool) -> (Map<
        Seq<char>,
        Seq<char>,
    >, Seq<Seq<char>>);

    /// Every walked leaf's rendered path, in walk order.
    fn json_paths(&self, explode_array: bool, inspect_arrays: bool) -> (r: Vec<String>)
        ensures
            r.deep_view() == self.json_paths_model(explode_array, inspect_arrays),
    ;

    /// Every walked leaf's rendered path mapped to the type found there;
    /// when a path occurs more than once the last type wins.
    fn json_paths_types(&self, explode_array: bool, inspect_arrays: bool) -> (r: IndexMap<
        String,
        String,
    >)
        ensures
            types_map_of(r) == self.json_paths_types_model(explode_array, inspect_arrays).0,
            types_keys_of(r) == self.json_paths_types_model(explode_array, inspect_arrays).1,
    ;
}

impl JSONPaths for JsonValue {
    open spec fn json_paths_model(&self, explode: bool, inspect: bool) -> Seq<Seq<char>> {
        walk_rep(rep_of(*self), Seq::empty(), explode, inspect).map_values(
            |vp: (Seq<Seq<char>>, JsonRep)| render_path(vp.0),
        )
    }

    open spec fn json_paths_types_model(&self, explode: bool, inspect: bool) -> (Map<
        Seq<char>,
        Seq<char>,
    >, Seq<Seq<char>>) {
        paths_types_maps(walk_rep(rep_of(*self), Seq::empty(), explode, inspect))
    }

    fn json_paths(&self, explode_array: bool, inspect_arrays: bool) -> (r: Vec<String>) {
        let ghost w = walk_rep(rep_of(*self), Seq::empty(), explode_array, inspect_arrays);
        let ghost model = self.json_paths_model(explode_array, inspect_arrays);
        let vps = self.value_paths(explode_array, inspect_arrays);
        let mut out: Vec<String> = Vec::new();
        let n = vps.len();
        proof {
            assert(out.deep_view() =~= model.take(0));
        }
        for i in 0..n
            invariant
                n == vps.len(),
                vps.deep_view() == w,
                model == w.map_values(|vp: (Seq<Seq<char>>, JsonRep)| render_path(vp.0)),
                out.deep_view() == model.take(i as int),
        {
            let path = vps[i].jsonpath();
            let ghost before = out.deep_view();
            proof {
                assert(w[i as int] == vps@[i as int].deep_view());
                assert(path@ == render_path(w[i as int].0));
                assert(model[i as int] == render_path(w[i as int].0));
            }
            out.push(path);
            proof {
                assert(out.deep_view() =~= before.push(model[i as int]));
                assert(out.deep_view() =~= model.take(i + 1));
            }
        }
        proof {
            assert(model.take(n as int) =~= model);
        }
        out
    }

    fn json_paths_types(&self, explode_array: bool, inspect_arrays: bool) -> (r: IndexMap<
        String,
        String,
    >) {
        let ghost w = walk_rep(rep_of(*self), Seq::empty(), explode_array, inspect_arrays);
        let vps = self.value_paths(explode_array, inspect_arrays);
        let mut out = types_new();
        let n = vps.len();
        proof {
            assert(w.take(0) =~= Seq::<(Seq<Seq<char>>, JsonRep)>::empty());
        }
        for i in 0..n
            invariant
                n == vps.len(),
                vps.deep_view() == w,
                types_map_of(out) == paths_types_maps(w.take(i as int)).0,
                types_keys_of(out) == paths_types_maps(w.take(i as int)).1,
        {
            let path = vps[i].jsonpath();
            let type_ = vps[i].value.value_type();
            proof {
                assert(w[i as int] == vps@[i as int].deep_view());
                assert(path@ == render_path(w[i as int].0));
                assert(type_@ == json_type_name(w[i as int].1));
                assert(w.take(i + 1).drop_last() =~= w.take(i as int));
                assert(w.take(i + 1).last() == w[i as int]);
            }
            types_insert(&mut out, path, type_);
        }
        proof {
            assert(w.take(n as int) =~= w);
        }
        out
    }
}

} // verus!
