//! The transactor client façade: building find-all calls, decoding their
//! results, resolving the server's lookup map into each returned document,
//! and the parameter shaping of the WebSocket backend's calls.

use vstd::prelude::*;

use crate::Error;
use crate::json::{
    JsonVal, JsonView, arr_views, group_json_views, obj_lookup, obj_views, spec_get, str_eq,
};
use crate::methods::{Method, spec_camel};
use crate::rpc::{Request, RequestView, spec_request_json};

verus! {

/// `fields` with the value of the first entry under `key` replaced by
/// `val`; unchanged where no entry holds `key`.
pub open spec fn spec_set_existing(
    fields: Seq<(Seq<char>, JsonView)>,
    key: Seq<char>,
    val: JsonView,
) -> Seq<(Seq<char>, JsonView)>
    decreases fields.len(),
{
    if fields.len() == 0 {
        fields
    } else if fields[0].0 == key {
        seq![(key, val)] + fields.drop_first()
    } else {
        seq![fields[0]] + spec_set_existing(fields.drop_first(), key, val)
    }
}

/// The pointwise shape of `spec_set_existing`: entries before the first
/// match and after it are kept; the first match's value becomes `val`.
pub proof fn lemma_set_existing_at(
    fields: Seq<(Seq<char>, JsonView)>,
    key: Seq<char>,
    val: JsonView,
    i: int,
)
    requires
        0 <= i < fields.len(),
        fields[i].0 == key,
        forall|j: int| 0 <= j < i ==> #[trigger] fields[j].0 != key,
    ensures
        spec_set_existing(fields, key, val) =~= fields.update(i, (key, val)),
    decreases i,
{
    if i == 0 {
        assert(seq![(key, val)] + fields.drop_first() =~= fields.update(0, (key, val)));
    } else {
        lemma_set_existing_at(fields.drop_first(), key, val, i - 1);
        assert(seq![fields[0]] + fields.drop_first().update(i - 1, (key, val)) =~= fields.update(
            i,
            (key, val),
        ));
    }
}

/// `spec_set_existing` without a match changes nothing.
pub proof fn lemma_set_existing_absent(
    fields: Seq<(Seq<char>, JsonView)>,
    key: Seq<char>,
    val: JsonView,
)
    requires
        forall|j: int| 0 <= j < fields.len() ==> #[trigger] fields[j].0 != key,
    ensures
        spec_set_existing(fields, key, val) =~= fields,
    decreases fields.len(),
{
    if fields.len() != 0 {
        assert(forall|j: int|
            0 <= j < fields.drop_first().len() ==> #[trigger] fields.drop_first()[j] == fields[j
                + 1]);
        lemma_set_existing_absent(fields.drop_first(), key, val);
        assert(seq![fields[0]] + fields.drop_first() =~= fields);
    }
}

/// `fields` with `(key, val)` appended when no entry holds `key`, else
/// unchanged.
pub open spec fn spec_insert_absent(
    fields: Seq<(Seq<char>, JsonView)>,
    key: Seq<char>,
    val: JsonView,
) -> Seq<(Seq<char>, JsonView)> {
    if obj_lookup(fields, key) is Some {
        fields
    } else {
        fields.push((key, val))
    }
}

/// The resolution of one pushed value against the lookup map: a string is
/// the key of the looked-up document (a missing key resolves to null); an
/// array resolves element by element; anything else is kept.
pub open spec fn spec_resolve_scalar(map: Seq<(Seq<char>, JsonView)>, v: JsonView) -> JsonView {
    match v {
        JsonView::Str(s) => match obj_lookup(map, s) {
            Some(x) => x,
            None => JsonView::Null,
        },
        _ => v,
    }
}

/// Element-by-element resolution of an array against the lookup map.
pub open spec fn spec_resolve_list(map: Seq<(Seq<char>, JsonView)>, items: Seq<JsonView>) -> Seq<
    JsonView,
>
    decreases items.len(),
{
    if items.len() == 0 {
        items
    } else {
        seq![spec_resolve_scalar(map, items[0])] + spec_resolve_list(map, items.drop_first())
    }
}

pub proof fn lemma_resolve_list_points(map: Seq<(Seq<char>, JsonView)>, items: Seq<JsonView>)
    ensures
        spec_resolve_list(map, items).len() == items.len(),
        forall|j: int|
            0 <= j < items.len() ==> #[trigger] spec_resolve_list(map, items)[j]
                == spec_resolve_scalar(map, items[j]),
    decreases items.len(),
{
    if items.len() != 0 {
        lemma_resolve_list_points(map, items.drop_first());
        assert(forall|j: int|
            0 <= j < items.drop_first().len() ==> #[trigger] items.drop_first()[j] == items[j
                + 1]);
        assert forall|j: int|
            0 <= j < items.len() implies #[trigger] spec_resolve_list(map, items)[j]
            == spec_resolve_scalar(map, items[j]) by {
            if j > 0 {
                assert(spec_resolve_list(map, items)[j] == spec_resolve_list(
                    map,
                    items.drop_first(),
                )[j - 1]);
            }
        }
    }
}

/// The resolution of one value in a `$lookup` object: a string or an array
/// of strings stands for looked-up documents; the rest is kept.
pub open spec fn spec_resolve_value(map: Seq<(Seq<char>, JsonView)>, v: JsonView) -> JsonView {
    match v {
        JsonView::Arr(items) => JsonView::Arr(spec_resolve_list(map, items)),
        _ => spec_resolve_scalar(map, v),
    }
}

/// The `$lookup` object with every value resolved against the lookup map.
pub open spec fn spec_resolve_fields(
    map: Seq<(Seq<char>, JsonView)>,
    fields: Seq<(Seq<char>, JsonView)>,
) -> Seq<(Seq<char>, JsonView)>
    decreases fields.len(),
{
    if fields.len() == 0 {
        fields
    } else {
        seq![(fields[0].0, spec_resolve_value(map, fields[0].1))] + spec_resolve_fields(
            map,
            fields.drop_first(),
        )
    }
}

pub proof fn lemma_resolve_fields_points(
    map: Seq<(Seq<char>, JsonView)>,
    fields: Seq<(Seq<char>, JsonView)>,
)
    ensures
        spec_resolve_fields(map, fields).len() == fields.len(),
        forall|j: int|
            0 <= j < fields.len() ==> #[trigger] spec_resolve_fields(map, fields)[j] == (
            fields[j].0, spec_resolve_value(map, fields[j].1)),
    decreases fields.len(),
{
    if fields.len() != 0 {
        lemma_resolve_fields_points(map, fields.drop_first());
        assert(forall|j: int|
            0 <= j < fields.drop_first().len() ==> #[trigger] fields.drop_first()[j] == fields[j
                + 1]);
        assert forall|j: int|
            0 <= j < fields.len() implies #[trigger] spec_resolve_fields(map, fields)[j] == (
        fields[j].0, spec_resolve_value(map, fields[j].1)) by {
            if j > 0 {
                assert(spec_resolve_fields(map, fields)[j] == spec_resolve_fields(
                    map,
                    fields.drop_first(),
                )[j - 1]);
            }
        }
    }
}

} // verus!

verus! {

/// The value under `key` in a bare field list, searching from the front.
pub fn fields_get<'a>(fields: &'a Vec<(String, JsonVal)>, key: &str) -> (r: Option<&'a JsonVal>)
    ensures
        match obj_lookup(obj_views(fields@), key@) {
            Some(j) => r matches Some(x) && x@ == j,
            None => r is None,
        },
{
    broadcast use group_json_views;

    let ghost fs = obj_views(fields@);
    let n = fields.len();
    for i in 0..n
        invariant
            n == fields.len(),
            fs == obj_views(fields@),
            fs.len() == n,
            forall|j: int| 0 <= j < n ==> fs[j] == (fields@[j].0@, fields@[j].1@),
            forall|j: int| 0 <= j < i ==> #[trigger] fs[j].0 != key@,
    {
        if str_eq(fields[i].0.as_str(), key) {
            proof {
                crate::json::lemma_obj_lookup_skip_pub(fs, key@, i as int);
                assert(fs.skip(i as int)[0] == fs[i as int]);
            }
            return Some(&fields[i].1);
        }
    }
    proof {
        crate::json::lemma_obj_lookup_skip_pub(fs, key@, n as int);
    }
    None
}

/// Resolves one pushed value against the lookup map.
pub fn resolve_scalar(map: &Vec<(String, JsonVal)>, v: &JsonVal) -> (r: JsonVal)
    ensures
        r@ == spec_resolve_scalar(obj_views(map@), v@),
{
    match v {
        JsonVal::Str(s) => match fields_get(map, s.as_str()) {
            Some(x) => x.clone_val(),
            None => JsonVal::Null,
        },
        _ => v.clone_val(),
    }
}

/// Resolves one value of a `$lookup` object against the lookup map.
pub fn resolve_value(map: &Vec<(String, JsonVal)>, v: &JsonVal) -> (r: JsonVal)
    ensures
        r@ == spec_resolve_value(obj_views(map@), v@),
{
    broadcast use group_json_views;

    match v {
        JsonVal::Arr(items) => {
            let ghost itemsv = arr_views(items@);
            let mut out: Vec<JsonVal> = Vec::new();
            let n = items.len();
            for i in 0..n
                invariant
                    n == items.len(),
                    itemsv == arr_views(items@),
                    itemsv.len() == n,
                    forall|j: int| 0 <= j < n ==> itemsv[j] == items@[j]@,
                    out@.len() == i,
                    forall|j: int|
                        0 <= j < i ==> #[trigger] out@[j]@ == spec_resolve_scalar(
                            obj_views(map@),
                            itemsv[j],
                        ),
            {
                let c = resolve_scalar(map, &items[i]);
                out.push(c);
                proof {
                    assert(out@[i as int]@ == spec_resolve_scalar(obj_views(map@), itemsv[i as int]));
                }
            }
            let r = JsonVal::Arr(out);
            proof {
                lemma_resolve_list_points(obj_views(map@), itemsv);
                crate::json::lemma_arr_views_len(out@);
                assert(r@ is Arr);
                assert forall|j: int|
                    0 <= j < n implies arr_views(out@)[j] == spec_resolve_list(
                    obj_views(map@),
                    itemsv,
                )[j] by {
                    crate::json::lemma_arr_views_index(out@, j);
                }
                assert(arr_views(out@) =~= spec_resolve_list(obj_views(map@), itemsv));
                assert(v@ is Arr && v@->Arr_0 == itemsv);
            }
            r
        },
        _ => resolve_scalar(map, v),
    }
}

/// Resolves every value of a `$lookup` object against the lookup map.
pub fn resolve_lookup_obj(map: &Vec<(String, JsonVal)>, fields: &Vec<(String, JsonVal)>) -> (r:
    Vec<(String, JsonVal)>)
    ensures
        obj_views(r@) == spec_resolve_fields(obj_views(map@), obj_views(fields@)),
{
    broadcast use group_json_views;

    let ghost fs = obj_views(fields@);
    let mut out: Vec<(String, JsonVal)> = Vec::new();
    let n = fields.len();
    for i in 0..n
        invariant
            n == fields.len(),
            fs == obj_views(fields@),
            fs.len() == n,
            forall|j: int| 0 <= j < n ==> fs[j] == (fields@[j].0@, fields@[j].1@),
            out@.len() == i,
            forall|j: int| 0 <= j < i ==> #[trigger] out@[j].0@ == fs[j].0,
            forall|j: int|
                0 <= j < i ==> #[trigger] out@[j].1@ == spec_resolve_value(
                    obj_views(map@),
                    fs[j].1,
                ),
    {
        let k = fields[i].0.clone();
        let val = resolve_value(map, &fields[i].1);
        out.push((k, val));
        proof {
            assert(out@[i as int].0@ == fs[i as int].0);
            assert(out@[i as int].1@ == spec_resolve_value(obj_views(map@), fs[i as int].1));
        }
    }
    proof {
        lemma_resolve_fields_points(obj_views(map@), fs);
        crate::json::lemma_obj_views_len(out@);
        assert forall|j: int|
            0 <= j < n implies obj_views(out@)[j] == spec_resolve_fields(obj_views(map@), fs)[j]
            by {
            crate::json::lemma_obj_views_index(out@, j);
        }
        assert(obj_views(out@) =~= spec_resolve_fields(obj_views(map@), fs));
    }
    out
}

} // verus!

verus! {

/// The index of the first entry under `key`, if any.
pub fn find_key(fields: &Vec<(String, JsonVal)>, key: &str) -> (r: Option<usize>)
    ensures
        match r {
            Some(i) => i < fields@.len() && obj_views(fields@)[i as int].0 == key@ && (forall|
                j: int,
            |
                0 <= j < i ==> #[trigger] obj_views(fields@)[j].0 != key@),
            None => forall|j: int|
                0 <= j < fields@.len() ==> #[trigger] obj_views(fields@)[j].0 != key@,
        },
{
    broadcast use group_json_views;

    let ghost fs = obj_views(fields@);
    let n = fields.len();
    for i in 0..n
        invariant
            n == fields.len(),
            fs == obj_views(fields@),
            fs.len() == n,
            forall|j: int| 0 <= j < n ==> fs[j] == (fields@[j].0@, fields@[j].1@),
            forall|j: int| 0 <= j < i ==> #[trigger] fs[j].0 != key@,
    {
        if str_eq(fields[i].0.as_str(), key) {
            return Some(i);
        }
    }
    None
}

/// Copies of a field list, structurally equal entry by entry.
pub fn clone_fields(fields: &Vec<(String, JsonVal)>) -> (r: Vec<(String, JsonVal)>)
    ensures
        r@.len() == fields@.len(),
        obj_views(r@) == obj_views(fields@),
{
    broadcast use group_json_views;

    let mut out: Vec<(String, JsonVal)> = Vec::new();
    let n = fields.len();
    for i in 0..n
        invariant
            n == fields.len(),
            out@.len() == i,
            forall|j: int| 0 <= j < i ==> #[trigger] out@[j].0@ == fields@[j].0@,
            forall|j: int| 0 <= j < i ==> #[trigger] out@[j].1@ == fields@[j].1@,
    {
        let k = fields[i].0.clone();
        let v = fields[i].1.clone_val();
        out.push((k, v));
    }
    proof {
        crate::json::lemma_obj_views_len(out@);
        crate::json::lemma_obj_views_len(fields@);
        assert forall|j: int|
            0 <= j < n implies obj_views(out@)[j] == obj_views(fields@)[j] by {
            crate::json::lemma_obj_views_index(out@, j);
            crate::json::lemma_obj_views_index(fields@, j);
        }
        assert(obj_views(out@) =~= obj_views(fields@));
    }
    out
}

/// Replaces the value of the first entry under `key`, where one exists.
pub fn set_existing(fields: &Vec<(String, JsonVal)>, key: &str, val: JsonVal) -> (r: Vec<
    (String, JsonVal),
>)
    ensures
        obj_views(r@) == spec_set_existing(obj_views(fields@), key@, val@),
{
    broadcast use group_json_views;

    let ghost fs = obj_views(fields@);
    let ghost vv = val@;
    match find_key(fields, key) {
        None => {
            let out = clone_fields(fields);
            proof {
                lemma_set_existing_absent(fs, key@, vv);
            }
            out
        },
        Some(at) => {
            let mut out: Vec<(String, JsonVal)> = Vec::new();
            let n = fields.len();
            let mut val_slot = Some(val);
            for i in 0..n
                invariant
                    n == fields.len(),
                    fs == obj_views(fields@),
                    fs.len() == n,
                    at < n,
                    forall|j: int| 0 <= j < n ==> fs[j] == (fields@[j].0@, fields@[j].1@),
                    out@.len() == i,
                    i <= at ==> (val_slot matches Some(v) && v@ == vv),
                    forall|j: int|
                        0 <= j < i && j != at ==> #[trigger] out@[j].0@ == fs[j].0,
                    forall|j: int| 0 <= j < i && j != at ==> #[trigger] out@[j].1@ == fs[j].1,
                    i > at ==> out@[at as int].0@ == key@ && out@[at as int].1@ == vv,
            {
                if i == at {
                    let k2 = key.to_owned();
                    let v2 = match val_slot {
                        Some(v) => v,
                        None => JsonVal::Null,
                    };
                    val_slot = None;
                    out.push((k2, v2));
                } else {
                    let k2 = fields[i].0.clone();
                    let v2 = fields[i].1.clone_val();
                    out.push((k2, v2));
                    proof {
                        assert(out@[i as int].0@ == fs[i as int].0);
                        assert(out@[i as int].1@ == fs[i as int].1);
                    }
                }
            }
            proof {
                lemma_set_existing_at(fs, key@, vv, at as int);
                crate::json::lemma_obj_views_len(out@);
                assert forall|j: int|
                    0 <= j < n implies obj_views(out@)[j] == fs.update(at as int, (key@, vv))[j]
                    by {
                    crate::json::lemma_obj_views_index(out@, j);
                }
                assert(obj_views(out@) =~= spec_set_existing(fs, key@, vv));
            }
            out
        },
    }
}

/// Appends `(key, val)` when no entry holds `key`; unchanged otherwise.
pub fn insert_absent(fields: Vec<(String, JsonVal)>, key: &str, val: JsonVal) -> (r: Vec<
    (String, JsonVal),
>)
    ensures
        obj_views(r@) == spec_insert_absent(obj_views(fields@), key@, val@),
{
    broadcast use group_json_views;

    let ghost fs = obj_views(fields@);
    let ghost vv = val@;
    let present = fields_get(&fields, key).is_some();
    let mut out = fields;
    if !present {
        let k2 = key.to_owned();
        out.push((k2, val));
        proof {
            crate::json::lemma_obj_views_len(out@);
            assert forall|j: int|
                0 <= j < out@.len() implies obj_views(out@)[j] == fs.push((key@, vv))[j] by {
                crate::json::lemma_obj_views_index(out@, j);
                if j < fs.len() {
                    crate::json::lemma_obj_views_index(out@.drop_last(), j);
                }
            }
            assert(obj_views(out@) =~= fs.push((key@, vv)));
        }
    }
    out
}

} // verus!

verus! {

/// One merge step: a scalar query field is copied into the entry when the
/// entry does not already hold its key.
pub open spec fn spec_merge_one(
    fields: Seq<(Seq<char>, JsonView)>,
    k: Seq<char>,
    v: JsonView,
) -> Seq<(Seq<char>, JsonView)> {
    if v is Str || v is Bool || v is Int || v is Num {
        spec_insert_absent(fields, k, v)
    } else {
        fields
    }
}

/// The entry's fields after every scalar query field absent from it has
/// been copied in, in query order.
pub open spec fn spec_merge_query(
    fields: Seq<(Seq<char>, JsonView)>,
    query: Seq<(Seq<char>, JsonView)>,
) -> Seq<(Seq<char>, JsonView)>
    decreases query.len(),
{
    if query.len() == 0 {
        fields
    } else {
        spec_merge_query(spec_merge_one(fields, query[0].0, query[0].1), query.drop_first())
    }
}

/// Folding one more query field from the right.
pub proof fn lemma_merge_query_snoc(
    fields: Seq<(Seq<char>, JsonView)>,
    query: Seq<(Seq<char>, JsonView)>,
    k: Seq<char>,
    v: JsonView,
)
    ensures
        spec_merge_query(fields, query.push((k, v))) == spec_merge_one(
            spec_merge_query(fields, query),
            k,
            v,
        ),
    decreases query.len(),
{
    let q2 = query.push((k, v));
    assert(q2.len() == query.len() + 1);
    if query.len() == 0 {
        assert(q2.drop_first() =~= Seq::<(Seq<char>, JsonView)>::empty());
        assert(q2[0] == (k, v));
        assert(spec_merge_query(fields, q2) == spec_merge_query(
            spec_merge_one(fields, k, v),
            q2.drop_first(),
        ));
        assert(spec_merge_query(spec_merge_one(fields, k, v), q2.drop_first())
            == spec_merge_one(fields, k, v));
        assert(spec_merge_query(fields, query) == fields);
    } else {
        let m1 = spec_merge_one(fields, query[0].0, query[0].1);
        assert(q2[0] == query[0]);
        assert(q2.drop_first() =~= query.drop_first().push((k, v)));
        assert(spec_merge_query(fields, q2) == spec_merge_query(m1, q2.drop_first()));
        lemma_merge_query_snoc(m1, query.drop_first(), k, v);
        assert(spec_merge_query(fields, query) == spec_merge_query(m1, query.drop_first()));
    }
}

/// Copies every scalar query field absent from the entry into it.
pub fn merge_query(fields: Vec<(String, JsonVal)>, query: &Vec<(String, JsonVal)>) -> (r: Vec<
    (String, JsonVal),
>)
    ensures
        obj_views(r@) == spec_merge_query(obj_views(fields@), obj_views(query@)),
{
    broadcast use group_json_views;

    let ghost fs0 = obj_views(fields@);
    let ghost qv = obj_views(query@);
    let mut out = fields;
    let n = query.len();
    proof {
        assert(qv.take(0) =~= Seq::<(Seq<char>, JsonView)>::empty());
    }
    for i in 0..n
        invariant
            n == query.len(),
            qv == obj_views(query@),
            qv.len() == n,
            forall|j: int| 0 <= j < n ==> qv[j] == (query@[j].0@, query@[j].1@),
            obj_views(out@) == spec_merge_query(fs0, qv.take(i as int)),
    {
        let scalar = query[i].1.is_scalar();
        if scalar {
            let v = query[i].1.clone_val();
            let k = query[i].0.clone();
            out = insert_absent(out, k.as_str(), v);
        }
        proof {
            lemma_merge_query_snoc(fs0, qv.take(i as int), qv[i as int].0, qv[i as int].1);
            assert(qv.take(i + 1).drop_last() =~= qv.take(i as int));
            assert(qv.take(i + 1) =~= qv.take(i as int).push(qv[i as int]));
        }
    }
    proof {
        assert(qv.take(n as int) =~= qv);
    }
    out
}

/// One returned entry, post-processed: its `$lookup` references resolved
/// against the lookup map, its class tag made explicit, and the scalar
/// query fields it was matched by copied in. `None` where the entry is not
/// an object.
pub open spec fn spec_postprocess_entry(
    map: Option<Seq<(Seq<char>, JsonView)>>,
    class: Seq<char>,
    query: Seq<(Seq<char>, JsonView)>,
    entry: JsonView,
) -> Option<JsonView> {
    if !(entry is Obj) {
        None
    } else {
        let f0 = entry->Obj_0;
        let f1 = match map {
            Some(m) => if spec_get(entry, "$lookup"@) is Some && spec_get(entry, "$lookup"@)->0
                is Obj {
                spec_set_existing(
                    f0,
                    "$lookup"@,
                    JsonView::Obj(spec_resolve_fields(m, spec_get(entry, "$lookup"@)->0->Obj_0)),
                )
            } else {
                f0
            },
            None => f0,
        };
        let f2 = spec_insert_absent(f1, "_class"@, JsonView::Str(class));
        Some(JsonView::Obj(spec_merge_query(f2, query)))
    }
}

/// Post-processes one returned entry.
pub fn postprocess_entry(
    map: &Option<Vec<(String, JsonVal)>>,
    class: &str,
    query: &Vec<(String, JsonVal)>,
    entry: &JsonVal,
) -> (r: Result<JsonVal, Error>)
    ensures
        match spec_postprocess_entry(
            match *map {
                Some(ref m) => Some(obj_views(m@)),
                None => None,
            },
            class@,
            obj_views(query@),
            entry@,
        ) {
            Some(e) => r matches Ok(x) && x@ == e,
            None => r matches Err(e) && e is Decode,
        },
{
    broadcast use group_json_views;

    let f0 = match entry {
        JsonVal::Obj(f) => f,
        _ => {
            return Err(Error::Decode);
        },
    };
    proof {
        assert(entry@ is Obj);
    }
    let f1 = match map {
        Some(m) => {
            let lk = entry.get("$lookup");
            match lk {
                Some(JsonVal::Obj(lf)) => {
                    proof {
                        let lkv = spec_get(entry@, "$lookup"@)->0;
                        assert(lkv is Obj);
                    }
                    let resolved = resolve_lookup_obj(m, lf);
                    set_existing(f0, "$lookup", JsonVal::Obj(resolved))
                },
                _ => clone_fields(f0),
            }
        },
        None => clone_fields(f0),
    };
    let f2 = insert_absent(f1, "_class", crate::json::val_str(class));
    let f3 = merge_query(f2, query);
    let r = JsonVal::Obj(f3);
    proof {
        assert(r@ is Obj);
    }
    Ok(r)
}

/// Every returned entry, post-processed in order; `None` as soon as one
/// entry is not an object.
pub open spec fn spec_postprocess(
    map: Option<Seq<(Seq<char>, JsonView)>>,
    class: Seq<char>,
    query: Seq<(Seq<char>, JsonView)>,
    entries: Seq<JsonView>,
) -> Option<Seq<JsonView>>
    decreases entries.len(),
{
    if entries.len() == 0 {
        Some(Seq::empty())
    } else {
        match (spec_postprocess_entry(map, class, query, entries[0]), spec_postprocess(
            map,
            class,
            query,
            entries.drop_first(),
        )) {
            (Some(e), Some(rest)) => Some(seq![e] + rest),
            _ => None,
        }
    }
}

/// `spec_postprocess` succeeds exactly when every entry is an object, and
/// then post-processes pointwise.
pub proof fn lemma_postprocess_points(
    map: Option<Seq<(Seq<char>, JsonView)>>,
    class: Seq<char>,
    query: Seq<(Seq<char>, JsonView)>,
    entries: Seq<JsonView>,
)
    ensures
        spec_postprocess(map, class, query, entries) is Some <==> (forall|j: int|
            0 <= j < entries.len() ==> spec_postprocess_entry(
                map,
                class,
                query,
                #[trigger] entries[j],
            ) is Some),
        spec_postprocess(map, class, query, entries) matches Some(out) ==> out.len()
            == entries.len() && (forall|j: int|
            0 <= j < entries.len() ==> #[trigger] out[j] == spec_postprocess_entry(
                map,
                class,
                query,
                entries[j],
            )->0),
    decreases entries.len(),
{
    if entries.len() != 0 {
        let rest = entries.drop_first();
        lemma_postprocess_points(map, class, query, rest);
        assert(forall|j: int| 0 <= j < rest.len() ==> #[trigger] rest[j] == entries[j + 1]);
        if spec_postprocess(map, class, query, entries) is Some {
            assert(spec_postprocess_entry(map, class, query, entries[0]) is Some);
            assert(spec_postprocess(map, class, query, rest) is Some);
            assert forall|j: int|
                0 <= j < entries.len() implies spec_postprocess_entry(
                map,
                class,
                query,
                #[trigger] entries[j],
            ) is Some by {
                if j > 0 {
                    assert(spec_postprocess_entry(map, class, query, rest[j - 1]) is Some);
                }
            }
        }
        if forall|j: int|
            0 <= j < entries.len() ==> spec_postprocess_entry(
                map,
                class,
                query,
                #[trigger] entries[j],
            ) is Some {
            assert forall|j: int|
                0 <= j < rest.len() implies spec_postprocess_entry(
                map,
                class,
                query,
                #[trigger] rest[j],
            ) is Some by {
                assert(spec_postprocess_entry(map, class, query, entries[j + 1]) is Some);
            }
            assert(spec_postprocess(map, class, query, rest) is Some);
        }
        if spec_postprocess_entry(map, class, query, entries[0]) is Some && spec_postprocess(
            map,
            class,
            query,
            rest,
        ) is Some {
            let out = spec_postprocess(map, class, query, entries)->0;
            let ro = spec_postprocess(map, class, query, rest)->0;
            assert(out == seq![spec_postprocess_entry(map, class, query, entries[0])->0] + ro);
            assert forall|j: int|
                0 <= j < entries.len() implies #[trigger] out[j] == spec_postprocess_entry(
                map,
                class,
                query,
                entries[j],
            )->0 by {
                if j > 0 {
                    assert(out[j] == ro[j - 1]);
                }
            }
        }
    }
}

/// Post-processes the returned entries, in order.
pub fn postprocess_find(
    entries: &Vec<JsonVal>,
    map: &Option<Vec<(String, JsonVal)>>,
    class: &str,
    query: &Vec<(String, JsonVal)>,
) -> (r: Result<Vec<JsonVal>, Error>)
    ensures
        ({
            let mv = match *map {
                Some(ref m) => Some(obj_views(m@)),
                None => None,
            };
            match spec_postprocess(mv, class@, obj_views(query@), arr_views(entries@)) {
                Some(out) => r matches Ok(v) && arr_views(v@) == out,
                None => r matches Err(e) && e is Decode,
            }
        }),
{
    broadcast use group_json_views;

    let ghost mv: Option<Seq<(Seq<char>, JsonView)>> = match *map {
        Some(ref m) => Some(obj_views(m@)),
        None => None,
    };
    let ghost ev = arr_views(entries@);
    let ghost qv = obj_views(query@);
    proof {
        lemma_postprocess_points(mv, class@, qv, ev);
    }
    let mut out: Vec<JsonVal> = Vec::new();
    let n = entries.len();
    for i in 0..n
        invariant
            n == entries.len(),
            ev == arr_views(entries@),
            ev.len() == n,
            forall|j: int| 0 <= j < n ==> ev[j] == entries@[j]@,
            mv == (match *map {
                Some(ref m) => Some(obj_views(m@)),
                None => None,
            }),
            qv == obj_views(query@),
            out@.len() == i,
            forall|j: int|
                0 <= j < i ==> spec_postprocess_entry(mv, class@, qv, ev[j]) is Some,
            forall|j: int|
                0 <= j < i ==> #[trigger] out@[j]@ == spec_postprocess_entry(
                    mv,
                    class@,
                    qv,
                    ev[j],
                )->0,
    {
        match postprocess_entry(map, class, query, &entries[i]) {
            Ok(e) => {
                out.push(e);
                proof {
                    assert(out@[i as int]@ == spec_postprocess_entry(mv, class@, qv, ev[i as int])->0);
                }
            },
            Err(e) => {
                proof {
                    lemma_postprocess_points(mv, class@, qv, ev);
                }
                return Err(e);
            },
        }
    }
    proof {
        lemma_postprocess_points(mv, class@, qv, ev);
        crate::json::lemma_arr_views_len(out@);
        let full = spec_postprocess(mv, class@, qv, ev)->0;
        assert forall|j: int| 0 <= j < n implies arr_views(out@)[j] == full[j] by {
            crate::json::lemma_arr_views_index(out@, j);
        }
        assert(arr_views(out@) =~= full);
    }
    Ok(out)
}

} // verus!

verus! {

/// The result of a find-all call: the total, the returned documents, and
/// the optional lookup map resolving pushed references.
pub struct FindResult {
    pub total: i64,
    pub value: Vec<JsonVal>,
    pub lookup_map: Option<Vec<(String, JsonVal)>>,
}

/// What a find result decodes from: an object with an integer `total`, an
/// array `value`, and an optional object `lookupMap`.
pub open spec fn spec_find_result_of(v: JsonView) -> Option<(i64, Seq<JsonView>, Option<
    Seq<(Seq<char>, JsonView)>,
>)> {
    match (spec_get(v, "total"@), spec_get(v, "value"@)) {
        (Some(JsonView::Int(total)), Some(JsonView::Arr(items))) => {
            match crate::rpc::spec_opt_field(v, "lookupMap"@) {
                Some(JsonView::Obj(m)) => Some((total, items, Some(m))),
                Some(_) => None,
                None => Some((total, items, None)),
            }
        },
        _ => None,
    }
}

/// Reads a find result out of a JSON value.
pub fn decode_find_result(v: &JsonVal) -> (r: Option<FindResult>)
    ensures
        match spec_find_result_of(v@) {
            Some((total, items, m)) => r matches Some(fr) && fr.total == total && arr_views(
                fr.value@,
            ) == items && (match (fr.lookup_map, m) {
                (Some(fm), Some(mv)) => obj_views(fm@) == mv,
                (None, None) => true,
                _ => false,
            }),
            None => r is None,
        },
{
    let total = match v.get("total") {
        Some(JsonVal::Int(t)) => *t,
        _ => {
            return None;
        },
    };
    let items = match v.get("value") {
        Some(JsonVal::Arr(items)) => crate::rpc::clone_vals(items),
        _ => {
            return None;
        },
    };
    proof {
        let ghost iv = spec_get(v@, "value"@)->0;
        assert(iv is Arr);
    }
    let lookup_map = match crate::rpc::opt_field(v, "lookupMap") {
        Some(JsonVal::Obj(m)) => Some(clone_fields(m)),
        Some(_) => {
            return None;
        },
        None => None,
    };
    Some(FindResult { total, value: items, lookup_map })
}

/// The first returned document, if any: what a find-one call yields.
pub fn find_one_pick(result: FindResult) -> (r: Option<JsonVal>)
    ensures
        arr_views(result.value@).len() == 0 ==> r is None,
        arr_views(result.value@).len() > 0 ==> (r matches Some(x) && x@ == arr_views(
            result.value@,
        )[0]),
{
    broadcast use group_json_views;

    let mut value = result.value;
    if value.len() == 0 {
        None
    } else {
        proof {
            crate::json::lemma_arr_views_index(value@, 0);
        }
        let first = value.remove(0);
        Some(first)
    }
}

/// The positional parameters of a WebSocket `get`: the parameter values in
/// order, names dropped.
pub fn ws_get_params(params: Vec<(String, JsonVal)>) -> (r: Vec<JsonVal>)
    ensures
        arr_views(r@).len() == params@.len(),
        forall|j: int|
            0 <= j < params@.len() ==> #[trigger] arr_views(r@)[j] == obj_views(params@)[j].1,
{
    broadcast use group_json_views;

    let ghost pv = obj_views(params@);
    let mut out: Vec<JsonVal> = Vec::new();
    let n = params.len();
    let mut rest = params;
    let mut i: usize = 0;
    while i < n
        invariant
            n == rest@.len() + i,
            out@.len() == i,
            pv.len() == n,
            forall|j: int| 0 <= j < rest@.len() ==> pv[j + i] == (rest@[j].0@, rest@[j].1@),
            forall|j: int| 0 <= j < i ==> #[trigger] out@[j]@ == pv[j].1,
        decreases n - i,
    {
        let (_, v) = rest.remove(0);
        out.push(v);
        proof {
            assert(out@[i as int]@ == pv[i as int].1);
        }
        i = i + 1;
    }
    proof {
        crate::json::lemma_arr_views_len(out@);
        assert forall|j: int|
            0 <= j < n implies #[trigger] arr_views(out@)[j] == pv[j].1 by {
            crate::json::lemma_arr_views_index(out@, j);
        }
    }
    out
}

/// The positional parameters of a WebSocket `post`: the body must be a
/// JSON object; its field values in order.
pub fn ws_post_params(body: JsonVal) -> (r: Result<Vec<JsonVal>, Error>)
    ensures
        body@ is Obj ==> (r matches Ok(ps) && arr_views(ps@).len() == body@->Obj_0.len() && (
        forall|j: int|
            0 <= j < body@->Obj_0.len() ==> #[trigger] arr_views(ps@)[j] == body@->Obj_0[j].1)),
        !(body@ is Obj) ==> (r matches Err(e) && e is Other),
{
    broadcast use group_json_views;

    let ghost bv = body@;
    match body {
        JsonVal::Obj(fields) => {
            proof {
                assert(bv is Obj);
                assert(bv->Obj_0 == obj_views(fields@));
            }
            Ok(ws_get_params(fields))
        },
        _ => Err(Error::Other("Expected a JSON object")),
    }
}

/// The request payload of a WebSocket call: no identifier (the pump
/// assigns one), the verb spelling, the parameters in order.
pub fn ws_call_payload(m: Method, params: Vec<JsonVal>) -> (r: JsonVal)
    ensures
        r@ == spec_request_json(
            RequestView {
                id: None,
                method: spec_camel(m),
                params: arr_views(params@),
                time: None,
            },
        ),
        r@ is Obj,
        spec_get(r@, "id"@) is None,
{
    broadcast use group_json_views;

    let request = Request { id: None, method: m.camel().to_owned(), params, time: None };
    let r = request.to_json();
    proof {
        reveal_strlit("method");
        reveal_strlit("params");
        reveal_strlit("id");
        assert("method"@.len() == 6);
        assert("params"@.len() == 6);
        assert("id"@.len() == 2);
        assert(r@ is Obj);
        let fs = r@->Obj_0;
        assert(fs.len() == 2);
        assert(fs[0].0 == "method"@);
        assert(fs[1].0 == "params"@);
        assert(fs.drop_first()[0] == fs[1]);
        assert(fs.drop_first().drop_first().len() == 0);
        reveal_with_fuel(obj_lookup, 4);
        assert(obj_lookup(fs, "id"@) is None);
    }
    r
}

} // verus!

verus! {

/// One forward lookup: a reference field resolved to its target class,
/// optionally with a nested lookup on the target.
pub enum LookupValue {
    Simple(String),
    Nested(String, Box<Lookup>),
}

/// One reverse lookup: a class, optionally with the attribute to follow.
pub enum ReverseLookupValue {
    Simple(String),
    WithAttribute(String, String),
}

/// A lookup clause of a find call: reverse lookups under `_id`, forward
/// lookups flattened beside it.
pub struct Lookup {
    pub reverse_lookups: Option<Vec<(String, ReverseLookupValue)>>,
    pub forward_lookups: Vec<(String, LookupValue)>,
}

/// The JSON form of a reverse lookup value.
pub open spec fn spec_rev_value_json(v: ReverseLookupValue) -> JsonView {
    match v {
        ReverseLookupValue::Simple(s) => JsonView::Str(s@),
        ReverseLookupValue::WithAttribute(c, a) => JsonView::Arr(
            seq![JsonView::Str(c@), JsonView::Str(a@)],
        ),
    }
}

/// The JSON fields of a reverse lookup map.
pub open spec fn spec_rev_fields_json(s: Seq<(String, ReverseLookupValue)>) -> Seq<
    (Seq<char>, JsonView),
>
    decreases s,
{
    if s.len() == 0 {
        Seq::empty()
    } else {
        seq![(s[0].0@, spec_rev_value_json(s[0].1))] + spec_rev_fields_json(s.drop_first())
    }
}

/// The JSON form of a forward lookup value.
pub open spec fn spec_lookup_value_json(v: LookupValue) -> JsonView
    decreases v,
{
    match v {
        LookupValue::Simple(s) => JsonView::Str(s@),
        LookupValue::Nested(s, l) => JsonView::Arr(
            seq![JsonView::Str(s@), spec_lookup_json(*l)],
        ),
    }
}

/// The JSON fields of a forward lookup map.
pub open spec fn spec_fwd_fields_json(s: Seq<(String, LookupValue)>) -> Seq<(Seq<char>, JsonView)>
    decreases s,
{
    if s.len() == 0 {
        Seq::empty()
    } else {
        seq![(s[0].0@, spec_lookup_value_json(s[0].1))] + spec_fwd_fields_json(s.drop_first())
    }
}

/// The JSON form of a lookup clause: the reverse map under `_id` when
/// present, then the forward entries.
pub open spec fn spec_lookup_json(l: Lookup) -> JsonView
    decreases l,
{
    JsonView::Obj(
        (match l.reverse_lookups {
            Some(rv) => seq![("_id"@, JsonView::Obj(spec_rev_fields_json(rv@)))],
            None => Seq::empty(),
        }) + spec_fwd_fields_json(l.forward_lookups@),
    )
}

impl ReverseLookupValue {
    /// The JSON form of this reverse lookup value.
    pub fn to_json(&self) -> (r: JsonVal)
        ensures
            r@ == spec_rev_value_json(*self),
    {
        broadcast use group_json_views;

        match self {
            ReverseLookupValue::Simple(s) => JsonVal::Str(s.clone()),
            ReverseLookupValue::WithAttribute(c, a) => {
                let mut items: Vec<JsonVal> = Vec::new();
                items.push(JsonVal::Str(c.clone()));
                items.push(JsonVal::Str(a.clone()));
                let r = JsonVal::Arr(items);
                proof {
                    crate::json::lemma_arr_views_len(items@);
                    crate::json::lemma_arr_views_index(items@, 0);
                    crate::json::lemma_arr_views_index(items@, 1);
                    assert(r@ is Arr);
                    assert(r@->Arr_0 =~= seq![JsonView::Str(c@), JsonView::Str(a@)]);
                }
                r
            },
        }
    }
}

impl LookupValue {
    /// The JSON form of this forward lookup value.
    pub fn to_json(&self) -> (r: JsonVal)
        ensures
            r@ == spec_lookup_value_json(*self),
        decreases self,
    {
        broadcast use group_json_views;

        match self {
            LookupValue::Simple(s) => JsonVal::Str(s.clone()),
            LookupValue::Nested(s, l) => {
                proof {
                    assert(decreases_to!(*self => self->Nested_1));
                }
                let nested = (**l).to_json();
                let mut items: Vec<JsonVal> = Vec::new();
                items.push(JsonVal::Str(s.clone()));
                items.push(nested);
                let r = JsonVal::Arr(items);
                proof {
                    crate::json::lemma_arr_views_len(items@);
                    crate::json::lemma_arr_views_index(items@, 0);
                    crate::json::lemma_arr_views_index(items@, 1);
                    assert(r@ is Arr);
                    assert(r@->Arr_0 =~= seq![JsonView::Str(s@), spec_lookup_json(**l)]);
                }
                r
            },
        }
    }
}

impl Lookup {
    /// The JSON form of this lookup clause.
    pub fn to_json(&self) -> (r: JsonVal)
        ensures
            r@ == spec_lookup_json(*self),
        decreases self,
    {
        broadcast use group_json_views;

        let mut fields: Vec<(String, JsonVal)> = Vec::new();
        match &self.reverse_lookups {
            Some(rv) => {
                let mut rf: Vec<(String, JsonVal)> = Vec::new();
                let n = rv.len();
                for i in 0..n
                    invariant
                        n == rv.len(),
                        rf@.len() == i,
                        forall|j: int| 0 <= j < i ==> #[trigger] rf@[j].0@ == rv@[j].0@,
                        forall|j: int|
                            0 <= j < i ==> #[trigger] rf@[j].1@ == spec_rev_value_json(rv@[j].1),
                {
                    let k = rv[i].0.clone();
                    let val = rv[i].1.to_json();
                    rf.push((k, val));
                }
                proof {
                    lemma_rev_fields_points(rv@);
                    crate::json::lemma_obj_views_len(rf@);
                    assert forall|j: int|
                        0 <= j < n implies obj_views(rf@)[j] == spec_rev_fields_json(rv@)[j] by {
                        crate::json::lemma_obj_views_index(rf@, j);
                    }
                    assert(obj_views(rf@) =~= spec_rev_fields_json(rv@));
                }
                fields.push(("_id".to_owned(), JsonVal::Obj(rf)));
                proof {
                    assert(fields@.len() == 1);
                    assert(fields@[0].0@ == "_id"@);
                    assert(fields@[0].1@ is Obj);
                    assert(fields@[0].1@ == JsonView::Obj(spec_rev_fields_json(rv@)));
                }
            },
            None => {},
        }
        let ghost head = fields@;
        let n = self.forward_lookups.len();
        for i in 0..n
            invariant
                n == self.forward_lookups.len(),
                fields@.len() == head.len() + i,
                fields@.take(head.len() as int) == head,
                forall|j: int|
                    0 <= j < i ==> #[trigger] fields@[head.len() + j].0@
                        == self.forward_lookups@[j].0@,
                forall|j: int|
                    0 <= j < i ==> #[trigger] fields@[head.len() + j].1@ == spec_lookup_value_json(
                        self.forward_lookups@[j].1,
                    ),
        {
            proof {
                assert(decreases_to!(*self => self.forward_lookups));
                assert(decreases_to!(self.forward_lookups => self.forward_lookups@));
                assert(decreases_to!(self.forward_lookups@ => self.forward_lookups@[i as int]));
                assert(decreases_to!(self.forward_lookups@[i as int] => self.forward_lookups@[i as int].1));
            }
            let k = self.forward_lookups[i].0.clone();
            let val = self.forward_lookups[i].1.to_json();
            fields.push((k, val));
            proof {
                assert(fields@.take(head.len() as int) =~= head);
            }
        }
        let r = JsonVal::Obj(fields);
        proof {
            lemma_fwd_fields_points(self.forward_lookups@);
            crate::json::lemma_obj_views_len(fields@);
            let ghost exp = (match self.reverse_lookups {
                Some(ref rv) => seq![("_id"@, JsonView::Obj(spec_rev_fields_json(rv@)))],
                None => Seq::<(Seq<char>, JsonView)>::empty(),
            }) + spec_fwd_fields_json(self.forward_lookups@);
            let ghost hl = head.len() as int;
            let ghost seg0: Seq<(Seq<char>, JsonView)> = match self.reverse_lookups {
                Some(ref rv) => seq![("_id"@, JsonView::Obj(spec_rev_fields_json(rv@)))],
                None => Seq::empty(),
            };
            assert(exp == seg0 + spec_fwd_fields_json(self.forward_lookups@));
            assert(seg0.len() == hl);
            assert forall|j: int|
                0 <= j < fields@.len() implies obj_views(fields@)[j] == exp[j] by {
                crate::json::lemma_obj_views_index(fields@, j);
                if j < hl {
                    assert(fields@[j] == fields@.take(hl)[j]);
                    assert(fields@[j] == head[j]);
                    assert(exp[j] == seg0[j]);
                } else {
                    let jj = j - hl;
                    assert(exp[j] == spec_fwd_fields_json(self.forward_lookups@)[jj]);
                    assert(fields@[head.len() + jj].0@ == self.forward_lookups@[jj].0@);
                    assert(fields@[head.len() + jj].1@ == spec_lookup_value_json(
                        self.forward_lookups@[jj].1,
                    ));
                    assert(head.len() + jj == j);
                }
            }
            assert(r@ is Obj);
            assert(r@->Obj_0 =~= exp);
        }
        r
    }
}

pub proof fn lemma_rev_fields_points(s: Seq<(String, ReverseLookupValue)>)
    ensures
        spec_rev_fields_json(s).len() == s.len(),
        forall|j: int|
            0 <= j < s.len() ==> #[trigger] spec_rev_fields_json(s)[j] == (
            s[j].0@, spec_rev_value_json(s[j].1)),
    decreases s,
{
    if s.len() != 0 {
        lemma_rev_fields_points(s.drop_first());
        assert(forall|j: int|
            0 <= j < s.drop_first().len() ==> #[trigger] s.drop_first()[j] == s[j + 1]);
        assert forall|j: int|
            0 <= j < s.len() implies #[trigger] spec_rev_fields_json(s)[j] == (
        s[j].0@, spec_rev_value_json(s[j].1)) by {
            if j > 0 {
                assert(spec_rev_fields_json(s)[j] == spec_rev_fields_json(s.drop_first())[j - 1]);
            }
        }
    }
}

pub proof fn lemma_fwd_fields_points(s: Seq<(String, LookupValue)>)
    ensures
        spec_fwd_fields_json(s).len() == s.len(),
        forall|j: int|
            0 <= j < s.len() ==> #[trigger] spec_fwd_fields_json(s)[j] == (
            s[j].0@, spec_lookup_value_json(s[j].1)),
    decreases s,
{
    if s.len() != 0 {
        lemma_fwd_fields_points(s.drop_first());
        assert(forall|j: int|
            0 <= j < s.drop_first().len() ==> #[trigger] s.drop_first()[j] == s[j + 1]);
        assert forall|j: int|
            0 <= j < s.len() implies #[trigger] spec_fwd_fields_json(s)[j] == (
        s[j].0@, spec_lookup_value_json(s[j].1)) by {
            if j > 0 {
                assert(spec_fwd_fields_json(s)[j] == spec_fwd_fields_json(s.drop_first())[j - 1]);
            }
        }
    }
}

} // verus!

verus! {

/// The JSON fields of a projection map.
pub open spec fn spec_proj_fields_json(s: Seq<(String, u16)>) -> Seq<(Seq<char>, JsonView)>
    decreases s,
{
    if s.len() == 0 {
        Seq::empty()
    } else {
        seq![(s[0].0@, JsonView::Int(s[0].1 as i64))] + spec_proj_fields_json(s.drop_first())
    }
}

pub proof fn lemma_proj_fields_points(s: Seq<(String, u16)>)
    ensures
        spec_proj_fields_json(s).len() == s.len(),
        forall|j: int|
            0 <= j < s.len() ==> #[trigger] spec_proj_fields_json(s)[j] == (
            s[j].0@, JsonView::Int(s[j].1 as i64)),
    decreases s,
{
    if s.len() != 0 {
        lemma_proj_fields_points(s.drop_first());
        assert(forall|j: int|
            0 <= j < s.drop_first().len() ==> #[trigger] s.drop_first()[j] == s[j + 1]);
        assert forall|j: int|
            0 <= j < s.len() implies #[trigger] spec_proj_fields_json(s)[j] == (
        s[j].0@, JsonView::Int(s[j].1 as i64)) by {
            if j > 0 {
                assert(spec_proj_fields_json(s)[j] == spec_proj_fields_json(s.drop_first())[j
                    - 1]);
            }
        }
    }
}

/// The options of a find call.
pub struct FindOptions {
    pub limit: Option<u32>,
    pub lookup: Option<Lookup>,
    pub projection: Vec<(String, u16)>,
    pub total: bool,
    pub show_archived: bool,
}

/// The JSON form of find options: `limit` and `lookup` only when present,
/// the projection only when non-empty, then `total` and `showArchived`.
pub open spec fn spec_options_json(o: FindOptions) -> JsonView {
    JsonView::Obj(
        (match o.spec_limit() {
            Some(l) => seq![("limit"@, JsonView::Int(l as i64))],
            None => Seq::empty(),
        }) + (match o.lookup {
            Some(lk) => seq![("lookup"@, spec_lookup_json(lk))],
            None => Seq::empty(),
        }) + (if o.spec_projection().len() > 0 {
            seq![("projection"@, JsonView::Obj(spec_proj_fields_json(o.spec_projection())))]
        } else {
            Seq::empty()
        }) + seq![
            ("total"@, JsonView::Bool(o.spec_total())),
            ("showArchived"@, JsonView::Bool(o.spec_show_archived())),
        ],
    )
}

impl FindOptions {
    /// The result-count limit, if one was set.
    pub open spec fn spec_limit(&self) -> Option<u32> {
        self.limit
    }

    /// The projected fields.
    pub open spec fn spec_projection(&self) -> Seq<(String, u16)> {
        self.projection@
    }

    /// Whether the total is requested.
    pub open spec fn spec_total(&self) -> bool {
        self.total
    }

    /// Whether archived documents are included.
    pub open spec fn spec_show_archived(&self) -> bool {
        self.show_archived
    }

    /// A builder with nothing set.
    pub fn builder() -> (r: FindOptionsBuilder)
        ensures
            r.limit is None,
            r.lookup is None,
            r.projection@.len() == 0,
            r.total is None,
            r.show_archived is None,
    {
        FindOptionsBuilder {
            limit: None,
            lookup: None,
            projection: Vec::new(),
            total: None,
            show_archived: None,
        }
    }

    /// These options, with the limit forced to one result.
    pub fn with_limit_one(&self) -> (r: FindOptions)
        ensures
            r.spec_limit() == Some(1u32),
            (r.lookup is Some) == (self.lookup is Some),
            r.lookup matches Some(lk) ==> (self.lookup matches Some(lk2) && spec_lookup_json(lk)
                == spec_lookup_json(lk2)),
            r.spec_projection() == self.spec_projection(),
            r.spec_total() == self.spec_total(),
            r.spec_show_archived() == self.spec_show_archived(),
    {
        FindOptions {
            limit: Some(1),
            lookup: match &self.lookup {
                Some(l) => Some(l.clone_lookup()),
                None => None,
            },
            projection: clone_proj_entries(&self.projection),
            total: self.total,
            show_archived: self.show_archived,
        }
    }

    /// The JSON form of these options.
    pub fn to_json(&self) -> (r: JsonVal)
        ensures
            r@ == spec_options_json(*self),
    {
        broadcast use group_json_views;

        let ghost seg_limit: Seq<(Seq<char>, JsonView)> = match self.limit {
            Some(l) => seq![("limit"@, JsonView::Int(l as i64))],
            None => Seq::empty(),
        };
        let ghost seg_lookup: Seq<(Seq<char>, JsonView)> = match self.lookup {
            Some(ref lk) => seq![("lookup"@, spec_lookup_json(*lk))],
            None => Seq::empty(),
        };
        let ghost seg_proj: Seq<(Seq<char>, JsonView)> = if self.projection@.len() > 0 {
            seq![("projection"@, JsonView::Obj(spec_proj_fields_json(self.projection@)))]
        } else {
            Seq::empty()
        };
        let mut fields: Vec<(String, JsonVal)> = Vec::new();
        match &self.limit {
            Some(l) => {
                fields.push(("limit".to_owned(), JsonVal::Int(*l as i64)));
            },
            None => {},
        }
        proof {
            assert(obj_views(fields@) =~= seg_limit);
        }
        match &self.lookup {
            Some(lk) => {
                fields.push(("lookup".to_owned(), lk.to_json()));
            },
            None => {},
        }
        proof {
            assert(obj_views(fields@) =~= seg_limit + seg_lookup);
        }
        if self.projection.len() > 0 {
            let mut pf: Vec<(String, JsonVal)> = Vec::new();
            let n = self.projection.len();
            for i in 0..n
                invariant
                    n == self.projection.len(),
                    pf@.len() == i,
                    forall|j: int| 0 <= j < i ==> #[trigger] pf@[j].0@ == self.projection@[j].0@,
                    forall|j: int|
                        0 <= j < i ==> #[trigger] pf@[j].1@ == JsonView::Int(
                            self.projection@[j].1 as i64,
                        ),
            {
                let k = self.projection[i].0.clone();
                let v = JsonVal::Int(self.projection[i].1 as i64);
                pf.push((k, v));
            }
            proof {
                lemma_proj_fields_points(self.projection@);
                crate::json::lemma_obj_views_len(pf@);
                assert forall|j: int|
                    0 <= j < n implies obj_views(pf@)[j] == spec_proj_fields_json(
                    self.projection@,
                )[j] by {
                    crate::json::lemma_obj_views_index(pf@, j);
                }
                assert(obj_views(pf@) =~= spec_proj_fields_json(self.projection@));
            }
            fields.push(("projection".to_owned(), JsonVal::Obj(pf)));
            proof {
                assert(fields@.last().1@ is Obj);
                assert(obj_views(fields@) =~= seg_limit + seg_lookup + seg_proj);
            }
        }
        proof {
            assert(obj_views(fields@) =~= seg_limit + seg_lookup + seg_proj);
        }
        fields.push(("total".to_owned(), JsonVal::Bool(self.total)));
        proof {
            assert(obj_views(fields@) =~= seg_limit + seg_lookup + seg_proj + seq![
                ("total"@, JsonView::Bool(self.total)),
            ]);
        }
        fields.push(("showArchived".to_owned(), JsonVal::Bool(self.show_archived)));
        proof {
            assert(obj_views(fields@) =~= seg_limit + seg_lookup + seg_proj + seq![
                ("total"@, JsonView::Bool(self.total)),
            ] + seq![("showArchived"@, JsonView::Bool(self.show_archived))]);
        }
        let r = JsonVal::Obj(fields);
        proof {
            assert(r@ is Obj);
            assert(seg_limit + seg_lookup + seg_proj + seq![
                ("total"@, JsonView::Bool(self.total)),
            ] + seq![("showArchived"@, JsonView::Bool(self.show_archived))] =~= seg_limit
                + seg_lookup + seg_proj + seq![
                ("total"@, JsonView::Bool(self.total)),
                ("showArchived"@, JsonView::Bool(self.show_archived)),
            ]);
        }
        r
    }
}

/// Copies of a projection entry list, equal entry by entry.
fn clone_proj_entries(s: &Vec<(String, u16)>) -> (r: Vec<(String, u16)>)
    ensures
        r@ == s@,
{
    let mut out: Vec<(String, u16)> = Vec::new();
    let n = s.len();
    for i in 0..n
        invariant
            n == s.len(),
            out@.len() == i,
            forall|j: int| 0 <= j < i ==> #[trigger] out@[j] == s@[j],
    {
        let k = s[i].0.clone();
        out.push((k, s[i].1));
        proof {
            assert(out@[i as int] == s@[i as int]);
        }
    }
    proof {
        assert(out@ =~= s@);
    }
    out
}

impl Lookup {
    /// A copy of this lookup clause with the same JSON form.
    pub fn clone_lookup(&self) -> (r: Lookup)
        ensures
            spec_lookup_json(r) == spec_lookup_json(*self),
    {
        Lookup {
            reverse_lookups: match &self.reverse_lookups {
                Some(rv) => Some(clone_rev_entries(rv)),
                None => None,
            },
            forward_lookups: clone_fwd_entries(&self.forward_lookups),
        }
    }
}

/// Copies of a reverse-lookup entry list, equal entry by entry.
fn clone_rev_entries(s: &Vec<(String, ReverseLookupValue)>) -> (r: Vec<
    (String, ReverseLookupValue),
>)
    ensures
        r@ == s@,
{
    let mut out: Vec<(String, ReverseLookupValue)> = Vec::new();
    let n = s.len();
    for i in 0..n
        invariant
            n == s.len(),
            out@.len() == i,
            forall|j: int| 0 <= j < i ==> #[trigger] out@[j] == s@[j],
    {
        let k = s[i].0.clone();
        let v = match &s[i].1 {
            ReverseLookupValue::Simple(x) => ReverseLookupValue::Simple(x.clone()),
            ReverseLookupValue::WithAttribute(a, b) => ReverseLookupValue::WithAttribute(
                a.clone(),
                b.clone(),
            ),
        };
        out.push((k, v));
        proof {
            assert(out@[i as int] == s@[i as int]);
        }
    }
    proof {
        assert(out@ =~= s@);
    }
    out
}

/// Copies of a forward-lookup entry list with the same JSON form.
fn clone_fwd_entries(s: &Vec<(String, LookupValue)>) -> (r: Vec<(String, LookupValue)>)
    ensures
        spec_fwd_fields_json(r@) == spec_fwd_fields_json(s@),
    decreases *s,
{
    let mut out: Vec<(String, LookupValue)> = Vec::new();
    let n = s.len();
    for i in 0..n
        invariant
            n == s.len(),
            out@.len() == i,
            forall|j: int| 0 <= j < i ==> #[trigger] out@[j].0 == s@[j].0,
            forall|j: int|
                0 <= j < i ==> spec_lookup_value_json(#[trigger] out@[j].1)
                    == spec_lookup_value_json(s@[j].1),
    {
        proof {
            assert(decreases_to!(*s => s@));
            assert(decreases_to!(s@ => s@[i as int]));
            assert(decreases_to!(s@[i as int] => s@[i as int].1));
        }
        let k = s[i].0.clone();
        let v = clone_lookup_value(&s[i].1);
        out.push((k, v));
        proof {
            assert(out@[i as int].0 == s@[i as int].0);
            assert(spec_lookup_value_json(out@[i as int].1) == spec_lookup_value_json(
                s@[i as int].1,
            ));
        }
    }
    proof {
        lemma_fwd_fields_points(out@);
        lemma_fwd_fields_points(s@);
        assert(spec_fwd_fields_json(out@) =~= spec_fwd_fields_json(s@));
    }
    out
}

/// A copy of one forward-lookup value with the same JSON form.
fn clone_lookup_value(v: &LookupValue) -> (r: LookupValue)
    ensures
        spec_lookup_value_json(r) == spec_lookup_value_json(*v),
    decreases *v,
{
    match v {
        LookupValue::Simple(s) => LookupValue::Simple(s.clone()),
        LookupValue::Nested(s, l) => {
            proof {
                assert(decreases_to!(*v => v->Nested_1));
            }
            let inner = Lookup {
                reverse_lookups: match &l.reverse_lookups {
                    Some(rv) => Some(clone_rev_entries(rv)),
                    None => None,
                },
                forward_lookups: clone_fwd_entries(&l.forward_lookups),
            };
            LookupValue::Nested(s.clone(), Box::new(inner))
        },
    }
}

} // verus!

verus! {

/// A builder of find options; fields left unset take their defaults.
pub struct FindOptionsBuilder {
    pub limit: Option<u32>,
    pub lookup: Option<Lookup>,
    pub projection: Vec<(String, u16)>,
    pub total: Option<bool>,
    pub show_archived: Option<bool>,
}

impl FindOptionsBuilder {
    /// Sets the result-count limit.
    pub fn limit(self, limit: u32) -> (r: Self)
        ensures
            r.limit == Some(limit),
            r.lookup == self.lookup,
            r.projection@ == self.projection@,
            r.total == self.total,
            r.show_archived == self.show_archived,
    {
        FindOptionsBuilder { limit: Some(limit), ..self }
    }

    /// Sets the lookup clause.
    pub fn lookup(self, lookup: Lookup) -> (r: Self)
        ensures
            r.lookup == Some(lookup),
            r.limit == self.limit,
            r.projection@ == self.projection@,
            r.total == self.total,
            r.show_archived == self.show_archived,
    {
        FindOptionsBuilder { lookup: Some(lookup), ..self }
    }

    /// Requests the total.
    pub fn total(self, total: bool) -> (r: Self)
        ensures
            r.total == Some(total),
            r.limit == self.limit,
            r.lookup == self.lookup,
            r.projection@ == self.projection@,
            r.show_archived == self.show_archived,
    {
        FindOptionsBuilder { total: Some(total), ..self }
    }

    /// Includes archived documents.
    pub fn show_archived(self, show_archived: bool) -> (r: Self)
        ensures
            r.show_archived == Some(show_archived),
            r.limit == self.limit,
            r.lookup == self.lookup,
            r.projection@ == self.projection@,
            r.total == self.total,
    {
        FindOptionsBuilder { show_archived: Some(show_archived), ..self }
    }

    /// Projects one field: adds it to the projection unless it is already
    /// projected.
    pub fn project(self, field: &str) -> (r: Self)
        ensures
            r.limit == self.limit,
            r.lookup == self.lookup,
            r.total == self.total,
            r.show_archived == self.show_archived,
            (exists|j: int|
                0 <= j < self.projection@.len() && (#[trigger] self.projection@[j].0)@ == field@)
                ==> r.projection@ == self.projection@,
            !(exists|j: int|
                0 <= j < self.projection@.len() && (#[trigger] self.projection@[j].0)@ == field@)
                ==> r.projection@.len() == self.projection@.len() + 1 && r.projection@.drop_last()
                == self.projection@ && r.projection@.last().0@ == field@
                && r.projection@.last().1 == 1u16,
    {
        let mut projection = self.projection;
        let n = projection.len();
        let mut found = false;
        for i in 0..n
            invariant
                n == projection.len(),
                found ==> exists|j: int|
                    0 <= j < projection@.len() && (#[trigger] projection@[j].0)@ == field@,
                !found ==> forall|j: int|
                    0 <= j < i ==> (#[trigger] projection@[j].0)@ != field@,
        {
            if str_eq(projection[i].0.as_str(), field) {
                found = true;
            }
        }
        if !found {
            projection.push((field.to_owned(), 1));
            proof {
                assert(projection@.drop_last() =~= self.projection@);
            }
        }
        FindOptionsBuilder { projection, ..self }
    }

    /// The finished options: unset flags default to off.
    pub fn build(self) -> (r: FindOptions)
        ensures
            r.spec_limit() == self.limit,
            r.lookup == self.lookup,
            r.spec_projection() == self.projection@,
            r.spec_total() == (self.total == Some(true)),
            r.spec_show_archived() == (self.show_archived == Some(true)),
    {
        FindOptions {
            limit: self.limit,
            lookup: self.lookup,
            projection: self.projection,
            total: match self.total {
                Some(t) => t,
                None => false,
            },
            show_archived: match self.show_archived {
                Some(s) => s,
                None => false,
            },
        }
    }
}

/// A thin façade over one transport backend; all transport state lives in
/// the backend itself.
pub struct TransactorClient<B> {
    pub backend_impl: B,
}

impl<B> TransactorClient<B> {
    /// A client over `backend`.
    pub fn new(backend: B) -> (r: Self)
        ensures
            r.backend_impl == backend,
    {
        TransactorClient { backend_impl: backend }
    }

    /// The backend this client delegates to.
    pub fn backend(&self) -> (r: &B)
        ensures
            *r == self.backend_impl,
    {
        &self.backend_impl
    }
}

/// The positional parameters of a find-all call: the class, the query
/// (which must be a JSON object), and the options.
pub fn build_find_params(class: &str, query: JsonVal, options: &FindOptions) -> (r: Result<
    Vec<JsonVal>,
    Error,
>)
    ensures
        query@ is Obj ==> (r matches Ok(ps) && arr_views(ps@) == seq![
            JsonView::Str(class@),
            query@,
            spec_options_json(*options),
        ]),
        !(query@ is Obj) ==> (r matches Err(e) && e is Other),
{
    broadcast use group_json_views;

    if !query.is_object() {
        return Err(Error::Other("QueryIsNotObject"));
    }
    let ghost qv = query@;
    let mut ps: Vec<JsonVal> = Vec::new();
    ps.push(crate::json::val_str(class));
    ps.push(query);
    ps.push(options.to_json());
    proof {
        crate::json::lemma_arr_views_len(ps@);
        crate::json::lemma_arr_views_index(ps@, 0);
        crate::json::lemma_arr_views_index(ps@, 1);
        crate::json::lemma_arr_views_index(ps@, 2);
        assert(arr_views(ps@) =~= seq![
            JsonView::Str(class@),
            qv,
            spec_options_json(*options),
        ]);
    }
    Ok(ps)
}

/// The result of a domain request: the domain it ran in and its value.
pub struct DomainResult<T> {
    pub domain: String,
    pub value: T,
}

} // verus!

verus! {

/// A raw transaction that can be matched against a class and a domain.
pub trait TransactionValue {
    fn matches(&self, class: Option<&str>, domain: Option<&str>) -> bool;
}

/// Whether a raw transaction concerns the given class and domain: an
/// absent filter matches everything; a present one must equal the
/// corresponding string field.
pub open spec fn spec_tx_matches(
    v: JsonView,
    class: Option<Seq<char>>,
    domain: Option<Seq<char>>,
) -> bool {
    &&& (match class {
        Some(c) => spec_get(v, "_class"@) == Some(JsonView::Str(c)),
        None => true,
    })
    &&& (match domain {
        Some(d) => spec_get(v, "domain"@) == Some(JsonView::Str(d)),
        None => true,
    })
}

impl TransactionValue for JsonVal {
    /// Matches this transaction against an optional class and domain.
    fn matches(&self, class: Option<&str>, domain: Option<&str>) -> (r: bool)
        ensures
            r == spec_tx_matches(
                self@,
                match class {
                    Some(c) => Some(c@),
                    None => None,
                },
                match domain {
                    Some(d) => Some(d@),
                    None => None,
                },
            ),
    {
        let class_ok = match class {
            Some(c) => match self.get("_class") {
                Some(x) => x.str_is(c),
                None => false,
            },
            None => true,
        };
        let domain_ok = match domain {
            Some(d) => match self.get("domain") {
                Some(x) => x.str_is(d),
                None => false,
            },
            None => true,
        };
        class_ok && domain_ok
    }
}

} // verus!
