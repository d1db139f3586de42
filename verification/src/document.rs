//! Document transactions: the create and remove transaction shapes, their
//! wire form, and the generation of object identifiers.

use vstd::prelude::*;
use vstd::string::StringExecFns;

use crate::json::{JsonVal, JsonView, group_json_views, obj_views};

verus! {

/// The class tag of a create transaction.
pub open spec fn tx_create_class() -> Seq<char> {
    "core:class:TxCreateDoc"@
}

/// The class tag of a remove transaction.
pub open spec fn tx_remove_class() -> Seq<char> {
    "core:class:TxRemoveDoc"@
}

/// The space every transaction document lives in.
pub open spec fn tx_space() -> Seq<char> {
    "core:space:Tx"@
}

/// The uppercase hexadecimal digits of `n`, most significant first.
pub open spec fn spec_hex(n: u64) -> Seq<char>
    decreases n,
{
    if n < 16 {
        seq![hex_digit(n)]
    } else {
        spec_hex(n / 16) + seq![hex_digit(n % 16)]
    }
}

/// One uppercase hexadecimal digit.
pub open spec fn hex_digit(d: u64) -> char {
    if d == 0 {
        '0'
    } else if d == 1 {
        '1'
    } else if d == 2 {
        '2'
    } else if d == 3 {
        '3'
    } else if d == 4 {
        '4'
    } else if d == 5 {
        '5'
    } else if d == 6 {
        '6'
    } else if d == 7 {
        '7'
    } else if d == 8 {
        '8'
    } else if d == 9 {
        '9'
    } else if d == 10 {
        'A'
    } else if d == 11 {
        'B'
    } else if d == 12 {
        'C'
    } else if d == 13 {
        'D'
    } else if d == 14 {
        'E'
    } else {
        'F'
    }
}

/// The decimal digits of `n`, most significant first.
pub open spec fn spec_dec(n: u64) -> Seq<char>
    decreases n,
{
    if n < 10 {
        seq![hex_digit(n)]
    } else {
        spec_dec(n / 10) + seq![hex_digit(n % 10)]
    }
}

/// Formats `n` in uppercase hexadecimal.
pub fn to_hex_upper(n: u64) -> (r: String)
    ensures
        r@ == spec_hex(n),
    decreases n,
{
    let d = n % 16;
    let c: &'static str = hex_digit_str(d);
    if n < 16 {
        c.to_owned()
    } else {
        let mut s = to_hex_upper(n / 16);
        s.append(c);
        s
    }
}

/// Formats `n` in decimal.
pub fn to_dec(n: u64) -> (r: String)
    ensures
        r@ == spec_dec(n),
    decreases n,
{
    let d = n % 10;
    let c: &'static str = hex_digit_str(d);
    if n < 10 {
        c.to_owned()
    } else {
        let mut s = to_dec(n / 10);
        s.append(c);
        s
    }
}

/// The one-character string of one digit.
fn hex_digit_str(d: u64) -> (r: &'static str)
    requires
        d < 16,
    ensures
        r@ == seq![hex_digit(d)],
{
    proof {
        reveal_strlit("0");
        reveal_strlit("1");
        reveal_strlit("2");
        reveal_strlit("3");
        reveal_strlit("4");
        reveal_strlit("5");
        reveal_strlit("6");
        reveal_strlit("7");
        reveal_strlit("8");
        reveal_strlit("9");
        reveal_strlit("A");
        reveal_strlit("B");
        reveal_strlit("C");
        reveal_strlit("D");
        reveal_strlit("E");
        reveal_strlit("F");
    }
    if d == 0 {
        "0"
    } else if d == 1 {
        "1"
    } else if d == 2 {
        "2"
    } else if d == 3 {
        "3"
    } else if d == 4 {
        "4"
    } else if d == 5 {
        "5"
    } else if d == 6 {
        "6"
    } else if d == 7 {
        "7"
    } else if d == 8 {
        "8"
    } else if d == 9 {
        "9"
    } else if d == 10 {
        "A"
    } else if d == 11 {
        "B"
    } else if d == 12 {
        "C"
    } else if d == 13 {
        "D"
    } else if d == 14 {
        "E"
    } else {
        "F"
    }
}

/// `s` left-padded with spaces to at least `width` characters.
pub open spec fn spec_pad_left(s: Seq<char>, width: int) -> Seq<char>
    decreases width - s.len(),
{
    if s.len() >= width {
        s
    } else {
        spec_pad_left(seq![' '] + s, width)
    }
}

/// Left-pads with spaces to at least `width` characters.
pub fn pad_left(s: String, width: usize) -> (r: String)
    ensures
        r@ == spec_pad_left(s@, width as int),
    decreases width - s@.len(),
{
    if s.unicode_len() >= width {
        proof {
            assert(s@.len() >= width);
        }
        s
    } else {
        let mut p = " ".to_owned();
        proof {
            reveal_strlit(" ");
        }
        p.append(s.as_str());
        proof {
            assert(p@ =~= seq![' '] + s@);
        }
        pad_left(p, width)
    }
}

/// Relies on `rand::random`: a fresh random value; nothing is promised of
/// which one.
#[verifier::external_body]
pub fn random_u32() -> u32 {
    rand::random::<u32>()
}

/// Relies on `chrono::Utc::now`: the clock's current reading in seconds
/// since the epoch; nothing is promised of its value.
#[verifier::external_body]
pub fn now_epoch_seconds() -> i64 {
    chrono::Utc::now().timestamp()
}

/// A generator of object identifiers: a per-process random tag and a
/// counter, combined with a clock reading. Constructed explicitly rather
/// than held in hidden process-wide state.
pub struct IdGenerator {
    /// The random tag shared by this generator's identifiers.
    pub random_tag: String,
    /// How many identifiers this generator has handed out.
    pub count: u64,
}

/// The random tag: ten uppercase hexadecimal characters derived from two
/// random draws, the first padded to six, the second to four.
pub open spec fn spec_random_tag(r1: u32, r2: u32) -> Seq<char> {
    spec_pad_left(spec_hex((((r1 as u64) * 0x1000000) % 0x100000000) as u64), 6) + spec_pad_left(
        spec_hex((((r2 as u64) * 0x10000) % 0x100000000) as u64),
        4,
    )
}

/// One object identifier: the clock reading (divided by 1000, floored at
/// zero) in hexadecimal padded to eight, the random tag, and the counter in
/// decimal.
pub open spec fn spec_object_id(ts: i64, tag: Seq<char>, count: u64) -> Seq<char> {
    spec_pad_left(
        spec_hex(
            (if ts / 1000 < 0 {
                0
            } else {
                ts / 1000
            }) as u64,
        ),
        8,
    ) + tag + spec_dec(count)
}

impl IdGenerator {
    /// A fresh generator seeded from two random draws, handed in explicitly
    /// rather than drawn from hidden process-wide state.
    pub fn new(r1: u32, r2: u32) -> (r: IdGenerator)
        ensures
            r.count == 0,
            r.random_tag@ == spec_random_tag(r1, r2),
    {
        let p1 = pad_left(to_hex_upper(((r1 as u64) * 0x1000000) % 0x100000000), 6);
        let mut tag = p1;
        let p2 = pad_left(to_hex_upper(((r2 as u64) * 0x10000) % 0x100000000), 4);
        tag.append(p2.as_str());
        IdGenerator { random_tag: tag, count: 0 }
    }

    /// The next object identifier, built from the clock reading `ts`.
    pub fn next_id(&mut self, ts: i64) -> (r: String)
        requires
            old(self).count < u64::MAX,
        ensures
            final(self).count == old(self).count + 1,
            final(self).random_tag@ == old(self).random_tag@,
            r@ == spec_object_id(ts, old(self).random_tag@, old(self).count),
    {
        let secs = ts / 1000;
        let secs_u: u64 = if secs < 0 {
            0
        } else {
            secs as u64
        };
        let mut s = pad_left(to_hex_upper(secs_u), 8);
        s.append(self.random_tag.as_str());
        let d = to_dec(self.count);
        s.append(d.as_str());
        self.count = self.count + 1;
        s
    }
}

} // verus!

verus! {

/// Whether `key` is one of the document-envelope keys that attribute
/// payloads may not override.
pub open spec fn is_reserved_key(key: Seq<char>) -> bool {
    ||| key == "_id"@
    ||| key == "space"@
    ||| key == "modifiedOn"@
    ||| key == "modifiedBy"@
    ||| key == "createdBy"@
    ||| key == "createdOn"@
    ||| key == "_class"@
}

/// The attribute fields with every reserved key filtered out.
pub open spec fn spec_data_filter(fields: Seq<(Seq<char>, JsonView)>) -> Seq<
    (Seq<char>, JsonView),
>
    decreases fields.len(),
{
    if fields.len() == 0 {
        fields
    } else if is_reserved_key(fields[0].0) {
        spec_data_filter(fields.drop_first())
    } else {
        seq![fields[0]] + spec_data_filter(fields.drop_first())
    }
}

/// Whether `key` is a reserved document-envelope key.
pub fn reserved_key(key: &str) -> (r: bool)
    ensures
        r == is_reserved_key(key@),
{
    crate::json::str_eq(key, "_id") || crate::json::str_eq(key, "space") || crate::json::str_eq(
        key,
        "modifiedOn",
    ) || crate::json::str_eq(key, "modifiedBy") || crate::json::str_eq(key, "createdBy")
        || crate::json::str_eq(key, "createdOn") || crate::json::str_eq(key, "_class")
}

/// A payload wrapper whose wire form drops attribute keys that collide with
/// the document envelope.
pub struct Data<T> {
    pub value: T,
}

impl<T> Data<T> {
    /// Wraps a payload.
    pub fn new(value: T) -> (r: Self)
        ensures
            r.value == value,
    {
        Data { value }
    }
}

impl Data<JsonVal> {
    /// The wire form of the wrapped payload: its fields with reserved keys
    /// filtered out.
    pub fn to_json(&self) -> (r: JsonVal)
        requires
            self.value@ is Obj,
        ensures
            r@ == JsonView::Obj(spec_data_filter(self.value@->Obj_0)),
    {
        broadcast use group_json_views;

        let fields = match &self.value {
            JsonVal::Obj(f) => f,
            _ => {
                return JsonVal::Null;
            },
        };
        proof {
            assert(self.value@ is Obj);
        }
        let filtered = data_filter_fields(fields);
        let r = JsonVal::Obj(filtered);
        proof {
            assert(r@ is Obj);
        }
        r
    }
}

/// Filters the reserved keys out of a field list.
pub fn data_filter_fields(fields: &Vec<(String, JsonVal)>) -> (r: Vec<(String, JsonVal)>)
    ensures
        obj_views(r@) == spec_data_filter(obj_views(fields@)),
{
    broadcast use group_json_views;

    let ghost fs = obj_views(fields@);
    let mut out: Vec<(String, JsonVal)> = Vec::new();
    let n = fields.len();
    proof {
        assert(fs.take(0) =~= Seq::<(Seq<char>, JsonView)>::empty());
    }
    for i in 0..n
        invariant
            n == fields.len(),
            fs == obj_views(fields@),
            fs.len() == n,
            forall|j: int| 0 <= j < n ==> fs[j] == (fields@[j].0@, fields@[j].1@),
            obj_views(out@) == spec_data_filter(fs.take(i as int)),
    {
        let ghost pre = out@;
        if !reserved_key(fields[i].0.as_str()) {
            let k = fields[i].0.clone();
            let v = fields[i].1.clone_val();
            out.push((k, v));
            proof {
                crate::json::lemma_obj_views_len(out@);
                crate::json::lemma_obj_views_len(pre);
                assert forall|j: int|
                    0 <= j < out@.len() implies obj_views(out@)[j] == obj_views(pre).push(
                    (fs[i as int].0, fs[i as int].1),
                )[j] by {
                    crate::json::lemma_obj_views_index(out@, j);
                    if j < pre.len() {
                        crate::json::lemma_obj_views_index(pre, j);
                    }
                }
                assert(obj_views(out@) =~= obj_views(pre).push((fs[i as int].0, fs[i as int].1)));
            }
        }
        proof {
            lemma_data_filter_snoc(fs.take(i as int), fs[i as int]);
            assert(fs.take(i + 1).drop_last() =~= fs.take(i as int));
            assert(fs.take(i + 1) =~= fs.take(i as int).push(fs[i as int]));
        }
    }
    proof {
        assert(fs.take(n as int) =~= fs);
    }
    out
}

/// Filtering one more field from the right.
proof fn lemma_data_filter_snoc(fields: Seq<(Seq<char>, JsonView)>, f: (Seq<char>, JsonView))
    ensures
        spec_data_filter(fields.push(f)) == if is_reserved_key(f.0) {
            spec_data_filter(fields)
        } else {
            spec_data_filter(fields).push(f)
        },
    decreases fields.len(),
{
    let q2 = fields.push(f);
    assert(q2.len() == fields.len() + 1);
    if fields.len() == 0 {
        assert(q2[0] == f);
        assert(q2.drop_first() =~= Seq::<(Seq<char>, JsonView)>::empty());
        if !is_reserved_key(f.0) {
            assert(seq![f] + spec_data_filter(q2.drop_first()) =~= spec_data_filter(
                fields,
            ).push(f));
        }
    } else {
        assert(q2[0] == fields[0]);
        assert(q2.drop_first() =~= fields.drop_first().push(f));
        lemma_data_filter_snoc(fields.drop_first(), f);
        if is_reserved_key(fields[0].0) {
        } else {
            if is_reserved_key(f.0) {
            } else {
                assert(seq![fields[0]] + spec_data_filter(fields.drop_first()).push(f)
                    =~= (seq![fields[0]] + spec_data_filter(fields.drop_first())).push(f));
            }
        }
    }
}

} // verus!

verus! {

/// The document-envelope fields of a transaction: its class, identifier
/// and space, then the modification and creation stamps that are present.
pub open spec fn spec_doc_header(
    class_tag: Seq<char>,
    tx_id: Seq<char>,
    modified_on: Option<i64>,
    modified_by: Option<Seq<char>>,
    created_by: Option<Seq<char>>,
    created_on: Option<i64>,
) -> Seq<(Seq<char>, JsonView)> {
    seq![
        ("_class"@, JsonView::Str(class_tag)),
        ("_id"@, JsonView::Str(tx_id)),
        ("space"@, JsonView::Str(tx_space())),
    ] + (match modified_on {
        Some(t) => seq![("modifiedOn"@, JsonView::Int(t))],
        None => Seq::empty(),
    }) + (match modified_by {
        Some(p) => seq![("modifiedBy"@, JsonView::Str(p))],
        None => Seq::empty(),
    }) + (match created_by {
        Some(p) => seq![("createdBy"@, JsonView::Str(p))],
        None => Seq::empty(),
    }) + (match created_on {
        Some(t) => seq![("createdOn"@, JsonView::Int(t))],
        None => Seq::empty(),
    })
}

/// Builds the document-envelope fields of a transaction.
pub fn push_doc_header(
    fields: &mut Vec<(String, JsonVal)>,
    class_tag: &str,
    tx_id: &str,
    modified_on: &Option<i64>,
    modified_by: &Option<String>,
    created_by: &Option<String>,
    created_on: &Option<i64>,
)
    requires
        old(fields)@.len() == 0,
    ensures
        obj_views(final(fields)@) == spec_doc_header(
            class_tag@,
            tx_id@,
            *modified_on,
            match *modified_by {
                Some(ref p) => Some(p@),
                None => None,
            },
            match *created_by {
                Some(ref p) => Some(p@),
                None => None,
            },
            *created_on,
        ),
{
    broadcast use group_json_views;

    let ghost seg_fixed: Seq<(Seq<char>, JsonView)> = seq![
        ("_class"@, JsonView::Str(class_tag@)),
        ("_id"@, JsonView::Str(tx_id@)),
        ("space"@, JsonView::Str(tx_space())),
    ];
    let ghost seg_mo: Seq<(Seq<char>, JsonView)> = match *modified_on {
        Some(t) => seq![("modifiedOn"@, JsonView::Int(t))],
        None => Seq::empty(),
    };
    let ghost seg_mb: Seq<(Seq<char>, JsonView)> = match *modified_by {
        Some(ref p) => seq![("modifiedBy"@, JsonView::Str(p@))],
        None => Seq::empty(),
    };
    let ghost seg_cb: Seq<(Seq<char>, JsonView)> = match *created_by {
        Some(ref p) => seq![("createdBy"@, JsonView::Str(p@))],
        None => Seq::empty(),
    };
    let ghost seg_co: Seq<(Seq<char>, JsonView)> = match *created_on {
        Some(t) => seq![("createdOn"@, JsonView::Int(t))],
        None => Seq::empty(),
    };
    fields.push(("_class".to_owned(), crate::json::val_str(class_tag)));
    fields.push(("_id".to_owned(), crate::json::val_str(tx_id)));
    fields.push(("space".to_owned(), JsonVal::Str("core:space:Tx".to_owned())));
    proof {
        assert(obj_views(fields@) =~= seg_fixed);
    }
    match modified_on {
        Some(t) => {
            fields.push(("modifiedOn".to_owned(), JsonVal::Int(*t)));
        },
        None => {},
    }
    proof {
        assert(obj_views(fields@) =~= seg_fixed + seg_mo);
    }
    match modified_by {
        Some(p) => {
            fields.push(("modifiedBy".to_owned(), JsonVal::Str(p.clone())));
        },
        None => {},
    }
    proof {
        assert(obj_views(fields@) =~= seg_fixed + seg_mo + seg_mb);
    }
    match created_by {
        Some(p) => {
            fields.push(("createdBy".to_owned(), JsonVal::Str(p.clone())));
        },
        None => {},
    }
    proof {
        assert(obj_views(fields@) =~= seg_fixed + seg_mo + seg_mb + seg_cb);
    }
    match created_on {
        Some(t) => {
            fields.push(("createdOn".to_owned(), JsonVal::Int(*t)));
        },
        None => {},
    }
    proof {
        assert(obj_views(fields@) =~= seg_fixed + seg_mo + seg_mb + seg_cb + seg_co);
    }
}

/// A document-creating transaction, before serialization.
pub struct CreateDocument {
    pub object_id: String,
    pub object_class: String,
    pub modified_on: i64,
    pub modified_by: Option<String>,
    pub created_on: Option<i64>,
    pub created_by: Option<String>,
    pub object_space: String,
    pub attributes: JsonVal,
}

/// The wire form of a create transaction: the envelope, the object's
/// space, identifier and class, then the filtered attributes.
pub open spec fn spec_create_json(c: CreateDocument, tx_id: Seq<char>) -> JsonView {
    JsonView::Obj(
        spec_doc_header(
            tx_create_class(),
            tx_id,
            Some(c.modified_on),
            match c.modified_by {
                Some(ref p) => Some(p@),
                None => None,
            },
            match c.created_by {
                Some(ref p) => Some(p@),
                None => None,
            },
            c.created_on,
        ) + seq![
            ("objectSpace"@, JsonView::Str(c.object_space@)),
            ("objectId"@, JsonView::Str(c.object_id@)),
            ("objectClass"@, JsonView::Str(c.object_class@)),
        ] + spec_data_filter(c.attributes@->Obj_0),
    )
}

impl CreateDocument {
    /// The wire form of this transaction, under the envelope identifier
    /// `tx_id`.
    pub fn to_json(&self, tx_id: &str) -> (r: JsonVal)
        requires
            self.attributes@ is Obj,
        ensures
            r@ == spec_create_json(*self, tx_id@),
    {
        broadcast use group_json_views;

        let mut fields: Vec<(String, JsonVal)> = Vec::new();
        push_doc_header(
            &mut fields,
            "core:class:TxCreateDoc",
            tx_id,
            &Some(self.modified_on),
            &self.modified_by,
            &self.created_by,
            &self.created_on,
        );
        let ghost head = obj_views(fields@);
        fields.push(("objectSpace".to_owned(), JsonVal::Str(self.object_space.clone())));
        fields.push(("objectId".to_owned(), JsonVal::Str(self.object_id.clone())));
        fields.push(("objectClass".to_owned(), JsonVal::Str(self.object_class.clone())));
        let ghost seg_obj: Seq<(Seq<char>, JsonView)> = seq![
            ("objectSpace"@, JsonView::Str(self.object_space@)),
            ("objectId"@, JsonView::Str(self.object_id@)),
            ("objectClass"@, JsonView::Str(self.object_class@)),
        ];
        proof {
            assert(obj_views(fields@) =~= head + seg_obj);
        }
        let ghost mid = obj_views(fields@);
        let attr_fields = match &self.attributes {
            JsonVal::Obj(f) => f,
            _ => {
                return JsonVal::Null;
            },
        };
        proof {
            assert(self.attributes@ is Obj);
        }
        let filtered = data_filter_fields(attr_fields);
        let ghost fv = obj_views(filtered@);
        let n = filtered.len();
        let mut rest = filtered;
        let mut i: usize = 0;
        while i < n
            invariant
                n == rest@.len() + i,
                fv.len() == n,
                forall|j: int| 0 <= j < rest@.len() ==> fv[j + i] == (rest@[j].0@, rest@[j].1@),
                fields@.len() == mid.len() + i,
                obj_views(fields@) == mid + fv.take(i as int),
            decreases n - i,
        {
            let (k, v) = rest.remove(0);
            let ghost pre = fields@;
            fields.push((k, v));
            proof {
                crate::json::lemma_obj_views_len(fields@);
                crate::json::lemma_obj_views_len(pre);
                assert forall|j: int|
                    0 <= j < fields@.len() implies obj_views(fields@)[j] == (mid + fv.take(
                    i + 1,
                ))[j] by {
                    crate::json::lemma_obj_views_index(fields@, j);
                    if j < pre.len() {
                        crate::json::lemma_obj_views_index(pre, j);
                    }
                }
                assert(obj_views(fields@) =~= mid + fv.take(i + 1));
            }
            i = i + 1;
        }
        proof {
            assert(fv.take(n as int) =~= fv);
        }
        let r = JsonVal::Obj(fields);
        proof {
            assert(r@ is Obj);
        }
        r
    }
}

/// A document-removing transaction, before serialization.
pub struct RemoveDocument {
    pub object_id: String,
    pub object_class: String,
    pub modified_on: Option<i64>,
    pub modified_by: Option<String>,
    pub created_on: Option<i64>,
    pub created_by: Option<String>,
    pub object_space: String,
}

/// The wire form of a remove transaction.
pub open spec fn spec_remove_json(c: RemoveDocument, tx_id: Seq<char>) -> JsonView {
    JsonView::Obj(
        spec_doc_header(
            tx_remove_class(),
            tx_id,
            c.modified_on,
            match c.modified_by {
                Some(ref p) => Some(p@),
                None => None,
            },
            match c.created_by {
                Some(ref p) => Some(p@),
                None => None,
            },
            c.created_on,
        ) + seq![
            ("objectSpace"@, JsonView::Str(c.object_space@)),
            ("objectId"@, JsonView::Str(c.object_id@)),
            ("objectClass"@, JsonView::Str(c.object_class@)),
        ],
    )
}

impl RemoveDocument {
    /// The wire form of this transaction, under the envelope identifier
    /// `tx_id`.
    pub fn to_json(&self, tx_id: &str) -> (r: JsonVal)
        ensures
            r@ == spec_remove_json(*self, tx_id@),
    {
        broadcast use group_json_views;

        let mut fields: Vec<(String, JsonVal)> = Vec::new();
        push_doc_header(
            &mut fields,
            "core:class:TxRemoveDoc",
            tx_id,
            &self.modified_on,
            &self.modified_by,
            &self.created_by,
            &self.created_on,
        );
        let ghost head = obj_views(fields@);
        fields.push(("objectSpace".to_owned(), JsonVal::Str(self.object_space.clone())));
        proof {
            assert(obj_views(fields@) =~= head + seq![
                ("objectSpace"@, JsonView::Str(self.object_space@)),
            ]);
        }
        fields.push(("objectId".to_owned(), JsonVal::Str(self.object_id.clone())));
        proof {
            assert(obj_views(fields@) =~= head + seq![
                ("objectSpace"@, JsonView::Str(self.object_space@)),
            ] + seq![("objectId"@, JsonView::Str(self.object_id@))]);
        }
        fields.push(("objectClass".to_owned(), JsonVal::Str(self.object_class.clone())));
        proof {
            assert(obj_views(fields@) =~= head + seq![
                ("objectSpace"@, JsonView::Str(self.object_space@)),
            ] + seq![("objectId"@, JsonView::Str(self.object_id@))] + seq![
                ("objectClass"@, JsonView::Str(self.object_class@)),
            ]);
        }
        let r = JsonVal::Obj(fields);
        proof {
            assert(r@ is Obj);
            assert(head + seq![("objectSpace"@, JsonView::Str(self.object_space@))] + seq![
                ("objectId"@, JsonView::Str(self.object_id@)),
            ] + seq![("objectClass"@, JsonView::Str(self.object_class@))] =~= head + seq![
                ("objectSpace"@, JsonView::Str(self.object_space@)),
                ("objectId"@, JsonView::Str(self.object_id@)),
                ("objectClass"@, JsonView::Str(self.object_class@)),
            ]);
        }
        r
    }
}

} // verus!
