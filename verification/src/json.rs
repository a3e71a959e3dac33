//! A plain JSON tree: the pivot between the wire text and the typed
//! protocol records. Numbers are unsigned integers, the only number domain
//! the protocol uses.

use vstd::prelude::*;

verus! {

broadcast use vstd::std_specs::vec::axiom_vec_index_decreases;

/// A JSON document, with object fields in insertion order.
pub enum Json {
    Null,
    Bool(bool),
    UInt(u64),
    Str(String),
    Arr(Vec<Json>),
    Obj(Vec<(String, Json)>),
}

/// Mathematical model of a JSON document.
#[verifier::ext_equal]
pub ghost enum JsonModel {
    Null,
    Bool(bool),
    UInt(u64),
    Str(Seq<char>),
    Arr(Seq<JsonModel>),
    Obj(Seq<(Seq<char>, JsonModel)>),
}

impl View for Json {
    type V = JsonModel;

    open spec fn view(&self) -> JsonModel
        decreases self,
    {
        match self {
            Json::Null => JsonModel::Null,
            Json::Bool(b) => JsonModel::Bool(*b),
            Json::UInt(n) => JsonModel::UInt(*n),
            Json::Str(s) => JsonModel::Str(s@),
            Json::Arr(items) => JsonModel::Arr(arr_view(items)),
            Json::Obj(fields) => JsonModel::Obj(fields_view(fields)),
        }
    }
}

/// The model of an array's element list.
pub open spec fn arr_view(items: &Vec<Json>) -> Seq<JsonModel>
    decreases items,
{
    Seq::new(
        items@.len(),
        |i: int|
            if 0 <= i < items@.len() {
                items[i]@
            } else {
                JsonModel::Null
            },
    )
}

/// The model of an object's field list.
pub open spec fn fields_view(fields: &Vec<(String, Json)>) -> Seq<(Seq<char>, JsonModel)>
    decreases fields,
{
    Seq::new(
        fields@.len(),
        |i: int|
            if 0 <= i < fields@.len() {
                (fields[i].0@, fields[i].1@)
            } else {
                (Seq::<char>::empty(), JsonModel::Null)
            },
    )
}

/// First value under `key` in an object's field list, if any.
pub open spec fn obj_get(fields: Seq<(Seq<char>, JsonModel)>, key: Seq<char>) -> Option<JsonModel>
    decreases fields.len(),
{
    if fields.len() == 0 {
        None
    } else if fields[0].0 == key {
        Some(fields[0].1)
    } else {
        obj_get(fields.drop_first(), key)
    }
}

/// An array's or object's view is `arr_view` / `fields_view` of its list.
pub proof fn lemma_json_variant_views(j: &Json)
    ensures
        j matches Json::Arr(items) ==> j@ == JsonModel::Arr(arr_view(items)),
        j matches Json::Obj(fields) ==> j@ == JsonModel::Obj(fields_view(fields)),
{
    match *j {
        Json::Arr(items) => {
            assert(j@ == JsonModel::Arr(arr_view(&items)));
        },
        Json::Obj(fields) => {
            assert(j@ == JsonModel::Obj(fields_view(&fields)));
        },
        _ => {},
    }
}

/// Lookup distributes over concatenation: the front half wins when it has
/// the key.
pub proof fn lemma_obj_get_concat(
    a: Seq<(Seq<char>, JsonModel)>,
    b: Seq<(Seq<char>, JsonModel)>,
    key: Seq<char>,
)
    ensures
        obj_get(a + b, key) == (match obj_get(a, key) {
            Some(v) => Some(v),
            None => obj_get(b, key),
        }),
    decreases a.len(),
{
    if a.len() == 0 {
        assert(a + b =~= b);
    } else {
        assert((a + b)[0] == a[0]);
        assert((a + b).len() > 0);
        assert((a + b).drop_first() =~= a.drop_first() + b);
        lemma_obj_get_concat(a.drop_first(), b, key);
    }
}

/// Lookup in a one-field object list.
pub proof fn lemma_obj_get_single(p: (Seq<char>, JsonModel), key: Seq<char>)
    ensures
        obj_get(seq![p], key) == (if p.0 == key {
            Some(p.1)
        } else {
            None::<JsonModel>
        }),
{
    reveal_with_fuel(obj_get, 3);
    assert(seq![p].len() == 1);
    assert(seq![p][0] == p);
    assert(seq![p].drop_first() =~= Seq::<(Seq<char>, JsonModel)>::empty());
}

/// Looking up a key that failed on a prefix continues on the rest.
proof fn lemma_obj_get_skip_step(fields: Seq<(Seq<char>, JsonModel)>, key: Seq<char>, i: int)
    requires
        0 <= i < fields.len(),
        obj_get(fields, key) == obj_get(fields.skip(i), key),
        fields[i].0 != key,
    ensures
        obj_get(fields, key) == obj_get(fields.skip(i + 1), key),
{
    assert(fields.skip(i).len() > 0);
    assert(fields.skip(i)[0] == fields[i]);
    assert(fields.skip(i).drop_first() =~= fields.skip(i + 1));
}

/// Character-by-character string equality, exact with respect to the views.
pub fn str_eq(a: &str, b: &str) -> (r: bool)
    ensures
        r == (a@ == b@),
{
    let an = a.unicode_len();
    let bn = b.unicode_len();
    if an != bn {
        return false;
    }
    let mut i: usize = 0;
    while i < an
        invariant
            an == a@.len(),
            an == b@.len(),
            i <= an,
            forall|j: int| 0 <= j < i ==> a@[j] == b@[j],
        decreases an - i,
    {
        let ca = a.get_char(i);
        let cb = b.get_char(i);
        if ca != cb {
            return false;
        }
        i = i + 1;
    }
    proof {
        assert(a@ =~= b@);
    }
    true
}

/// First value under `key` in an object's field list, if any; the
/// executable side of `obj_get`.
pub fn get_field<'a>(fields: &'a Vec<(String, Json)>, key: &str) -> (r: Option<&'a Json>)
    ensures
        match r {
            Some(v) => obj_get(fields_view(fields), key@) == Some(v@),
            None => obj_get(fields_view(fields), key@) is None,
        },
{
    let ghost fv = fields_view(fields);
    proof {
        assert(fv.skip(0) =~= fv);
    }
    let n = fields.len();
    let mut i: usize = 0;
    while i < n
        invariant
            n == fields@.len(),
            i <= n,
            fv == fields_view(fields),
            obj_get(fv, key@) == obj_get(fv.skip(i as int), key@),
        decreases n - i,
    {
        if str_eq(fields[i].0.as_str(), key) {
            proof {
                assert(fv.skip(i as int)[0] == fv[i as int]);
            }
            return Some(&fields[i].1);
        }
        proof {
            lemma_obj_get_skip_step(fv, key@, i as int);
        }
        i = i + 1;
    }
    proof {
        assert(fv.skip(n as int) =~= Seq::<(Seq<char>, JsonModel)>::empty());
    }
    None
}

} // verus!
