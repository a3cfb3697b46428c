//! The library's JSON tree: what the event codec reads out of one line of
//! child output. Numbers keep their literal text, so no value is lost in
//! translation.

use vstd::prelude::*;

verus! {

broadcast use {vstd::std_specs::vec::group_vec_axioms, vstd::seq::group_seq_axioms};

/// A JSON document. A number carries its literal text.
pub enum Json {
    Null,
    Bool(bool),
    Num(String),
    Str(String),
    Arr(Vec<Json>),
    Obj(Vec<(String, Json)>),
}

/// The mathematical value of a JSON document.
pub enum JsonV {
    Null,
    Bool(bool),
    Num(Seq<char>),
    Str(Seq<char>),
    Arr(Seq<JsonV>),
    Obj(Seq<(Seq<char>, JsonV)>),
}

/// The mathematical value of a document.
pub open spec fn json_view(j: Json) -> JsonV
    decreases j
        via json_view_decreases
{
    match j {
        Json::Null => JsonV::Null,
        Json::Bool(b) => JsonV::Bool(b),
        Json::Num(s) => JsonV::Num(s@),
        Json::Str(s) => JsonV::Str(s@),
        Json::Arr(items) => JsonV::Arr(json_views(items@)),
        Json::Obj(fields) => JsonV::Obj(json_view_fields(fields@)),
    }
}

/// The mathematical values of a sequence of documents.
pub open spec fn json_views(s: Seq<Json>) -> Seq<JsonV>
    decreases s
        via json_views_decreases
{
    if s.len() == 0 {
        Seq::empty()
    } else {
        json_views(s.drop_last()).push(json_view(s.last()))
    }
}

/// The mathematical values of a sequence of object fields.
pub open spec fn json_view_fields(s: Seq<(String, Json)>) -> Seq<(Seq<char>, JsonV)>
    decreases s
        via json_view_fields_decreases
{
    if s.len() == 0 {
        Seq::empty()
    } else {
        json_view_fields(s.drop_last()).push((s.last().0@, json_view(s.last().1)))
    }
}

#[via_fn]
proof fn json_view_decreases(j: Json) {
    match j {
        Json::Arr(items) => {
            assert(decreases_to!(j => j->Arr_0));
            assert(decreases_to!(j->Arr_0 => j->Arr_0@));
        },
        Json::Obj(fields) => {
            assert(decreases_to!(j => j->Obj_0));
            assert(decreases_to!(j->Obj_0 => j->Obj_0@));
        },
        _ => {},
    }
}

#[via_fn]
proof fn json_views_decreases(s: Seq<Json>) {
    if s.len() > 0 {
        assert(decreases_to!(s => s.drop_last()));
        assert(decreases_to!(s => s[s.len() - 1]));
    }
}

#[via_fn]
proof fn json_view_fields_decreases(s: Seq<(String, Json)>) {
    if s.len() > 0 {
        assert(decreases_to!(s => s.drop_last()));
        assert(decreases_to!(s => s[s.len() - 1]));
        assert(decreases_to!(s[s.len() - 1] => s[s.len() - 1].1));
    }
}

/// Element-wise reading of `json_views`.
pub proof fn lemma_json_views_index(s: Seq<Json>)
    ensures
        json_views(s).len() == s.len(),
        forall|i: int| 0 <= i < s.len() ==> #[trigger] json_views(s)[i] == json_view(s[i]),
    decreases s.len(),
{
    if s.len() > 0 {
        lemma_json_views_index(s.drop_last());
        assert(forall|i: int| 0 <= i < s.len() - 1 ==> s.drop_last()[i] == #[trigger] s[i]);
    }
}

/// Element-wise reading of `json_view_fields`.
pub proof fn lemma_json_view_fields_index(s: Seq<(String, Json)>)
    ensures
        json_view_fields(s).len() == s.len(),
        forall|i: int|
            0 <= i < s.len() ==> #[trigger] json_view_fields(s)[i] == (s[i].0@, json_view(
                s[i].1,
            )),
    decreases s.len(),
{
    if s.len() > 0 {
        lemma_json_view_fields_index(s.drop_last());
        assert(forall|i: int| 0 <= i < s.len() - 1 ==> s.drop_last()[i] == #[trigger] s[i]);
    }
}

impl View for Json {
    type V = JsonV;

    open spec fn view(&self) -> JsonV {
        json_view(*self)
    }
}

/// The value of the first field with the given key, if any.
pub open spec fn spec_obj_lookup_from(
    fields: Seq<(Seq<char>, JsonV)>,
    key: Seq<char>,
    i: int,
) -> Option<JsonV>
    decreases fields.len() - i,
{
    if i < 0 || i >= fields.len() {
        None
    } else if fields[i].0 == key {
        Some(fields[i].1)
    } else {
        spec_obj_lookup_from(fields, key, i + 1)
    }
}

/// The value at the key of an object document; `None` for a missing key or a
/// non-object.
pub open spec fn spec_get(j: JsonV, key: Seq<char>) -> Option<JsonV> {
    match j {
        JsonV::Obj(fields) => spec_obj_lookup_from(fields, key, 0),
        _ => None,
    }
}

/// The text of a string document.
pub open spec fn spec_as_str(j: JsonV) -> Option<Seq<char>> {
    match j {
        JsonV::Str(s) => Some(s),
        _ => None,
    }
}

/// The value of a boolean document.
pub open spec fn spec_as_bool(j: JsonV) -> Option<bool> {
    match j {
        JsonV::Bool(b) => Some(b),
        _ => None,
    }
}

impl Json {
    /// Copies the document.
    pub fn clone_value(&self) -> (r: Json)
        ensures
            r@ == self@,
        decreases *self,
    {
        match self {
            Json::Null => Json::Null,
            Json::Bool(b) => Json::Bool(*b),
            Json::Num(s) => Json::Num(s.clone()),
            Json::Str(s) => Json::Str(s.clone()),
            Json::Arr(items) => {
                let n = items.len();
                let mut out: Vec<Json> = Vec::new();
                let mut i: usize = 0;
                while i < n
                    invariant
                        *self == Json::Arr(*items),
                        n == items@.len(),
                        i <= n,
                        out@.len() == i,
                        forall|j: int| 0 <= j < i ==> json_view(#[trigger] out@[j]) == json_view(items@[j]),
                    decreases n - i,
                {
                    proof {
                        assert(decreases_to!(*self => self->Arr_0));
                        assert(decreases_to!(self->Arr_0 => self->Arr_0@));
                        assert(decreases_to!(self->Arr_0@ => self->Arr_0@[i as int]));
                        assert(self->Arr_0@ == items@);
                    }
                    let item = &items[i];
                    out.push(item.clone_value());
                    i = i + 1;
                }
                let r = Json::Arr(out);
                proof {
                    lemma_json_views_index(out@);
                    lemma_json_views_index(items@);
                    assert(json_views(out@) =~= json_views(items@));
                }
                r
            },
            Json::Obj(fields) => {
                let n = fields.len();
                let mut out: Vec<(String, Json)> = Vec::new();
                let mut i: usize = 0;
                while i < n
                    invariant
                        *self == Json::Obj(*fields),
                        n == fields@.len(),
                        i <= n,
                        out@.len() == i,
                        forall|j: int|
                            0 <= j < i ==> (#[trigger] out@[j]).0@ == fields@[j].0@ && json_view(
                                out@[j].1,
                            ) == json_view(fields@[j].1),
                    decreases n - i,
                {
                    proof {
                        assert(decreases_to!(*self => self->Obj_0));
                        assert(decreases_to!(self->Obj_0 => self->Obj_0@));
                        assert(decreases_to!(self->Obj_0@ => self->Obj_0@[i as int]));
                        assert(decreases_to!(self->Obj_0@[i as int] => self->Obj_0@[i as int].1));
                        assert(self->Obj_0@ == fields@);
                    }
                    let key = fields[i].0.clone();
                    let value = fields[i].1.clone_value();
                    out.push((key, value));
                    i = i + 1;
                }
                let r = Json::Obj(out);
                proof {
                    lemma_json_view_fields_index(out@);
                    lemma_json_view_fields_index(fields@);
                    assert(json_view_fields(out@) =~= json_view_fields(fields@));
                }
                r
            },
        }
    }

    /// The value at the key, when this document is an object that has it.
    pub fn get(&self, key: &str) -> (r: Option<&Json>)
        ensures
            match r {
                Some(v) => spec_get(self@, key@) == Some(v@),
                None => spec_get(self@, key@) is None,
            },
    {
        let fields = match self {
            Json::Obj(fields) => fields,
            _ => {
                return None;
            },
        };
        let ghost fv = json_view_fields(fields@);
        proof {
            lemma_json_view_fields_index(fields@);
        }
        let n = fields.len();
        let mut i: usize = 0;
        while i < n
            invariant
                *self == Json::Obj(*fields),
                n == fields@.len(),
                fv == json_view_fields(fields@),
                fv.len() == fields@.len(),
                forall|j: int|
                    0 <= j < fields@.len() ==> fv[j] == ((#[trigger] fields@[j]).0@, json_view(
                        fields@[j].1,
                    )),
                i <= n,
                spec_obj_lookup_from(fv, key@, 0) == spec_obj_lookup_from(fv, key@, i as int),
            decreases n - i,
        {
            if crate::text::str_eq(fields[i].0.as_str(), key) {
                proof {
                    assert(fv[i as int].0 == key@);
                    assert(spec_obj_lookup_from(fv, key@, i as int) == Some(fv[i as int].1));
                }
                return Some(&fields[i].1);
            }
            proof {
                assert(fv[i as int].0 != key@);
            }
            i = i + 1;
        }
        None
    }

    /// The text of a string document.
    pub fn as_str(&self) -> (r: Option<&str>)
        ensures
            r.deep_view() == spec_as_str(self@),
    {
        match self {
            Json::Str(s) => Some(s.as_str()),
            _ => None,
        }
    }

    /// The value of a boolean document.
    pub fn as_bool(&self) -> (r: Option<bool>)
        ensures
            r == spec_as_bool(self@),
    {
        match self {
            Json::Bool(b) => Some(*b),
            _ => None,
        }
    }

    /// Whether this document is `null`.
    pub fn is_null(&self) -> (r: bool)
        ensures
            r == (self@ is Null),
    {
        match self {
            Json::Null => true,
            _ => false,
        }
    }
}

} // verus!
