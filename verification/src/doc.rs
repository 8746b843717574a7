use vstd::prelude::*;

use crate::date::Date;
use crate::eval::{is_over_21, spec_is_over_21};
use crate::Error;

verus! {

broadcast use {vstd::std_specs::vec::group_vec_axioms, vstd::seq::axiom_seq_index_decreases};

/// A node of the document tree: a string leaf, a boolean leaf, or an object
/// whose fields are kept in insertion order.
pub enum Value {
    Str(String),
    Bool(bool),
    Obj(Vec<(String, Value)>),
}

/// The mathematical shape of a document node, with strings as character
/// sequences and objects as ordered key/value sequences.
#[verifier::ext_equal]
pub enum Doc {
    Str(Seq<char>),
    Bool(bool),
    Obj(Seq<(Seq<char>, Doc)>),
}

impl Value {
    /// The document a `Value` stands for.
    pub open spec fn model(self) -> Doc
        decreases self,
    {
        match self {
            Value::Str(s) => Doc::Str(s@),
            Value::Bool(b) => Doc::Bool(b),
            Value::Obj(fs) => Doc::Obj(fields_model(fs@)),
        }
    }
}

impl Value {
    /// How many nodes the value holds; a measure for recursion over values.
    pub open spec fn size(self) -> nat
        decreases self,
    {
        match self {
            Value::Str(_) => 1,
            Value::Bool(_) => 1,
            Value::Obj(fs) => 1 + fields_size(fs@),
        }
    }
}

/// Total node count of a field list.
pub open spec fn fields_size(fs: Seq<(String, Value)>) -> nat
    decreases fs,
{
    if fs.len() == 0 {
        0
    } else {
        fs[0].1.size() + 1 + fields_size(fs.drop_first())
    }
}

/// Every field's value is smaller than the whole field list.
pub proof fn lemma_fields_size(fs: Seq<(String, Value)>, i: int)
    requires
        0 <= i < fs.len(),
    ensures
        fs[i].1.size() < fields_size(fs) + 1,
    decreases i,
{
    if i > 0 {
        lemma_fields_size(fs.drop_first(), i - 1);
    }
}

/// The models of a field list, key views paired with value models.
pub open spec fn fields_model(fs: Seq<(String, Value)>) -> Seq<(Seq<char>, Doc)>
    decreases fs,
{
    Seq::new(
        fs.len(),
        |i: int|
            if 0 <= i < fs.len() {
                (fs[i].0@, fs[i].1.model())
            } else {
                vstd::pervasive::arbitrary()
            },
    )
}

/// The value of the first field named `key`, if there is one.
pub open spec fn doc_lookup(m: Seq<(Seq<char>, Doc)>, key: Seq<char>) -> Option<Doc>
    decreases m.len(),
{
    if m.len() == 0 {
        None
    } else if m[0].0 == key {
        Some(m[0].1)
    } else {
        doc_lookup(m.drop_first(), key)
    }
}

/// The field list after binding `key` to `v`: the first field named `key` is
/// replaced in place, and a key that is not present is appended at the end.
pub open spec fn doc_set(m: Seq<(Seq<char>, Doc)>, key: Seq<char>, v: Doc) -> Seq<(Seq<char>, Doc)>
    decreases m.len(),
{
    if m.len() == 0 {
        seq![(key, v)]
    } else if m[0].0 == key {
        m.update(0, (key, v))
    } else {
        seq![m[0]] + doc_set(m.drop_first(), key, v)
    }
}

/// Looking a key up at the position where it first occurs.
pub proof fn lemma_doc_lookup_at(m: Seq<(Seq<char>, Doc)>, key: Seq<char>, i: int)
    requires
        0 <= i < m.len(),
        m[i].0 == key,
        forall|j: int| 0 <= j < i ==> m[j].0 != key,
    ensures
        doc_lookup(m, key) == Some(m[i].1),
    decreases i,
{
    if i > 0 {
        lemma_doc_lookup_at(m.drop_first(), key, i - 1);
    }
}

/// A key that occurs in no field looks up to nothing.
pub proof fn lemma_doc_lookup_none(m: Seq<(Seq<char>, Doc)>, key: Seq<char>)
    requires
        forall|j: int| 0 <= j < m.len() ==> m[j].0 != key,
    ensures
        doc_lookup(m, key) is None,
    decreases m.len(),
{
    if m.len() > 0 {
        lemma_doc_lookup_none(m.drop_first(), key);
    }
}

/// Binding a key that first occurs at `i` replaces exactly that field.
pub proof fn lemma_doc_set_update(m: Seq<(Seq<char>, Doc)>, key: Seq<char>, v: Doc, i: int)
    requires
        0 <= i < m.len(),
        m[i].0 == key,
        forall|j: int| 0 <= j < i ==> m[j].0 != key,
    ensures
        doc_set(m, key, v) =~= m.update(i, (key, v)),
    decreases i,
{
    if i > 0 {
        lemma_doc_set_update(m.drop_first(), key, v, i - 1);
    }
}

/// Binding a key that occurs in no field appends it at the end.
pub proof fn lemma_doc_set_append(m: Seq<(Seq<char>, Doc)>, key: Seq<char>, v: Doc)
    requires
        forall|j: int| 0 <= j < m.len() ==> m[j].0 != key,
    ensures
        doc_set(m, key, v) =~= m.push((key, v)),
    decreases m.len(),
{
    if m.len() > 0 {
        lemma_doc_set_append(m.drop_first(), key, v);
    }
}

/// Index of the first field named `key`, if there is one.
pub fn obj_index(fields: &Vec<(String, Value)>, key: &String) -> (r: Option<usize>)
    ensures
        r matches Some(i) ==> i < fields@.len() && fields@[i as int].0@ == key@ && (forall|j: int|
            0 <= j < i ==> fields@[j].0@ != key@),
        r is None ==> forall|j: int| 0 <= j < fields@.len() ==> fields@[j].0@ != key@,
{
    let mut i: usize = 0;
    while i < fields.len()
        invariant
            i <= fields@.len(),
            forall|j: int| 0 <= j < i ==> fields@[j].0@ != key@,
        decreases fields@.len() - i,
    {
        if fields[i].0 == *key {
            return Some(i);
        }
        i = i + 1;
    }
    None
}

/// The value of the first field named `key`, if there is one.
pub fn obj_get<'a>(fields: &'a Vec<(String, Value)>, key: &String) -> (r: Option<&'a Value>)
    ensures
        match r {
            Some(v) => doc_lookup(fields_model(fields@), key@) == Some(v.model()),
            None => doc_lookup(fields_model(fields@), key@) is None,
        },
{
    match obj_index(fields, key) {
        Some(i) => {
            proof {
                lemma_doc_lookup_at(fields_model(fields@), key@, i as int);
            }
            Some(&fields[i].1)
        },
        None => {
            proof {
                lemma_doc_lookup_none(fields_model(fields@), key@);
            }
            None
        },
    }
}

/// Bind `key` to `v`: overwrite the first field named `key`, or append a new
/// field at the end when no field has that name.
pub fn obj_set(fields: &mut Vec<(String, Value)>, key: String, v: Value)
    ensures
        fields_model(final (fields)@) == doc_set(fields_model(old(fields)@), key@, v.model()),
{
    let ghost m0 = fields_model(fields@);
    let ghost keym = key@;
    let ghost vm = v.model();
    match obj_index(fields, &key) {
        Some(i) => {
            fields.remove(i);
            fields.insert(i, (key, v));
            proof {
                assert(fields@ =~= old(fields)@.update(i as int, (key, v)));
                assert(fields_model(fields@) =~= m0.update(i as int, (keym, vm)));
                lemma_doc_set_update(m0, keym, vm, i as int);
            }
        },
        None => {
            fields.push((key, v));
            proof {
                assert(fields_model(fields@) =~= m0.push((keym, vm)));
                lemma_doc_set_append(m0, keym, vm);
            }
        },
    }
}

/// After binding a key, that key looks up to the bound value.
pub proof fn lemma_lookup_after_set(m: Seq<(Seq<char>, Doc)>, key: Seq<char>, v: Doc)
    ensures
        doc_lookup(doc_set(m, key, v), key) == Some(v),
    decreases m.len(),
{
    if m.len() > 0 && m[0].0 != key {
        lemma_lookup_after_set(m.drop_first(), key, v);
        assert((seq![m[0]] + doc_set(m.drop_first(), key, v)).drop_first() =~= doc_set(
            m.drop_first(),
            key,
            v,
        ));
    }
}

/// Binding one key leaves what every other key looks up to unchanged.
pub proof fn lemma_lookup_after_set_other(
    m: Seq<(Seq<char>, Doc)>,
    key: Seq<char>,
    v: Doc,
    other: Seq<char>,
)
    requires
        other != key,
    ensures
        doc_lookup(doc_set(m, key, v), other) == doc_lookup(m, other),
    decreases m.len(),
{
    if m.len() == 0 {
        assert(seq![(key, v)].drop_first() =~= Seq::<(Seq<char>, Doc)>::empty());
        assert(doc_lookup(seq![(key, v)].drop_first(), other) is None);
    } else if m[0].0 == key {
        assert(m.update(0, (key, v)).drop_first() =~= m.drop_first());
        assert(m.update(0, (key, v))[0] == (key, v));
    } else {
        lemma_lookup_after_set_other(m.drop_first(), key, v, other);
        let c = seq![m[0]] + doc_set(m.drop_first(), key, v);
        assert(c[0] == m[0]);
        assert(c.drop_first() =~= doc_set(m.drop_first(), key, v));
    }
}

impl Value {
    /// Field lookup on an object; `None` on leaves and on a missing key.
    pub fn get<'a>(&'a self, key: &str) -> (r: Option<&'a Value>)
        ensures
            match r {
                Some(v) => self.model() matches Doc::Obj(m) && doc_lookup(m, key@) == Some(
                    v.model(),
                ),
                None => match self.model() {
                    Doc::Obj(m) => doc_lookup(m, key@) is None,
                    _ => true,
                },
            },
    {
        match self {
            Value::Obj(fields) => obj_get(fields, &key.to_owned()),
            _ => None,
        }
    }

    /// The boolean a leaf holds, if it is a boolean leaf.
    pub fn as_bool(&self) -> (r: Option<bool>)
        ensures
            match self.model() {
                Doc::Bool(b) => r == Some(b),
                _ => r is None,
            },
    {
        match self {
            Value::Bool(b) => Some(*b),
            _ => None,
        }
    }

    /// The string a leaf holds, if it is a string leaf.
    pub fn as_str<'a>(&'a self) -> (r: Option<&'a String>)
        ensures
            match r {
                Some(s) => self.model() == Doc::Str(s@),
                None => !(self.model() matches Doc::Str(_)),
            },
    {
        match self {
            Value::Str(s) => Some(s),
            _ => None,
        }
    }
}

/// The `user.dob` string of a document, if it has the expected shape.
pub open spec fn spec_dob_of(d: Doc) -> Option<Seq<char>> {
    match d {
        Doc::Obj(top) => match doc_lookup(top, "user"@) {
            Some(Doc::Obj(user)) => match doc_lookup(user, "dob"@) {
                Some(Doc::Str(s)) => Some(s),
                _ => None,
            },
            _ => None,
        },
        _ => None,
    }
}

/// The `user.is_over_21` boolean of a document, if it has one.
pub open spec fn spec_flag_of(d: Doc) -> Option<bool> {
    match d {
        Doc::Obj(top) => match doc_lookup(top, "user"@) {
            Some(Doc::Obj(user)) => match doc_lookup(user, "is_over_21"@) {
                Some(Doc::Bool(b)) => Some(b),
                _ => None,
            },
            _ => None,
        },
        _ => None,
    }
}

/// What evaluating a document yields: the document with `user.is_over_21`
/// bound to the age-check result for `user.dob`, `MissingField` when the
/// document lacks that shape, and otherwise the first error on the way.
pub open spec fn spec_eval_doc(d: Doc, today: Date) -> Result<Doc, Error> {
    match d {
        Doc::Obj(top) => match doc_lookup(top, "user"@) {
            Some(Doc::Obj(user)) => match doc_lookup(user, "dob"@) {
                Some(Doc::Str(s)) => match spec_is_over_21(s, today) {
                    Ok(b) => Ok(
                        Doc::Obj(
                            doc_set(
                                top,
                                "user"@,
                                Doc::Obj(doc_set(user, "is_over_21"@, Doc::Bool(b))),
                            ),
                        ),
                    ),
                    Err(e) => Err(e),
                },
                _ => Err(Error::MissingField),
            },
            _ => Err(Error::MissingField),
        },
        _ => Err(Error::MissingField),
    }
}

/// Read `user.dob` from the document, decide the age check for `today`, and
/// bind `user.is_over_21` to the result, leaving everything else in the
/// document as it was.
pub fn evaluate_document(doc: Value, today: &Date) -> (r: Result<Value, Error>)
    ensures
        match spec_eval_doc(doc.model(), *today) {
            Ok(m) => r matches Ok(v) && v.model() == m,
            Err(e) => r == Err::<Value, Error>(e),
        },
{
    let mut top = match doc {
        Value::Obj(fs) => fs,
        _ => { return Err(Error::MissingField); },
    };
    let ghost topm = fields_model(top@);
    let user_key: String = "user".to_owned();
    let i = match obj_index(&top, &user_key) {
        Some(i) => i,
        None => {
            proof {
                lemma_doc_lookup_none(topm, "user"@);
            }
            return Err(Error::MissingField);
        },
    };
    proof {
        lemma_doc_lookup_at(topm, "user"@, i as int);
    }
    let (ukey, uval) = top.remove(i);
    let mut user = match uval {
        Value::Obj(fs) => fs,
        _ => { return Err(Error::MissingField); },
    };
    let dob_key: String = "dob".to_owned();
    let dob: String = match obj_get(&user, &dob_key) {
        Some(v) => match v {
            Value::Str(s) => s.clone(),
            _ => { return Err(Error::MissingField); },
        },
        None => { return Err(Error::MissingField); },
    };
    let b = match is_over_21(dob.as_str(), today) {
        Ok(b) => b,
        Err(e) => { return Err(e); },
    };
    obj_set(&mut user, "is_over_21".to_owned(), Value::Bool(b));
    let ghost userm2 = fields_model(user@);
    let ghost top1 = top@;
    let ghost pv = (ukey, Value::Obj(user));
    top.insert(i, (ukey, Value::Obj(user)));
    proof {
        assert(top@ == top1.insert(i as int, pv));
        assert(pv.0@ == "user"@ && pv.1.model() == Doc::Obj(userm2));
        lemma_doc_set_update(topm, "user"@, Doc::Obj(userm2), i as int);
        assert(fields_model(top@) =~= topm.update(i as int, ("user"@, Doc::Obj(userm2))));
    }
    Ok(Value::Obj(top))
}

} // verus!
