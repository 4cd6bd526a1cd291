//! Stores: ordered collections of records, each identified by the value of
//! a configurable field, kept in one file per collection.

use vstd::prelude::*;

use crate::error::{Error, ErrorKind};
use crate::status::Status;
use crate::text::{eq_ignore_ascii_case, eq_ignore_case, first_index, lemma_first_index, lemma_first_index_at, lemma_first_index_none};
use crate::value::{loose_eq, loose_text, same_value, Value};

verus! {

/// A record: named fields, in order.
pub type Record = Vec<(String, Value)>;

/// No two fields of the record share a name: the record is a mapping.
pub open spec fn keys_unique(rec: Seq<(String, Value)>) -> bool {
    forall|i: int, j: int| 0 <= i < j < rec.len() ==> (#[trigger] rec[i]).0@ != (#[trigger] rec[j]).0@
}

/// Every record is a mapping.
pub open spec fn all_keys_unique(items: Seq<Record>) -> bool {
    forall|i: int| 0 <= i < items.len() ==> keys_unique(#[trigger] items[i]@)
}

/// Whether no two fields of `rec` share a name.
pub fn has_unique_keys(rec: &Record) -> (r: bool)
    ensures
        r == keys_unique(rec@),
{
    let mut i: usize = 0;
    while i < rec.len()
        invariant
            i <= rec@.len(),
            forall|a: int, b: int| 0 <= a < i && a < b < rec@.len() ==> (#[trigger] rec@[a]).0@ != (#[trigger] rec@[b]).0@,
        decreases rec@.len() - i,
    {
        let mut j: usize = i + 1;
        while j < rec.len()
            invariant
                i < rec@.len(),
                i + 1 <= j <= rec@.len(),
                forall|a: int, b: int| 0 <= a < i && a < b < rec@.len() ==> (#[trigger] rec@[a]).0@ != (#[trigger] rec@[b]).0@,
                forall|b: int| i < b < j ==> rec@[i as int].0@ != (#[trigger] rec@[b]).0@,
            decreases rec@.len() - j,
        {
            if rec[i].0 == rec[j].0 {
                return false;
            }
            j += 1;
        }
        i += 1;
    }
    true
}

/// Whether every record of `items` is a mapping.
pub fn all_have_unique_keys(items: &Vec<Record>) -> (r: bool)
    ensures
        r == all_keys_unique(items@),
{
    let mut i: usize = 0;
    while i < items.len()
        invariant
            i <= items@.len(),
            forall|k: int| 0 <= k < i ==> keys_unique(#[trigger] items@[k]@),
        decreases items@.len() - i,
    {
        if !has_unique_keys(&items[i]) {
            return false;
        }
        i += 1;
    }
    true
}

/// The format a store's file, and the bodies exchanged over it, are written in.
#[derive(Clone, Copy, PartialEq, Eq, Debug, Structural)]
pub enum PayloadFormat {
    Json,
    Toml,
    Yaml,
}

/// Position of the identifier field of a record (named `ident`, letter case
/// aside), or -1.
pub open spec fn id_index(rec: Seq<(String, Value)>, ident: Seq<char>) -> int {
    first_index(rec, |f: (String, Value)| eq_ignore_case(f.0@, ident))
}

/// The identifier of a record, if it has the field.
pub open spec fn id_value(rec: Seq<(String, Value)>, ident: Seq<char>) -> Option<Value> {
    let i = id_index(rec, ident);
    if 0 <= i < rec.len() {
        Some(rec[i].1)
    } else {
        None
    }
}

/// The record has an identifier that renders as `t`.
pub open spec fn has_id(rec: Record, ident: Seq<char>, t: Seq<char>) -> bool {
    id_value(rec@, ident) matches Some(v) && loose_text(v) == t
}

/// Position of the first record whose identifier renders as `t`, or -1.
pub open spec fn find_text_index(items: Seq<Record>, ident: Seq<char>, t: Seq<char>) -> int {
    first_index(items, |r: Record| has_id(r, ident, t))
}

/// Position of the first record whose identifier is loosely equal to `id`,
/// or -1.
pub open spec fn find_index(items: Seq<Record>, ident: Seq<char>, id: Value) -> int {
    find_text_index(items, ident, loose_text(id))
}

/// What `create` does: a record without the identifier field is refused
/// (400), one whose identifier is taken is refused (409), any other is
/// appended, and its position is the result.
pub open spec fn create_spec(items: Seq<Record>, ident: Seq<char>, obj: Record) -> Result<(Seq<Record>, nat), ErrorKind> {
    match id_value(obj@, ident) {
        None => Err(ErrorKind::Api(Status::BadRequest)),
        Some(v) => if find_index(items, ident, v) >= 0 {
            Err(ErrorKind::Api(Status::Conflict))
        } else {
            Ok((items.push(obj), items.len()))
        },
    }
}

/// A record collection identified by the field `identifier`.
#[derive(Debug)]
pub struct Store {
    path: String,
    items: Vec<Record>,
    identifier: String,
    format: PayloadFormat,
}

impl Store {
    pub closed spec fn spec_path(&self) -> Seq<char> {
        self.path@
    }

    pub closed spec fn spec_items(&self) -> Seq<Record> {
        self.items@
    }

    pub closed spec fn spec_identifier(&self) -> Seq<char> {
        self.identifier@
    }

    pub closed spec fn spec_format(&self) -> PayloadFormat {
        self.format
    }

    /// Every record is a mapping.
    pub open spec fn wf(&self) -> bool {
        all_keys_unique(self.spec_items())
    }

    /// An empty store kept at `path`, in `format`.
    pub fn new(path: &str, identifier: &str, format: PayloadFormat) -> (r: Self)
        ensures
            r.spec_path() == path@,
            r.spec_identifier() == identifier@,
            r.spec_format() == format,
            r.spec_items() == Seq::<Record>::empty(),
            r.wf(),
    {
        Store {
            path: String::from_str(path),
            items: Vec::new(),
            identifier: String::from_str(identifier),
            format,
        }
    }

    pub fn json(path: &str, identifier: &str) -> (r: Self)
        ensures
            r.spec_path() == path@,
            r.spec_identifier() == identifier@,
            r.spec_format() == PayloadFormat::Json,
            r.spec_items() == Seq::<Record>::empty(),
            r.wf(),
    {
        Store::new(path, identifier, PayloadFormat::Json)
    }

    pub fn toml(path: &str, identifier: &str) -> (r: Self)
        ensures
            r.spec_path() == path@,
            r.spec_identifier() == identifier@,
            r.spec_format() == PayloadFormat::Toml,
            r.spec_items() == Seq::<Record>::empty(),
            r.wf(),
    {
        Store::new(path, identifier, PayloadFormat::Toml)
    }

    pub fn yaml(path: &str, identifier: &str) -> (r: Self)
        ensures
            r.spec_path() == path@,
            r.spec_identifier() == identifier@,
            r.spec_format() == PayloadFormat::Yaml,
            r.spec_items() == Seq::<Record>::empty(),
            r.wf(),
    {
        Store::new(path, identifier, PayloadFormat::Yaml)
    }

    pub fn path(&self) -> (r: &String)
        ensures
            r@ == self.spec_path(),
    {
        &self.path
    }

    pub fn items(&self) -> (r: &Vec<Record>)
        ensures
            r@ == self.spec_items(),
    {
        &self.items
    }

    pub fn identifier(&self) -> (r: &String)
        ensures
            r@ == self.spec_identifier(),
    {
        &self.identifier
    }

    pub fn format(&self) -> (r: PayloadFormat)
        ensures
            r == self.spec_format(),
    {
        self.format
    }

    /// Replaces the records, as loading the store's file does.
    pub fn set_items(&mut self, items: Vec<Record>)
        requires
            all_keys_unique(items@),
        ensures
            final(self).wf(),
            final(self).spec_items() == items@,
            final(self).spec_path() == old(self).spec_path(),
            final(self).spec_identifier() == old(self).spec_identifier(),
            final(self).spec_format() == old(self).spec_format(),
    {
        self.items = items;
    }

    /// The identifier field of `obj`: its name and value.
    pub fn id_field<'a>(&'a self, obj: &'a Record) -> (r: Option<(&'a String, &'a Value)>)
        ensures
            match r {
                Some((k, v)) => {
                    let i = id_index(obj@, self.spec_identifier());
                    0 <= i < obj@.len() && *k == obj@[i].0 && *v == obj@[i].1
                },
                None => id_index(obj@, self.spec_identifier()) < 0,
            },
    {
        let ghost p = |f: (String, Value)| eq_ignore_case(f.0@, self.spec_identifier());
        let mut i: usize = 0;
        while i < obj.len()
            invariant
                i <= obj@.len(),
                p == (|f: (String, Value)| eq_ignore_case(f.0@, self.spec_identifier())),
                forall|j: int| 0 <= j < i ==> !p(#[trigger] obj@[j]),
            decreases obj@.len() - i,
        {
            if eq_ignore_ascii_case(obj[i].0.as_str(), self.identifier.as_str()) {
                proof {
                    lemma_first_index_at(obj@, p, i as int);
                }
                return Some((&obj[i].0, &obj[i].1));
            }
            i += 1;
        }
        proof {
            lemma_first_index_none(obj@, p);
        }
        None
    }

    fn find_position(&self, id: &Value) -> (r: Option<usize>)
        ensures
            match r {
                Some(i) => find_index(self.spec_items(), self.spec_identifier(), *id) == i,
                None => find_index(self.spec_items(), self.spec_identifier(), *id) < 0,
            },
    {
        let ghost ident = self.spec_identifier();
        let ghost p = |r: Record| has_id(r, ident, loose_text(*id));
        let mut i: usize = 0;
        while i < self.items.len()
            invariant
                i <= self.items@.len(),
                ident == self.spec_identifier(),
                p == (|r: Record| has_id(r, ident, loose_text(*id))),
                forall|j: int| 0 <= j < i ==> !p(#[trigger] self.items@[j]),
            decreases self.items@.len() - i,
        {
            let found = match self.id_field(&self.items[i]) {
                Some((_k, v)) => v.loose_eq(id),
                None => false,
            };
            if found {
                proof {
                    lemma_first_index_at(self.items@, p, i as int);
                }
                return Some(i);
            }
            i += 1;
        }
        proof {
            lemma_first_index_none(self.items@, p);
        }
        None
    }

    /// Some record has an identifier loosely equal to `id`.
    pub fn contains(&self, id: &Value) -> (r: bool)
        ensures
            r == (find_index(self.spec_items(), self.spec_identifier(), *id) >= 0),
    {
        self.find_position(id).is_some()
    }

    /// The first record whose identifier is loosely equal to `id`.
    pub fn find(&self, id: &Value) -> (r: Option<&Record>)
        ensures
            ({
                let i = find_index(self.spec_items(), self.spec_identifier(), *id);
                match r {
                    Some(rec) => 0 <= i < self.spec_items().len() && *rec == self.spec_items()[i],
                    None => i < 0,
                }
            }),
    {
        proof {
            lemma_first_index(self.items@, |r: Record| has_id(r, self.spec_identifier(), loose_text(*id)));
        }
        match self.find_position(id) {
            Some(i) => Some(&self.items[i]),
            None => None,
        }
    }

    /// Appends `obj` if its identifier is present and not yet taken.
    pub fn create(&mut self, obj: Record) -> (r: Result<usize, Error>)
        requires
            old(self).wf(),
            keys_unique(obj@),
        ensures
            final(self).wf(),
            match create_spec(old(self).spec_items(), old(self).spec_identifier(), obj) {
                Ok((items, n)) => r matches Ok(i) && i == n && final(self).spec_items() == items,
                Err(k) => r matches Err(e) && e.spec_kind() == k && final(self).spec_items()
                    == old(self).spec_items(),
            },
            final(self).spec_path() == old(self).spec_path(),
            final(self).spec_identifier() == old(self).spec_identifier(),
            final(self).spec_format() == old(self).spec_format(),
    {
        let taken = match self.id_field(&obj) {
            Some((_k, v)) => self.contains(v),
            None => {
                return Err(Error::with_message(ErrorKind::Api(Status::BadRequest), "missing identifier field in object"));
            },
        };
        if taken {
            return Err(Error::with_message(ErrorKind::Api(Status::Conflict), "an entity with this identifier already exists"));
        }
        let n = self.items.len();
        self.items.push(obj);
        Ok(n)
    }

    /// Appends `obj` unchecked.
    pub fn push(&mut self, obj: Record)
        requires
            old(self).wf(),
            keys_unique(obj@),
        ensures
            final(self).wf(),
            final(self).spec_items() == old(self).spec_items().push(obj),
            final(self).spec_path() == old(self).spec_path(),
            final(self).spec_identifier() == old(self).spec_identifier(),
            final(self).spec_format() == old(self).spec_format(),
    {
        self.items.push(obj);
    }

    /// Removes and returns the first record whose identifier is `id`, kind and
    /// content alike.
    pub fn remove(&mut self, id: &Value) -> (r: Option<Record>)
        requires
            old(self).wf(),
        ensures
            final(self).wf(),
            ({
                let items = old(self).spec_items();
                let ident = old(self).spec_identifier();
                let i = first_index(items, |rec: Record| id_value(rec@, ident) matches Some(v) && same_value(v, *id));
                match r {
                    Some(rec) => 0 <= i < items.len() && rec == items[i] && final(self).spec_items() == items.remove(i),
                    None => i < 0 && final(self).spec_items() == items,
                }
            }),
            final(self).spec_path() == old(self).spec_path(),
            final(self).spec_identifier() == old(self).spec_identifier(),
            final(self).spec_format() == old(self).spec_format(),
    {
        let ghost ident = self.spec_identifier();
        let ghost p = |rec: Record| id_value(rec@, ident) matches Some(v) && same_value(v, *id);
        let mut i: usize = 0;
        while i < self.items.len()
            invariant
                i <= self.items@.len(),
                self.items == old(self).items,
                old(self).wf(),
                self.identifier == old(self).identifier,
                self.path == old(self).path,
                self.format == old(self).format,
                ident == self.spec_identifier(),
                p == (|rec: Record| id_value(rec@, ident) matches Some(v) && same_value(v, *id)),
                forall|j: int| 0 <= j < i ==> !p(#[trigger] self.items@[j]),
            decreases self.items@.len() - i,
        {
            let hit = match self.id_field(&self.items[i]) {
                Some((_k, v)) => v.same_value(id),
                None => false,
            };
            if hit {
                proof {
                    lemma_first_index_at(self.items@, p, i as int);
                }
                let ghost before = self.items@;
                let rec = self.items.remove(i);
                proof {
                    assert(all_keys_unique(before));
                    assert forall|k: int| 0 <= k < self.items@.len() implies keys_unique(#[trigger] self.items@[k]@) by {
                        if k < i {
                            assert(self.items@[k] == before[k]);
                        } else {
                            assert(self.items@[k] == before[k + 1]);
                        }
                    }
                }
                return Some(rec);
            }
            i += 1;
        }
        proof {
            lemma_first_index_none(self.items@, p);
        }
        None
    }
}

/// Creating a record and then looking up its identifier finds that record;
/// creating another record whose identifier is loosely equal then fails with
/// a conflict.
pub proof fn lemma_create_then_find(items: Seq<Record>, ident: Seq<char>, obj: Record, other: Record)
    requires
        create_spec(items, ident, obj) is Ok,
        id_value(other@, ident) matches Some(w) && loose_eq(w, id_value(obj@, ident)->0),
    ensures
        ({
            let after = create_spec(items, ident, obj)->Ok_0.0;
            let v = id_value(obj@, ident)->0;
            let i = find_index(after, ident, v);
            &&& 0 <= i < after.len()
            &&& after[i] == obj
            &&& create_spec(after, ident, other) == Err::<(Seq<Record>, nat), ErrorKind>(
                ErrorKind::Api(Status::Conflict),
            )
        }),
{
    let v = id_value(obj@, ident)->0;
    let w = id_value(other@, ident)->0;
    let after = items.push(obj);
    let p = |r: Record| has_id(r, ident, loose_text(v));
    let q = |r: Record| has_id(r, ident, loose_text(w));
    lemma_first_index(items, p);
    assert forall|j: int| 0 <= j < items.len() implies !p(#[trigger] after[j]) by {
        assert(after[j] == items[j]);
    }
    assert(p(after[items.len() as int]));
    lemma_first_index_at(after, p, items.len() as int);
    assert(q(after[items.len() as int]));
    lemma_first_index(after, q);
}

} // verus!
