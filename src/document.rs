use vstd::prelude::*;

verus! {

broadcast use {vstd::seq::axiom_seq_subrange_decreases, vstd::seq::axiom_seq_index_decreases, vstd::std_specs::vec::axiom_vec_decreases_to_view};

/// A JSON document as the assembler builds it. Object members keep the order
/// in which they were first set. Floating-point numbers are carried as their
/// IEEE-754 bit pattern.
#[derive(Debug)]
pub enum Json {
    Null,
    Boolean(bool),
    Integer(i64),
    Unsigned(u64),
    Float(u64),
    Str(String),
    Array(Vec<Json>),
    Object(Vec<(String, Json)>),
}

/// The mathematical value of a [`Json`] document.
pub enum JsonModel {
    Null,
    Boolean(bool),
    Integer(i64),
    Unsigned(u64),
    Float(u64),
    Str(Seq<char>),
    Array(Seq<JsonModel>),
    Object(Seq<(Seq<char>, JsonModel)>),
}

impl View for Json {
    type V = JsonModel;

    open spec fn view(&self) -> JsonModel
        decreases self,
    {
        match self {
            Json::Null => JsonModel::Null,
            Json::Boolean(b) => JsonModel::Boolean(*b),
            Json::Integer(i) => JsonModel::Integer(*i),
            Json::Unsigned(u) => JsonModel::Unsigned(*u),
            Json::Float(f) => JsonModel::Float(*f),
            Json::Str(s) => JsonModel::Str(s@),
            Json::Array(v) => JsonModel::Array(items_model(v@)),
            Json::Object(v) => JsonModel::Object(members_model(v@)),
        }
    }
}

/// The model of an array's items.
pub open spec fn items_model(s: Seq<Json>) -> Seq<JsonModel>
    decreases s,
{
    if s.len() == 0 {
        Seq::empty()
    } else {
        items_model(s.drop_last()).push(s.last()@)
    }
}

/// The model of an object's members.
pub open spec fn members_model(s: Seq<(String, Json)>) -> Seq<(Seq<char>, JsonModel)>
    decreases s,
{
    if s.len() == 0 {
        Seq::empty()
    } else {
        members_model(s.drop_last()).push((s.last().0@, s.last().1@))
    }
}

pub proof fn lemma_members_model(s: Seq<(String, Json)>)
    ensures
        members_model(s).len() == s.len(),
        forall|i: int| 0 <= i < s.len() ==> #[trigger] members_model(s)[i] == (s[i].0@, s[i].1@),
    decreases s.len(),
{
    if s.len() > 0 {
        lemma_members_model(s.drop_last());
        assert(members_model(s) == members_model(s.drop_last()).push((s.last().0@, s.last().1@)));
    } else {
        assert(members_model(s) == Seq::<(Seq<char>, JsonModel)>::empty());
    }
}

pub proof fn lemma_items_model(s: Seq<Json>)
    ensures
        items_model(s).len() == s.len(),
        forall|i: int| 0 <= i < s.len() ==> #[trigger] items_model(s)[i] == s[i]@,
    decreases s.len(),
{
    if s.len() > 0 {
        lemma_items_model(s.drop_last());
        assert(items_model(s) == items_model(s.drop_last()).push(s.last()@));
    } else {
        assert(items_model(s) == Seq::<JsonModel>::empty());
    }
}

/// The position of the first member named `key`, if any.
pub open spec fn member_index(m: Seq<(Seq<char>, JsonModel)>, key: Seq<char>, from: int) -> Option<int>
    decreases m.len() - from,
{
    if from < 0 || from >= m.len() {
        None
    } else if m[from].0 == key {
        Some(from)
    } else {
        member_index(m, key, from + 1)
    }
}

/// The members after setting `key` to `value`: an existing member keeps its
/// place and takes the new value; otherwise the member is appended.
pub open spec fn members_set(m: Seq<(Seq<char>, JsonModel)>, key: Seq<char>, value: JsonModel) -> Seq<(Seq<char>, JsonModel)> {
    match member_index(m, key, 0) {
        Some(i) => m.update(i, (key, value)),
        None => m.push((key, value)),
    }
}

/// The members after removing the first member named `key`, if any.
pub open spec fn members_remove(m: Seq<(Seq<char>, JsonModel)>, key: Seq<char>) -> Seq<(Seq<char>, JsonModel)> {
    match member_index(m, key, 0) {
        Some(i) => m.remove(i),
        None => m,
    }
}

/// The value of the first member named `key`, if any.
pub open spec fn member(m: Seq<(Seq<char>, JsonModel)>, key: Seq<char>) -> Option<JsonModel> {
    match member_index(m, key, 0) {
        Some(i) => Some(m[i].1),
        None => None,
    }
}

/// The members of an object; any other value has none.
pub open spec fn members_of(j: JsonModel) -> Seq<(Seq<char>, JsonModel)> {
    match j {
        JsonModel::Object(m) => m,
        _ => Seq::empty(),
    }
}

/// `j` with member `key` set to `value`, as [`Json::set`] does it.
pub open spec fn with_member(j: JsonModel, key: Seq<char>, value: JsonModel) -> JsonModel {
    JsonModel::Object(members_set(members_of(j), key, value))
}

/// `j` without its member `key`, as [`Json::remove`] does it.
pub open spec fn without_member(j: JsonModel, key: Seq<char>) -> JsonModel {
    match j {
        JsonModel::Object(m) => JsonModel::Object(members_remove(m, key)),
        other => other,
    }
}

/// The member `key` of `j`, or `null` when there is none.
pub open spec fn member_or_null(j: JsonModel, key: Seq<char>) -> JsonModel {
    match member(members_of(j), key) {
        Some(v) => v,
        None => JsonModel::Null,
    }
}

/// `j` with `j[outer][inner]` set to `value`; a missing or non-object
/// `j[outer]` becomes an object first.
pub open spec fn with_nested(j: JsonModel, outer: Seq<char>, inner: Seq<char>, value: JsonModel) -> JsonModel {
    with_member(j, outer, with_member(member_or_null(j, outer), inner, value))
}

proof fn lemma_member_index_bounds(m: Seq<(Seq<char>, JsonModel)>, key: Seq<char>, from: int)
    requires
        0 <= from,
    ensures
        member_index(m, key, from) matches Some(i) ==> from <= i < m.len() && m[i].0 == key,
    decreases m.len() - from,
{
    if from < m.len() && m[from].0 != key {
        lemma_member_index_bounds(m, key, from + 1);
    }
}

fn find_member(m: &Vec<(String, Json)>, key: &str) -> (r: Option<usize>)
    ensures
        r matches Some(i) ==> i < m@.len(),
        (match r {
            Some(i) => Some(i as int),
            None => None,
        }) == member_index(members_model(m@), key@, 0),
{
    let ghost mv = members_model(m@);
    proof {
        lemma_members_model(m@);
    }
    let mut i: usize = 0;
    while i < m.len()
        invariant
            i <= m@.len(),
            mv == members_model(m@),
            mv.len() == m@.len(),
            forall|j: int| 0 <= j < m@.len() ==> #[trigger] mv[j] == (m@[j].0@, m@[j].1@),
            member_index(mv, key@, 0) == member_index(mv, key@, i as int),
        decreases m@.len() - i,
    {
        assert(mv[i as int].0 == m@[i as int].0@);
        if crate::text::same_text(m[i].0.as_str(), key) {
            return Some(i);
        }
        i += 1;
    }
    None
}

impl Json {
    /// An object with no members.
    pub fn new_object() -> (r: Json)
        ensures
            r@ == JsonModel::Object(Seq::empty()),
    {
        let r = Json::Object(Vec::new());
        assert(r@->Object_0 =~= Seq::empty());
        r
    }

    /// A string value.
    pub fn text(s: &str) -> (r: Json)
        ensures
            r@ == JsonModel::Str(s@),
    {
        Json::Str(crate::text::string_of(s))
    }

    /// Sets the member `key` of an object; a value that is not an object is
    /// first replaced by an empty object.
    pub fn set(&mut self, key: &str, value: Json)
        ensures
            final(self)@ == JsonModel::Object(
                members_set(
                    match old(self)@ {
                        JsonModel::Object(m) => m,
                        _ => Seq::empty(),
                    },
                    key@,
                    value@,
                ),
            ),
    {
        let is_object = match self {
            Json::Object(_) => true,
            _ => false,
        };
        if !is_object {
            *self = Json::new_object();
        }
        let ghost before = self@;
        match self {
            Json::Object(m) => {
                proof {
                    lemma_members_model(m@);
                }
                let found = find_member(m, key);
                match found {
                    Some(i) => {
                        m.set(i, (crate::text::string_of(key), value));
                    },
                    None => {
                        m.push((crate::text::string_of(key), value));
                    },
                }
                proof {
                    lemma_member_index_bounds(before->Object_0, key@, 0);
                    lemma_members_model(m@);
                }
                assert(members_model(m@) =~= members_set(before->Object_0, key@, value@));
            },
            _ => {},
        }
    }

    /// Removes the member `key` of an object, if it is there.
    pub fn remove(&mut self, key: &str)
        ensures
            final(self)@ == match old(self)@ {
                JsonModel::Object(m) => JsonModel::Object(members_remove(m, key@)),
                other => other,
            },
    {
        let ghost before = self@;
        match self {
            Json::Object(m) => {
                proof {
                    lemma_members_model(m@);
                }
                let found = find_member(m, key);
                if let Some(i) = found {
                    m.remove(i);
                }
                proof {
                    lemma_member_index_bounds(before->Object_0, key@, 0);
                    lemma_members_model(m@);
                }
                assert(members_model(m@) =~= members_remove(before->Object_0, key@));
            },
            _ => {},
        }
    }

    /// Sets `self[outer][inner]`, keeping every member in its place.
    pub fn set_nested(&mut self, outer: &str, inner: &str, value: Json)
        ensures
            final(self)@ == with_nested(old(self)@, outer@, inner@, value@),
    {
        let is_object = match self {
            Json::Object(_) => true,
            _ => false,
        };
        if !is_object {
            *self = Json::new_object();
        }
        let ghost before = self@;
        assert(members_of(before) == members_of(old(self)@));
        match self {
            Json::Object(m) => {
                proof {
                    lemma_members_model(m@);
                    lemma_member_index_bounds(before->Object_0, outer@, 0);
                }
                let found = find_member(m, outer);
                match found {
                    Some(i) => {
                        let (k, mut child) = m.remove(i);
                        assert(member_or_null(before, outer@) == child@);
                        child.set(inner, value);
                        m.insert(i, (k, child));
                        proof {
                            lemma_members_model(m@);
                        }
                        assert(members_model(m@) =~= members_set(before->Object_0, outer@, child@));
                    },
                    None => {
                        let mut child = Json::Null;
                        child.set(inner, value);
                        m.push((crate::text::string_of(outer), child));
                        proof {
                            lemma_members_model(m@);
                        }
                        assert(members_model(m@) =~= members_set(before->Object_0, outer@, child@));
                    },
                }
            },
            _ => {},
        }
    }

    /// Whether the value is `null`.
    pub fn is_null(&self) -> (r: bool)
        ensures
            r == (self@ is Null),
    {
        match self {
            Json::Null => true,
            _ => false,
        }
    }
}

} // verus!
