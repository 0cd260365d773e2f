use vstd::prelude::*;

verus! {

/// A typed attribute value of a record.
pub enum Value {
    Str(String),
    Bool(bool),
    Int(i64),
}

/// The mathematical form of a [`Value`].
pub ghost enum ValueView {
    Str(Seq<char>),
    Bool(bool),
    Int(i64),
}

impl View for Value {
    type V = ValueView;

    open spec fn view(&self) -> ValueView {
        match self {
            Value::Str(s) => ValueView::Str(s@),
            Value::Bool(b) => ValueView::Bool(*b),
            Value::Int(i) => ValueView::Int(*i),
        }
    }
}

impl Value {
    pub fn duplicate(&self) -> (r: Value)
        ensures
            r@ == self@,
    {
        match self {
            Value::Str(s) => Value::Str(s.clone()),
            Value::Bool(b) => Value::Bool(*b),
            Value::Int(i) => Value::Int(*i),
        }
    }
}


/// The attributes of a record, keyed by name: the later of two entries
/// with one name would win, but a [`Record`] never holds two.
pub open spec fn attr_map(s: Seq<(String, Value)>) -> Map<Seq<char>, ValueView>
    decreases s.len(),
{
    if s.len() == 0 {
        Map::empty()
    } else {
        attr_map(s.drop_last()).insert(s.last().0@, s.last().1@)
    }
}

/// No two entries share a name.
pub open spec fn names_distinct(s: Seq<(String, Value)>) -> bool {
    forall|i: int, j: int| 0 <= i < s.len() && 0 <= j < s.len() && i != j ==> s[i].0@ != s[j].0@
}

proof fn lemma_attr_map_dom(s: Seq<(String, Value)>, k: Seq<char>)
    ensures
        attr_map(s).contains_key(k) <==> exists|i: int| 0 <= i < s.len() && s[i].0@ == k,
    decreases s.len(),
{
    if s.len() > 0 {
        lemma_attr_map_dom(s.drop_last(), k);
        if attr_map(s).contains_key(k) && k != s.last().0@ {
            let i = choose|i: int| 0 <= i < s.drop_last().len() && s.drop_last()[i].0@ == k;
            assert(s[i].0@ == k);
        }
        if exists|i: int| 0 <= i < s.len() && s[i].0@ == k {
            let i = choose|i: int| 0 <= i < s.len() && s[i].0@ == k;
            if i < s.len() - 1 {
                assert(s.drop_last()[i].0@ == k);
            }
        }
    }
}

proof fn lemma_attr_map_index(s: Seq<(String, Value)>, i: int)
    requires
        names_distinct(s),
        0 <= i < s.len(),
    ensures
        attr_map(s).contains_key(s[i].0@),
        attr_map(s)[s[i].0@] == s[i].1@,
    decreases s.len(),
{
    if i < s.len() - 1 {
        assert(s.drop_last()[i] == s[i]);
        assert(names_distinct(s.drop_last()));
        lemma_attr_map_index(s.drop_last(), i);
    }
}

/// A record of the store: an identifier and a set of named, typed
/// attributes. No attribute is required to be present.
pub struct Record {
    id: u64,
    attrs: Vec<(String, Value)>,
}

impl Clone for Record {
    fn clone(&self) -> (r: Record)
        ensures
            r@ == self@,
    {
        self.duplicate()
    }
}

/// The mathematical form of a [`Record`].
pub ghost struct RecordView {
    pub id: u64,
    pub attrs: Map<Seq<char>, ValueView>,
}

impl View for Record {
    type V = RecordView;

    closed spec fn view(&self) -> RecordView {
        RecordView { id: self.id, attrs: attr_map(self.attrs@) }
    }
}

/// The view of a record that may be absent.
pub open spec fn opt_view(o: Option<Record>) -> Option<RecordView> {
    match o {
        Some(r) => Some(r@),
        None => None,
    }
}

/// The text that `key` holds in `r`, or `default` where it holds none.
pub open spec fn str_or(r: RecordView, key: Seq<char>, default: Seq<char>) -> Seq<char> {
    if r.attrs.contains_key(key) && r.attrs[key] is Str {
        r.attrs[key]->Str_0
    } else {
        default
    }
}

/// The flag that `key` holds in `r`, or `default` where it holds none.
pub open spec fn bool_or(r: RecordView, key: Seq<char>, default: bool) -> bool {
    if r.attrs.contains_key(key) && r.attrs[key] is Bool {
        r.attrs[key]->Bool_0
    } else {
        default
    }
}

/// Whether `key` holds a text in `r`.
pub open spec fn has_str_spec(r: RecordView, key: Seq<char>) -> bool {
    r.attrs.contains_key(key) && r.attrs[key] is Str
}

impl Record {
    #[verifier::type_invariant]
    closed spec fn inv(self) -> bool {
        names_distinct(self.attrs@)
    }

    /// A record with the given identifier and no attributes.
    pub fn new(id: u64) -> (r: Record)
        ensures
            r@.id == id,
            r@.attrs == Map::<Seq<char>, ValueView>::empty(),
    {
        Record { id, attrs: Vec::new() }
    }

    /// The identifier of the record.
    pub fn id(&self) -> (r: u64)
        ensures
            r == self@.id,
    {
        self.id
    }

    /// The value under `key`, if any.
    pub fn get(&self, key: &str) -> (r: Option<&Value>)
        ensures
            match r {
                Some(v) => self@.attrs.contains_key(key@) && self@.attrs[key@] == v@,
                None => !self@.attrs.contains_key(key@),
            },
    {
        proof {
            use_type_invariant(self);
        }
        let mut i: usize = 0;
        while i < self.attrs.len()
            invariant
                0 <= i <= self.attrs@.len(),
                names_distinct(self.attrs@),
                forall|j: int| 0 <= j < i ==> self.attrs@[j].0@ != key@,
            decreases self.attrs@.len() - i,
        {
            if self.attrs[i].0.as_str().eq(key) {
                proof {
                    lemma_attr_map_index(self.attrs@, i as int);
                }
                return Some(&self.attrs[i].1);
            }
            i = i + 1;
        }
        proof {
            lemma_attr_map_dom(self.attrs@, key@);
        }
        None
    }

    /// The text under `key`, or `default` where there is none.
    pub fn safe_str(&self, key: &str, default: &str) -> (r: String)
        ensures
            r@ == str_or(self@, key@, default@),
    {
        match self.get(key) {
            Some(Value::Str(s)) => s.clone(),
            _ => default.to_owned(),
        }
    }

    /// The flag under `key`, or `default` where there is none.
    pub fn safe_bool(&self, key: &str, default: bool) -> (r: bool)
        ensures
            r == bool_or(self@, key@, default),
    {
        match self.get(key) {
            Some(Value::Bool(b)) => *b,
            _ => default,
        }
    }

    /// Whether `key` holds a text.
    pub fn has_str(&self, key: &str) -> (r: bool)
        ensures
            r == has_str_spec(self@, key@),
    {
        match self.get(key) {
            Some(Value::Str(_)) => true,
            _ => false,
        }
    }

    /// The entries but the one named `key`.
    fn entries_without(&self, key: &str) -> (kept: Vec<(String, Value)>)
        ensures
            names_distinct(kept@),
            forall|j: int| 0 <= j < kept@.len() ==> kept@[j].0@ != key@,
            attr_map(kept@) == self@.attrs.remove(key@),
    {
        proof {
            use_type_invariant(self);
        }
        let ghost old_attrs = self.attrs@;
        let mut kept: Vec<(String, Value)> = Vec::new();
        let mut i: usize = 0;
        while i < self.attrs.len()
            invariant
                0 <= i <= self.attrs@.len(),
                self.attrs@ == old_attrs,
                names_distinct(old_attrs),
                names_distinct(kept@),
                forall|j: int| 0 <= j < kept@.len() ==> kept@[j].0@ != key@,
                forall|j: int| 0 <= j < kept@.len() ==>
                    exists|m: int| 0 <= m < i && old_attrs[m].0@ == #[trigger] kept@[j].0@,
                attr_map(kept@) == attr_map(old_attrs.take(i as int)).remove(key@),
            decreases self.attrs@.len() - i,
        {
            assert(old_attrs.take(i + 1).drop_last() == old_attrs.take(i as int));
            if !self.attrs[i].0.as_str().eq(key) {
                let name = self.attrs[i].0.clone();
                let value = self.attrs[i].1.duplicate();
                proof {
                    assert forall|j: int| 0 <= j < kept@.len() implies kept@[j].0@ != name@ by {
                        let m = choose|m: int| 0 <= m < i && old_attrs[m].0@ == #[trigger] kept@[j].0@;
                        assert(m != i);
                    }
                }
                let ghost before = kept@;
                kept.push((name, value));
                proof {
                    assert(kept@.drop_last() == before);
                    assert forall|j: int| 0 <= j < kept@.len() implies
                        exists|m: int| 0 <= m < i + 1 && old_attrs[m].0@ == #[trigger] kept@[j].0@ by {
                        if j == kept@.len() - 1 {
                            assert(old_attrs[i as int].0@ == kept@[j].0@);
                        } else {
                            assert(kept@[j] == before[j]);
                        }
                    }
                    assert(attr_map(kept@) =~= attr_map(old_attrs.take(i + 1)).remove(key@));
                }
            } else {
                proof {
                    assert(attr_map(kept@) =~= attr_map(old_attrs.take(i + 1)).remove(key@));
                }
            }
            i = i + 1;
        }
        assert(old_attrs.take(old_attrs.len() as int) == old_attrs);
        kept
    }

    /// Sets every attribute of `other` on this record, in place of what
    /// the same names held here; the others stay.
    pub fn merge(&mut self, other: &Record)
        ensures
            final(self)@.id == old(self)@.id,
            final(self)@.attrs == old(self)@.attrs.union_prefer_right(other@.attrs),
    {
        let ghost start = self@.attrs;
        let mut i: usize = 0;
        while i < other.attrs.len()
            invariant
                0 <= i <= other.attrs@.len(),
                self@.id == old(self)@.id,
                start == old(self)@.attrs,
                other@.attrs == attr_map(other.attrs@),
                self@.attrs == start.union_prefer_right(attr_map(other.attrs@.take(i as int))),
            decreases other.attrs@.len() - i,
        {
            let value = other.attrs[i].1.duplicate();
            self.set(other.attrs[i].0.as_str(), value);
            proof {
                let t = other.attrs@.take(i + 1);
                assert(t.drop_last() == other.attrs@.take(i as int));
                assert(self@.attrs =~= start.union_prefer_right(attr_map(t)));
            }
            i = i + 1;
        }
        assert(other.attrs@.take(other.attrs@.len() as int) == other.attrs@);
    }

    /// A record equal to this one.
    pub fn duplicate(&self) -> (r: Record)
        ensures
            r@ == self@,
    {
        let mut r = Record::new(self.id);
        r.merge(self);
        assert(r@.attrs =~= self@.attrs);
        r
    }

    /// Takes the attribute `key` out, whatever it holds.
    pub fn remove(&mut self, key: &str)
        ensures
            final(self)@.id == old(self)@.id,
            final(self)@.attrs == old(self)@.attrs.remove(key@),
    {
        self.attrs = self.entries_without(key);
    }

    /// Sets the attribute `key` to `value`, in place of what it held.
    pub fn set(&mut self, key: &str, value: Value)
        ensures
            final(self)@.id == old(self)@.id,
            final(self)@.attrs == old(self)@.attrs.insert(key@, value@),
    {
        let mut kept = self.entries_without(key);
        let ghost before = kept@;
        kept.push((key.to_owned(), value));
        proof {
            assert(kept@.drop_last() == before);
            assert(attr_map(kept@) =~= attr_map(before).insert(key@, value@));
        }
        self.attrs = kept;
        assert(self@.attrs =~= old(self)@.attrs.insert(key@, value@));
    }

    /// Sets the text attribute `key`.
    pub fn set_str(&mut self, key: &str, value: &str)
        ensures
            final(self)@.id == old(self)@.id,
            final(self)@.attrs == old(self)@.attrs.insert(key@, ValueView::Str(value@)),
    {
        self.set(key, Value::Str(value.to_owned()));
    }

    /// Sets the flag attribute `key`.
    pub fn set_bool(&mut self, key: &str, value: bool)
        ensures
            final(self)@.id == old(self)@.id,
            final(self)@.attrs == old(self)@.attrs.insert(key@, ValueView::Bool(value)),
    {
        self.set(key, Value::Bool(value));
    }
}

} // verus!
