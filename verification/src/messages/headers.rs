//! The header fields of a frame: a map from names to values that keeps the
//! order in which the names first came.

use crate::text::same_text;
use vstd::prelude::*;

verus! {

/// One header field.
#[derive(Debug)]
pub struct Header {
    pub name: String,
    pub value: String,
}

/// The header fields of a frame. A name occurs at most once.
#[derive(Debug)]
pub struct Headers {
    entries: Vec<Header>,
}

/// The map that a list of fields stands for, where a later field replaces an
/// earlier one of the same name.
pub open spec fn header_map(entries: Seq<Header>) -> Map<Seq<char>, Seq<char>>
    decreases entries.len(),
{
    if entries.len() == 0 {
        Map::empty()
    } else {
        header_map(entries.drop_last()).insert(entries.last().name@, entries.last().value@)
    }
}

/// No two fields of the list have the same name.
pub open spec fn distinct_names(entries: Seq<Header>) -> bool {
    forall|i: int, j: int|
        0 <= i < j < entries.len() ==> (#[trigger] entries[i]).name@ != (#[trigger] entries[j]).name@
}

/// The map holds exactly the names of the list.
pub proof fn lemma_header_map_keys(entries: Seq<Header>, name: Seq<char>)
    ensures
        header_map(entries).contains_key(name) <==> exists|i: int|
            0 <= i < entries.len() && (#[trigger] entries[i]).name@ == name,
    decreases entries.len(),
{
    if entries.len() > 0 {
        let front = entries.drop_last();
        lemma_header_map_keys(front, name);
        if header_map(entries).contains_key(name) {
            if entries.last().name@ == name {
                assert(entries[entries.len() - 1].name@ == name);
            } else {
                let i = choose|i: int| 0 <= i < front.len() && (#[trigger] front[i]).name@ == name;
                assert(entries[i].name@ == name);
            }
        }
        if exists|i: int| 0 <= i < entries.len() && (#[trigger] entries[i]).name@ == name {
            let i = choose|i: int| 0 <= i < entries.len() && (#[trigger] entries[i]).name@ == name;
            if i < entries.len() - 1 {
                assert(front[i].name@ == name);
            }
        }
    }
}

/// Where names are distinct, the map gives each field its own value.
pub proof fn lemma_header_map_value(entries: Seq<Header>, i: int)
    requires
        distinct_names(entries),
        0 <= i < entries.len(),
    ensures
        header_map(entries).contains_key(entries[i].name@),
        header_map(entries)[entries[i].name@] == entries[i].value@,
    decreases entries.len(),
{
    let front = entries.drop_last();
    if i < entries.len() - 1 {
        assert(distinct_names(front)) by {
            assert forall|a: int, b: int| 0 <= a < b < front.len() implies (#[trigger] front[a]).name@
                != (#[trigger] front[b]).name@ by {
                assert(front[a] == entries[a]);
                assert(front[b] == entries[b]);
            }
        }
        lemma_header_map_value(front, i);
        assert(front[i] == entries[i]);
        assert(entries[i].name@ != entries[entries.len() - 1].name@);
    }
}

/// Where names are distinct, the map has as many names as the list has
/// fields.
pub proof fn lemma_header_map_len(entries: Seq<Header>)
    requires
        distinct_names(entries),
    ensures
        header_map(entries).dom().finite(),
        header_map(entries).dom().len() == entries.len(),
    decreases entries.len(),
{
    if entries.len() > 0 {
        let front = entries.drop_last();
        assert(distinct_names(front)) by {
            assert forall|a: int, b: int| 0 <= a < b < front.len() implies (#[trigger] front[a]).name@
                != (#[trigger] front[b]).name@ by {
                assert(front[a] == entries[a]);
                assert(front[b] == entries[b]);
            }
        }
        lemma_header_map_len(front);
        lemma_header_map_keys(front, entries.last().name@);
        if header_map(front).contains_key(entries.last().name@) {
            let i = choose|i: int|
                0 <= i < front.len() && (#[trigger] front[i]).name@ == entries.last().name@;
            assert(front[i] == entries[i]);
            assert(entries[i].name@ != entries[entries.len() - 1].name@);
        }
    }
}

/// Replacing the value of a field is inserting its name with that value.
pub proof fn lemma_header_map_update(entries: Seq<Header>, i: int, h: Header)
    requires
        distinct_names(entries),
        0 <= i < entries.len(),
        h.name@ == entries[i].name@,
    ensures
        distinct_names(entries.update(i, h)),
        header_map(entries.update(i, h)) == header_map(entries).insert(h.name@, h.value@),
    decreases entries.len(),
{
    let updated = entries.update(i, h);
    assert(distinct_names(updated)) by {
        assert forall|a: int, b: int| 0 <= a < b < updated.len() implies (#[trigger] updated[a]).name@
            != (#[trigger] updated[b]).name@ by {
            assert(updated[a].name@ == entries[a].name@);
            assert(updated[b].name@ == entries[b].name@);
        }
    }
    let front = entries.drop_last();
    if i == entries.len() - 1 {
        assert(updated.drop_last() =~= front);
        assert(header_map(updated) =~= header_map(entries).insert(h.name@, h.value@));
    } else {
        assert(distinct_names(front)) by {
            assert forall|a: int, b: int| 0 <= a < b < front.len() implies (#[trigger] front[a]).name@
                != (#[trigger] front[b]).name@ by {
                assert(front[a] == entries[a]);
                assert(front[b] == entries[b]);
            }
        }
        assert(front[i] == entries[i]);
        lemma_header_map_update(front, i, h);
        assert(updated.drop_last() =~= front.update(i, h));
        assert(updated.last() == entries.last());
        assert(entries[i].name@ != entries[entries.len() - 1].name@);
        assert(header_map(updated) =~= header_map(entries).insert(h.name@, h.value@));
    }
}

impl View for Headers {
    type V = Map<Seq<char>, Seq<char>>;

    open spec fn view(&self) -> Map<Seq<char>, Seq<char>> {
        header_map(self.fields())
    }
}

impl Headers {
    /// No name occurs twice among the fields.
    pub open spec fn wf(&self) -> bool {
        distinct_names(self.fields())
    }

    /// The fields in the order in which their names first came.
    pub closed spec fn fields(&self) -> Seq<Header> {
        self.entries@
    }

    /// No header fields.
    pub fn new() -> (headers: Headers)
        ensures
            headers.wf(),
            headers.fields() == Seq::<Header>::empty(),
            headers@ == Map::<Seq<char>, Seq<char>>::empty(),
    {
        Headers { entries: Vec::new() }
    }

    /// Position of the field called `name`, if there is one.
    fn position(&self, name: &str) -> (at: Option<usize>)
        ensures
            match at {
                Some(i) => i < self.entries@.len() && self.entries@[i as int].name@ == name@,
                None => !self@.contains_key(name@),
            },
    {
        let mut i: usize = 0;
        while i < self.entries.len()
            invariant
                i <= self.entries.len(),
                forall|j: int| 0 <= j < i ==> (#[trigger] self.entries@[j]).name@ != name@,
            decreases self.entries.len() - i,
        {
            if same_text(self.entries[i].name.as_str(), name) {
                return Some(i);
            }
            i += 1;
        }
        proof {
            lemma_header_map_keys(self.entries@, name@);
        }
        None
    }

    /// Sets the field called `name` to `value`, in the place of an earlier
    /// field of that name or behind all others.
    pub fn insert(&mut self, name: String, value: String)
        requires
            old(self).wf(),
        ensures
            final(self).wf(),
            final(self)@ == old(self)@.insert(name@, value@),
    {
        match self.position(name.as_str()) {
            Some(i) => {
                let h = Header { name, value };
                proof {
                    lemma_header_map_update(self.entries@, i as int, h);
                }
                self.entries[i] = h;
            },
            None => {
                let h = Header { name, value };
                proof {
                    lemma_header_map_keys(self.entries@, h.name@);
                    let pushed = self.entries@.push(h);
                    assert(pushed.drop_last() =~= self.entries@);
                    assert(distinct_names(pushed)) by {
                        assert forall|a: int, b: int| 0 <= a < b < pushed.len() implies (
                        #[trigger] pushed[a]).name@ != (#[trigger] pushed[b]).name@ by {
                            assert(pushed[a] == self.entries@[a]);
                            if b < pushed.len() - 1 {
                                assert(pushed[b] == self.entries@[b]);
                            }
                        }
                    }
                }
                self.entries.push(h);
            },
        }
    }

    /// The value of the field called `name`, if there is one.
    pub fn get(&self, name: &str) -> (value: Option<&String>)
        requires
            self.wf(),
        ensures
            match value {
                Some(v) => self@.contains_key(name@) && self@[name@] == v@,
                None => !self@.contains_key(name@),
            },
    {
        match self.position(name) {
            Some(i) => {
                proof {
                    lemma_header_map_value(self.entries@, i as int);
                }
                Some(&self.entries[i].value)
            },
            None => None,
        }
    }

    /// Whether there is a field called `name`.
    pub fn contains_key(&self, name: &str) -> (found: bool)
        requires
            self.wf(),
        ensures
            found == self@.contains_key(name@),
    {
        self.get(name).is_some()
    }

    /// The fields in the order in which their names first came.
    pub fn entries(&self) -> (entries: &Vec<Header>)
        ensures
            entries@ == self.fields(),
    {
        &self.entries
    }

    /// Number of fields.
    pub fn len(&self) -> (n: usize)
        requires
            self.wf(),
        ensures
            n == self.fields().len(),
            n == self@.dom().len(),
    {
        proof {
            lemma_header_map_len(self.entries@);
        }
        self.entries.len()
    }
}

} // verus!
