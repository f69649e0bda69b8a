//! Values under names, kept in the order of the names.
use crate::text::{is_before, same_text, text_before, text_order_is_total,
    text_order_is_transitive};
use vstd::prelude::*;

verus! {

/// A value under a name.
#[derive(Debug, Clone, PartialEq, Eq)]
pub struct Named<T> {
    pub name: String,
    pub value: T,
}

/// Values under different names, in the order of the names.
#[derive(Debug, Clone, PartialEq, Eq)]
pub struct NamedMap<T> {
    pub entries: Vec<Named<T>>,
}

/// The entries stand in the order of their names, none of which occurs twice.
pub open spec fn names_ascend<T>(entries: Seq<Named<T>>) -> bool {
    forall|i: int, j: int|
        0 <= i < j < entries.len() ==> text_before(
            (#[trigger] entries[i]).name@,
            (#[trigger] entries[j]).name@,
        )
}

/// Where `name` first stands; the number of entries where it does not.
pub open spec fn name_index<T>(entries: Seq<Named<T>>, name: Seq<char>) -> int
    decreases entries.len(),
{
    if entries.len() == 0 || entries[0].name@ == name {
        0
    } else {
        1 + name_index(entries.drop_first(), name)
    }
}

/// The value under `name`.
pub open spec fn value_of<T>(entries: Seq<Named<T>>, name: Seq<char>) -> Option<T> {
    let i = name_index(entries, name);
    if i < entries.len() {
        Some(entries[i].value)
    } else {
        None
    }
}

pub proof fn lemma_name_index<T>(entries: Seq<Named<T>>, name: Seq<char>)
    ensures
        0 <= name_index(entries, name) <= entries.len(),
        forall|i: int| 0 <= i < name_index(entries, name) ==> entries[i].name@ != name,
        name_index(entries, name) < entries.len() ==> entries[name_index(entries, name)].name@
            == name,
    decreases entries.len(),
{
    if entries.len() > 0 && entries[0].name@ != name {
        lemma_name_index(entries.drop_first(), name);
        assert forall|i: int| 0 <= i < name_index(entries, name) implies entries[i].name@
            != name by {
            if i > 0 {
                assert(entries.drop_first()[i - 1] == entries[i]);
            }
        }
    }
}

impl<T> NamedMap<T> {
    /// The entries stand in the order of their names, none of which occurs twice.
    pub open spec fn wf(self) -> bool {
        names_ascend(self.entries@)
    }

    /// No values.
    pub fn new() -> (r: NamedMap<T>)
        ensures
            r.entries@.len() == 0,
            r.wf(),
    {
        NamedMap { entries: Vec::new() }
    }

    /// Where `name` stands.
    pub fn position(&self, name: &str) -> (r: Option<usize>)
        ensures
            (match r {
                Some(i) => i == name_index(self.entries@, name@) && i < self.entries@.len(),
                None => name_index(self.entries@, name@) == self.entries@.len(),
            }),
    {
        for i in 0..self.entries.len()
            invariant
                forall|j: int| 0 <= j < i ==> (#[trigger] self.entries@[j]).name@ != name@,
        {
            if same_text(self.entries[i].name.as_str(), name) {
                proof {
                    lemma_name_index(self.entries@, name@);
                }
                return Some(i);
            }
        }
        proof {
            lemma_name_index(self.entries@, name@);
        }
        None
    }

    /// The value under `name`.
    pub fn get(&self, name: &str) -> (r: Option<&T>)
        ensures
            (match r {
                Some(value) => value_of(self.entries@, name@) == Some(*value),
                None => value_of(self.entries@, name@) is None,
            }),
    {
        match self.position(name) {
            Some(i) => Some(&self.entries[i].value),
            None => None,
        }
    }

    /// Puts a value under a new name; tells whether the name was new. A name that is taken
    /// keeps its value.
    pub fn insert(&mut self, name: String, value: T) -> (inserted: bool)
        requires
            old(self).wf(),
        ensures
            final(self).wf(),
            inserted == (value_of(old(self).entries@, name@) is None),
            !inserted ==> final(self).entries@ == old(self).entries@,
            inserted ==> exists|at: int|
                0 <= at <= old(self).entries@.len() && final(self).entries@ == #[trigger] old(
                    self,
                ).entries@.insert(at, Named { name, value }),
    {
        if self.position(name.as_str()).is_some() {
            return false;
        }
        proof {
            lemma_name_index(self.entries@, name@);
        }
        let mut at: usize = 0;
        while at < self.entries.len() && is_before(self.entries[at].name.as_str(), name.as_str())
            invariant
                at <= self.entries@.len(),
                self.entries@ == old(self).entries@,
                forall|j: int|
                    0 <= j < at ==> text_before((#[trigger] self.entries@[j]).name@, name@),
            decreases self.entries@.len() - at,
        {
            at = at + 1;
        }
        let ghost before = self.entries@;
        let ghost entry = Named { name, value };
        proof {
            if at < before.len() {
                text_order_is_total(before[at as int].name@, name@);
                assert(before[at as int].name@ != name@);
            }
        }
        self.entries.insert(at, Named { name, value });
        proof {
            let after = self.entries@;
            assert(after == before.insert(at as int, entry));
            assert forall|i: int, j: int| 0 <= i < j < after.len() implies text_before(
                (#[trigger] after[i]).name@,
                (#[trigger] after[j]).name@,
            ) by {
                if j == at {
                    assert(after[i] == before[i]);
                } else if i == at {
                    assert(after[j] == before[j - 1]);
                    if j - 1 > at {
                        assert(text_before(before[at as int].name@, before[j - 1].name@));
                        text_order_is_transitive(
                            entry.name@,
                            before[at as int].name@,
                            before[j - 1].name@,
                        );
                    }
                } else {
                    let x = if i < at { i } else { i - 1 };
                    let y = if j < at { j } else { j - 1 };
                    assert(after[i] == before[x] && after[j] == before[y]);
                }
            }
        }
        true
    }
}

/// What a list says of a name.
pub open spec fn listed<T>(list: Seq<Named<T>>, name: Seq<char>) -> Option<T>
    decreases list.len(),
{
    if list.len() == 0 {
        None
    } else if list.last().name@ == name {
        Some(list.last().value)
    } else {
        listed(list.drop_last(), name)
    }
}

/// The first name from `from` on that stands in the list before.
pub open spec fn first_repeat<T>(list: Seq<Named<T>>, from: int) -> Option<Seq<char>>
    decreases list.len() - from,
{
    if from >= list.len() {
        None
    } else if listed(list.take(from), list[from].name@) is Some {
        Some(list[from].name@)
    } else {
        first_repeat(list, from + 1)
    }
}

impl<T> NamedMap<T> {
    /// The values of a list, or the first name that stands in it twice.
    pub fn collect(list: Vec<Named<T>>) -> (r: Result<NamedMap<T>, String>)
        ensures
            (match r {
                Ok(map) => {
                    &&& first_repeat(list@, 0) is None
                    &&& map.wf()
                    &&& forall|name: Seq<char>| #[trigger]
                        value_of(map.entries@, name) == listed(list@, name)
                },
                Err(name) => first_repeat(list@, 0) == Some(name@),
            }),
    {
        let ghost all = list@;
        let mut rest = list;
        let mut map: NamedMap<T> = NamedMap::new();
        let ghost mut done: int = 0;
        while rest.len() > 0
            invariant
                all == list@,
                0 <= done <= all.len(),
                rest@ == all.skip(done),
                map.wf(),
                first_repeat(all, 0) == first_repeat(all, done),
                forall|name: Seq<char>| #[trigger]
                    value_of(map.entries@, name) == listed(all.take(done), name),
            decreases rest@.len(),
        {
            let entry = rest.remove(0);
            assert(entry == all[done]);
            assert(rest@ =~= all.skip(done + 1));
            let ghost before = map.entries@;
            assert(value_of(before, entry.name@) == listed(all.take(done), entry.name@));
            let name = entry.name.as_str().to_owned();
            if !map.insert(entry.name, entry.value) {
                return Err(name);
            }
            proof {
                let at = choose|at: int|
                    0 <= at <= before.len() && map.entries@ == #[trigger] before.insert(at, entry);
                assert(all.take(done + 1).drop_last() == all.take(done));
                assert forall|asked: Seq<char>| #[trigger]
                    value_of(map.entries@, asked) == listed(all.take(done + 1), asked) by {
                    insert_then_get(before, at, entry.name, entry.value, asked);
                    assert(value_of(before, asked) == listed(all.take(done), asked));
                }
                done = done + 1;
            }
        }
        assert(all.take(done) == all);
        Ok(map)
    }
}

/// In a map a name stands for the value that was put under it, and every other name for what
/// it stood for before.
pub proof fn insert_then_get<T>(
    entries: Seq<Named<T>>,
    at: int,
    name: String,
    value: T,
    asked: Seq<char>,
)
    requires
        0 <= at <= entries.len(),
        names_ascend(entries.insert(at, Named { name, value })),
        value_of(entries, name@) is None,
    ensures
        value_of(entries.insert(at, Named { name, value }), asked) == if asked == name@ {
            Some(value)
        } else {
            value_of(entries, asked)
        },
{
    let after = entries.insert(at, Named { name, value });
    lemma_name_index(entries, asked);
    lemma_name_index(entries, name@);
    lemma_name_index(after, asked);
    let i = name_index(after, asked);
    let k = name_index(entries, asked);
    assert(after[at].name@ == name@);
    if asked == name@ {
        assert(i <= at);
        if i < at {
            assert(after[i] == entries[i]);
        }
    } else {
        if i < after.len() {
            let x = if i < at { i } else { i - 1 };
            assert(after[i] == entries[x]);
            assert(k <= x);
            let y = if k < at { k } else { k + 1 };
            assert(after[y] == entries[k]);
            assert(i <= y);
        } else if k < entries.len() {
            let y = if k < at { k } else { k + 1 };
            assert(after[y] == entries[k]);
        }
    }
}

/// Names and the texts that stand under them.
pub open spec fn text_map(entries: Seq<Named<String>>) -> Map<Seq<char>, Seq<char>> {
    Map::new(
        |name: Seq<char>| value_of(entries, name) is Some,
        |name: Seq<char>| value_of(entries, name)->0@,
    )
}

proof fn lemma_replaced<T>(entries: Seq<Named<T>>, at: int, entry: Named<T>, asked: Seq<char>)
    requires
        0 <= at < entries.len(),
        at == name_index(entries, entry.name@),
    ensures
        value_of(entries.update(at, entry), asked) == if asked == entry.name@ {
            Some(entry.value)
        } else {
            value_of(entries, asked)
        },
{
    let after = entries.update(at, entry);
    lemma_name_index(entries, asked);
    lemma_name_index(entries, entry.name@);
    lemma_name_index(after, asked);
    let i = name_index(after, asked);
    let k = name_index(entries, asked);
    if i < after.len() {
        assert(after[i].name@ == entries[i].name@);
        assert(k <= i);
    }
    if k < entries.len() {
        assert(after[k].name@ == entries[k].name@);
        assert(i <= k);
    }
}

impl NamedMap<String> {
    /// Puts a text under a name, in place of one that stands there.
    pub fn put(&mut self, name: &str, value: &str)
        requires
            old(self).wf(),
        ensures
            final(self).wf(),
            text_map(final(self).entries@) == text_map(old(self).entries@).insert(name@, value@),
    {
        let ghost before = self.entries@;
        match self.position(name) {
            Some(at) => {
                let entry = Named { name: name.to_owned(), value: value.to_owned() };
                self.entries.set(at, entry);
                proof {
                    lemma_name_index(before, name@);
                    let after = self.entries@;
                    assert(after == before.update(at as int, entry));
                    assert forall|i: int| 0 <= i < after.len() implies (
                    #[trigger] after[i]).name@ == before[i].name@ by {}
                    assert forall|i: int, j: int| 0 <= i < j < after.len() implies text_before(
                        (#[trigger] after[i]).name@,
                        (#[trigger] after[j]).name@,
                    ) by {
                        assert(text_before(before[i].name@, before[j].name@));
                    }
                    assert forall|asked: Seq<char>| #[trigger] value_of(after, asked)
                        == if asked == name@ {
                        Some(entry.value)
                    } else {
                        value_of(before, asked)
                    } by {
                        lemma_replaced(before, at as int, entry, asked);
                    }
                    assert(text_map(after) =~= text_map(before).insert(name@, value@));
                }
            },
            None => {
                let entry_name = name.to_owned();
                let entry_value = value.to_owned();
                let inserted = self.insert(entry_name, entry_value);
                proof {
                    let after = self.entries@;
                    let at = choose|at: int|
                        0 <= at <= before.len() && after == #[trigger] before.insert(
                            at,
                            Named { name: entry_name, value: entry_value },
                        );
                    assert forall|asked: Seq<char>| #[trigger] value_of(after, asked)
                        == if asked == name@ {
                        Some(entry_value)
                    } else {
                        value_of(before, asked)
                    } by {
                        insert_then_get(before, at, entry_name, entry_value, asked);
                    }
                    assert(text_map(after) =~= text_map(before).insert(name@, value@));
                }
            },
        }
    }
}

} // verus!
