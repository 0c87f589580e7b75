use vstd::prelude::*;
use crate::value::Value;
use crate::value::ValueView;
use crate::value::narrowed;

verus! {

/// The variable environment: names and the values bound to them. It
/// belongs to the front end, which lends it to the evaluator.
#[derive(Debug)]
pub struct Env {
    pub entries: Vec<(String, Value)>,
}

/// The views of the entries, in order.
pub open spec fn entry_views(entries: Seq<(String, Value)>) -> Seq<(Seq<char>, ValueView)> {
    Seq::new(entries.len(), |i: int| (entries[i].0@, entries[i].1@))
}

/// The value of the first entry under the name, from position `from` on.
pub open spec fn bound(entries: Seq<(Seq<char>, ValueView)>, name: Seq<char>, from: int) -> Option<
    ValueView,
>
    decreases entries.len() - from,
{
    if from < 0 || from >= entries.len() {
        None
    } else if entries[from].0 == name {
        Some(entries[from].1)
    } else {
        bound(entries, name, from + 1)
    }
}

/// Entries that differ at most in the values bound to one name bind every
/// other name alike.
pub proof fn lemma_bound_elsewhere(
    before: Seq<(Seq<char>, ValueView)>,
    after: Seq<(Seq<char>, ValueView)>,
    name: Seq<char>,
    other: Seq<char>,
    from: int,
)
    requires
        0 <= from,
        other != name,
        before.len() <= after.len(),
        forall|i: int| 0 <= i < before.len() ==> (#[trigger] before[i]).0 == after[i].0,
        forall|i: int| 0 <= i < before.len() && before[i].0 != name ==> before[i] == after[i],
        forall|i: int| before.len() <= i < after.len() ==> (#[trigger] after[i]).0 == name,
    ensures
        bound(after, other, from) == bound(before, other, from),
    decreases after.len() - from,
{
    if from < after.len() {
        lemma_bound_elsewhere(before, after, name, other, from + 1);
    }
}

/// Where no entry before position `at` carries the name and the entry at
/// `at` does, the name is bound to that entry's value.
pub proof fn lemma_bound_first(
    entries: Seq<(Seq<char>, ValueView)>,
    name: Seq<char>,
    at: int,
    from: int,
)
    requires
        0 <= from <= at < entries.len(),
        entries[at].0 == name,
        forall|i: int| from <= i < at ==> (#[trigger] entries[i]).0 != name,
    ensures
        bound(entries, name, from) == Some(entries[at].1),
    decreases at - from,
{
    if from < at {
        lemma_bound_first(entries, name, at, from + 1);
    }
}

/// Where no entry from `from` on carries the name, the name is unbound.
pub proof fn lemma_bound_none(entries: Seq<(Seq<char>, ValueView)>, name: Seq<char>, from: int)
    requires
        0 <= from,
        forall|i: int| from <= i < entries.len() ==> (#[trigger] entries[i]).0 != name,
    ensures
        bound(entries, name, from).is_none(),
    decreases entries.len() - from,
{
    if from < entries.len() {
        lemma_bound_none(entries, name, from + 1);
    }
}

impl View for Env {
    type V = Map<Seq<char>, ValueView>;

    /// The bindings: every bound name with the value of its first entry.
    open spec fn view(&self) -> Map<Seq<char>, ValueView> {
        Map::new(
            |name: Seq<char>| bound(entry_views(self.entries@), name, 0) is Some,
            |name: Seq<char>| bound(entry_views(self.entries@), name, 0)->0,
        )
    }
}

/// The bindings after a step that binds a name, or binds nothing.
pub open spec fn rebound(
    bindings: Map<Seq<char>, ValueView>,
    binding: Option<(Seq<char>, ValueView)>,
) -> Map<Seq<char>, ValueView> {
    match binding {
        Some((name, value)) => bindings.insert(name, value),
        None => bindings,
    }
}

impl Env {
    pub fn new() -> (env: Env)
        ensures
            env@ == Map::<Seq<char>, ValueView>::empty(),
    {
        let env = Env { entries: Vec::new() };
        assert(env@ =~= Map::<Seq<char>, ValueView>::empty());
        env
    }

    /// The position of the first entry under the name.
    fn position(&self, name: &String) -> (r: Option<usize>)
        ensures
            match r {
                Some(at) => at < self.entries.len() && self.entries[at as int].0@ == name@
                    && forall|i: int| 0 <= i < at ==> (#[trigger] self.entries[i]).0@ != name@,
                None => forall|i: int|
                    0 <= i < self.entries.len() ==> (#[trigger] self.entries[i]).0@ != name@,
            },
    {
        let mut i: usize = 0;
        while i < self.entries.len()
            invariant
                i <= self.entries.len(),
                forall|j: int| 0 <= j < i ==> (#[trigger] self.entries[j]).0@ != name@,
            decreases self.entries.len() - i,
        {
            let same: bool = self.entries[i].0 == *name;
            if same {
                return Some(i);
            }
            i += 1;
        }
        None
    }

    /// Binds a name to a value. An earlier binding of the name is
    /// replaced; every other name keeps its binding.
    pub fn set(&mut self, name: String, value: Value)
        ensures
            final(self)@ == old(self)@.insert(name@, value@),
    {
        let ghost before = entry_views(self.entries@);
        let ghost key = name@;
        let ghost content = value@;
        match self.position(&name) {
            Some(at) => {
                self.entries[at] = (name, value);
                proof {
                    let after = entry_views(self.entries@);
                    lemma_bound_first(after, key, at as int, 0);
                    assert forall|other: Seq<char>| other != key implies bound(after, other, 0)
                        == bound(before, other, 0) by {
                        lemma_bound_elsewhere(before, after, key, other, 0);
                    }
                }
            },
            None => {
                self.entries.push((name, value));
                proof {
                    let after = entry_views(self.entries@);
                    lemma_bound_first(after, key, before.len() as int, 0);
                    assert forall|other: Seq<char>| other != key implies bound(after, other, 0)
                        == bound(before, other, 0) by {
                        lemma_bound_elsewhere(before, after, key, other, 0);
                    }
                }
            },
        }
        assert(self@ =~= old(self)@.insert(key, content));
    }

    /// A copy of the value bound to a name.
    pub fn get(&self, name: &String) -> (r: Option<Value>)
        ensures
            match r {
                Some(v) => self@.contains_key(name@) && v@ == narrowed(self@[name@]),
                None => !self@.contains_key(name@),
            },
    {
        match self.position(name) {
            Some(at) => {
                proof {
                    lemma_bound_first(entry_views(self.entries@), name@, at as int, 0);
                }
                Some(self.entries[at].1.duplicate())
            },
            None => {
                proof {
                    lemma_bound_none(entry_views(self.entries@), name@, 0);
                }
                None
            },
        }
    }

    /// The number of names that are bound.
    pub fn len(&self) -> (n: usize)
        ensures
            n == self.entries.len(),
    {
        self.entries.len()
    }
}

} // verus!
