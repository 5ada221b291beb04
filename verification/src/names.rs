use crate::text::string_views;
use vstd::prelude::*;

verus! {

/// The names that a list holds, as a set.
pub open spec fn name_set(names: Seq<String>) -> Set<Seq<char>> {
    Set::new(|n: Seq<char>| string_views(names).contains(n))
}

/// Whether no name stands twice in the list.
pub open spec fn distinct_names(names: Seq<String>) -> bool {
    string_views(names).no_duplicates()
}

/// The entries of one directory: a list of names in which none stands twice.
#[derive(Debug)]
pub struct NameSet {
    pub names: Vec<String>,
}

impl View for NameSet {
    type V = Set<Seq<char>>;

    open spec fn view(&self) -> Set<Seq<char>> {
        name_set(self.names@)
    }
}

impl NameSet {
    /// Whether no name stands twice.
    pub open spec fn wf(&self) -> bool {
        distinct_names(self.names@)
    }

    /// A directory without entries.
    pub fn new() -> (out: NameSet)
        ensures
            out.wf(),
            out@ == Set::<Seq<char>>::empty(),
            out.names@.len() == 0,
    {
        let out = NameSet { names: Vec::new() };
        assert(out@ =~= Set::<Seq<char>>::empty());
        out
    }

    /// Where `name` stands in the list, if it does.
    pub fn position(&self, name: &String) -> (out: Option<usize>)
        ensures
            match out {
                Some(i) => i < self.names@.len() && self.names@[i as int]@ == name@,
                None => !self@.contains(name@),
            },
    {
        let mut i: usize = 0;
        while i < self.names.len()
            invariant
                i <= self.names.len(),
                forall|j: int| 0 <= j < i ==> self.names@[j]@ != name@,
            decreases self.names.len() - i,
        {
            if self.names[i] == *name {
                return Some(i);
            }
            i += 1;
        }
        assert(!self@.contains(name@)) by {
            if string_views(self.names@).contains(name@) {
                let j = choose|j: int|
                    0 <= j < string_views(self.names@).len() && string_views(self.names@)[j]
                        == name@;
                assert(self.names@[j]@ == name@);
            }
        }
        None
    }

    /// Whether the directory has an entry `name`.
    pub fn contains(&self, name: &String) -> (out: bool)
        ensures
            out == self@.contains(name@),
    {
        match self.position(name) {
            Some(i) => {
                assert(string_views(self.names@)[i as int] == name@);
                true
            },
            None => false,
        }
    }

    /// Adds the entry `name`; says whether it was new.
    pub fn insert(&mut self, name: String) -> (was_new: bool)
        requires
            old(self).wf(),
        ensures
            final(self).wf(),
            final(self)@ == old(self)@.insert(name@),
            was_new == !old(self)@.contains(name@),
            final(self).names@ == if was_new {
                old(self).names@.push(name)
            } else {
                old(self).names@
            },
    {
        if self.contains(&name) {
            assert(self@ =~= old(self)@.insert(name@));
            return false;
        }
        let ghost before = string_views(self.names@);
        self.names.push(name);
        proof {
            let after = string_views(self.names@);
            assert(after =~= before.push(name@));
            assert forall|n: Seq<char>| self@.contains(n) == old(self)@.insert(name@).contains(
                n,
            ) by {
                if before.contains(n) {
                    let j = choose|j: int| 0 <= j < before.len() && before[j] == n;
                    assert(after[j] == n);
                }
                if n == name@ {
                    assert(after[after.len() - 1] == n);
                }
            }
            assert(self@ =~= old(self)@.insert(name@));
            assert forall|i: int, j: int|
                0 <= i < after.len() && 0 <= j < after.len() && i != j implies after[i]
                != after[j] by {
                if i == before.len() {
                    assert(before[j] == after[j]);
                } else if j == before.len() {
                    assert(before[i] == after[i]);
                } else {
                    assert(before[i] == after[i] && before[j] == after[j]);
                }
            }
        }
        true
    }

    /// Takes the entry `name` away; says whether it was there.
    pub fn remove(&mut self, name: &String) -> (was_there: bool)
        requires
            old(self).wf(),
        ensures
            final(self).wf(),
            final(self)@ == old(self)@.remove(name@),
            was_there == old(self)@.contains(name@),
    {
        match self.position(name) {
            None => {
                assert(self@ =~= old(self)@.remove(name@));
                false
            },
            Some(at) => {
                let ghost before = string_views(self.names@);
                assert(before[at as int] == name@);
                self.names.remove(at);
                proof {
                    let after = string_views(self.names@);
                    assert(after =~= before.remove(at as int));
                    assert forall|n: Seq<char>| self@.contains(n) == old(self)@.remove(
                        name@,
                    ).contains(n) by {
                        if after.contains(n) {
                            let j = choose|j: int| 0 <= j < after.len() && after[j] == n;
                            if j < at {
                                assert(before[j] == n);
                            } else {
                                assert(before[j + 1] == n);
                            }
                        }
                        if before.contains(n) && n != name@ {
                            let j = choose|j: int| 0 <= j < before.len() && before[j] == n;
                            if j < at {
                                assert(after[j] == n);
                            } else {
                                assert(after[j - 1] == n);
                            }
                        }
                    }
                    assert(self@ =~= old(self)@.remove(name@));
                    assert forall|i: int, j: int|
                        0 <= i < after.len() && 0 <= j < after.len() && i != j implies after[i]
                        != after[j] by {
                        let bi = if i < at { i } else { i + 1 };
                        let bj = if j < at { j } else { j + 1 };
                        assert(before[bi] == after[i] && before[bj] == after[j]);
                    }
                }
                true
            },
        }
    }

    /// A directory with the given entries; a name that comes again is taken once.
    pub fn from_names(names: &Vec<String>) -> (out: NameSet)
        ensures
            out.wf(),
            out@ == name_set(names@),
    {
        let mut out = NameSet::new();
        let mut i: usize = 0;
        while i < names.len()
            invariant
                i <= names.len(),
                out.wf(),
                out@ == name_set(names@.take(i as int)),
            decreases names.len() - i,
        {
            let ghost before = out@;
            out.insert(names[i].clone());
            proof {
                let shorter = string_views(names@.take(i as int));
                let longer = string_views(names@.take(i + 1));
                assert(longer =~= shorter.push(names@[i as int]@));
                assert forall|n: Seq<char>| out@.contains(n) == name_set(
                    names@.take(i + 1),
                ).contains(n) by {
                    if shorter.contains(n) {
                        let j = choose|j: int| 0 <= j < shorter.len() && shorter[j] == n;
                        assert(longer[j] == n);
                    }
                    if n == names@[i as int]@ {
                        assert(longer[longer.len() - 1] == n);
                    }
                }
                assert(out@ =~= name_set(names@.take(i + 1)));
            }
            i += 1;
        }
        assert(names@.take(names@.len() as int) =~= names@);
        out
    }

    /// A copy of the directory.
    pub fn copy(&self) -> (out: NameSet)
        ensures
            string_views(out.names@) == string_views(self.names@),
            out@ == self@,
            out.wf() == self.wf(),
    {
        let mut names: Vec<String> = Vec::new();
        let mut i: usize = 0;
        while i < self.names.len()
            invariant
                i <= self.names.len(),
                string_views(names@) == string_views(self.names@.take(i as int)),
            decreases self.names.len() - i,
        {
            let ghost before = string_views(names@);
            names.push(self.names[i].clone());
            assert(string_views(names@) =~= before.push(self.names@[i as int]@));
            i += 1;
            assert(string_views(self.names@.take(i as int)) =~= before.push(
                self.names@[i - 1]@,
            ));
        }
        assert(self.names@.take(self.names@.len() as int) =~= self.names@);
        let out = NameSet { names };
        assert(out@ =~= self@);
        out
    }
}

} // verus!
