use vstd::prelude::*;

verus! {

/// The map that a list of (name, score) entries stands for: a later entry
/// for a name replaces an earlier one.
pub open spec fn entries_map(entries: Seq<(String, i32)>) -> Map<Seq<char>, i32>
    decreases entries.len(),
{
    if entries.len() == 0 {
        Map::empty()
    } else {
        entries_map(entries.drop_last()).insert(entries.last().0@, entries.last().1)
    }
}

/// Whether no name occurs twice in `entries`.
pub open spec fn names_distinct(entries: Seq<(String, i32)>) -> bool {
    forall|i: int, j: int|
        0 <= i < j < entries.len() ==> #[trigger] entries[i].0@ != #[trigger] entries[j].0@
}

proof fn lemma_entries_map_lookup(entries: Seq<(String, i32)>, name: Seq<char>)
    requires
        names_distinct(entries),
    ensures
        entries_map(entries).contains_key(name) <==> exists|k: int|
            0 <= k < entries.len() && #[trigger] entries[k].0@ == name,
        forall|k: int|
            0 <= k < entries.len() && #[trigger] entries[k].0@ == name ==> entries_map(entries)[name]
                == entries[k].1,
    decreases entries.len(),
{
    if entries.len() > 0 {
        let init = entries.drop_last();
        lemma_entries_map_lookup(init, name);
        if entries_map(entries).contains_key(name) && entries.last().0@ != name {
            let k = choose|k: int| 0 <= k < init.len() && #[trigger] init[k].0@ == name;
            assert(entries[k].0@ == name);
        }
        assert forall|k: int| 0 <= k < entries.len() && #[trigger] entries[k].0@ == name implies
            entries_map(entries)[name] == entries[k].1 by {
            if k < entries.len() - 1 {
                assert(init[k].0@ == name);
            }
        }
        if exists|k: int| 0 <= k < entries.len() && #[trigger] entries[k].0@ == name {
            let k = choose|k: int| 0 <= k < entries.len() && #[trigger] entries[k].0@ == name;
            if k < entries.len() - 1 {
                assert(init[k].0@ == name);
            }
        }
    }
}

proof fn lemma_entries_map_update(entries: Seq<(String, i32)>, k: int, entry: (String, i32))
    requires
        names_distinct(entries),
        0 <= k < entries.len(),
        entry.0@ == entries[k].0@,
    ensures
        entries_map(entries.update(k, entry)) == entries_map(entries).insert(entry.0@, entry.1),
        names_distinct(entries.update(k, entry)),
    decreases entries.len(),
{
    let updated = entries.update(k, entry);
    if k < entries.len() - 1 {
        lemma_entries_map_update(entries.drop_last(), k, entry);
        assert(updated.drop_last() =~= entries.drop_last().update(k, entry));
        assert(entries[k].0@ != entries.last().0@);
        assert(entries_map(updated) =~= entries_map(entries).insert(entry.0@, entry.1));
    } else {
        assert(updated.drop_last() =~= entries.drop_last());
        assert(entries_map(updated) =~= entries_map(entries).insert(entry.0@, entry.1));
    }
    assert forall|i: int, j: int| 0 <= i < j < updated.len() implies #[trigger] updated[i].0@
        != #[trigger] updated[j].0@ by {
        assert(entries[i].0@ != entries[j].0@);
    }
}

proof fn lemma_entries_map_remove(entries: Seq<(String, i32)>, k: int)
    requires
        names_distinct(entries),
        0 <= k < entries.len(),
    ensures
        entries_map(entries.remove(k)) == entries_map(entries).remove(entries[k].0@),
        names_distinct(entries.remove(k)),
    decreases entries.len(),
{
    let removed = entries.remove(k);
    let init = entries.drop_last();
    if k < entries.len() - 1 {
        lemma_entries_map_remove(init, k);
        assert(removed.drop_last() =~= init.remove(k));
        assert(removed.last() == entries.last());
        assert(entries[k].0@ != entries.last().0@);
        assert(entries_map(removed) =~= entries_map(entries).remove(entries[k].0@));
    } else {
        assert(removed =~= init);
        lemma_entries_map_lookup(init, entries[k].0@);
        if entries_map(init).contains_key(entries[k].0@) {
            let j = choose|j: int| 0 <= j < init.len() && #[trigger] init[j].0@ == entries[k].0@;
            assert(entries[j].0@ == entries[k].0@);
        }
        assert(entries_map(removed) =~= entries_map(entries).remove(entries[k].0@));
    }
    assert forall|i: int, j: int| 0 <= i < j < removed.len() implies #[trigger] removed[i].0@
        != #[trigger] removed[j].0@ by {
        let a = if i < k { i } else { i + 1 };
        let b = if j < k { j } else { j + 1 };
        assert(removed[i] == entries[a] && removed[j] == entries[b]);
        assert(entries[a].0@ != entries[b].0@);
    }
}

/// Scores by name, each name at most once.
pub struct ScoreBoard {
    entries: Vec<(String, i32)>,
}

impl View for ScoreBoard {
    type V = Map<Seq<char>, i32>;

    closed spec fn view(&self) -> Map<Seq<char>, i32> {
        entries_map(self.entries@)
    }
}

/// The score of `name` in `scores`, if it has one.
pub open spec fn score_of(scores: Map<Seq<char>, i32>, name: Seq<char>) -> Option<i32> {
    if scores.contains_key(name) {
        Some(scores[name])
    } else {
        None
    }
}

impl ScoreBoard {
    #[verifier::type_invariant]
    closed spec fn names_are_distinct(self) -> bool {
        names_distinct(self.entries@)
    }

    /// No scores.
    pub fn new() -> (b: Self)
        ensures
            b@ == Map::<Seq<char>, i32>::empty(),
    {
        ScoreBoard { entries: Vec::new() }
    }

    fn find(&self, name: &String) -> (k: Option<usize>)
        ensures
            match k {
                Some(k) => k < self.entries@.len() && self.entries@[k as int].0@ == name@,
                None => forall|j: int|
                    0 <= j < self.entries@.len() ==> #[trigger] self.entries@[j].0@ != name@,
            },
    {
        let mut j: usize = 0;
        while j < self.entries.len()
            invariant
                j <= self.entries@.len(),
                forall|i: int| 0 <= i < j ==> #[trigger] self.entries@[i].0@ != name@,
            decreases self.entries@.len() - j,
        {
            if self.entries[j].0 == *name {
                return Some(j);
            }
            j = j + 1;
        }
        None
    }

    proof fn lemma_found(self, name: Seq<char>, k: Option<usize>)
        requires
            names_distinct(self.entries@),
            match k {
                Some(k) => k < self.entries@.len() && self.entries@[k as int].0@ == name,
                None => forall|j: int|
                    0 <= j < self.entries@.len() ==> #[trigger] self.entries@[j].0@ != name,
            },
        ensures
            match k {
                Some(k) => self@.contains_key(name) && self@[name] == self.entries@[k as int].1,
                None => !self@.contains_key(name),
            },
    {
        lemma_entries_map_lookup(self.entries@, name);
    }

    /// The score of `name`, if it has one.
    pub fn get(&self, name: &String) -> (score: Option<i32>)
        ensures
            score == score_of(self@, name@),
    {
        proof {
            use_type_invariant(self);
        }
        let k = self.find(name);
        proof {
            self.lemma_found(name@, k);
        }
        match k {
            Some(k) => Some(self.entries[k].1),
            None => None,
        }
    }

    /// Sets the score of `name`, returning the score it replaced, if any.
    pub fn insert(&mut self, name: String, score: i32) -> (previous: Option<i32>)
        ensures
            previous == score_of(old(self)@, name@),
            final(self)@ == old(self)@.insert(name@, score),
    {
        proof {
            use_type_invariant(&*self);
        }
        let k = self.find(&name);
        proof {
            self.lemma_found(name@, k);
        }
        let mut entries: Vec<(String, i32)> = Vec::new();
        std::mem::swap(&mut self.entries, &mut entries);
        let previous = match k {
            Some(k) => {
                let old_score = entries[k].1;
                proof {
                    lemma_entries_map_update(entries@, k as int, (name, score));
                }
                entries.set(k, (name, score));
                Some(old_score)
            },
            None => {
                proof {
                    assert forall|i: int, j: int|
                        0 <= i < j < entries@.push((name, score)).len() implies #[trigger] entries@.push(
                        (name, score),
                    )[i].0@ != #[trigger] entries@.push((name, score))[j].0@ by {
                        if j == entries@.len() {
                            assert(entries@[i].0@ != name@);
                        }
                    }
                    assert(entries@.push((name, score)).drop_last() =~= entries@);
                }
                entries.push((name, score));
                None
            },
        };
        self.entries = entries;
        previous
    }

    /// Adds `delta` to the score of `name`, which starts at `default` when
    /// `name` has no score yet.
    pub fn or_insert_add(&mut self, name: String, default: i32, delta: i32)
        requires
            i32::MIN <= (match score_of(old(self)@, name@) {
                Some(s) => s,
                None => default,
            }) + delta <= i32::MAX,
        ensures
            final(self)@ == old(self)@.insert(
                name@,
                ((match score_of(old(self)@, name@) {
                    Some(s) => s,
                    None => default,
                }) + delta) as i32,
            ),
    {
        let current = match self.get(&name) {
            Some(s) => s,
            None => default,
        };
        self.insert(name, current + delta);
    }

    /// Removes `name`, returning its score, if it had one.
    pub fn remove(&mut self, name: &String) -> (removed: Option<i32>)
        ensures
            removed == score_of(old(self)@, name@),
            final(self)@ == old(self)@.remove(name@),
    {
        proof {
            use_type_invariant(&*self);
        }
        let k = self.find(name);
        proof {
            self.lemma_found(name@, k);
        }
        match k {
            Some(k) => {
                let mut entries: Vec<(String, i32)> = Vec::new();
                std::mem::swap(&mut self.entries, &mut entries);
                proof {
                    lemma_entries_map_remove(entries@, k as int);
                }
                let (_, score) = entries.remove(k);
                self.entries = entries;
                Some(score)
            },
            None => {
                proof {
                    assert(self@.remove(name@) =~= self@);
                }
                None
            },
        }
    }

    /// The entries, each name once, in the order they were first set.
    pub fn entries(&self) -> (entries: &Vec<(String, i32)>)
        ensures
            entries_map(entries@) == self@,
            names_distinct(entries@),
    {
        proof {
            use_type_invariant(self);
        }
        &self.entries
    }
}

} // verus!
