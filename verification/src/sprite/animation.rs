//! Animation tracks, and the map that finds them by name.

use vstd::prelude::*;

use crate::strings::str_eq;

verus! {

#[derive(Debug, Clone, Copy, PartialEq, Eq, Structural)]
pub struct Frame {
    pub sprite_index: usize,
    pub duration_ms: u64,
}

#[derive(Debug, PartialEq, Eq)]
pub struct Animation {
    pub frames: Vec<Frame>,
    /// `Some(i)` = wrap to frame `i` after the last frame; `None` = one-shot
    /// that hands off to `fallback`.
    pub loop_start: Option<usize>,
    pub fallback: String,
}

/// What an `Animation` holds.
#[verifier::ext_equal]
pub struct AnimationView {
    pub frames: Seq<Frame>,
    pub loop_start: Option<usize>,
    pub fallback: Seq<char>,
}

impl View for Animation {
    type V = AnimationView;

    open spec fn view(&self) -> AnimationView {
        AnimationView { frames: self.frames@, loop_start: self.loop_start, fallback: self.fallback@ }
    }
}

impl Clone for Animation {
    fn clone(&self) -> (copy: Self)
        ensures
            copy@ == self@,
    {
        let mut frames: Vec<Frame> = Vec::new();
        let mut i: usize = 0;
        while i < self.frames.len()
            invariant
                i <= self.frames@.len(),
                frames@ == self.frames@.take(i as int),
            decreases self.frames@.len() - i,
        {
            frames.push(self.frames[i]);
            assert(self.frames@.take(i + 1) =~= self.frames@.take(i as int).push(self.frames@[i as int]));
            i += 1;
        }
        assert(self.frames@.take(i as int) =~= self.frames@);
        Animation { frames, loop_start: self.loop_start, fallback: self.fallback.clone() }
    }
}

/// Animations by name. Each name occurs once; entries keep the order in which
/// their names were first inserted.
#[derive(Debug)]
pub struct AnimationMap {
    entries: Vec<(String, Animation)>,
}

/// No name occurs twice.
pub open spec fn distinct_names(entries: Seq<(String, Animation)>) -> bool {
    forall|i: int, j: int| #![trigger entries[i], entries[j]]
        0 <= i < j < entries.len() ==> entries[i].0@ != entries[j].0@
}

/// Where `name` stands among the entries.
pub open spec fn entry_named(entries: Seq<(String, Animation)>, name: Seq<char>, i: int) -> bool {
    0 <= i < entries.len() && entries[i].0@ == name
}

/// The map from names to animations that the entries make up.
pub open spec fn entries_map(entries: Seq<(String, Animation)>) -> Map<Seq<char>, AnimationView> {
    Map::new(
        |name: Seq<char>| exists|i: int| entry_named(entries, name, i),
        |name: Seq<char>| entries[choose|i: int| entry_named(entries, name, i)].1@,
    )
}

impl View for AnimationMap {
    type V = Map<Seq<char>, AnimationView>;

    closed spec fn view(&self) -> Map<Seq<char>, AnimationView> {
        entries_map(self.entries@)
    }
}

proof fn lemma_entry(entries: Seq<(String, Animation)>, i: int)
    requires
        distinct_names(entries),
        0 <= i < entries.len(),
    ensures
        entries_map(entries).dom().contains(entries[i].0@),
        entries_map(entries)[entries[i].0@] == entries[i].1@,
{
    let name = entries[i].0@;
    assert(entry_named(entries, name, i));
    let j = choose|j: int| entry_named(entries, name, j);
    assert(entry_named(entries, name, j));
    if i != j {
        assert(entries[i].0@ == entries[j].0@);
    }
}

impl AnimationMap {
    #[verifier::type_invariant]
    spec fn inv(self) -> bool {
        distinct_names(self.entries@)
    }

    /// The animations in their stored order.
    pub closed spec fn listed(&self) -> Seq<(String, Animation)> {
        self.entries@
    }

    pub fn new() -> (map: Self)
        ensures
            map@ == Map::<Seq<char>, AnimationView>::empty(),
    {
        let map = AnimationMap { entries: Vec::new() };
        assert(map@ =~= Map::<Seq<char>, AnimationView>::empty());
        map
    }

    pub fn len(&self) -> (n: usize)
        ensures
            n == self.listed().len(),
            distinct_names(self.listed()),
            self@ == entries_map(self.listed()),
    {
        proof {
            use_type_invariant(self);
        }
        self.entries.len()
    }

    /// Name of the `i`-th entry.
    pub fn name_at(&self, i: usize) -> (name: &str)
        requires
            i < self.listed().len(),
        ensures
            name@ == self.listed()[i as int].0@,
            self@.dom().contains(name@),
    {
        proof {
            use_type_invariant(self);
            lemma_entry(self.entries@, i as int);
        }
        self.entries[i].0.as_str()
    }

    /// Animation of the `i`-th entry.
    pub fn at(&self, i: usize) -> (animation: &Animation)
        requires
            i < self.listed().len(),
        ensures
            *animation == self.listed()[i as int].1,
            self@[self.listed()[i as int].0@] == animation@,
    {
        proof {
            use_type_invariant(self);
            lemma_entry(self.entries@, i as int);
        }
        &self.entries[i].1
    }

    fn find(&self, name: &str) -> (at: Option<usize>)
        ensures
            match at {
                Some(i) => entry_named(self.entries@, name@, i as int),
                None => forall|i: int| 0 <= i < self.entries@.len() ==> self.entries@[i].0@ != name@,
            },
    {
        let mut i: usize = 0;
        while i < self.entries.len()
            invariant
                i <= self.entries@.len(),
                forall|k: int| 0 <= k < i ==> self.entries@[k].0@ != name@,
            decreases self.entries@.len() - i,
        {
            if str_eq(self.entries[i].0.as_str(), name) {
                return Some(i);
            }
            i += 1;
        }
        None
    }

    pub fn contains_key(&self, name: &str) -> (found: bool)
        ensures
            found == self@.dom().contains(name@),
    {
        self.get(name).is_some()
    }

    pub fn get(&self, name: &str) -> (found: Option<&Animation>)
        ensures
            match found {
                Some(a) => self@.dom().contains(name@) && a@ == self@[name@],
                None => !self@.dom().contains(name@),
            },
    {
        proof {
            use_type_invariant(self);
        }
        match self.find(name) {
            Some(i) => {
                proof {
                    lemma_entry(self.entries@, i as int);
                }
                Some(&self.entries[i].1)
            },
            None => None,
        }
    }

    /// Add an animation, in place of the one that had the name before, if any.
    pub fn insert(&mut self, name: String, animation: Animation)
        ensures
            final(self)@ == old(self)@.insert(name@, animation@),
    {
        proof {
            use_type_invariant(&*self);
        }
        let ghost before = self.entries@;
        let at = self.find(name.as_str());
        let mut entries: Vec<(String, Animation)> = Vec::new();
        std::mem::swap(&mut entries, &mut self.entries);
        match at {
            Some(i) => {
                let ghost entry = (name, animation);
                entries.set(i, (name, animation));
                assert(entries@ == before.update(i as int, entry));
                assert(distinct_names(entries@));
                proof {
                    lemma_replaced(before, i as int, entry);
                }
            },
            None => {
                let ghost entry = (name, animation);
                entries.push((name, animation));
                assert(entries@ == before.push(entry));
                assert(distinct_names(entries@));
                proof {
                    lemma_added(before, entry);
                }
            },
        }
        self.entries = entries;
    }
}

proof fn lemma_replaced(before: Seq<(String, Animation)>, i: int, entry: (String, Animation))
    requires
        distinct_names(before),
        0 <= i < before.len(),
        before[i].0@ == entry.0@,
    ensures
        entries_map(before.update(i, entry)) == entries_map(before).insert(entry.0@, entry.1@),
{
    let after = before.update(i, entry);
    let l = entries_map(after);
    let r = entries_map(before).insert(entry.0@, entry.1@);
    assert(distinct_names(after));
    assert forall|n: Seq<char>| #[trigger] l.dom().contains(n) == r.dom().contains(n) by {
        if l.dom().contains(n) {
            let k = choose|k: int| entry_named(after, n, k);
            assert(entry_named(before, n, k));
        }
        if entries_map(before).dom().contains(n) {
            let k = choose|k: int| entry_named(before, n, k);
            assert(entry_named(after, n, k));
        }
        assert(entry_named(after, entry.0@, i));
    }
    assert forall|n: Seq<char>| #[trigger] l.dom().contains(n) implies l[n] == r[n] by {
        let k = choose|k: int| entry_named(after, n, k);
        lemma_entry(after, k);
        lemma_entry(before, k);
    }
    assert(l =~= r);
}

proof fn lemma_added(before: Seq<(String, Animation)>, entry: (String, Animation))
    requires
        distinct_names(before),
        forall|i: int| 0 <= i < before.len() ==> before[i].0@ != entry.0@,
    ensures
        entries_map(before.push(entry)) == entries_map(before).insert(entry.0@, entry.1@),
{
    let after = before.push(entry);
    let l = entries_map(after);
    let r = entries_map(before).insert(entry.0@, entry.1@);
    assert(distinct_names(after));
    assert forall|n: Seq<char>| #[trigger] l.dom().contains(n) == r.dom().contains(n) by {
        if l.dom().contains(n) {
            let k = choose|k: int| entry_named(after, n, k);
            if k < before.len() {
                assert(entry_named(before, n, k));
            }
        }
        if entries_map(before).dom().contains(n) {
            let k = choose|k: int| entry_named(before, n, k);
            assert(entry_named(after, n, k));
        }
        assert(entry_named(after, entry.0@, before.len() as int));
    }
    assert forall|n: Seq<char>| #[trigger] l.dom().contains(n) implies l[n] == r[n] by {
        let k = choose|k: int| entry_named(after, n, k);
        lemma_entry(after, k);
        if k < before.len() {
            lemma_entry(before, k);
        }
    }
    assert(l =~= r);
}

impl Clone for AnimationMap {
    fn clone(&self) -> (copy: Self)
        ensures
            copy@ == self@,
    {
        proof {
            use_type_invariant(self);
        }
        let mut entries: Vec<(String, Animation)> = Vec::new();
        let mut i: usize = 0;
        while i < self.entries.len()
            invariant
                i <= self.entries@.len(),
                entries@.len() == i,
                forall|k: int| 0 <= k < i ==> (#[trigger] entries@[k]).0@ == self.entries@[k].0@ && entries@[k].1@
                    == self.entries@[k].1@,
            decreases self.entries@.len() - i,
        {
            entries.push((self.entries[i].0.clone(), self.entries[i].1.clone()));
            i += 1;
        }
        proof {
            lemma_same_entries(self.entries@, entries@);
        }
        AnimationMap { entries }
    }
}

proof fn lemma_same_entries(a: Seq<(String, Animation)>, b: Seq<(String, Animation)>)
    requires
        distinct_names(a),
        a.len() == b.len(),
        forall|k: int| 0 <= k < a.len() ==> (#[trigger] b[k]).0@ == a[k].0@ && b[k].1@ == a[k].1@,
    ensures
        distinct_names(b),
        entries_map(a) == entries_map(b),
{
    assert forall|i: int, j: int| #![trigger b[i], b[j]] 0 <= i < j < b.len() implies b[i].0@ != b[j].0@ by {
        assert(a[i].0@ != a[j].0@);
    }
    let l = entries_map(a);
    let r = entries_map(b);
    assert forall|n: Seq<char>| #[trigger] l.dom().contains(n) == r.dom().contains(n) by {
        if l.dom().contains(n) {
            let k = choose|k: int| entry_named(a, n, k);
            assert(entry_named(b, n, k));
        }
        if r.dom().contains(n) {
            let k = choose|k: int| entry_named(b, n, k);
            assert(entry_named(a, n, k));
        }
    }
    assert forall|n: Seq<char>| #[trigger] l.dom().contains(n) implies l[n] == r[n] by {
        let k = choose|k: int| entry_named(a, n, k);
        lemma_entry(a, k);
        lemma_entry(b, k);
    }
    assert(l =~= r);
}

} // verus!
