//! Sets of names, kept in the order in which they came.

use crate::text::{same, views};
use vstd::prelude::*;

verus! {

/// The names of `s` other than `name`.
pub open spec fn without(s: Seq<Seq<char>>, name: Seq<char>) -> Seq<Seq<char>>
    decreases s.len(),
{
    if s.len() == 0 {
        seq![]
    } else if s.last() == name {
        without(s.drop_last(), name)
    } else {
        without(s.drop_last(), name).push(s.last())
    }
}

/// The names of `s` that are among `live`.
pub open spec fn among(s: Seq<Seq<char>>, live: Seq<Seq<char>>) -> Seq<Seq<char>>
    decreases s.len(),
{
    if s.len() == 0 {
        seq![]
    } else if live.contains(s.last()) {
        among(s.drop_last(), live).push(s.last())
    } else {
        among(s.drop_last(), live)
    }
}

/// The names of `s` that are not among `live`.
pub open spec fn not_among(s: Seq<Seq<char>>, live: Seq<Seq<char>>) -> Seq<Seq<char>>
    decreases s.len(),
{
    if s.len() == 0 {
        seq![]
    } else if live.contains(s.last()) {
        not_among(s.drop_last(), live)
    } else {
        not_among(s.drop_last(), live).push(s.last())
    }
}

/// `name` added at the end, unless it is there.
pub open spec fn with(s: Seq<Seq<char>>, name: Seq<char>) -> Seq<Seq<char>> {
    if s.contains(name) {
        s
    } else {
        s.push(name)
    }
}

/// `without` keeps every other name, once.
pub proof fn lemma_without(s: Seq<Seq<char>>, name: Seq<char>)
    requires
        s.no_duplicates(),
    ensures
        forall|x: Seq<char>| #[trigger] without(s, name).contains(x) <==> s.contains(x) && x != name,
        without(s, name).no_duplicates(),
        without(s, name).len() <= s.len(),
    decreases s.len(),
{
    if s.len() > 0 {
        let t = s.drop_last();
        lemma_without(t, name);
        let r = without(t, name);
        lemma_last(s);
        if s.last() == name {
            assert forall|x: Seq<char>| #[trigger] r.contains(x) <==> s.contains(x) && x != name by {
                assert(s.contains(x) <==> t.contains(x) || x == s.last());
            }
        } else {
            lemma_push(r, s.last());
            assert forall|x: Seq<char>| #[trigger] without(s, name).contains(x) <==> s.contains(x) && x != name by {
                assert(s.contains(x) <==> t.contains(x) || x == s.last());
                assert(r.push(s.last()).contains(x) <==> r.contains(x) || x == s.last());
            }
        }
    }
}

/// `among` and `not_among` part the names in two, in order.
pub proof fn lemma_among(s: Seq<Seq<char>>, live: Seq<Seq<char>>)
    requires
        s.no_duplicates(),
    ensures
        forall|x: Seq<char>| #[trigger] among(s, live).contains(x) <==> s.contains(x) && live.contains(x),
        forall|x: Seq<char>| #[trigger] not_among(s, live).contains(x) <==> s.contains(x) && !live.contains(x),
        among(s, live).no_duplicates(),
        not_among(s, live).no_duplicates(),
        among(s, live).len() + not_among(s, live).len() == s.len(),
    decreases s.len(),
{
    if s.len() > 0 {
        let t = s.drop_last();
        lemma_among(t, live);
        lemma_last(s);
        lemma_push(among(t, live), s.last());
        lemma_push(not_among(t, live), s.last());
        assert forall|x: Seq<char>| #[trigger] among(s, live).contains(x) <==> s.contains(x) && live.contains(x) by {
            assert(s.contains(x) <==> t.contains(x) || x == s.last());
            assert(among(t, live).push(s.last()).contains(x) <==> among(t, live).contains(x) || x == s.last());
        }
        assert forall|x: Seq<char>| #[trigger] not_among(s, live).contains(x) <==> s.contains(x) && !live.contains(x) by {
            assert(s.contains(x) <==> t.contains(x) || x == s.last());
            assert(not_among(t, live).push(s.last()).contains(x) <==> not_among(t, live).contains(x) || x == s.last());
        }
    }
}

/// What a sequence without duplicates holds besides its last name.
proof fn lemma_last(s: Seq<Seq<char>>)
    requires
        s.no_duplicates(),
        s.len() > 0,
    ensures
        s.drop_last().no_duplicates(),
        !s.drop_last().contains(s.last()),
        forall|x: Seq<char>| #[trigger] s.contains(x) <==> s.drop_last().contains(x) || x == s.last(),
{
    let t = s.drop_last();
    assert forall|x: Seq<char>| #[trigger] s.contains(x) <==> t.contains(x) || x == s.last() by {
        if s.contains(x) {
            let i = choose|i: int| 0 <= i < s.len() && s[i] == x;
            if i < t.len() {
                assert(t[i] == x);
            }
        }
        if t.contains(x) {
            let i = choose|i: int| 0 <= i < t.len() && t[i] == x;
            assert(s[i] == x);
        }
        if x == s.last() {
            assert(s[s.len() - 1] == x);
        }
    }
}

/// What a sequence holds after a name is added at its end.
pub proof fn lemma_push(s: Seq<Seq<char>>, name: Seq<char>)
    ensures
        forall|x: Seq<char>| #[trigger] s.push(name).contains(x) <==> s.contains(x) || x == name,
        s.no_duplicates() && !s.contains(name) ==> s.push(name).no_duplicates(),
{
    let t = s.push(name);
    assert forall|x: Seq<char>| #[trigger] t.contains(x) <==> s.contains(x) || x == name by {
        if t.contains(x) {
            let i = choose|i: int| 0 <= i < t.len() && t[i] == x;
            if i < s.len() {
                assert(s[i] == x);
            }
        }
        if s.contains(x) {
            let i = choose|i: int| 0 <= i < s.len() && s[i] == x;
            assert(t[i] == x);
        }
        if x == name {
            assert(t[s.len() as int] == x);
        }
    }
}

/// A set of names.
pub struct NameSet {
    names: Vec<String>,
}

impl View for NameSet {
    type V = Seq<Seq<char>>;

    closed spec fn view(&self) -> Seq<Seq<char>> {
        views(self.names@)
    }
}

impl NameSet {
    /// No name occurs twice.
    #[verifier::type_invariant]
    spec fn distinct(self) -> bool {
        views(self.names@).no_duplicates()
    }

    /// No names.
    pub fn new() -> (set: Self)
        ensures
            set@ == Seq::<Seq<char>>::empty(),
    {
        let names: Vec<String> = Vec::new();
        proof {
            assert(views(names@) =~= Seq::<Seq<char>>::empty());
        }
        NameSet { names }
    }

    /// How many names there are; none occurs twice.
    pub fn len(&self) -> (n: usize)
        ensures
            n == self@.len(),
            self@.no_duplicates(),
    {
        proof {
            use_type_invariant(self);
        }
        self.names.len()
    }

    /// The names, in the order in which they came.
    pub fn to_vec(&self) -> (v: Vec<String>)
        ensures
            views(v@) == self@,
    {
        let mut v: Vec<String> = Vec::new();
        let mut i: usize = 0;
        while i < self.names.len()
            invariant
                i <= self.names@.len(),
                views(v@) == views(self.names@).take(i as int),
            decreases self.names@.len() - i,
        {
            let ghost before = v@;
            v.push(self.names[i].clone());
            proof {
                assert(views(v@) =~= views(before).push(self.names@[i as int]@));
                assert(views(self.names@).take(i + 1) =~= views(self.names@).take(i as int).push(
                    self.names@[i as int]@,
                ));
            }
            i = i + 1;
        }
        proof {
            assert(views(self.names@).take(i as int) =~= views(self.names@));
        }
        v
    }

    /// Whether `name` is one of them.
    pub fn contains(&self, name: &str) -> (r: bool)
        ensures
            r == self@.contains(name@),
    {
        contains_name(&self.names, name)
    }

    /// Add `name`.
    pub fn insert(&mut self, name: String)
        ensures
            final(self)@ == with(old(self)@, name@),
            final(self)@.no_duplicates(),
    {
        proof {
            use_type_invariant(&*self);
        }
        if !contains_name(&self.names, name.as_str()) {
            let mut names = self.to_vec();
            proof {
                lemma_push(views(names@), name@);
                assert(views(names@.push(name)) =~= views(names@).push(name@));
            }
            names.push(name);
            self.names = names;
        }
    }

    /// Remove `name`.
    pub fn remove(&mut self, name: &str)
        ensures
            final(self)@ == without(old(self)@, name@),
            final(self)@.no_duplicates(),
    {
        proof {
            use_type_invariant(&*self);
        }
        let mut kept: Vec<String> = Vec::new();
        let mut i: usize = 0;
        while i < self.names.len()
            invariant
                i <= self.names@.len(),
                views(kept@) == without(views(self.names@).take(i as int), name@),
            decreases self.names@.len() - i,
        {
            let ghost before = kept@;
            let ghost seen = views(self.names@).take(i + 1);
            proof {
                assert(seen.drop_last() =~= views(self.names@).take(i as int));
            }
            if !same(self.names[i].as_str(), name) {
                kept.push(self.names[i].clone());
                proof {
                    assert(views(kept@) =~= views(before).push(self.names@[i as int]@));
                }
            }
            i = i + 1;
        }
        proof {
            assert(views(self.names@).take(i as int) =~= views(self.names@));
            lemma_without(views(self.names@), name@);
        }
        self.names = kept;
    }

    /// Keep the names among `live` and hand back the others.
    pub fn retain(&mut self, live: &Vec<String>) -> (dropped: Vec<String>)
        ensures
            final(self)@ == among(old(self)@, views(live@)),
            views(dropped@) == not_among(old(self)@, views(live@)),
            final(self)@.no_duplicates(),
    {
        proof {
            use_type_invariant(&*self);
        }
        let mut kept: Vec<String> = Vec::new();
        let mut dropped: Vec<String> = Vec::new();
        let mut i: usize = 0;
        while i < self.names.len()
            invariant
                i <= self.names@.len(),
                views(kept@) == among(views(self.names@).take(i as int), views(live@)),
                views(dropped@) == not_among(views(self.names@).take(i as int), views(live@)),
            decreases self.names@.len() - i,
        {
            let ghost kept_before = kept@;
            let ghost dropped_before = dropped@;
            let ghost seen = views(self.names@).take(i + 1);
            proof {
                assert(seen.drop_last() =~= views(self.names@).take(i as int));
            }
            if contains_name(live, self.names[i].as_str()) {
                kept.push(self.names[i].clone());
                proof {
                    assert(views(kept@) =~= views(kept_before).push(self.names@[i as int]@));
                }
            } else {
                dropped.push(self.names[i].clone());
                proof {
                    assert(views(dropped@) =~= views(dropped_before).push(self.names@[i as int]@));
                }
            }
            i = i + 1;
        }
        proof {
            assert(views(self.names@).take(i as int) =~= views(self.names@));
            lemma_among(views(self.names@), views(live@));
        }
        self.names = kept;
        dropped
    }
}

/// Whether `name` is one of `names`.
pub fn contains_name(names: &Vec<String>, name: &str) -> (r: bool)
    ensures
        r == views(names@).contains(name@),
{
    let mut i: usize = 0;
    while i < names.len()
        invariant
            i <= names@.len(),
            forall|j: int| 0 <= j < i ==> views(names@)[j] != name@,
        decreases names@.len() - i,
    {
        if same(names[i].as_str(), name) {
            proof {
                assert(views(names@)[i as int] == name@);
            }
            return true;
        }
        i = i + 1;
    }
    false
}

/// Picking names out goes name by name: what is picked out of two sequences,
/// one after the other, is what is picked out of each; a single name is picked
/// where it belongs, and nowhere else.
pub proof fn law_names_are_picked_one_by_one(
    a: Seq<Seq<char>>,
    b: Seq<Seq<char>>,
    name: Seq<char>,
    live: Seq<Seq<char>>,
    x: Seq<char>,
)
    ensures
        without(a + b, x) == without(a, x) + without(b, x),
        among(a + b, live) == among(a, live) + among(b, live),
        not_among(a + b, live) == not_among(a, live) + not_among(b, live),
        without(seq![name], x) == (if name == x {
            seq![]
        } else {
            seq![name]
        }),
        live.contains(name) ==> among(seq![name], live) == seq![name] && not_among(seq![name], live) == Seq::<Seq<char>>::empty(),
        !live.contains(name) ==> among(seq![name], live) == Seq::<Seq<char>>::empty() && not_among(seq![name], live) == seq![name],
    decreases b.len(),
{
    reveal_with_fuel(without, 2);
    reveal_with_fuel(among, 2);
    reveal_with_fuel(not_among, 2);
    assert(seq![name].drop_last() =~= Seq::<Seq<char>>::empty());
    assert(Seq::<Seq<char>>::empty().push(name) =~= seq![name]);
    if b.len() == 0 {
        assert(a + b =~= a);
        assert(without(a, x) + without(b, x) =~= without(a, x));
        assert(among(a, live) + among(b, live) =~= among(a, live));
        assert(not_among(a, live) + not_among(b, live) =~= not_among(a, live));
    } else {
        law_names_are_picked_one_by_one(a, b.drop_last(), name, live, x);
        assert((a + b).drop_last() =~= a + b.drop_last());
        assert(without(a + b, x) =~= without(a, x) + without(b, x));
        assert(among(a + b, live) =~= among(a, live) + among(b, live));
        assert(not_among(a + b, live) =~= not_among(a, live) + not_among(b, live));
    }
}

/// A name that is added is there, with the others in their places, and is
/// there once.
pub proof fn law_name_added_is_there(s: Seq<Seq<char>>, name: Seq<char>)
    ensures
        with(s, name).contains(name),
        s.is_prefix_of(with(s, name)),
        with(s, name).len() <= s.len() + 1,
        s.contains(name) ==> with(s, name) == s,
        s.no_duplicates() ==> with(s, name).no_duplicates(),
        forall|x: Seq<char>| #[trigger] with(s, name).contains(x) <==> s.contains(x) || x == name,
{
    lemma_push(s, name);
}

} // verus!
