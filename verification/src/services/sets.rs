//! Small sets of what belongs to a sender on the bus.

use vstd::prelude::*;

use crate::text::strings::{list_has, str_eq, views};

verus! {

/// What stands for a list of numbers of senders in contracts.
pub open spec fn serial_views(v: Seq<(String, u32)>) -> Seq<(Seq<char>, u32)> {
    v.map_values(|p: (String, u32)| (p.0@, p.1))
}

/// What stands for a list of names of senders in contracts.
pub open spec fn handle_views(v: Seq<(String, String)>) -> Seq<(Seq<char>, Seq<char>)> {
    v.map_values(|p: (String, String)| (p.0@, p.1@))
}

/// The senders of a set of pairs.
pub open spec fn senders_of<T>(s: Set<(Seq<char>, T)>) -> Set<Seq<char>> {
    s.map(|p: (Seq<char>, T)| p.0)
}

/// The pairs of every other sender.
pub open spec fn without_sender<T>(s: Set<(Seq<char>, T)>, sender: Seq<char>) -> Set<
    (Seq<char>, T),
> {
    s.filter(|p: (Seq<char>, T)| p.0 != sender)
}

/// A set of numbers of senders: a list in which no pair occurs twice.
#[derive(Debug)]
pub struct SerialSet {
    pairs: Vec<(String, u32)>,
}

impl View for SerialSet {
    type V = Set<(Seq<char>, u32)>;

    closed spec fn view(&self) -> Set<(Seq<char>, u32)> {
        serial_views(self.pairs@).to_set()
    }
}

impl SerialSet {
    #[verifier::type_invariant]
    spec fn distinct(self) -> bool {
        serial_views(self.pairs@).no_duplicates()
    }

    pub fn new() -> (r: SerialSet)
        ensures
            r@ == Set::<(Seq<char>, u32)>::empty(),
    {
        let r = SerialSet { pairs: Vec::new() };
        assert(r@ =~= Set::<(Seq<char>, u32)>::empty());
        r
    }

    fn find(&self, sender: &str, n: u32) -> (r: Option<usize>)
        ensures
            match r {
                Some(i) => i < self.pairs@.len() && serial_views(self.pairs@)[i as int] == (
                    sender@,
                    n,
                ),
                None => !self@.contains((sender@, n)),
            },
    {
        let ghost all = serial_views(self.pairs@);
        for i in 0..self.pairs.len()
            invariant
                all == serial_views(self.pairs@),
                forall|j: int| 0 <= j < i ==> all[j] != (sender@, n),
        {
            let p = &self.pairs[i];
            assert(all[i as int] == (p.0@, p.1));
            if p.1 == n && str_eq(p.0.as_str(), sender) {
                return Some(i);
            }
        }
        assert(!all.contains((sender@, n)));
        None
    }

    pub fn has(&self, sender: &str, n: u32) -> (r: bool)
        ensures
            r == self@.contains((sender@, n)),
    {
        match self.find(sender, n) {
            Some(i) => {
                assert(serial_views(self.pairs@)[i as int] == (sender@, n));
                true
            },
            None => false,
        }
    }

    /// Puts a number in; tells whether it was new.
    pub fn insert(&mut self, sender: &str, n: u32) -> (r: bool)
        ensures
            r == !old(self)@.contains((sender@, n)),
            final(self)@ == old(self)@.insert((sender@, n)),
    {
        if self.has(sender, n) {
            assert(self@ =~= old(self)@.insert((sender@, n)));
            return false;
        }
        proof {
            use_type_invariant(&*self);
        }
        let ghost before = serial_views(self.pairs@);
        let mut pairs: Vec<(String, u32)> = Vec::new();
        std::mem::swap(&mut pairs, &mut self.pairs);
        pairs.push((String::from_str(sender), n));
        assert(serial_views(pairs@) =~= before.push((sender@, n)));
        proof {
            pushed_is_inserted(before, (sender@, n));
        }
        self.pairs = pairs;
        true
    }

    /// Takes a number out; tells whether it was there.
    pub fn remove(&mut self, sender: &str, n: u32) -> (r: bool)
        ensures
            r == old(self)@.contains((sender@, n)),
            final(self)@ == old(self)@.remove((sender@, n)),
    {
        match self.find(sender, n) {
            None => {
                assert(self@ =~= old(self)@.remove((sender@, n)));
                false
            },
            Some(i) => {
                proof {
                    use_type_invariant(&*self);
                }
                let ghost before = serial_views(self.pairs@);
                assert(before[i as int] == (sender@, n));
                let mut pairs: Vec<(String, u32)> = Vec::new();
                std::mem::swap(&mut pairs, &mut self.pairs);
                let _ = pairs.remove(i);
                assert(serial_views(pairs@) =~= before.remove(i as int));
                proof {
                    taken_is_removed(before, i as int);
                }
                self.pairs = pairs;
                true
            },
        }
    }

    /// Takes out every number of a sender.
    pub fn remove_sender(&mut self, sender: &str)
        ensures
            final(self)@ == without_sender(old(self)@, sender@),
    {
        proof {
            use_type_invariant(&*self);
        }
        let ghost before = serial_views(self.pairs@);
        let ghost keep = |p: (Seq<char>, u32)| p.0 != sender@;
        let mut pairs: Vec<(String, u32)> = Vec::new();
        assert(serial_views(pairs@) =~= before.take(0).filter(keep)) by {
            reveal(Seq::filter);
        }
        for i in 0..self.pairs.len()
            invariant
                before == serial_views(self.pairs@),
                keep == (|p: (Seq<char>, u32)| p.0 != sender@),
                serial_views(pairs@) == before.take(i as int).filter(keep),
        {
            let p = &self.pairs[i];
            assert(before.take(i + 1).drop_last() =~= before.take(i as int));
            assert(before.take(i + 1).last() == (p.0@, p.1));
            let ghost sofar = serial_views(pairs@);
            reveal(Seq::filter);
            if !str_eq(p.0.as_str(), sender) {
                pairs.push((p.0.clone(), p.1));
                assert(serial_views(pairs@) =~= sofar.push((p.0@, p.1)));
            }
        }
        assert(before.take(before.len() as int) =~= before);
        proof {
            filtered_is_filtered(before, keep);
        }
        self.pairs = pairs;
        assert(self@ =~= without_sender(old(self)@, sender@));
    }

    /// Puts the senders that `out` does not have yet at its end.
    pub fn list_senders(&self, out: &mut Vec<String>)
        requires
            views(old(out)@).no_duplicates(),
        ensures
            views(final(out)@).no_duplicates(),
            views(final(out)@).to_set() == views(old(out)@).to_set().union(senders_of(self@)),
    {
        let ghost all = serial_views(self.pairs@);
        let ghost given = views(out@).to_set();
        assert(given =~= given.union(senders_of(all.take(0).to_set())));
        for i in 0..self.pairs.len()
            invariant
                all == serial_views(self.pairs@),
                views(out@).no_duplicates(),
                views(out@).to_set() == given.union(senders_of(all.take(i as int).to_set())),
        {
            let sender = &self.pairs[i].0;
            let ghost w = views(out@);
            proof {
                assert(all.take(i + 1) =~= all.take(i as int).push(all[i as int]));
                pushed_is_inserted(all.take(i as int), all[i as int]);
                inserted_sender(all.take(i as int).to_set(), all[i as int]);
                assert(all[i as int].0 == sender@);
            }
            if !list_has(out, sender.as_str()) {
                out.push(sender.clone());
                assert(views(out@) =~= w.push(sender@));
                proof {
                    pushed_is_inserted(w, sender@);
                }
            } else {
                assert(w.to_set().contains(sender@));
            }
            assert(views(out@).to_set() =~= given.union(
                senders_of(all.take(i + 1).to_set()),
            ));
        }
        assert(all.take(all.len() as int) =~= all);
    }
}

/// A set of names of senders: a list in which no pair occurs twice.
#[derive(Debug)]
pub struct HandleSet {
    pairs: Vec<(String, String)>,
}

impl View for HandleSet {
    type V = Set<(Seq<char>, Seq<char>)>;

    closed spec fn view(&self) -> Set<(Seq<char>, Seq<char>)> {
        handle_views(self.pairs@).to_set()
    }
}

impl HandleSet {
    #[verifier::type_invariant]
    spec fn distinct(self) -> bool {
        handle_views(self.pairs@).no_duplicates()
    }

    pub fn new() -> (r: HandleSet)
        ensures
            r@ == Set::<(Seq<char>, Seq<char>)>::empty(),
    {
        let r = HandleSet { pairs: Vec::new() };
        assert(r@ =~= Set::<(Seq<char>, Seq<char>)>::empty());
        r
    }

    fn find(&self, sender: &str, name: &str) -> (r: Option<usize>)
        ensures
            match r {
                Some(i) => i < self.pairs@.len() && handle_views(self.pairs@)[i as int] == (
                    sender@,
                    name@,
                ),
                None => !self@.contains((sender@, name@)),
            },
    {
        let ghost all = handle_views(self.pairs@);
        for i in 0..self.pairs.len()
            invariant
                all == handle_views(self.pairs@),
                forall|j: int| 0 <= j < i ==> all[j] != (sender@, name@),
        {
            let p = &self.pairs[i];
            assert(all[i as int] == (p.0@, p.1@));
            if str_eq(p.1.as_str(), name) && str_eq(p.0.as_str(), sender) {
                return Some(i);
            }
        }
        assert(!all.contains((sender@, name@)));
        None
    }

    pub fn has(&self, sender: &str, name: &str) -> (r: bool)
        ensures
            r == self@.contains((sender@, name@)),
    {
        match self.find(sender, name) {
            Some(i) => {
                assert(handle_views(self.pairs@)[i as int] == (sender@, name@));
                true
            },
            None => false,
        }
    }

    /// Puts a name in; tells whether it was new.
    pub fn insert(&mut self, sender: &str, name: &str) -> (r: bool)
        ensures
            r == !old(self)@.contains((sender@, name@)),
            final(self)@ == old(self)@.insert((sender@, name@)),
    {
        if self.has(sender, name) {
            assert(self@ =~= old(self)@.insert((sender@, name@)));
            return false;
        }
        proof {
            use_type_invariant(&*self);
        }
        let ghost before = handle_views(self.pairs@);
        let mut pairs: Vec<(String, String)> = Vec::new();
        std::mem::swap(&mut pairs, &mut self.pairs);
        pairs.push((String::from_str(sender), String::from_str(name)));
        assert(handle_views(pairs@) =~= before.push((sender@, name@)));
        proof {
            pushed_is_inserted(before, (sender@, name@));
        }
        self.pairs = pairs;
        true
    }

    /// Takes a name out; tells whether it was there.
    pub fn remove(&mut self, sender: &str, name: &str) -> (r: bool)
        ensures
            r == old(self)@.contains((sender@, name@)),
            final(self)@ == old(self)@.remove((sender@, name@)),
    {
        match self.find(sender, name) {
            None => {
                assert(self@ =~= old(self)@.remove((sender@, name@)));
                false
            },
            Some(i) => {
                proof {
                    use_type_invariant(&*self);
                }
                let ghost before = handle_views(self.pairs@);
                assert(before[i as int] == (sender@, name@));
                let mut pairs: Vec<(String, String)> = Vec::new();
                std::mem::swap(&mut pairs, &mut self.pairs);
                let _ = pairs.remove(i);
                assert(handle_views(pairs@) =~= before.remove(i as int));
                proof {
                    taken_is_removed(before, i as int);
                }
                self.pairs = pairs;
                true
            },
        }
    }

    /// Some name of a sender, if it has one.
    pub fn any_of(&self, sender: &str) -> (r: Option<String>)
        ensures
            match r {
                Some(n) => self@.contains((sender@, n@)),
                None => !senders_of(self@).contains(sender@),
            },
    {
        let ghost all = handle_views(self.pairs@);
        for i in 0..self.pairs.len()
            invariant
                all == handle_views(self.pairs@),
                forall|j: int| 0 <= j < i ==> (#[trigger] all[j]).0 != sender@,
        {
            let p = &self.pairs[i];
            assert(all[i as int] == (p.0@, p.1@));
            if str_eq(p.0.as_str(), sender) {
                return Some(p.1.clone());
            }
        }
        assert(!senders_of(self@).contains(sender@)) by {
            if senders_of(self@).contains(sender@) {
                let p = choose|p: (Seq<char>, Seq<char>)| #[trigger]
                    self@.contains(p) && p.0 == sender@;
                let j = choose|j: int| 0 <= j < all.len() && all[j] == p;
                assert(all[j].0 == sender@);
            }
        }
        None
    }

    /// Takes out every name of a sender.
    pub fn remove_sender(&mut self, sender: &str)
        ensures
            final(self)@ == without_sender(old(self)@, sender@),
    {
        proof {
            use_type_invariant(&*self);
        }
        let ghost before = handle_views(self.pairs@);
        let ghost keep = |p: (Seq<char>, Seq<char>)| p.0 != sender@;
        let mut pairs: Vec<(String, String)> = Vec::new();
        assert(handle_views(pairs@) =~= before.take(0).filter(keep)) by {
            reveal(Seq::filter);
        }
        for i in 0..self.pairs.len()
            invariant
                before == handle_views(self.pairs@),
                keep == (|p: (Seq<char>, Seq<char>)| p.0 != sender@),
                handle_views(pairs@) == before.take(i as int).filter(keep),
        {
            let p = &self.pairs[i];
            assert(before.take(i + 1).drop_last() =~= before.take(i as int));
            assert(before.take(i + 1).last() == (p.0@, p.1@));
            let ghost sofar = handle_views(pairs@);
            reveal(Seq::filter);
            if !str_eq(p.0.as_str(), sender) {
                pairs.push((p.0.clone(), p.1.clone()));
                assert(handle_views(pairs@) =~= sofar.push((p.0@, p.1@)));
            }
        }
        assert(before.take(before.len() as int) =~= before);
        proof {
            filtered_is_filtered(before, keep);
        }
        self.pairs = pairs;
        assert(self@ =~= without_sender(old(self)@, sender@));
    }

    /// Puts the senders that `out` does not have yet at its end.
    pub fn list_senders(&self, out: &mut Vec<String>)
        requires
            views(old(out)@).no_duplicates(),
        ensures
            views(final(out)@).no_duplicates(),
            views(final(out)@).to_set() == views(old(out)@).to_set().union(senders_of(self@)),
    {
        let ghost all = handle_views(self.pairs@);
        let ghost given = views(out@).to_set();
        assert(given =~= given.union(senders_of(all.take(0).to_set())));
        for i in 0..self.pairs.len()
            invariant
                all == handle_views(self.pairs@),
                views(out@).no_duplicates(),
                views(out@).to_set() == given.union(senders_of(all.take(i as int).to_set())),
        {
            let sender = &self.pairs[i].0;
            let ghost w = views(out@);
            proof {
                assert(all.take(i + 1) =~= all.take(i as int).push(all[i as int]));
                pushed_is_inserted(all.take(i as int), all[i as int]);
                inserted_sender(all.take(i as int).to_set(), all[i as int]);
                assert(all[i as int].0 == sender@);
            }
            if !list_has(out, sender.as_str()) {
                out.push(sender.clone());
                assert(views(out@) =~= w.push(sender@));
                proof {
                    pushed_is_inserted(w, sender@);
                }
            } else {
                assert(w.to_set().contains(sender@));
            }
            assert(views(out@).to_set() =~= given.union(
                senders_of(all.take(i + 1).to_set()),
            ));
        }
        assert(all.take(all.len() as int) =~= all);
    }
}

/// Puts a string at the end of the list, unless the list has it.
pub fn add_once(out: &mut Vec<String>, s: String)
    requires
        views(old(out)@).no_duplicates(),
    ensures
        views(final(out)@).no_duplicates(),
        views(final(out)@).to_set() == views(old(out)@).to_set().insert(s@),
{
    let ghost before = views(out@);
    let ghost x = s@;
    if list_has(out, s.as_str()) {
        assert(before.to_set().contains(x));
        assert(before.to_set() =~= before.to_set().insert(x));
    } else {
        out.push(s);
        assert(views(out@) =~= before.push(x));
        proof {
            pushed_is_inserted(before, x);
        }
    }
}

/// How many strings a list without repetitions has.
pub proof fn distinct_count(v: Seq<Seq<char>>)
    requires
        v.no_duplicates(),
    ensures
        v.to_set().len() == v.len(),
        v.to_set().finite(),
{
    v.unique_seq_to_set();
    vstd::seq_lib::seq_to_set_is_finite(v);
}

// ---------------------------------------------------------------------------------------------
// Lists as sets
// ---------------------------------------------------------------------------------------------

pub proof fn pushed_is_inserted<T>(v: Seq<T>, x: T)
    ensures
        v.push(x).to_set() == v.to_set().insert(x),
        v.no_duplicates() && !v.contains(x) ==> v.push(x).no_duplicates(),
{
    let w = v.push(x);
    assert forall|y: T| w.to_set().contains(y) <==> v.to_set().insert(x).contains(y) by {
        if v.contains(y) {
            let i = choose|i: int| 0 <= i < v.len() && v[i] == y;
            assert(w[i] == y);
        }
        if y == x {
            assert(w[v.len() as int] == y);
        }
    }
    assert(w.to_set() =~= v.to_set().insert(x));
}

proof fn taken_is_removed<T>(v: Seq<T>, i: int)
    requires
        v.no_duplicates(),
        0 <= i < v.len(),
    ensures
        v.remove(i).to_set() == v.to_set().remove(v[i]),
        v.remove(i).no_duplicates(),
        v.to_set().contains(v[i]),
{
    let w = v.remove(i);
    assert forall|y: T| w.to_set().contains(y) <==> v.to_set().remove(v[i]).contains(y) by {
        if w.contains(y) {
            let j = choose|j: int| 0 <= j < w.len() && w[j] == y;
            if j < i {
                assert(v[j] == y);
            } else {
                assert(v[j + 1] == y);
            }
        }
        if v.contains(y) && y != v[i] {
            let j = choose|j: int| 0 <= j < v.len() && v[j] == y;
            if j < i {
                assert(w[j] == y);
            } else {
                assert(w[j - 1] == y);
            }
        }
    }
    assert(w.to_set() =~= v.to_set().remove(v[i]));
}

proof fn filtered_is_filtered<T>(v: Seq<T>, keep: spec_fn(T) -> bool)
    requires
        v.no_duplicates(),
    ensures
        v.filter(keep).to_set() =~= v.to_set().filter(keep),
        v.filter(keep).no_duplicates(),
    decreases v.len(),
{
    reveal(Seq::filter);
    if v.len() > 0 {
        let rest = v.drop_last();
        filtered_is_filtered(rest, keep);
        assert(v =~= rest.push(v.last()));
        pushed_is_inserted(rest, v.last());
        let f = rest.filter(keep);
        if f.contains(v.last()) {
            assert(f.to_set().contains(v.last()));
            assert(rest.to_set().contains(v.last()));
            let i = choose|i: int| 0 <= i < rest.len() && rest[i] == v.last();
            assert(v[i] == v[v.len() - 1]);
        }
        pushed_is_inserted(f, v.last());
        assert(v.filter(keep).to_set() =~= v.to_set().filter(keep));
    } else {
        assert(v.filter(keep).to_set() =~= v.to_set().filter(keep));
    }
}

proof fn inserted_sender<T>(s: Set<(Seq<char>, T)>, p: (Seq<char>, T))
    ensures
        senders_of(s.insert(p)) == senders_of(s).insert(p.0),
{
    assert forall|x: Seq<char>|
        senders_of(s.insert(p)).contains(x) <==> senders_of(s).insert(p.0).contains(x) by {
        if senders_of(s).contains(x) {
            let q = choose|q: (Seq<char>, T)| #[trigger] s.contains(q) && q.0 == x;
            assert(s.insert(p).contains(q));
        }
        if x == p.0 {
            assert(s.insert(p).contains(p));
        }
        if senders_of(s.insert(p)).contains(x) {
            let q = choose|q: (Seq<char>, T)| #[trigger] s.insert(p).contains(q) && q.0 == x;
            if q != p {
                assert(s.contains(q));
            }
        }
    }
    assert(senders_of(s.insert(p)) =~= senders_of(s).insert(p.0));
}

} // verus!
