//! A table of lists keyed by channel name, kept in insertion order.  Channel
//! names are `&'static str`; they are compared by their characters.

use vstd::prelude::*;

verus! {

/// Compares two names byte by byte; equal UTF-8 encodings mean equal texts.
pub fn same_name(a: &str, b: &str) -> (same: bool)
    ensures
        same == (a@ == b@),
{
    let ab = a.as_bytes();
    let bb = b.as_bytes();
    proof {
        vstd::utf8::encode_utf8_decode_utf8(a@);
        vstd::utf8::encode_utf8_decode_utf8(b@);
    }
    if ab.len() != bb.len() {
        return false;
    }
    let mut i: usize = 0;
    while i < ab.len()
        invariant
            i <= ab@.len(),
            ab@.len() == bb@.len(),
            ab@ == vstd::utf8::encode_utf8(a@),
            bb@ == vstd::utf8::encode_utf8(b@),
            vstd::utf8::decode_utf8(vstd::utf8::encode_utf8(a@)) == a@,
            vstd::utf8::decode_utf8(vstd::utf8::encode_utf8(b@)) == b@,
            forall|j: int| 0 <= j < i ==> ab@[j] == bb@[j],
        decreases ab@.len() - i,
    {
        if ab[i] != bb[i] {
            return false;
        }
        i = i + 1;
    }
    assert(ab@ =~= bb@);
    true
}

/// The elements of `s` whose flag in `keep` is set, in order.
pub open spec fn select<T>(s: Seq<T>, keep: Seq<bool>) -> Seq<T>
    decreases s.len(),
{
    if s.len() == 0 || keep.len() == 0 {
        Seq::empty()
    } else {
        let rest = select(s.drop_last(), keep.drop_last());
        if keep.last() {
            rest.push(s.last())
        } else {
            rest
        }
    }
}

/// `kept` is made of some of the elements of `s`, in their order.
pub open spec fn kept_from<T>(kept: Seq<T>, s: Seq<T>) -> bool {
    exists|keep: Seq<bool>| keep.len() == s.len() && kept == select(s, keep)
}

/// Keeping every element keeps the sequence.
pub proof fn lemma_select_all<T>(s: Seq<T>)
    ensures
        select(s, Seq::new(s.len(), |k: int| true)) == s,
        kept_from(s, s),
    decreases s.len(),
{
    let all = Seq::new(s.len(), |k: int| true);
    if s.len() > 0 {
        lemma_select_all(s.drop_last());
        assert(all.drop_last() =~= Seq::new(s.drop_last().len(), |k: int| true));
        assert(s.drop_last().push(s.last()) =~= s);
    }
    assert(all.len() == s.len());
}

/// What is kept is taken from the sequence.
pub proof fn lemma_select_from<T>(s: Seq<T>, keep: Seq<bool>, j: int)
    requires
        0 <= j < select(s, keep).len(),
    ensures
        s.contains(select(s, keep)[j]),
    decreases s.len(),
{
    if s.len() > 0 && keep.len() > 0 {
        let rest = select(s.drop_last(), keep.drop_last());
        if j < rest.len() {
            lemma_select_from(s.drop_last(), keep.drop_last(), j);
            let k = choose|k: int| 0 <= k < s.drop_last().len() && s.drop_last()[k] == rest[j];
            assert(s[k] == rest[j]);
        } else {
            assert(s[s.len() - 1] == s.last());
        }
    }
}

/// An element whose flag is set is kept by the selection.
pub proof fn lemma_select_keeps<T>(s: Seq<T>, keep: Seq<bool>, k: int)
    requires
        s.len() == keep.len(),
        0 <= k < s.len(),
        keep[k],
    ensures
        select(s, keep).contains(s[k]),
    decreases s.len(),
{
    let rest = select(s.drop_last(), keep.drop_last());
    if k == s.len() - 1 {
        assert(select(s, keep) == rest.push(s.last()));
        assert(select(s, keep)[rest.len() as int] == s[k]);
    } else {
        lemma_select_keeps(s.drop_last(), keep.drop_last(), k);
        assert(s.drop_last()[k] == s[k]);
        let j = choose|j: int| 0 <= j < rest.len() && rest[j] == s[k];
        if keep.last() {
            assert(select(s, keep)[j] == rest[j]);
        }
    }
}

/// Every element of a selection is an element of the sequence whose flag is
/// set.
pub proof fn lemma_select_flagged<T>(s: Seq<T>, keep: Seq<bool>, j: int)
    requires
        s.len() == keep.len(),
        0 <= j < select(s, keep).len(),
    ensures
        exists|k: int| 0 <= k < s.len() && keep[k] && #[trigger] s[k] == select(s, keep)[j],
    decreases s.len(),
{
    let rest = select(s.drop_last(), keep.drop_last());
    if j < rest.len() {
        lemma_select_flagged(s.drop_last(), keep.drop_last(), j);
        let k = choose|k: int|
            0 <= k < s.drop_last().len() && keep.drop_last()[k] && s.drop_last()[k] == rest[j];
        assert(s[k] == select(s, keep)[j]);
    } else {
        let k = s.len() - 1;
        assert(keep[k] && s[k] == select(s, keep)[j]);
    }
}

/// Lists of values, one per channel name; each name occurs once.
pub struct ChannelTable<V> {
    names: Vec<&'static str>,
    lists: Vec<Vec<V>>,
}

/// In a sequence without duplicates, the index of the element at `i` is `i`.
pub proof fn lemma_index_of_distinct(names: Seq<Seq<char>>, i: int)
    requires
        names.no_duplicates(),
        0 <= i < names.len(),
    ensures
        names.index_of(names[i]) == i,
{
    assert(names.contains(names[i]));
}

impl<V> ChannelTable<V> {
    /// The channel names, in the order they were first used.
    pub closed spec fn names(&self) -> Seq<Seq<char>> {
        self.names@.map_values(|n: &'static str| n@)
    }

    /// The list kept for each name, at the name's position.
    pub closed spec fn lists(&self) -> Seq<Seq<V>> {
        self.lists@.map_values(|l: Vec<V>| l@)
    }

    /// One list per name, and no name twice.
    pub open spec fn wf(&self) -> bool {
        &&& self.names().len() == self.lists().len()
        &&& self.names().no_duplicates()
    }

    /// Whether the name has an entry.
    pub open spec fn has(&self, name: Seq<char>) -> bool {
        self.names().contains(name)
    }

    /// The list kept for the name; empty when the name has no entry.
    pub open spec fn list(&self, name: Seq<char>) -> Seq<V> {
        if self.has(name) {
            self.lists()[self.names().index_of(name)]
        } else {
            Seq::empty()
        }
    }

    /// The entry at position `i` is the one `list` finds for its name.
    pub proof fn lemma_entry(&self, i: int)
        requires
            self.wf(),
            0 <= i < self.names().len(),
        ensures
            self.has(self.names()[i]),
            self.list(self.names()[i]) == self.lists()[i],
    {
        lemma_index_of_distinct(self.names(), i);
    }

    /// A name with an entry is found at some position.
    pub proof fn lemma_found(&self, name: Seq<char>)
        requires
            self.wf(),
            self.has(name),
        ensures
            0 <= self.names().index_of(name) < self.names().len(),
            self.names()[self.names().index_of(name)] == name,
    {
    }

    /// An empty table.
    pub fn new() -> (table: Self)
        ensures
            table.wf(),
            table.names().len() == 0,
            forall|name: Seq<char>| !table.has(name),
    {
        let table = ChannelTable { names: Vec::new(), lists: Vec::new() };
        assert(table.names() =~= Seq::<Seq<char>>::empty());
        assert(table.lists() =~= Seq::<Seq<V>>::empty());
        table
    }

    /// The number of names.
    pub fn len(&self) -> (n: usize)
        requires
            self.wf(),
        ensures
            n == self.names().len(),
    {
        self.names.len()
    }

    /// The position of the name, if it has an entry.
    pub fn find(&self, name: &str) -> (found: Option<usize>)
        requires
            self.wf(),
        ensures
            match found {
                Some(i) => i < self.names().len() && self.names()[i as int] == name@,
                None => !self.has(name@),
            },
    {
        let mut i: usize = 0;
        while i < self.names.len()
            invariant
                self.wf(),
                i <= self.names().len(),
                forall|j: int| 0 <= j < i ==> self.names()[j] != name@,
            decreases self.names().len() - i,
        {
            if same_name(self.names[i], name) {
                return Some(i);
            }
            i = i + 1;
        }
        None
    }

    /// The name at position `i`.
    pub fn name_at(&self, i: usize) -> (name: &'static str)
        requires
            self.wf(),
            i < self.names().len(),
        ensures
            name@ == self.names()[i as int],
    {
        self.names[i]
    }

    /// The list at position `i`.
    pub fn list_at(&self, i: usize) -> (list: &Vec<V>)
        requires
            self.wf(),
            i < self.names().len(),
        ensures
            list@ == self.lists()[i as int],
    {
        &self.lists[i]
    }

    /// Puts `list` at position `i` and hands back the list that was there.
    pub fn replace_list(&mut self, i: usize, list: Vec<V>) -> (previous: Vec<V>)
        requires
            old(self).wf(),
            i < old(self).names().len(),
        ensures
            final(self).wf(),
            final(self).names() == old(self).names(),
            final(self).lists() == old(self).lists().update(i as int, list@),
            previous@ == old(self).lists()[i as int],
            previous@ == old(self).list(old(self).names()[i as int]),
            final(self).list(old(self).names()[i as int]) == list@,
            forall|other: Seq<char>|
                other != old(self).names()[i as int] ==> #[trigger] final(self).list(other) == old(
                    self,
                ).list(other),
    {
        let mut swapped = list;
        self.lists.set_and_swap(i, &mut swapped);
        assert(self.lists() =~= old(self).lists().update(i as int, list@));
        proof {
            old(self).lemma_entry(i as int);
            self.lemma_entry(i as int);
            assert forall|other: Seq<char>|
                other != old(self).names()[i as int] implies #[trigger] self.list(other) == old(
                self,
            ).list(other) by {
                if old(self).has(other) {
                    old(self).lemma_found(other);
                    let j = old(self).names().index_of(other);
                    old(self).lemma_entry(j);
                    self.lemma_entry(j);
                }
            }
        }
        swapped
    }

    /// Adds a name with an empty list at the end; the name must be new.
    pub fn add_name(&mut self, name: &'static str)
        requires
            old(self).wf(),
            !old(self).has(name@),
        ensures
            final(self).wf(),
            final(self).names() == old(self).names().push(name@),
            final(self).lists() == old(self).lists().push(Seq::empty()),
    {
        self.names.push(name);
        self.lists.push(Vec::new());
        assert(self.names() =~= old(self).names().push(name@));
        assert(self.lists() =~= old(self).lists().push(Seq::empty()));
    }

    /// Appends `value` to the list of `name`, adding the name at the end when
    /// it has no entry yet.
    pub fn push(&mut self, name: &'static str, value: V)
        requires
            old(self).wf(),
        ensures
            final(self).wf(),
            final(self).names() == if old(self).has(name@) {
                old(self).names()
            } else {
                old(self).names().push(name@)
            },
            final(self).list(name@) == old(self).list(name@).push(value),
            forall|other: Seq<char>|
                other != name@ ==> #[trigger] final(self).list(other) == old(self).list(other),
    {
        let i = match self.find(name) {
            Some(i) => i,
            None => {
                self.add_name(name);
                self.names.len() - 1
            },
        };
        let ghost mid = *self;
        let mut list = self.replace_list(i, Vec::new());
        list.push(value);
        self.replace_list(i, list);
        proof {
            self.lemma_entry(i as int);
            mid.lemma_entry(i as int);
            if old(self).has(name@) {
                old(self).lemma_found(name@);
                lemma_index_of_distinct(old(self).names(), i as int);
            }
            assert forall|other: Seq<char>| other != name@ implies #[trigger] self.list(other)
                == old(self).list(other) by {
                if old(self).has(other) {
                    old(self).lemma_found(other);
                    let j = old(self).names().index_of(other);
                    old(self).lemma_entry(j);
                    self.lemma_entry(j);
                } else {
                    if self.has(other) {
                        self.lemma_found(other);
                        let j = self.names().index_of(other);
                        assert(j < old(self).names().len() ==> old(self).names()[j] == other);
                    }
                }
            }
        }
    }
}

} // verus!
