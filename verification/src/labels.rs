use vstd::prelude::*;
use crate::text::bytes_eq;

verus! {

/// The mapping a sequence of (name, address) bindings denotes; a later
/// binding of a name would shadow an earlier one, but a well-formed table
/// never holds two bindings of one name.
pub open spec fn bindings_map(s: Seq<(Vec<u8>, u16)>) -> Map<Seq<u8>, u16>
    decreases s.len(),
{
    if s.len() == 0 {
        Map::empty()
    } else {
        bindings_map(s.drop_last()).insert(s.last().0@, s.last().1)
    }
}

/// The label table: every label a line has defined so far, each bound to the
/// address the cursor held when it was defined.
#[derive(Debug)]
pub struct LabelTable {
    entries: Vec<(Vec<u8>, u16)>,
}

impl View for LabelTable {
    type V = Map<Seq<u8>, u16>;

    closed spec fn view(&self) -> Map<Seq<u8>, u16> {
        bindings_map(self.entries@)
    }
}

proof fn lemma_bindings_index(s: Seq<(Vec<u8>, u16)>, i: int)
    requires
        0 <= i < s.len(),
        forall|p: int, q: int| 0 <= p < q < s.len() ==> s[p].0@ != s[q].0@,
    ensures
        bindings_map(s).contains_key(s[i].0@),
        bindings_map(s)[s[i].0@] == s[i].1,
    decreases s.len(),
{
    if i < s.len() - 1 {
        assert(s.drop_last()[i] == s[i]);
        lemma_bindings_index(s.drop_last(), i);
    }
}

proof fn lemma_bindings_absent(s: Seq<(Vec<u8>, u16)>, k: Seq<u8>)
    requires
        forall|i: int| 0 <= i < s.len() ==> s[i].0@ != k,
    ensures
        !bindings_map(s).contains_key(k),
    decreases s.len(),
{
    if s.len() > 0 {
        lemma_bindings_absent(s.drop_last(), k);
    }
}

impl LabelTable {
    /// Names are unique and every bound address lies within the memory image
    /// (the cursor value `MEMORY_WORDS_SIZE` can be bound transiently, on a
    /// line that then fails for want of room).
    pub closed spec fn wf(&self) -> bool {
        &&& forall|p: int, q: int|
            0 <= p < q < self.entries@.len() ==> self.entries@[p].0@ != self.entries@[q].0@
        &&& forall|i: int| 0 <= i < self.entries@.len() ==> self.entries@[i].1 <= 4096
    }

    /// An empty table.
    pub fn new() -> (t: LabelTable)
        ensures
            t.wf(),
            t@ == Map::<Seq<u8>, u16>::empty(),
    {
        LabelTable { entries: Vec::new() }
    }

    /// The address a name is bound to, if it is bound.
    pub fn get(&self, name: &[u8]) -> (r: Option<u16>)
        requires
            self.wf(),
        ensures
            r == (if self@.contains_key(name@) {
                Some(self@[name@])
            } else {
                None::<u16>
            }),
            r is Some ==> r->Some_0 <= 4096,
    {
        let mut i: usize = 0;
        while i < self.entries.len()
            invariant
                self.wf(),
                i <= self.entries@.len(),
                forall|k: int| 0 <= k < i ==> self.entries@[k].0@ != name@,
            decreases self.entries@.len() - i,
        {
            if bytes_eq(self.entries[i].0.as_slice(), name) {
                proof {
                    lemma_bindings_index(self.entries@, i as int);
                }
                return Some(self.entries[i].1);
            }
            i += 1;
        }
        proof {
            lemma_bindings_absent(self.entries@, name@);
        }
        None
    }

    /// Whether a name is already bound.
    pub fn contains(&self, name: &[u8]) -> (r: bool)
        requires
            self.wf(),
        ensures
            r == self@.contains_key(name@),
    {
        self.get(name).is_some()
    }

    /// Bind a fresh name to an address.
    pub fn insert(&mut self, name: Vec<u8>, addr: u16)
        requires
            old(self).wf(),
            !old(self)@.contains_key(name@),
            addr <= 4096,
        ensures
            final(self).wf(),
            final(self)@ == old(self)@.insert(name@, addr),
    {
        proof {
            assert forall|k: int| 0 <= k < self.entries@.len() implies self.entries@[k].0@
                != name@ by {
                lemma_bindings_index(self.entries@, k);
            }
        }
        self.entries.push((name, addr));
        proof {
            assert(self.entries@.drop_last() =~= old(self).entries@);
        }
    }
}

} // verus!
