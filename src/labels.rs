use vstd::prelude::*;

verus! {

/// The addresses that `MARK` directives gave their names, in the order they
/// were recorded: a later entry for a name replaces an earlier one.
pub open spec fn label_map(e: Seq<(String, usize)>) -> Map<Seq<char>, nat>
    decreases e.len(),
{
    if e.len() == 0 {
        Map::empty()
    } else {
        label_map(e.drop_last()).insert(e.last().0@, e.last().1 as nat)
    }
}

/// Mark names and the 1-based word addresses they resolve to.
pub struct LabelTable {
    entries: Vec<(String, usize)>,
}

impl View for LabelTable {
    type V = Map<Seq<char>, nat>;

    closed spec fn view(&self) -> Map<Seq<char>, nat> {
        label_map(self.entries@)
    }
}

impl LabelTable {
    /// A table with no labels.
    pub fn new() -> (r: LabelTable)
        ensures
            r@ == Map::<Seq<char>, nat>::empty(),
    {
        LabelTable { entries: Vec::new() }
    }

    /// Records `name` at `address`, replacing any earlier address of it.
    pub fn insert(&mut self, name: String, address: usize)
        ensures
            final(self)@ == old(self)@.insert(name@, address as nat),
    {
        let ghost e = self.entries@;
        self.entries.push((name, address));
        assert(self.entries@.drop_last() =~= e);
    }

    /// The address recorded for `name`, if any.
    pub fn get(&self, name: &String) -> (r: Option<usize>)
        ensures
            r is Some <==> self@.contains_key(name@),
            r is Some ==> r->0 as nat == self@[name@],
    {
        let mut j = self.entries.len();
        assert(self.entries@.take(j as int) =~= self.entries@);
        while j > 0
            invariant
                j <= self.entries@.len(),
                label_map(self.entries@.take(j as int)).contains_key(name@) == self@.contains_key(
                    name@,
                ),
                label_map(self.entries@.take(j as int)).contains_key(name@) ==> label_map(
                    self.entries@.take(j as int),
                )[name@] == self@[name@],
            decreases j,
        {
            assert(self.entries@.take(j - 1) =~= self.entries@.take(j as int).drop_last());
            let entry = &self.entries[j - 1];
            if entry.0 == *name {
                return Some(entry.1);
            }
            j = j - 1;
        }
        None
    }
}

} // verus!
