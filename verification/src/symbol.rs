use vstd::prelude::*;
use vstd::hash_map::StringHashMap;

verus! {

/// The addresses of the labels of one program, by name. An address counts
/// instructions from the start of the program.
pub struct SymbolTable {
    map: StringHashMap<usize>,
}

impl View for SymbolTable {
    type V = Map<Seq<char>, nat>;

    closed spec fn view(&self) -> Map<Seq<char>, nat> {
        Map::new(
            |name: Seq<char>| self.map@.contains_key(name),
            |name: Seq<char>| self.map@[name] as nat,
        )
    }
}

impl SymbolTable {
    /// A table without labels.
    pub fn new() -> (table: Self)
        ensures
            table@ == Map::<Seq<char>, nat>::empty(),
    {
        let table = SymbolTable { map: StringHashMap::new() };
        assert(table@ =~= Map::<Seq<char>, nat>::empty());
        table
    }

    /// Records `address` for `label`. An address that the table held for the
    /// same name is replaced.
    pub fn insert(&mut self, label: String, address: usize)
        ensures
            final(self)@ == old(self)@.insert(label@, address as nat),
    {
        self.map.insert(label, address);
        assert(self@ =~= old(self)@.insert(label@, address as nat));
    }

    /// The address of `label`, if the table holds one.
    pub fn get(&self, label: &str) -> (address: Option<usize>)
        ensures
            match address {
                Some(a) => self@.contains_key(label@) && self@[label@] == a,
                None => !self@.contains_key(label@),
            },
    {
        match self.map.get(label) {
            Some(a) => Some(*a),
            None => None,
        }
    }
}

} // verus!
