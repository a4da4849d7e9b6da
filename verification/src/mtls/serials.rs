//! Sets of certificate serials.
use vstd::prelude::*;

use crate::text::{holds, texts};

verus! {

/// A set of serials. None is held twice.
pub struct SerialSet {
    items: Vec<String>,
}

impl SerialSet {
    #[verifier::type_invariant]
    spec fn wf(self) -> bool {
        texts(self.items@).no_duplicates()
    }

    /// The serials that are held.
    pub closed spec fn view(&self) -> Set<Seq<char>> {
        texts(self.items@).to_set()
    }

    /// The empty set.
    pub fn new() -> (r: SerialSet)
        ensures
            r@ == Set::<Seq<char>>::empty(),
    {
        let r = SerialSet { items: Vec::new() };
        assert(texts(r.items@).to_set() =~= Set::<Seq<char>>::empty());
        r
    }

    /// Whether a serial is held.
    pub fn contains(&self, serial: &str) -> (r: bool)
        ensures
            r == self@.contains(serial@),
    {
        holds(&self.items, serial)
    }

    /// How many serials are held.
    pub fn len(&self) -> (r: usize)
        ensures
            r == self@.len(),
    {
        proof {
            use_type_invariant(self);
            texts(self.items@).unique_seq_to_set();
        }
        self.items.len()
    }

    /// The set with one more serial.
    pub fn insert(self, serial: String) -> (r: SerialSet)
        ensures
            r@ == self@.insert(serial@),
    {
        proof {
            use_type_invariant(&self);
        }
        if holds(&self.items, serial.as_str()) {
            assert(self@.insert(serial@) =~= self@);
            return self;
        }
        let mut items = self.items;
        let ghost before = texts(items@);
        items.push(serial);
        proof {
            let now = texts(items@);
            assert(now =~= before.push(serial@));
            assert(!before.contains(serial@));
            assert forall|s: Seq<char>| #[trigger] now.to_set().contains(s) implies before.to_set().insert(
                serial@,
            ).contains(s) by {
                let k = choose|k: int| 0 <= k < now.len() && now[k] == s;
                if k < before.len() {
                    assert(before[k] == s);
                }
            }
            assert forall|s: Seq<char>| before.to_set().insert(serial@).contains(s) implies
            #[trigger] now.to_set().contains(s) by {
                if s == serial@ {
                    assert(now[before.len() as int] == s);
                } else {
                    let k = choose|k: int| 0 <= k < before.len() && before[k] == s;
                    assert(now[k] == s);
                }
            }
            assert(now.to_set() =~= before.to_set().insert(serial@));
        }
        SerialSet { items }
    }
}

} // verus!
