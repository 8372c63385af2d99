//! The assembler's table of local names: every `$name` seen in an
//! instruction slot and every named parameter, each with its first-seen
//! index.
use vstd::prelude::*;
use vstd::string::*;

use crate::text::str_eq;

verus! {

/// The texts of a sequence of names.
pub open spec fn names_view(s: Seq<String>) -> Seq<Seq<char>> {
    Seq::new(s.len(), |i: int| s[i]@)
}

/// The first position holding this text, searching from `i` on.
pub open spec fn first_name_at(s: Seq<Seq<char>>, t: Seq<char>, i: int) -> Option<int>
    decreases s.len() - i,
{
    if !(0 <= i < s.len()) {
        None
    } else if s[i] == t {
        Some(i)
    } else {
        first_name_at(s, t, i + 1)
    }
}

/// A found name sits in the table and is the text looked for.
pub proof fn lemma_first_name_at_bounds(s: Seq<Seq<char>>, t: Seq<char>, i: int)
    ensures
        first_name_at(s, t, i) matches Some(j) ==> i <= j < s.len() && s[j] == t,
    decreases s.len() - i,
{
    if 0 <= i < s.len() && !(s[i] == t) {
        lemma_first_name_at_bounds(s, t, i + 1);
    }
}

/// What tracking a name does: its first position if present, else the
/// next index with the name recorded.
pub open spec fn track_spec(locals: Seq<Seq<char>>, name: Seq<char>) -> (int, Seq<Seq<char>>) {
    match first_name_at(locals, name, 0) {
        Some(j) => (j, locals),
        None => (locals.len() as int, locals.push(name)),
    }
}

/// Gathers the names of locals, assigning each its first-seen index.
pub struct LocalsCollector {
    pub locals: Vec<String>,
}

impl View for LocalsCollector {
    type V = Seq<Seq<char>>;

    open spec fn view(&self) -> Seq<Seq<char>> {
        names_view(self.locals@)
    }
}

impl LocalsCollector {
    /// An empty table.
    pub fn new() -> (r: LocalsCollector)
        ensures
            r@ == Seq::<Seq<char>>::empty(),
    {
        let r = LocalsCollector { locals: Vec::new() };
        proof {
            assert(r@ =~= Seq::<Seq<char>>::empty());
        }
        r
    }

    /// The index of a name: its first position if it was seen before,
    /// otherwise the next free index, under which it is recorded.
    pub fn track(&mut self, name: &str) -> (r: usize)
        ensures
            first_name_at(old(self)@, name@, 0) matches Some(j) ==> r == j && final(self)@ == old(
                self,
            )@,
            first_name_at(old(self)@, name@, 0) is None ==> r == old(self)@.len() && final(self)@
                == old(self)@.push(name@),
    {
        let n = self.locals.len();
        let mut i: usize = 0;
        while i < n
            invariant
                0 <= i <= n,
                n == self.locals@.len(),
                self@ == names_view(self.locals@),
                first_name_at(self@, name@, 0) == first_name_at(self@, name@, i as int),
            decreases n - i,
        {
            if str_eq(self.locals[i].as_str(), name) {
                return i;
            }
            i += 1;
        }
        let ghost before = self@;
        self.locals.push(String::from_str(name));
        proof {
            assert(self@ =~= before.push(name@));
        }
        n
    }
}

} // verus!
