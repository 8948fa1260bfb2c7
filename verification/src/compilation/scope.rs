//! The place in the program at which the compiler stands, as the names of
//! the module and functions around it.

use vstd::prelude::*;

verus! {

/// The segments of `segments` with `separator` between each two of them.
pub open spec fn joined(segments: Seq<Seq<char>>, separator: Seq<char>) -> Seq<char>
    decreases segments.len(),
{
    if segments.len() == 0 {
        Seq::empty()
    } else if segments.len() == 1 {
        segments[0]
    } else {
        joined(segments.drop_last(), separator) + separator + segments.last()
    }
}

/// A stack of names, the outermost first.
#[derive(Debug)]
pub struct Scope {
    pub scope: Vec<String>,
}

impl View for Scope {
    type V = Seq<Seq<char>>;

    open spec fn view(&self) -> Seq<Seq<char>> {
        self.scope.deep_view()
    }
}

impl Clone for Scope {
    fn clone(&self) -> (copy: Self)
        ensures
            copy@ == self@,
    {
        let mut scope: Vec<String> = Vec::new();
        let mut i: usize = 0;
        while i < self.scope.len()
            invariant
                i <= self.scope.len(),
                scope.len() == i,
                forall|k: int| 0 <= k < i ==> (#[trigger] scope[k])@ == self.scope[k]@,
            decreases self.scope.len() - i,
        {
            scope.push(self.scope[i].clone());
            i += 1;
        }
        let copy = Scope { scope };
        assert(copy@ =~= self@);
        copy
    }
}

impl Scope {
    /// The empty scope.
    pub fn new() -> (scope: Scope)
        ensures
            scope@ == Seq::<Seq<char>>::empty(),
    {
        let scope = Scope { scope: Vec::new() };
        assert(scope@ =~= Seq::<Seq<char>>::empty());
        scope
    }

    /// The scope with the segments of `start`.
    pub fn from(start: Vec<String>) -> (scope: Scope)
        ensures
            scope@ == start.deep_view(),
    {
        Scope { scope: start }
    }

    /// Enters `sub_scope`.
    pub fn push(&mut self, sub_scope: String)
        ensures
            final(self)@ == old(self)@.push(sub_scope@),
    {
        self.scope.push(sub_scope);
        assert(self@ =~= old(self)@.push(sub_scope@));
    }

    /// Leaves the innermost segment. The empty scope stays empty.
    pub fn pop(&mut self)
        ensures
            final(self)@ == if old(self)@.len() == 0 {
                old(self)@
            } else {
                old(self)@.drop_last()
            },
    {
        self.scope.pop();
        assert(self@ =~= if old(self)@.len() == 0 {
            old(self)@
        } else {
            old(self)@.drop_last()
        });
    }

    /// Leaves every segment.
    pub fn reset(&mut self)
        ensures
            final(self)@ == Seq::<Seq<char>>::empty(),
    {
        self.scope = Vec::new();
        assert(self@ =~= Seq::<Seq<char>>::empty());
    }

    /// The qualified name of the scope: its segments with a dot between
    /// each two.
    pub fn to_string(&self) -> (name: String)
        ensures
            name@ == joined(self@, "."@),
    {
        let mut to_write = String::new();
        let mut i: usize = 0;
        while i < self.scope.len()
            invariant
                i <= self.scope.len(),
                to_write@ == joined(self@.take(i as int), "."@),
            decreases self.scope.len() - i,
        {
            if i != 0 {
                to_write.append(".");
            }
            to_write.append(self.scope[i].as_str());
            proof {
                let before = self@.take(i as int);
                let after = self@.take(i + 1);
                assert(after.drop_last() =~= before);
                assert(after.last() == self.scope[i as int]@);
                if i == 0 {
                    assert(to_write@ =~= after[0]);
                }
            }
            i += 1;
        }
        assert(self@.take(self.scope.len() as int) =~= self@);
        to_write
    }
}

} // verus!
