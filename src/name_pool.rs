//! A pool of owned names, each handed out by its position.
use vstd::prelude::*;

verus! {

/// Owned strings kept for the lifetime of the pool.
#[derive(Debug)]
pub struct ConstPool {
    names: Vec<String>,
}

impl View for ConstPool {
    type V = Seq<Seq<char>>;

    closed spec fn view(&self) -> Seq<Seq<char>> {
        self.names@.map_values(|s: String| s@)
    }
}

impl Default for ConstPool {
    fn default() -> (r: ConstPool)
        ensures
            r@ == Seq::<Seq<char>>::empty(),
    {
        ConstPool::new()
    }
}

impl ConstPool {
    pub fn new() -> (r: ConstPool)
        ensures
            r@ == Seq::<Seq<char>>::empty(),
    {
        let r = ConstPool { names: Vec::new() };
        assert(r@ =~= Seq::<Seq<char>>::empty());
        r
    }

    /// Keeps a copy of `name` and returns its position.
    pub fn push(&mut self, name: &str) -> (r: usize)
        requires
            old(self)@.len() < usize::MAX,
        ensures
            final(self)@ == old(self)@.push(name@),
            r == old(self)@.len(),
    {
        let r = self.names.len();
        self.names.push(name.to_owned());
        proof {
            assert(self@ =~= old(self)@.push(name@));
        }
        r
    }

    /// The name kept at `index`.
    pub fn get(&self, index: usize) -> (r: &str)
        requires
            index < self@.len(),
        ensures
            r@ == self@[index as int],
    {
        self.names[index].as_str()
    }
}

} // verus!
