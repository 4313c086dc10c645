//! Data sources.
use vstd::prelude::*;

verus! {

/// One pass over a data source.
pub trait DataLoaderIterator<T> {
    /// The items that the pass has not handed out yet, next first. A
    /// verified implementation says what they are; where it does not, they
    /// are left unknown.
    open spec fn remaining(&self) -> Seq<T> {
        arbitrary()
    }

    /// Hands out the next item, or `None` once the pass is over.
    fn next(&mut self) -> (item: Option<T>)
        ensures
            match item {
                Some(x) => {
                    &&& old(self).remaining().len() > 0
                    &&& x == old(self).remaining()[0]
                    &&& final(self).remaining() == old(self).remaining().drop_first()
                },
                None => {
                    &&& old(self).remaining().len() == 0
                    &&& final(self).remaining() == old(self).remaining()
                },
            },
    ;
}

/// A finite source of items that can be walked any number of times. Every
/// pass hands out the same items in the same order.
pub trait DataLoader<T> {
    type Iter: DataLoaderIterator<T>;

    /// The items of a pass, first to last. A verified implementation says
    /// what they are; where it does not, they are left unknown.
    open spec fn items(&self) -> Seq<T> {
        arbitrary()
    }

    /// Starts a pass. A pass has no more items than can be counted.
    fn iter(&self) -> (pass: Self::Iter)
        ensures
            pass.remaining() == self.items(),
            pass.remaining().len() <= usize::MAX,
    ;

    /// The number of items of a pass.
    fn len(&self) -> (n: usize)
        ensures
            n == self.items().len(),
    ;
}

} // verus!
