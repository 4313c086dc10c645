//! The learning step, as the training loop sees it.
use vstd::prelude::*;

verus! {

/// A model that learns from training items and is evaluated on validation and
/// test items. `O` is the optimizer, which the training step may update and
/// which nothing else reads.
///
/// A step is a function of the learner, the item and the optimizer: the three
/// spec functions name what a step returns and what it leaves behind, and
/// each method returns what its spec function names. A verified
/// implementation says what they are; where it does not, they are left
/// unknown.
pub trait Learner<T, V, O, TO, VO>: Sized {
    /// The learner and the optimizer after a training step on `item`, and the
    /// output of the step.
    open spec fn train_spec(self, item: T, optim: O) -> (Self, O, TO) {
        arbitrary()
    }

    /// The output of an evaluation step on a validation item.
    open spec fn valid_spec(self, item: V) -> VO {
        arbitrary()
    }

    /// The output of an evaluation step on a test item.
    open spec fn test_spec(self, item: V) -> VO {
        arbitrary()
    }

    fn train(&mut self, item: T, optim: &mut O) -> (output: TO)
        ensures
            (*final(self), *final(optim), output) == old(self).train_spec(item, *old(optim)),
    ;

    fn valid(&self, item: V) -> (output: VO)
        ensures
            output == self.valid_spec(item),
    ;

    fn test(&self, item: V) -> (output: VO)
        ensures
            output == self.test_spec(item),
    ;
}

/// A training pass over `items`, first to last: the learner and the optimizer
/// after the last step, and the outputs of the steps in the order of the
/// items. Each step starts from what the step before it left behind.
pub open spec fn train_pass<T, V, O, TO, VO, L: Learner<T, V, O, TO, VO>>(
    learner: L,
    optim: O,
    items: Seq<T>,
) -> (L, O, Seq<TO>)
    decreases items.len(),
{
    if items.len() == 0 {
        (learner, optim, Seq::empty())
    } else {
        let before = train_pass(learner, optim, items.drop_last());
        let step = before.0.train_spec(items.last(), before.1);
        (step.0, step.1, before.2.push(step.2))
    }
}

/// A training pass has one output for each item.
pub proof fn lemma_train_pass_len<T, V, O, TO, VO, L: Learner<T, V, O, TO, VO>>(
    learner: L,
    optim: O,
    items: Seq<T>,
)
    ensures
        train_pass::<T, V, O, TO, VO, L>(learner, optim, items).2.len() == items.len(),
    decreases items.len(),
{
    if items.len() > 0 {
        lemma_train_pass_len::<T, V, O, TO, VO, L>(learner, optim, items.drop_last());
    }
}

/// The learner and the optimizer after `epochs` training passes over `items`.
pub open spec fn train_epochs<T, V, O, TO, VO, L: Learner<T, V, O, TO, VO>>(
    learner: L,
    optim: O,
    items: Seq<T>,
    epochs: nat,
) -> (L, O)
    decreases epochs,
{
    if epochs == 0 {
        (learner, optim)
    } else {
        let before = train_epochs(learner, optim, items, (epochs - 1) as nat);
        let pass = train_pass(before.0, before.1, items);
        (pass.0, pass.1)
    }
}

/// The outputs of a validation pass over `items`, in the order of the items.
pub open spec fn valid_pass<T, V, O, TO, VO, L: Learner<T, V, O, TO, VO>>(
    learner: L,
    items: Seq<V>,
) -> Seq<VO> {
    Seq::new(items.len(), |i: int| learner.valid_spec(items[i]))
}

/// The outputs of a test pass over `items`, in the order of the items.
pub open spec fn test_pass<T, V, O, TO, VO, L: Learner<T, V, O, TO, VO>>(
    learner: L,
    items: Seq<V>,
) -> Seq<VO> {
    Seq::new(items.len(), |i: int| learner.test_spec(items[i]))
}

} // verus!
