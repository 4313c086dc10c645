//! The training loop.
use crate::data::{DataLoader, DataLoaderIterator};
use crate::learner::{
    lemma_train_pass_len, test_pass, train_epochs, train_pass, valid_pass, Learner,
};
use crate::logger::{
    epoch_reports, lemma_epoch_reports_at, lemma_epoch_reports_len, pass_report, report_position,
    step_reports, LogEvent, LogItem, Logger,
};
use std::marker::PhantomData;
use std::sync::Arc;
use vstd::prelude::*;

verus! {

/// A learner with its optimizer, the three data sources that it is trained,
/// validated and tested on, and the three loggers that the passes report to.
pub struct SupervisedTrainer<T, V, L, O, TO, VO, DT, DV, DS, LT, LV, LS> where
    L: Learner<T, V, O, TO, VO>,
    DT: DataLoader<T> + ?Sized,
    DV: DataLoader<V> + ?Sized,
    DS: DataLoader<V> + ?Sized,
    LT: Logger<TO>,
    LV: Logger<VO>,
    LS: Logger<VO>,
 {
    pub dataloader_train: Arc<DT>,
    pub dataloader_valid: Arc<DV>,
    pub dataloader_test: Arc<DS>,
    pub logger_train: LT,
    pub logger_valid: LV,
    pub logger_test: LS,
    pub learner: L,
    pub optimizer: O,
    pub marker: PhantomData<(T, V, TO, VO)>,
}

impl<T, V, L, O, TO, VO, DT, DV, DS, LT, LV, LS> SupervisedTrainer<
    T,
    V,
    L,
    O,
    TO,
    VO,
    DT,
    DV,
    DS,
    LT,
    LV,
    LS,
> where
    L: Learner<T, V, O, TO, VO>,
    DT: DataLoader<T> + ?Sized,
    DV: DataLoader<V> + ?Sized,
    DS: DataLoader<V> + ?Sized,
    LT: Logger<TO>,
    LV: Logger<VO>,
    LS: Logger<VO>,
 {
    /// A trainer that holds what it is given. Nothing has been trained or
    /// reported yet.
    pub fn new(
        dataloader_train: Arc<DT>,
        dataloader_valid: Arc<DV>,
        dataloader_test: Arc<DS>,
        logger_train: LT,
        logger_valid: LV,
        logger_test: LS,
        learner: L,
        optimizer: O,
    ) -> (trainer: Self)
        ensures
            trainer.dataloader_train == dataloader_train,
            trainer.dataloader_valid == dataloader_valid,
            trainer.dataloader_test == dataloader_test,
            trainer.logger_train == logger_train,
            trainer.logger_valid == logger_valid,
            trainer.logger_test == logger_test,
            trainer.learner == learner,
            trainer.optimizer == optimizer,
    {
        Self {
            dataloader_train,
            dataloader_valid,
            dataloader_test,
            learner,
            optimizer,
            logger_train,
            logger_valid,
            logger_test,
            marker: PhantomData,
        }
    }

    /// The items of a training pass.
    pub open spec fn train_items(&self) -> Seq<T> {
        self.dataloader_train.items()
    }

    /// The items of a validation pass.
    pub open spec fn valid_items(&self) -> Seq<V> {
        self.dataloader_valid.items()
    }

    /// The items of the test pass.
    pub open spec fn test_items(&self) -> Seq<V> {
        self.dataloader_test.items()
    }

    /// The outputs of a training pass that starts from this trainer.
    pub open spec fn train_outputs(&self) -> Seq<TO> {
        train_pass::<T, V, O, TO, VO, L>(self.learner, self.optimizer, self.train_items()).2
    }

    /// The outputs of a validation pass with this trainer's learner.
    pub open spec fn valid_outputs(&self) -> Seq<VO> {
        valid_pass::<T, V, O, TO, VO, L>(self.learner, self.valid_items())
    }

    /// The outputs of a test pass with this trainer's learner.
    pub open spec fn test_outputs(&self) -> Seq<VO> {
        test_pass::<T, V, O, TO, VO, L>(self.learner, self.test_items())
    }

    /// `self` and `other` have the same data sources.
    pub open spec fn same_sources(&self, other: &Self) -> bool {
        &&& self.dataloader_train == other.dataloader_train
        &&& self.dataloader_valid == other.dataloader_valid
        &&& self.dataloader_test == other.dataloader_test
    }

    /// `self` is `before` after the training pass of epoch `epoch` in a run
    /// of `num_epochs` epochs: the learner and the optimizer have gone through
    /// a training step for every item of the training source, in the order of
    /// the source, and the training logger has received the report of the
    /// pass. Nothing else has changed.
    pub open spec fn after_train_pass(&self, before: &Self, epoch: usize, num_epochs: usize) -> bool {
        &&& self.learner == train_pass::<T, V, O, TO, VO, L>(
            before.learner,
            before.optimizer,
            before.train_items(),
        ).0
        &&& self.optimizer == train_pass::<T, V, O, TO, VO, L>(
            before.learner,
            before.optimizer,
            before.train_items(),
        ).1
        &&& self.logger_train.history() == before.logger_train.history() + pass_report(
            before.train_outputs(),
            before.train_items().len() as usize,
            Some(epoch),
            Some(num_epochs),
        )
        &&& self.logger_valid == before.logger_valid
        &&& self.logger_test == before.logger_test
        &&& self.same_sources(before)
    }

    /// `self` is `before` after the validation pass of epoch `epoch` in a run
    /// of `num_epochs` epochs: the validation logger has received the report
    /// of the pass. Nothing else has changed.
    pub open spec fn after_valid_pass(&self, before: &Self, epoch: usize, num_epochs: usize) -> bool {
        &&& self.logger_valid.history() == before.logger_valid.history() + pass_report(
            before.valid_outputs(),
            before.valid_items().len() as usize,
            Some(epoch),
            Some(num_epochs),
        )
        &&& self.learner == before.learner
        &&& self.optimizer == before.optimizer
        &&& self.logger_train == before.logger_train
        &&& self.logger_test == before.logger_test
        &&& self.same_sources(before)
    }

    /// `self` is `before` after the test pass: the test logger has received
    /// the report of the pass, with no epoch attached and with the length of
    /// the validation source as the total. Nothing else has changed.
    pub open spec fn after_test_pass(&self, before: &Self) -> bool {
        &&& self.logger_test.history() == before.logger_test.history() + pass_report(
            before.test_outputs(),
            before.valid_items().len() as usize,
            None,
            None,
        )
        &&& self.learner == before.learner
        &&& self.optimizer == before.optimizer
        &&& self.logger_train == before.logger_train
        &&& self.logger_valid == before.logger_valid
        &&& self.same_sources(before)
    }

    /// `self` is `before` after the first `epochs` epochs of a run of
    /// `num_epochs` epochs. The test logger has received nothing yet.
    pub open spec fn after_epochs_of(&self, before: &Self, epochs: nat, num_epochs: usize) -> bool {
        &&& (self.learner, self.optimizer) == before.after_epochs(epochs)
        &&& self.logger_train.history() == before.logger_train.history() + before.train_reports(
            epochs,
            num_epochs,
        )
        &&& self.logger_valid.history() == before.logger_valid.history() + before.valid_reports(
            epochs,
            num_epochs,
        )
        &&& self.logger_test == before.logger_test
        &&& self.same_sources(before)
    }

    /// `self` is `before` after a whole run of `num_epochs` epochs: the
    /// epochs, and then the test pass.
    pub open spec fn after_fit(&self, before: &Self, num_epochs: usize) -> bool {
        &&& (self.learner, self.optimizer) == before.after_epochs(num_epochs as nat)
        &&& self.logger_train.history() == before.logger_train.history() + before.train_reports(
            num_epochs as nat,
            num_epochs,
        )
        &&& self.logger_valid.history() == before.logger_valid.history() + before.valid_reports(
            num_epochs as nat,
            num_epochs,
        )
        &&& self.logger_test.history() == before.logger_test.history() + before.test_report(
            num_epochs,
        )
        &&& self.same_sources(before)
    }

    /// One pass over the training source. Every item goes through a training
    /// step, in the order of the source, and the output of each step is
    /// reported to the training logger before the next step is taken: with its
    /// index in the pass, counted from 0, the length of the source, and the
    /// epoch's position. After the last item the logger is told that the pass
    /// is over. Nothing is sent to the other two loggers.
    pub fn train_pass(&mut self, epoch: usize, num_epochs: usize)
        ensures
            final(self).after_train_pass(old(self), epoch, num_epochs),
    {
        let ghost start = *self;
        let ghost items = self.train_items();
        let total = self.dataloader_train.len();
        let mut pass = self.dataloader_train.iter();
        let mut i: usize = 0;
        loop
            invariant
                items == start.train_items(),
                total == items.len(),
                i <= items.len(),
                pass.remaining() == items.skip(i as int),
                (self.learner, self.optimizer) == ({
                    let done = train_pass::<T, V, O, TO, VO, L>(
                        start.learner,
                        start.optimizer,
                        items.take(i as int),
                    );
                    (done.0, done.1)
                }),
                self.logger_train.history() == start.logger_train.history() + step_reports(
                    train_pass::<T, V, O, TO, VO, L>(
                        start.learner,
                        start.optimizer,
                        items.take(i as int),
                    ).2,
                    total,
                    Some(epoch),
                    Some(num_epochs),
                ),
                self.logger_valid == start.logger_valid,
                self.logger_test == start.logger_test,
                self.same_sources(&start),
            ensures
                i == items.len(),
            decreases pass.remaining().len(),
        {
            let ghost before = train_pass::<T, V, O, TO, VO, L>(
                start.learner,
                start.optimizer,
                items.take(i as int),
            );
            proof {
                lemma_train_pass_len::<T, V, O, TO, VO, L>(
                    start.learner,
                    start.optimizer,
                    items.take(i as int),
                );
            }
            match pass.next() {
                Some(item) => {
                    assert(items.take(i + 1).drop_last() == items.take(i as int));
                    let output = self.learner.train(item, &mut self.optimizer);
                    let log = LogItem::new(output).iteration(i).iteration_total(total).epoch(
                        epoch,
                    ).epoch_total(num_epochs);
                    self.logger_train.log(log);
                    assert(step_reports(before.2.push(output), total, Some(epoch), Some(num_epochs))
                        == step_reports(before.2, total, Some(epoch), Some(num_epochs)).push(
                        LogEvent::Log(log),
                    ));
                    i += 1;
                },
                None => {
                    break ;
                },
            }
        }
        assert(items.take(i as int) == items);
        self.logger_train.clear();
    }

    /// One pass over the validation source. Every item goes through an
    /// evaluation step, in the order of the source, and the output of each
    /// step is reported to the validation logger: with its index in the pass,
    /// counted from 0, the length of the source, and the epoch's position.
    /// After the last item the logger is told that the pass is over. The
    /// learner and the optimizer are left as they are.
    pub fn valid_pass(&mut self, epoch: usize, num_epochs: usize)
        ensures
            final(self).after_valid_pass(old(self), epoch, num_epochs),
    {
        let ghost start = *self;
        let ghost items = self.valid_items();
        let total = self.dataloader_valid.len();
        let mut pass = self.dataloader_valid.iter();
        let mut i: usize = 0;
        loop
            invariant
                items == start.valid_items(),
                total == items.len(),
                i <= items.len(),
                pass.remaining() == items.skip(i as int),
                self.logger_valid.history() == start.logger_valid.history() + step_reports(
                    valid_pass::<T, V, O, TO, VO, L>(start.learner, items.take(i as int)),
                    total,
                    Some(epoch),
                    Some(num_epochs),
                ),
                self.learner == start.learner,
                self.optimizer == start.optimizer,
                self.logger_train == start.logger_train,
                self.logger_test == start.logger_test,
                self.same_sources(&start),
            ensures
                i == items.len(),
            decreases pass.remaining().len(),
        {
            match pass.next() {
                Some(item) => {
                    let output = self.learner.valid(item);
                    let log = LogItem::new(output).iteration(i).iteration_total(total).epoch(
                        epoch,
                    ).epoch_total(num_epochs);
                    self.logger_valid.log(log);
                    assert(step_reports(
                        valid_pass::<T, V, O, TO, VO, L>(start.learner, items.take(i + 1)),
                        total,
                        Some(epoch),
                        Some(num_epochs),
                    ) == step_reports(
                        valid_pass::<T, V, O, TO, VO, L>(start.learner, items.take(i as int)),
                        total,
                        Some(epoch),
                        Some(num_epochs),
                    ).push(LogEvent::Log(log)));
                    i += 1;
                },
                None => {
                    break ;
                },
            }
        }
        assert(items.take(i as int) == items);
        self.logger_valid.clear();
    }

    /// The pass over the test source. Every item goes through an evaluation
    /// step, in the order of the source, and the output of each step is
    /// reported to the test logger with its index in the pass, counted from 0,
    /// and a total. The pass belongs to no epoch, so no epoch position is
    /// attached. After the last item the logger is told that the pass is over.
    ///
    /// The total that is reported is the length of the validation source, not
    /// that of the test source. The two differ wherever the two sources do;
    /// whether the test source's length should be reported instead is an open
    /// question, and until it is settled the reports stay as they are.
    pub fn test_pass(&mut self)
        ensures
            final(self).after_test_pass(old(self)),
    {
        let ghost start = *self;
        let ghost items = self.test_items();
        let total = self.dataloader_valid.len();
        let mut pass = self.dataloader_test.iter();
        let mut i: usize = 0;
        loop
            invariant
                items == start.test_items(),
                total == start.valid_items().len(),
                i <= items.len() <= usize::MAX,
                pass.remaining() == items.skip(i as int),
                self.logger_test.history() == start.logger_test.history() + step_reports(
                    test_pass::<T, V, O, TO, VO, L>(start.learner, items.take(i as int)),
                    total,
                    None,
                    None,
                ),
                self.learner == start.learner,
                self.optimizer == start.optimizer,
                self.logger_train == start.logger_train,
                self.logger_valid == start.logger_valid,
                self.same_sources(&start),
            ensures
                i == items.len(),
            decreases pass.remaining().len(),
        {
            match pass.next() {
                Some(item) => {
                    let output = self.learner.test(item);
                    let log = LogItem::new(output).iteration(i).iteration_total(total);
                    self.logger_test.log(log);
                    assert(step_reports(
                        test_pass::<T, V, O, TO, VO, L>(start.learner, items.take(i + 1)),
                        total,
                        None,
                        None,
                    ) == step_reports(
                        test_pass::<T, V, O, TO, VO, L>(start.learner, items.take(i as int)),
                        total,
                        None,
                        None,
                    ).push(LogEvent::Log(log)));
                    i += 1;
                },
                None => {
                    break ;
                },
            }
        }
        assert(items.take(i as int) == items);
        self.logger_test.clear();
    }

    /// The learner and the optimizer after `epochs` epochs. Only the training
    /// passes change them.
    pub open spec fn after_epochs(&self, epochs: nat) -> (L, O) {
        train_epochs::<T, V, O, TO, VO, L>(
            self.learner,
            self.optimizer,
            self.train_items(),
            epochs,
        )
    }

    /// The outputs of the training pass of epoch `epoch`, counted from 0: the
    /// pass starts from what the epochs before it left behind.
    pub open spec fn epoch_train_outputs(&self, epoch: nat) -> Seq<TO> {
        let start = self.after_epochs(epoch);
        train_pass::<T, V, O, TO, VO, L>(start.0, start.1, self.train_items()).2
    }

    /// The outputs of the validation pass of epoch `epoch`, counted from 0:
    /// the pass evaluates the learner as that epoch's training pass left it.
    pub open spec fn epoch_valid_outputs(&self, epoch: nat) -> Seq<VO> {
        valid_pass::<T, V, O, TO, VO, L>(self.after_epochs(epoch + 1).0, self.valid_items())
    }

    /// What the first `epochs` epochs of a run of `num_epochs` send to the
    /// training logger.
    pub open spec fn train_reports(&self, epochs: nat, num_epochs: usize) -> Seq<LogEvent<TO>> {
        epoch_reports(
            |k: nat| self.epoch_train_outputs(k),
            self.train_items().len() as usize,
            epochs,
            num_epochs,
        )
    }

    /// What the first `epochs` epochs of a run of `num_epochs` send to the
    /// validation logger.
    pub open spec fn valid_reports(&self, epochs: nat, num_epochs: usize) -> Seq<LogEvent<VO>> {
        epoch_reports(
            |k: nat| self.epoch_valid_outputs(k),
            self.valid_items().len() as usize,
            epochs,
            num_epochs,
        )
    }

    /// What a run of `num_epochs` sends to the test logger: the report of the
    /// test pass, which evaluates the learner as the last epoch left it.
    pub open spec fn test_report(&self, num_epochs: usize) -> Seq<LogEvent<VO>> {
        pass_report(
            test_pass::<T, V, O, TO, VO, L>(
                self.after_epochs(num_epochs as nat).0,
                self.test_items(),
            ),
            self.valid_items().len() as usize,
            None,
            None,
        )
    }

    /// The training pass of every epoch has one output for each item of the
    /// training source.
    pub proof fn lemma_epoch_train_outputs_len(&self)
        ensures
            forall|k: nat| (#[trigger] self.epoch_train_outputs(k)).len() == self.train_items().len(),
    {
        assert forall|k: nat| (#[trigger] self.epoch_train_outputs(k)).len()
            == self.train_items().len() by {
            let start = self.after_epochs(k);
            lemma_train_pass_len::<T, V, O, TO, VO, L>(start.0, start.1, self.train_items());
        }
    }

    /// How many calls each logger receives in a run of `num_epochs` epochs:
    /// one for each item of each pass, and one more at the end of each pass.
    pub proof fn lemma_report_counts(&self, num_epochs: usize)
        ensures
            self.train_reports(num_epochs as nat, num_epochs).len() == num_epochs * (
            self.train_items().len() + 1),
            self.valid_reports(num_epochs as nat, num_epochs).len() == num_epochs * (
            self.valid_items().len() + 1),
            self.test_report(num_epochs).len() == self.test_items().len() + 1,
    {
        let train = |k: nat| self.epoch_train_outputs(k);
        let valid = |k: nat| self.epoch_valid_outputs(k);
        self.lemma_epoch_train_outputs_len();
        lemma_epoch_reports_len(
            train,
            self.train_items().len() as usize,
            num_epochs as nat,
            num_epochs,
            self.train_items().len(),
        );
        lemma_epoch_reports_len(
            valid,
            self.valid_items().len() as usize,
            num_epochs as nat,
            num_epochs,
            self.valid_items().len(),
        );
    }

    /// Where the training logger finds what: in a run of `num_epochs` epochs,
    /// call `i` of epoch `epoch` is the report of that epoch's step `i`, with
    /// the iteration `i`, the length of the training source as the total, the
    /// epoch `epoch` and the epoch total `num_epochs`; behind the reports of an
    /// epoch's steps stands the end of its pass.
    pub proof fn lemma_train_report_at(&self, num_epochs: usize, epoch: nat, i: nat)
        requires
            epoch < num_epochs,
            i <= self.train_items().len(),
        ensures
            0 <= report_position(self.train_items().len(), epoch, i) < self.train_reports(
                num_epochs as nat,
                num_epochs,
            ).len(),
            i < self.train_items().len() ==> self.train_reports(
                num_epochs as nat,
                num_epochs,
            )[report_position(self.train_items().len(), epoch, i)] == LogEvent::Log(
                LogItem {
                    item: self.epoch_train_outputs(epoch)[i as int],
                    iteration: Some(i as usize),
                    iteration_total: Some(self.train_items().len() as usize),
                    epoch: Some(epoch as usize),
                    epoch_total: Some(num_epochs),
                },
            ),
            i == self.train_items().len() ==> self.train_reports(
                num_epochs as nat,
                num_epochs,
            )[report_position(self.train_items().len(), epoch, i)] == LogEvent::<TO>::Clear,
    {
        let train = |k: nat| self.epoch_train_outputs(k);
        self.lemma_epoch_train_outputs_len();
        lemma_epoch_reports_at(
            train,
            self.train_items().len() as usize,
            num_epochs as nat,
            num_epochs,
            self.train_items().len(),
            epoch,
            i,
        );
    }

    /// Where the validation logger finds what: in a run of `num_epochs`
    /// epochs, call `i` of epoch `epoch` is the report of that epoch's step
    /// `i`, with the iteration `i`, the length of the validation source as the
    /// total, the epoch `epoch` and the epoch total `num_epochs`; behind the
    /// reports of an epoch's steps stands the end of its pass.
    pub proof fn lemma_valid_report_at(&self, num_epochs: usize, epoch: nat, i: nat)
        requires
            epoch < num_epochs,
            i <= self.valid_items().len(),
        ensures
            0 <= report_position(self.valid_items().len(), epoch, i) < self.valid_reports(
                num_epochs as nat,
                num_epochs,
            ).len(),
            i < self.valid_items().len() ==> self.valid_reports(
                num_epochs as nat,
                num_epochs,
            )[report_position(self.valid_items().len(), epoch, i)] == LogEvent::Log(
                LogItem {
                    item: self.epoch_valid_outputs(epoch)[i as int],
                    iteration: Some(i as usize),
                    iteration_total: Some(self.valid_items().len() as usize),
                    epoch: Some(epoch as usize),
                    epoch_total: Some(num_epochs),
                },
            ),
            i == self.valid_items().len() ==> self.valid_reports(
                num_epochs as nat,
                num_epochs,
            )[report_position(self.valid_items().len(), epoch, i)] == LogEvent::<VO>::Clear,
    {
        lemma_epoch_reports_at(
            |k: nat| self.epoch_valid_outputs(k),
            self.valid_items().len() as usize,
            num_epochs as nat,
            num_epochs,
            self.valid_items().len(),
            epoch,
            i,
        );
    }

    /// What the test logger finds: call `i` is the report of step `i` of the
    /// test pass, with the iteration `i`, the length of the validation source
    /// as the total, and no epoch; behind the reports stands the end of the
    /// pass.
    pub proof fn lemma_test_report_at(&self, num_epochs: usize, i: nat)
        requires
            i <= self.test_items().len(),
        ensures
            i < self.test_items().len() ==> self.test_report(num_epochs)[i as int] == LogEvent::Log(
                LogItem {
                    item: self.after_epochs(num_epochs as nat).0.test_spec(
                        self.test_items()[i as int],
                    ),
                    iteration: Some(i as usize),
                    iteration_total: Some(self.valid_items().len() as usize),
                    epoch: None,
                    epoch_total: None,
                },
            ),
            i == self.test_items().len() ==> self.test_report(num_epochs)[i as int]
                == LogEvent::<VO>::Clear,
    {
    }

    /// An epoch is a training pass followed by a validation pass: when the
    /// first `epoch` epochs of a run lie between `start` and `before`, a
    /// training pass leads from `before` to `trained` and a validation pass
    /// from `trained` to `validated`, then the first `epoch + 1` epochs lie
    /// between `start` and `validated`.
    pub proof fn lemma_epoch(
        start: Self,
        before: Self,
        trained: Self,
        validated: Self,
        epoch: usize,
        num_epochs: usize,
    )
        requires
            before.after_epochs_of(&start, epoch as nat, num_epochs),
            trained.after_train_pass(&before, epoch, num_epochs),
            validated.after_valid_pass(&trained, epoch, num_epochs),
        ensures
            validated.after_epochs_of(&start, (epoch + 1) as nat, num_epochs),
    {
        let done = epoch as nat;
        assert(validated.logger_train.history() =~= start.logger_train.history()
            + start.train_reports(done + 1, num_epochs));
        assert(validated.logger_valid.history() =~= start.logger_valid.history()
            + start.valid_reports(done + 1, num_epochs));
    }

    /// The state in which epoch `k` of a run begins: `start` for the first
    /// epoch, and for every other epoch what the validation pass of the epoch
    /// before it left behind. With `k` the number of epochs, it is the state
    /// in which the test pass begins.
    pub open spec fn epoch_start(start: Self, validated: Seq<Self>, k: int) -> Self {
        if k <= 0 {
            start
        } else {
            validated[k - 1]
        }
    }

    /// The passes of a run from `start`, one after the other: in every epoch
    /// `k` a training pass from where the epoch begins to `trained[k]` and
    /// then a validation pass from there to `validated[k]`, and after the last
    /// epoch the test pass, which leads to `end`.
    pub open spec fn passes_in_order(
        start: Self,
        trained: Seq<Self>,
        validated: Seq<Self>,
        end: Self,
        num_epochs: usize,
    ) -> bool {
        &&& trained.len() == num_epochs
        &&& validated.len() == num_epochs
        &&& forall|k: int|
            0 <= k < num_epochs ==> (#[trigger] trained[k]).after_train_pass(
                &Self::epoch_start(start, validated, k),
                k as usize,
                num_epochs,
            )
        &&& forall|k: int|
            0 <= k < num_epochs ==> (#[trigger] validated[k]).after_valid_pass(
                &trained[k],
                k as usize,
                num_epochs,
            )
        &&& end.after_test_pass(&Self::epoch_start(start, validated, num_epochs as int))
    }

    /// While the passes of a run are made in their order, the first `k`
    /// epochs lie between `start` and the state in which epoch `k` begins.
    pub proof fn lemma_epochs_in_order(
        start: Self,
        trained: Seq<Self>,
        validated: Seq<Self>,
        end: Self,
        num_epochs: usize,
        k: nat,
    )
        requires
            Self::passes_in_order(start, trained, validated, end, num_epochs),
            k <= num_epochs,
        ensures
            Self::epoch_start(start, validated, k as int).after_epochs_of(
                &start,
                k,
                num_epochs,
            ),
        decreases k,
    {
        if k == 0 {
            assert(start.logger_train.history() =~= start.logger_train.history()
                + start.train_reports(0, num_epochs));
            assert(start.logger_valid.history() =~= start.logger_valid.history()
                + start.valid_reports(0, num_epochs));
        } else {
            let epoch = (k - 1) as usize;
            Self::lemma_epochs_in_order(
                start,
                trained,
                validated,
                end,
                num_epochs,
                (k - 1) as nat,
            );
            assert(trained[k - 1].after_train_pass(
                &Self::epoch_start(start, validated, k - 1),
                epoch,
                num_epochs,
            ));
            assert(validated[k - 1].after_valid_pass(&trained[k - 1], epoch, num_epochs));
            Self::lemma_epoch(
                start,
                Self::epoch_start(start, validated, k - 1),
                trained[k - 1],
                validated[k - 1],
                epoch,
                num_epochs,
            );
        }
    }

    /// A run is its passes in a fixed order: the training pass of an epoch,
    /// then the validation pass of that epoch, then the next epoch, and the
    /// test pass when the last epoch is over. Making the passes one by one in
    /// that order leads to the state that [`Self::fit`] leads to.
    pub proof fn lemma_run_is_its_passes(
        start: Self,
        trained: Seq<Self>,
        validated: Seq<Self>,
        end: Self,
        num_epochs: usize,
    )
        requires
            Self::passes_in_order(start, trained, validated, end, num_epochs),
        ensures
            end.after_fit(&start, num_epochs),
    {
        Self::lemma_epochs_in_order(
            start,
            trained,
            validated,
            end,
            num_epochs,
            num_epochs as nat,
        );
    }

    /// Trains in place: `num_epochs` epochs, each a training pass followed by
    /// a validation pass, and then the test pass. An epoch begins only when
    /// the epoch before it has reported the end of its validation pass, and
    /// the test pass begins only when the last epoch has.
    ///
    /// The first clause says what each logger has received when the run is
    /// over. The second says in which order: the run has gone, pass by pass,
    /// through a chain of states, each of which holds the histories of all
    /// three loggers as they were between two passes.
    pub fn fit(&mut self, num_epochs: usize)
        ensures
            final(self).after_fit(old(self), num_epochs),
            exists|trained: Seq<Self>, validated: Seq<Self>| #[trigger]
                Self::passes_in_order(*old(self), trained, validated, *final(self), num_epochs),
    {
        let ghost start = *self;
        let ghost mut trained: Seq<Self> = Seq::empty();
        let ghost mut validated: Seq<Self> = Seq::empty();
        let mut epoch: usize = 0;
        while epoch < num_epochs
            invariant
                epoch <= num_epochs,
                self.after_epochs_of(&start, epoch as nat, num_epochs),
                trained.len() == epoch,
                validated.len() == epoch,
                *self == Self::epoch_start(start, validated, epoch as int),
                forall|k: int|
                    0 <= k < epoch ==> (#[trigger] trained[k]).after_train_pass(
                        &Self::epoch_start(start, validated, k),
                        k as usize,
                        num_epochs,
                    ),
                forall|k: int|
                    0 <= k < epoch ==> (#[trigger] validated[k]).after_valid_pass(
                        &trained[k],
                        k as usize,
                        num_epochs,
                    ),
            decreases num_epochs - epoch,
        {
            let ghost before = *self;
            self.train_pass(epoch, num_epochs);
            proof {
                trained = trained.push(*self);
            }
            self.valid_pass(epoch, num_epochs);
            proof {
                validated = validated.push(*self);
                Self::lemma_epoch(start, before, trained[epoch as int], *self, epoch, num_epochs);
            }
            epoch += 1;
        }
        self.test_pass();
        assert(Self::passes_in_order(start, trained, validated, *self, num_epochs));
    }

    /// Runs the whole training and hands back the learner as the last epoch
    /// left it. The loggers are given up with the trainer; `end` is the
    /// trainer as it was when the run was over, with what [`Self::fit`] says
    /// of it: what each logger had received, and in which order the passes
    /// were made.
    pub fn run(self, num_epochs: usize) -> (learner: L)
        ensures
            learner == self.after_epochs(num_epochs as nat).0,
            exists|end: Self, trained: Seq<Self>, validated: Seq<Self>| #[trigger]
                Self::passes_in_order(self, trained, validated, end, num_epochs) && end.after_fit(
                    &self,
                    num_epochs,
                ) && end.learner == learner,
    {
        let mut trainer = self;
        trainer.fit(num_epochs);
        trainer.learner
    }
}

} // verus!
