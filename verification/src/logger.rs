//! What a training run reports, and to whom.
use vstd::prelude::*;

verus! {

/// The output of one step together with its position in the run. A position
/// that does not apply is absent: the test pass belongs to no epoch.
#[derive(Debug, PartialEq, Eq)]
pub struct LogItem<T> {
    /// The output of the step.
    pub item: T,
    /// The index of the step in its pass, counted from 0.
    pub iteration: Option<usize>,
    /// The number of steps that the pass was announced to have.
    pub iteration_total: Option<usize>,
    /// The index of the epoch, counted from 0.
    pub epoch: Option<usize>,
    /// The number of epochs of the run.
    pub epoch_total: Option<usize>,
}

impl<T> LogItem<T> {
    /// An item with no position attached.
    pub fn new(item: T) -> (log: Self)
        ensures
            log == (LogItem {
                item,
                iteration: None,
                iteration_total: None,
                epoch: None,
                epoch_total: None,
            }),
    {
        Self { item, iteration: None, iteration_total: None, epoch: None, epoch_total: None }
    }

    pub fn iteration(self, iteration: usize) -> (log: Self)
        ensures
            log == (LogItem { iteration: Some(iteration), ..self }),
    {
        let mut log = self;
        log.iteration = Some(iteration);
        log
    }

    pub fn iteration_total(self, iteration_total: usize) -> (log: Self)
        ensures
            log == (LogItem { iteration_total: Some(iteration_total), ..self }),
    {
        let mut log = self;
        log.iteration_total = Some(iteration_total);
        log
    }

    pub fn epoch(self, epoch: usize) -> (log: Self)
        ensures
            log == (LogItem { epoch: Some(epoch), ..self }),
    {
        let mut log = self;
        log.epoch = Some(epoch);
        log
    }

    pub fn epoch_total(self, epoch_total: usize) -> (log: Self)
        ensures
            log == (LogItem { epoch_total: Some(epoch_total), ..self }),
    {
        let mut log = self;
        log.epoch_total = Some(epoch_total);
        log
    }
}

/// One call received by a logger.
#[derive(Debug, PartialEq, Eq)]
pub enum LogEvent<T> {
    /// `log` was called with this item.
    Log(LogItem<T>),
    /// `clear` was called.
    Clear,
}

/// A sink for the reports of one kind of pass.
///
/// The abstract state of a logger is the sequence of calls that it has
/// received, oldest first. What a logger does with a report is its own
/// affair; each method adds exactly its own call to the end of the sequence.
pub trait Logger<T> {
    /// The calls received so far, oldest first. A verified implementation
    /// says what they are; where it does not, they are left unknown, and no
    /// method can then be shown to meet its contract.
    open spec fn history(&self) -> Seq<LogEvent<T>> {
        arbitrary()
    }

    /// Reports one step.
    fn log(&mut self, item: LogItem<T>)
        ensures
            final(self).history() == old(self).history().push(LogEvent::Log(item)),
    ;

    /// Reports the end of a pass.
    fn clear(&mut self)
        ensures
            final(self).history() == old(self).history().push(LogEvent::Clear),
    ;
}

/// A boxed logger is a logger: it hands every call to the logger in the box,
/// so a logger can be chosen while the program runs.
impl<T> Logger<T> for Box<dyn Logger<T>> {
    open spec fn history(&self) -> Seq<LogEvent<T>> {
        (**self).history()
    }

    fn log(&mut self, item: LogItem<T>) {
        (**self).log(item)
    }

    fn clear(&mut self) {
        (**self).clear()
    }
}

/// What one pass sends to its logger: a report for each output, in the order
/// of the outputs and numbered from 0, each with the same total and the same
/// epoch position, and then the end of the pass.
pub open spec fn pass_report<T>(
    outputs: Seq<T>,
    total: usize,
    epoch: Option<usize>,
    epoch_total: Option<usize>,
) -> Seq<LogEvent<T>> {
    step_reports(outputs, total, epoch, epoch_total).push(LogEvent::Clear)
}

/// The reports of the steps of one pass, without the end of the pass.
pub open spec fn step_reports<T>(
    outputs: Seq<T>,
    total: usize,
    epoch: Option<usize>,
    epoch_total: Option<usize>,
) -> Seq<LogEvent<T>> {
    Seq::new(
        outputs.len(),
        |i: int|
            LogEvent::Log(
                LogItem {
                    item: outputs[i],
                    iteration: Some(i as usize),
                    iteration_total: Some(total),
                    epoch,
                    epoch_total,
                },
            ),
    )
}

/// What the first `epochs` epochs of a run of `num_epochs` epochs send to one
/// logger, where `outputs(k)` are the outputs of the pass of epoch `k`: the
/// report of each epoch's pass, one epoch after the other. Every report of
/// epoch `k` carries the epoch index `k` and the epoch total `num_epochs`.
pub open spec fn epoch_reports<T>(
    outputs: spec_fn(nat) -> Seq<T>,
    total: usize,
    epochs: nat,
    num_epochs: usize,
) -> Seq<LogEvent<T>>
    decreases epochs,
{
    if epochs == 0 {
        Seq::empty()
    } else {
        epoch_reports(outputs, total, (epochs - 1) as nat, num_epochs) + pass_report(
            outputs((epochs - 1) as nat),
            total,
            Some((epochs - 1) as usize),
            Some(num_epochs),
        )
    }
}

/// A logger receives one call for each step of each epoch and one more at the
/// end of each epoch's pass: with `len` steps in a pass, `epochs` epochs make
/// `epochs * (len + 1)` calls.
pub proof fn lemma_epoch_reports_len<T>(
    outputs: spec_fn(nat) -> Seq<T>,
    total: usize,
    epochs: nat,
    num_epochs: usize,
    len: nat,
)
    requires
        forall|k: nat| k < epochs ==> (#[trigger] outputs(k)).len() == len,
    ensures
        epoch_reports(outputs, total, epochs, num_epochs).len() == epochs * (len + 1),
    decreases epochs,
{
    if epochs == 0 {
        assert(epochs * (len + 1) == 0) by (nonlinear_arith)
            requires
                epochs == 0,
        ;
    } else {
        let earlier = (epochs - 1) as nat;
        lemma_epoch_reports_len(outputs, total, earlier, num_epochs, len);
        assert(outputs(earlier).len() == len);
        assert(epochs * (len + 1) == earlier * (len + 1) + (len + 1)) by (nonlinear_arith)
            requires
                epochs == earlier + 1,
        ;
    }
}

/// The position, in a logger's history, of call `i` of epoch `epoch`, where a
/// pass has `len` steps and therefore makes `len + 1` calls.
pub open spec fn report_position(len: nat, epoch: nat, i: nat) -> int {
    (epoch * (len + 1) + i) as int
}

/// Where each call stands in a logger's history. With `len` steps in a pass,
/// the calls of epoch `epoch` stand together, behind those of the epochs
/// before it: first the reports of its steps, in their order, the report of
/// step `i` numbered `i` and marked with the epoch's index, then the end of
/// the pass. The numbering starts again from 0 in every epoch.
pub proof fn lemma_epoch_reports_at<T>(
    outputs: spec_fn(nat) -> Seq<T>,
    total: usize,
    epochs: nat,
    num_epochs: usize,
    len: nat,
    epoch: nat,
    i: nat,
)
    requires
        forall|k: nat| k < epochs ==> (#[trigger] outputs(k)).len() == len,
        epoch < epochs,
        i <= len,
    ensures
        0 <= report_position(len, epoch, i) < epoch_reports(
            outputs,
            total,
            epochs,
            num_epochs,
        ).len(),
        i < len ==> epoch_reports(outputs, total, epochs, num_epochs)[report_position(
            len,
            epoch,
            i,
        )] == LogEvent::Log(
            LogItem {
                item: outputs(epoch)[i as int],
                iteration: Some(i as usize),
                iteration_total: Some(total),
                epoch: Some(epoch as usize),
                epoch_total: Some(num_epochs),
            },
        ),
        i == len ==> epoch_reports(outputs, total, epochs, num_epochs)[report_position(
            len,
            epoch,
            i,
        )] == LogEvent::<T>::Clear,
    decreases epochs,
{
    let earlier = epoch_reports(outputs, total, (epochs - 1) as nat, num_epochs);
    let last = pass_report(
        outputs((epochs - 1) as nat),
        total,
        Some((epochs - 1) as usize),
        Some(num_epochs),
    );
    let at = report_position(len, epoch, i);
    let before = (epochs - 1) as nat;
    lemma_epoch_reports_len(outputs, total, before, num_epochs, len);
    lemma_epoch_reports_len(outputs, total, epochs, num_epochs, len);
    assert(epochs * (len + 1) == before * (len + 1) + (len + 1)) by (nonlinear_arith)
        requires
            epochs == before + 1,
    ;
    if epoch == before {
        assert((earlier + last)[at] == last[i as int]);
    } else {
        assert(epoch * (len + 1) + i < before * (len + 1)) by (nonlinear_arith)
            requires
                epoch < before,
                i <= len,
        ;
        lemma_epoch_reports_at(outputs, total, before, num_epochs, len, epoch, i);
        assert((earlier + last)[at] == earlier[at]);
    }
}

} // verus!
