//! The execution core of a supervised training loop.
//!
//! [`trainer::SupervisedTrainer`] drives the epochs: a pass over the training
//! source, a pass over the validation source, and, when every epoch is done,
//! one pass over the test source. Each step's output is reported to a
//! [`logger::Logger`].
//!
//! [`callback::AsyncTrainerCallback`] defers the notifications of a
//! [`callback::LearnerCallback`]: a notification is queued, not applied, and
//! [`callback::CallbackThread`] later applies the queue in the order in which
//! it was filled.
pub mod callback;
pub mod data;
pub mod learner;
pub mod logger;
pub mod trainer;
