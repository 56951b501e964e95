//! The order of steps of install, update and removal. The caller performs
//! each step and reports whether it succeeded; the first failure ends the
//! operation and is named.

use vstd::prelude::*;

verus! {

/// An operation on one installed package.
#[derive(Copy, Clone, PartialEq, Eq, Structural, Debug)]
pub enum Operation {
    /// Fetch a new package, then record it.
    Install,
    /// Remove the installed version, fetch the new one, then record it.
    Update,
    /// Remove the package and its module directories.
    Remove,
}

/// One step of an operation.
#[derive(Copy, Clone, PartialEq, Eq, Structural, Debug)]
pub enum Step {
    /// Remove the manifest entry and delete its module directories.
    DeleteOld,
    /// Fetch the archive and unpack it under the root.
    Fetch,
    /// Append the package to the manifest.
    Record,
}

/// What follows a step.
#[derive(Copy, Clone, PartialEq, Eq, Structural, Debug)]
pub enum Outcome {
    /// Perform this step next.
    Next(Step),
    /// Every step succeeded.
    Done,
    /// This step failed; the remaining ones are not performed.
    Failed(Step),
}

/// The steps of an operation, in order.
pub open spec fn steps_of(op: Operation) -> Seq<Step> {
    match op {
        Operation::Install => seq![Step::Fetch, Step::Record],
        Operation::Update => seq![Step::DeleteOld, Step::Fetch, Step::Record],
        Operation::Remove => seq![Step::DeleteOld],
    }
}

/// An operation under way: the steps before `position` have succeeded.
pub struct Pipeline {
    pub operation: Operation,
    pub position: usize,
}

impl Pipeline {
    /// The step at `i` of an operation.
    fn step_at(op: Operation, i: usize) -> (r: Step)
        requires
            i < steps_of(op).len(),
        ensures
            r == steps_of(op)[i as int],
    {
        match op {
            Operation::Install => if i == 0 {
                Step::Fetch
            } else {
                Step::Record
            },
            Operation::Update => if i == 0 {
                Step::DeleteOld
            } else if i == 1 {
                Step::Fetch
            } else {
                Step::Record
            },
            Operation::Remove => Step::DeleteOld,
        }
    }

    /// The number of steps of an operation.
    fn step_count(op: Operation) -> (r: usize)
        ensures
            r == steps_of(op).len(),
    {
        match op {
            Operation::Install => 2,
            Operation::Update => 3,
            Operation::Remove => 1,
        }
    }

    /// Begins an operation; the result names its first step.
    pub fn start(operation: Operation) -> (r: (Pipeline, Step))
        ensures
            r.0.operation == operation,
            r.0.position == 0,
            r.1 == steps_of(operation)[0],
    {
        (Pipeline { operation, position: 0 }, Pipeline::step_at(operation, 0))
    }

    /// The step to perform now, or none once the operation has ended.
    pub fn current(&self) -> (r: Option<Step>)
        ensures
            self.position < steps_of(self.operation).len() ==> r == Some(
                steps_of(self.operation)[self.position as int],
            ),
            self.position >= steps_of(self.operation).len() ==> r is None,
    {
        if self.position < Pipeline::step_count(self.operation) {
            Some(Pipeline::step_at(self.operation, self.position))
        } else {
            None
        }
    }

    /// Takes the result of the current step: after a success the next step,
    /// or `Done` after the last one; after a failure that step, and the
    /// operation ends.
    pub fn advance(&mut self, succeeded: bool) -> (r: Outcome)
        requires
            old(self).position < steps_of(old(self).operation).len(),
        ensures
            final(self).operation == old(self).operation,
            succeeded && old(self).position + 1 < steps_of(old(self).operation).len() ==> r
                == Outcome::Next(steps_of(old(self).operation)[old(self).position + 1])
                && final(self).position == old(self).position + 1,
            succeeded && old(self).position + 1 == steps_of(old(self).operation).len() ==> r
                == Outcome::Done && final(self).position == steps_of(old(self).operation).len(),
            !succeeded ==> r == Outcome::Failed(steps_of(old(self).operation)[old(self).position as int])
                && final(self).position == steps_of(old(self).operation).len(),
    {
        let n = Pipeline::step_count(self.operation);
        if !succeeded {
            let failed = Pipeline::step_at(self.operation, self.position);
            self.position = n;
            return Outcome::Failed(failed);
        }
        self.position = self.position + 1;
        if self.position < n {
            Outcome::Next(Pipeline::step_at(self.operation, self.position))
        } else {
            Outcome::Done
        }
    }
}

} // verus!
