use vstd::prelude::*;

verus! {

/// A single completed BOED step in a sequential design loop.
#[derive(Debug, PartialEq)]
pub struct SequentialDesignRecord<D, O> {
    pub step_index: usize,
    pub design: D,
    pub observation: O,
}

impl<D: Clone, O: Clone> Clone for SequentialDesignRecord<D, O> {
    fn clone(&self) -> (r: Self)
        ensures
            r.step_index == self.step_index,
            cloned(self.design, r.design),
            cloned(self.observation, r.observation),
    {
        SequentialDesignRecord {
            step_index: self.step_index,
            design: self.design.clone(),
            observation: self.observation.clone(),
        }
    }
}

/// Every record of `history` carries its own position as its step index.
pub open spec fn steps_numbered<D, O>(history: Seq<SequentialDesignRecord<D, O>>) -> bool {
    forall|i: int| 0 <= i < history.len() ==> #[trigger] history[i].step_index == i
}

/// Maintains the current posterior model and the step history of a
/// sequential BOED loop.
///
/// `M` is the model, `D` its design type and `O` its observation type. The
/// posterior update itself belongs to the model; the session records each
/// step and keeps the model that the update produced.
#[derive(Debug)]
pub struct SequentialDesignSession<M, D, O> {
    model: M,
    history: Vec<SequentialDesignRecord<D, O>>,
}

impl<M, D, O> SequentialDesignSession<M, D, O> {
    /// The current (posterior) model.
    pub closed spec fn spec_model(self) -> M {
        self.model
    }

    /// The completed steps, oldest first.
    pub closed spec fn spec_history(self) -> Seq<SequentialDesignRecord<D, O>> {
        self.history@
    }

    #[verifier::type_invariant]
    closed spec fn history_numbered(self) -> bool {
        steps_numbered(self.history@)
    }

    /// A session that starts from the prior `model`, with no step yet.
    pub fn new(model: M) -> (s: Self)
        ensures
            s.spec_model() == model,
            s.spec_history() == Seq::<SequentialDesignRecord<D, O>>::empty(),
    {
        Self { model, history: Vec::new() }
    }

    pub fn model(&self) -> (m: &M)
        ensures
            *m == self.spec_model(),
    {
        &self.model
    }

    pub fn into_model(self) -> (m: M)
        ensures
            m == self.spec_model(),
    {
        self.model
    }

    /// The completed steps, oldest first; step `i` carries step index `i`.
    pub fn history(&self) -> (h: &[SequentialDesignRecord<D, O>])
        ensures
            h@ == self.spec_history(),
            steps_numbered(h@),
    {
        proof {
            use_type_invariant(self);
        }
        self.history.as_slice()
    }

    /// The number of completed steps.
    pub fn step_count(&self) -> (n: usize)
        ensures
            n == self.spec_history().len(),
    {
        self.history.len()
    }

    /// Completes a step: records `design` and `observation` under the next
    /// step index and replaces the model with `next_model`, the posterior
    /// after that observation.
    pub fn record_step(&mut self, next_model: M, design: D, observation: O)
        ensures
            final(self).spec_model() == next_model,
            final(self).spec_history() == old(self).spec_history().push(
                SequentialDesignRecord {
                    step_index: old(self).spec_history().len() as usize,
                    design,
                    observation,
                },
            ),
            steps_numbered(final(self).spec_history()),
    {
        proof {
            use_type_invariant(&*self);
        }
        let mut history: Vec<SequentialDesignRecord<D, O>> = Vec::new();
        std::mem::swap(&mut history, &mut self.history);
        let step_index = history.len();
        history.push(SequentialDesignRecord { step_index, design, observation });
        std::mem::swap(&mut history, &mut self.history);
        self.model = next_model;
        proof {
            use_type_invariant(&*self);
        }
    }
}

impl<M: Clone, D: Clone, O: Clone> Clone for SequentialDesignSession<M, D, O> {
    fn clone(&self) -> (r: Self)
        ensures
            cloned(self.spec_model(), r.spec_model()),
            r.spec_history().len() == self.spec_history().len(),
            forall|i: int|
                0 <= i < r.spec_history().len() ==> #[trigger] r.spec_history()[i].step_index
                    == self.spec_history()[i].step_index && cloned(
                    self.spec_history()[i].design,
                    r.spec_history()[i].design,
                ) && cloned(self.spec_history()[i].observation, r.spec_history()[i].observation),
    {
        proof {
            use_type_invariant(self);
        }
        let history = self.history.clone();
        proof {
            assert forall|i: int| 0 <= i < history@.len() implies #[trigger] history@[i].step_index
                == self.history@[i].step_index && cloned(self.history@[i].design, history@[i].design)
                && cloned(self.history@[i].observation, history@[i].observation) by {
                assert(cloned(self.history[i], history[i]));
            }
        }
        SequentialDesignSession { model: self.model.clone(), history }
    }
}

} // verus!
