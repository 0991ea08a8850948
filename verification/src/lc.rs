//! Variables of a constraint system and linear combinations of them.

use vstd::prelude::*;

verus! {

/// The place of a variable: among the inputs of the circuit, or among its
/// auxiliary values.
#[derive(Copy, Clone, PartialEq, Eq, Debug, Structural)]
pub enum Index {
    Input(usize),
    Aux(usize),
}

/// A variable of a constraint system.
#[derive(Copy, Clone, PartialEq, Eq, Debug, Structural)]
pub struct Variable(pub Index);

/// A sum of variables, each times a coefficient. A variable may occur
/// more than once.
pub struct LinearCombination<F>(pub Vec<(Variable, F)>);

impl<F> LinearCombination<F> {
    /// The empty sum.
    pub fn zero() -> (lc: LinearCombination<F>)
        ensures
            lc.0@.len() == 0,
    {
        LinearCombination(Vec::new())
    }

    /// This sum and `coeff` times `var`.
    pub fn with_term(self, coeff: F, var: Variable) -> (lc: LinearCombination<F>)
        ensures
            lc.0@ == self.0@.push((var, coeff)),
    {
        let mut terms = self.0;
        terms.push((var, coeff));
        LinearCombination(terms)
    }
}

} // verus!
