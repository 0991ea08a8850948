//! The witness of a proof: the values assigned to the variables, the
//! evaluations of the constraints, and which variables the constraints
//! use.

use crate::curve::ScalarField;
use crate::density::DensityTracker;
use crate::error::SynthesisError;
use crate::exponent::Exponent;
use crate::lc::{Index, LinearCombination, Variable};
use crate::modular::lemma_mod_add;
use vstd::prelude::*;

verus! {

/// Whether every input variable among the terms is below `n`.
pub open spec fn admits_inputs<F>(terms: Seq<(Variable, F)>, n: nat) -> bool {
    forall|j: int|
        0 <= j < terms.len() ==> match (#[trigger] terms[j]).0.0 {
            Index::Input(i) => i < n,
            Index::Aux(_) => true,
        }
}

/// Whether every auxiliary variable among the terms is below `n`.
pub open spec fn admits_aux<F>(terms: Seq<(Variable, F)>, n: nat) -> bool {
    forall|j: int|
        0 <= j < terms.len() ==> match (#[trigger] terms[j]).0.0 {
            Index::Input(_) => true,
            Index::Aux(i) => i < n,
        }
}

/// The value assigned to a variable.
pub open spec fn assigned<F: ScalarField>(v: Variable, inputs: Seq<F>, aux: Seq<F>) -> int {
    match v.0 {
        Index::Input(i) => inputs[i as int].value(),
        Index::Aux(i) => aux[i as int].value(),
    }
}

/// The sum of the first `n` terms, each the coefficient times the value
/// assigned to the variable.
pub open spec fn lc_value<F: ScalarField>(
    terms: Seq<(Variable, F)>,
    inputs: Seq<F>,
    aux: Seq<F>,
    n: int,
) -> int
    decreases n,
{
    if n <= 0 {
        0
    } else {
        lc_value(terms, inputs, aux, n - 1) + terms[n - 1].1.value() * assigned(
            terms[n - 1].0,
            inputs,
            aux,
        )
    }
}

/// The flags `bits` with the input variables among the first `n` terms
/// marked.
pub open spec fn marked_inputs<F>(bits: Seq<bool>, terms: Seq<(Variable, F)>, n: int) -> Seq<bool>
    decreases n,
{
    if n <= 0 {
        bits
    } else {
        match terms[n - 1].0.0 {
            Index::Input(i) => marked_inputs(bits, terms, n - 1).update(i as int, true),
            Index::Aux(_) => marked_inputs(bits, terms, n - 1),
        }
    }
}

/// The flags `bits` with the auxiliary variables among the first `n`
/// terms marked.
pub open spec fn marked_aux<F>(bits: Seq<bool>, terms: Seq<(Variable, F)>, n: int) -> Seq<bool>
    decreases n,
{
    if n <= 0 {
        bits
    } else {
        match terms[n - 1].0.0 {
            Index::Input(_) => marked_aux(bits, terms, n - 1),
            Index::Aux(i) => marked_aux(bits, terms, n - 1).update(i as int, true),
        }
    }
}

/// Marking input variables that the flags have changes no length.
pub proof fn lemma_marked_inputs_len<F>(bits: Seq<bool>, terms: Seq<(Variable, F)>, n: int)
    requires
        n <= terms.len(),
        admits_inputs(terms, bits.len()),
    ensures
        marked_inputs(bits, terms, n).len() == bits.len(),
    decreases n,
{
    if n > 0 {
        lemma_marked_inputs_len(bits, terms, n - 1);
    }
}

/// Marking auxiliary variables that the flags have changes no length.
pub proof fn lemma_marked_aux_len<F>(bits: Seq<bool>, terms: Seq<(Variable, F)>, n: int)
    requires
        n <= terms.len(),
        admits_aux(terms, bits.len()),
    ensures
        marked_aux(bits, terms, n).len() == bits.len(),
    decreases n,
{
    if n > 0 {
        lemma_marked_aux_len(bits, terms, n - 1);
    }
}

/// The flags of a density that is given, and none where none is given.
spec fn flags_of(density: Option<&mut DensityTracker>) -> Seq<bool> {
    match density {
        Some(d) => d@,
        None => Seq::empty(),
    }
}

/// The value of a linear combination under an assignment. The variables
/// that it uses are marked in the densities that are given.
pub fn eval<F: ScalarField>(
    lc: &LinearCombination<F>,
    mut input_density: Option<&mut DensityTracker>,
    mut aux_density: Option<&mut DensityTracker>,
    input_assignment: &[F],
    aux_assignment: &[F],
) -> (acc: F)
    requires
        admits_inputs(lc.0@, input_assignment@.len()),
        admits_aux(lc.0@, aux_assignment@.len()),
        match input_density {
            Some(d) => d.wf() && admits_inputs(lc.0@, d@.len()),
            None => true,
        },
        match aux_density {
            Some(d) => d.wf() && admits_aux(lc.0@, d@.len()),
            None => true,
        },
    ensures
        acc.value() == lc_value(lc.0@, input_assignment@, aux_assignment@, lc.0@.len() as int)
            % F::modulus(),
        match input_density {
            Some(d) => final(d).wf() && final(d)@ == marked_inputs(d@, lc.0@, lc.0@.len() as int),
            None => true,
        },
        match aux_density {
            Some(d) => final(d).wf() && final(d)@ == marked_aux(d@, lc.0@, lc.0@.len() as int),
            None => true,
        },
{
    let ghost inputs0 = flags_of(input_density);
    let ghost aux0 = flags_of(aux_density);
    let ghost inputs_left = *final(input_density->Some_0);
    let ghost aux_left = *final(aux_density->Some_0);
    let ghost with_inputs = input_density.is_some();
    let ghost with_aux = aux_density.is_some();
    proof {
        F::modulus_is_positive();
    }
    let mut acc = F::zero();
    let ghost mut sum: int = 0;
    let mut j: usize = 0;
    while j < lc.0.len()
        invariant
            j <= lc.0@.len(),
            F::modulus() > 1,
            input_density.is_some() == with_inputs,
            aux_density.is_some() == with_aux,
            with_inputs ==> *final(input_density->Some_0) == inputs_left,
            with_aux ==> *final(aux_density->Some_0) == aux_left,
            admits_inputs(lc.0@, input_assignment@.len()),
            admits_aux(lc.0@, aux_assignment@.len()),
            match input_density {
                Some(d) => d.wf() && d@ == marked_inputs(inputs0, lc.0@, j as int)
                    && admits_inputs(lc.0@, inputs0.len()),
                None => true,
            },
            match aux_density {
                Some(d) => d.wf() && d@ == marked_aux(aux0, lc.0@, j as int) && admits_aux(
                    lc.0@,
                    aux0.len(),
                ),
                None => true,
            },
            sum == lc_value(lc.0@, input_assignment@, aux_assignment@, j as int),
            acc.value() == sum % F::modulus(),
        decreases lc.0@.len() - j,
    {
        let index = lc.0[j].0;
        let coeff = lc.0[j].1;
        proof {
            if input_density.is_some() {
                lemma_marked_inputs_len(inputs0, lc.0@, j as int);
            }
            if aux_density.is_some() {
                lemma_marked_aux_len(aux0, lc.0@, j as int);
            }
        }
        let mut tmp;
        match index {
            Variable(Index::Input(i)) => {
                tmp = input_assignment[i];
                if let Some(ref mut v) = input_density {
                    v.inc(i);
                }
            },
            Variable(Index::Aux(i)) => {
                tmp = aux_assignment[i];
                if let Some(ref mut v) = aux_density {
                    v.inc(i);
                }
            },
        }
        let ghost x = tmp.value();
        if coeff.equals(&F::one()) {
            acc.add_assign(&tmp);
            proof {
                lemma_mod_add(sum, x, F::modulus());
            }
        } else {
            tmp.mul_assign(&coeff);
            acc.add_assign(&tmp);
            proof {
                assert(x * coeff.value() == coeff.value() * x) by (nonlinear_arith);
                lemma_mod_add(sum, coeff.value() * x, F::modulus());
            }
        }
        proof {
            sum = sum + coeff.value() * x;
        }
        j += 1;
    }
    acc
}

/// The witness of a proof as it is gathered while the circuit is
/// synthesized.
pub struct ProvingAssignment<F> {
    /// Which auxiliary variables the A constraints use.
    pub a_aux_density: DensityTracker,
    /// Which input variables the B constraints use.
    pub b_input_density: DensityTracker,
    /// Which auxiliary variables the B constraints use.
    pub b_aux_density: DensityTracker,
    /// The value of the A side of each constraint.
    pub a: Vec<F>,
    /// The value of the B side of each constraint.
    pub b: Vec<F>,
    /// The value of the C side of each constraint.
    pub c: Vec<F>,
    /// The values of the input variables.
    pub input_assignment: Vec<F>,
    /// The values of the auxiliary variables.
    pub aux_assignment: Vec<F>,
}

/// Whether `after` is `before` with one value more, which stands for
/// `value` in the field.
pub open spec fn pushed_value<F: ScalarField>(before: Seq<F>, after: Seq<F>, value: int) -> bool {
    &&& after.len() == before.len() + 1
    &&& after.take(before.len() as int) == before
    &&& after.last().value() == value % F::modulus()
}

/// Whether `after` is `before` with one value more for each input: the
/// value of the input, reduced, where `copied` says so, and else zero.
pub open spec fn input_constraints<F: ScalarField>(
    before: Seq<F>,
    after: Seq<F>,
    inputs: Seq<F>,
    copied: bool,
) -> bool {
    &&& after.len() == before.len() + inputs.len()
    &&& after.take(before.len() as int) == before
    &&& forall|k: int|
        0 <= k < inputs.len() ==> (#[trigger] after[before.len() + k]).value() == if copied {
            inputs[k].value() % F::modulus()
        } else {
            0
        }
}

/// One more input constraint after those of the first `i` inputs gives
/// those of the first `i + 1`.
proof fn lemma_input_constraints_step<F: ScalarField>(
    start: Seq<F>,
    before: Seq<F>,
    after: Seq<F>,
    inputs: Seq<F>,
    i: int,
    copied: bool,
)
    requires
        0 <= i < inputs.len(),
        input_constraints(start, before, inputs.take(i), copied),
        after.len() == before.len() + 1,
        after.take(before.len() as int) == before,
        after.last().value() == if copied {
            inputs[i].value() % F::modulus()
        } else {
            0
        },
    ensures
        input_constraints(start, after, inputs.take(i + 1), copied),
{
    assert(after.take(start.len() as int) =~= before.take(start.len() as int));
    assert forall|k: int| 0 <= k < i + 1 implies (#[trigger] after[start.len() + k]).value()
        == if copied {
        inputs.take(i + 1)[k].value() % F::modulus()
    } else {
        0
    } by {
        if k < i {
            assert(after[start.len() + k] == after.take(before.len() as int)[start.len() + k]);
        } else {
            assert(after[start.len() + k] == after.last());
        }
    }
}

impl<F: ScalarField> ProvingAssignment<F> {
    /// Each density has a flag for each variable of its kind.
    pub open spec fn wf(&self) -> bool {
        &&& self.a_aux_density.wf()
        &&& self.b_input_density.wf()
        &&& self.b_aux_density.wf()
        &&& self.a_aux_density@.len() == self.aux_assignment@.len()
        &&& self.b_aux_density@.len() == self.aux_assignment@.len()
        &&& self.b_input_density@.len() == self.input_assignment@.len()
    }

    /// Whether every variable of the linear combination has been
    /// allocated.
    pub open spec fn admits(&self, lc: LinearCombination<F>) -> bool {
        &&& admits_inputs(lc.0@, self.input_assignment@.len())
        &&& admits_aux(lc.0@, self.aux_assignment@.len())
    }

    /// Whether `after` is `self` with the constraint `a * b = c` added:
    /// each side is evaluated and its value appended, and the variables
    /// of the sides are marked in the densities, the auxiliary ones of
    /// `a`, and the ones of both kinds of `b`.
    pub open spec fn enforced(
        &self,
        after: ProvingAssignment<F>,
        a: LinearCombination<F>,
        b: LinearCombination<F>,
        c: LinearCombination<F>,
    ) -> bool {
        &&& after.wf()
        &&& after.input_assignment == self.input_assignment
        &&& after.aux_assignment == self.aux_assignment
        &&& pushed_value(
            self.a@,
            after.a@,
            lc_value(a.0@, self.input_assignment@, self.aux_assignment@, a.0@.len() as int),
        )
        &&& pushed_value(
            self.b@,
            after.b@,
            lc_value(b.0@, self.input_assignment@, self.aux_assignment@, b.0@.len() as int),
        )
        &&& pushed_value(
            self.c@,
            after.c@,
            lc_value(c.0@, self.input_assignment@, self.aux_assignment@, c.0@.len() as int),
        )
        &&& after.a_aux_density@ == marked_aux(self.a_aux_density@, a.0@, a.0@.len() as int)
        &&& after.b_input_density@ == marked_inputs(
            self.b_input_density@,
            b.0@,
            b.0@.len() as int,
        )
        &&& after.b_aux_density@ == marked_aux(self.b_aux_density@, b.0@, b.0@.len() as int)
    }

    /// The witness of a circuit of which nothing is known yet.
    pub fn new() -> (witness: ProvingAssignment<F>)
        ensures
            witness.wf(),
            witness.a@.len() == 0,
            witness.b@.len() == 0,
            witness.c@.len() == 0,
            witness.input_assignment@.len() == 0,
            witness.aux_assignment@.len() == 0,
    {
        ProvingAssignment {
            a_aux_density: DensityTracker::new(),
            b_input_density: DensityTracker::new(),
            b_aux_density: DensityTracker::new(),
            a: Vec::new(),
            b: Vec::new(),
            c: Vec::new(),
            input_assignment: Vec::new(),
            aux_assignment: Vec::new(),
        }
    }

    /// Allocates an auxiliary variable with the value that `f` gives. If
    /// `f` fails, nothing is allocated.
    pub fn alloc_aux<V>(&mut self, f: V) -> (r: Result<Variable, SynthesisError>) where
        V: FnOnce() -> Result<F, SynthesisError>,

        requires
            old(self).wf(),
            old(self).aux_assignment@.len() < usize::MAX,
            f.requires(()),
        ensures
            match r {
                Ok(var) => {
                    &&& final(self).wf()
                    &&& var == Variable(Index::Aux(old(self).aux_assignment@.len() as usize))
                    &&& final(self).aux_assignment@.len() == old(self).aux_assignment@.len() + 1
                    &&& final(self).aux_assignment@.drop_last() == old(self).aux_assignment@
                    &&& f.ensures((), Ok(final(self).aux_assignment@.last()))
                    &&& final(self).a_aux_density@ == old(self).a_aux_density@.push(false)
                    &&& final(self).b_aux_density@ == old(self).b_aux_density@.push(false)
                    &&& final(self).b_input_density@ == old(self).b_input_density@
                    &&& final(self).input_assignment == old(self).input_assignment
                    &&& final(self).a == old(self).a
                    &&& final(self).b == old(self).b
                    &&& final(self).c == old(self).c
                },
                Err(e) => f.ensures((), Err(e)) && *final(self) == *old(self),
            },
    {
        let value = match f() {
            Ok(value) => value,
            Err(e) => {
                return Err(e);
            },
        };
        self.aux_assignment.push(value);
        self.a_aux_density.add_element();
        self.b_aux_density.add_element();
        Ok(Variable(Index::Aux(self.aux_assignment.len() - 1)))
    }

    /// Allocates an input variable with the value that `f` gives. If `f`
    /// fails, nothing is allocated.
    pub fn alloc_input<V>(&mut self, f: V) -> (r: Result<Variable, SynthesisError>) where
        V: FnOnce() -> Result<F, SynthesisError>,

        requires
            old(self).wf(),
            old(self).input_assignment@.len() < usize::MAX,
            f.requires(()),
        ensures
            match r {
                Ok(var) => {
                    &&& final(self).wf()
                    &&& var == Variable(Index::Input(old(self).input_assignment@.len() as usize))
                    &&& final(self).input_assignment@.len() == old(self).input_assignment@.len()
                        + 1
                    &&& final(self).input_assignment@.drop_last() == old(self).input_assignment@
                    &&& f.ensures((), Ok(final(self).input_assignment@.last()))
                    &&& final(self).b_input_density@ == old(self).b_input_density@.push(false)
                    &&& final(self).a_aux_density@ == old(self).a_aux_density@
                    &&& final(self).b_aux_density@ == old(self).b_aux_density@
                    &&& final(self).aux_assignment == old(self).aux_assignment
                    &&& final(self).a == old(self).a
                    &&& final(self).b == old(self).b
                    &&& final(self).c == old(self).c
                },
                Err(e) => f.ensures((), Err(e)) && *final(self) == *old(self),
            },
    {
        let value = match f() {
            Ok(value) => value,
            Err(e) => {
                return Err(e);
            },
        };
        self.input_assignment.push(value);
        self.b_input_density.add_element();
        Ok(Variable(Index::Input(self.input_assignment.len() - 1)))
    }

    /// Adds the constraint `a * b = c`, each side made from the empty
    /// linear combination by the function given for it.
    pub fn enforce<LA, LB, LC>(&mut self, a: LA, b: LB, c: LC) where
        LA: FnOnce(LinearCombination<F>) -> LinearCombination<F>,
        LB: FnOnce(LinearCombination<F>) -> LinearCombination<F>,
        LC: FnOnce(LinearCombination<F>) -> LinearCombination<F>,

        requires
            old(self).wf(),
            forall|zero: LinearCombination<F>| zero.0@.len() == 0 ==> a.requires((zero,)),
            forall|zero: LinearCombination<F>| zero.0@.len() == 0 ==> b.requires((zero,)),
            forall|zero: LinearCombination<F>| zero.0@.len() == 0 ==> c.requires((zero,)),
            forall|zero: LinearCombination<F>, lc: LinearCombination<F>|
                zero.0@.len() == 0 && a.ensures((zero,), lc) ==> old(self).admits(lc),
            forall|zero: LinearCombination<F>, lc: LinearCombination<F>|
                zero.0@.len() == 0 && b.ensures((zero,), lc) ==> old(self).admits(lc),
            forall|zero: LinearCombination<F>, lc: LinearCombination<F>|
                zero.0@.len() == 0 && c.ensures((zero,), lc) ==> old(self).admits(lc),
        ensures
            exists|
                za: LinearCombination<F>,
                zb: LinearCombination<F>,
                zc: LinearCombination<F>,
                la: LinearCombination<F>,
                lb: LinearCombination<F>,
                lc: LinearCombination<F>,
            |
                #![trigger a.ensures((za,), la), b.ensures((zb,), lb), c.ensures((zc,), lc)]
                {
                    &&& za.0@.len() == 0 && zb.0@.len() == 0 && zc.0@.len() == 0
                    &&& a.ensures((za,), la)
                    &&& b.ensures((zb,), lb)
                    &&& c.ensures((zc,), lc)
                    &&& old(self).enforced(*final(self), la, lb, lc)
                },
    {
        let za = LinearCombination::zero();
        let zb = LinearCombination::zero();
        let zc = LinearCombination::zero();
        let la = a(za);
        let lb = b(zb);
        let lc = c(zc);
        self.enforce_with(&la, &lb, &lc);
    }

    /// Adds, for each input `x`, the constraint `x * 0 = 0`. With these
    /// constraints every input is used on the A side.
    pub fn enforce_inputs(&mut self)
        requires
            old(self).wf(),
        ensures
            final(self).wf(),
            final(self).input_assignment == old(self).input_assignment,
            final(self).aux_assignment == old(self).aux_assignment,
            final(self).a_aux_density@ == old(self).a_aux_density@,
            final(self).b_input_density@ == old(self).b_input_density@,
            final(self).b_aux_density@ == old(self).b_aux_density@,
            input_constraints(old(self).a@, final(self).a@, old(self).input_assignment@, true),
            input_constraints(old(self).b@, final(self).b@, old(self).input_assignment@, false),
            input_constraints(old(self).c@, final(self).c@, old(self).input_assignment@, false),
    {
        let n = self.input_assignment.len();
        let mut i: usize = 0;
        proof {
            assert(self.a@.take(self.a@.len() as int) =~= self.a@);
            assert(self.b@.take(self.b@.len() as int) =~= self.b@);
            assert(self.c@.take(self.c@.len() as int) =~= self.c@);
        }
        while i < n
            invariant
                i <= n,
                n == self.input_assignment@.len(),
                self.wf(),
                self.input_assignment == old(self).input_assignment,
                self.aux_assignment == old(self).aux_assignment,
                self.a_aux_density@ == old(self).a_aux_density@,
                self.b_input_density@ == old(self).b_input_density@,
                self.b_aux_density@ == old(self).b_aux_density@,
                input_constraints(
                    old(self).a@,
                    self.a@,
                    old(self).input_assignment@.take(i as int),
                    true,
                ),
                input_constraints(
                    old(self).b@,
                    self.b@,
                    old(self).input_assignment@.take(i as int),
                    false,
                ),
                input_constraints(
                    old(self).c@,
                    self.c@,
                    old(self).input_assignment@.take(i as int),
                    false,
                ),
            decreases n - i,
        {
            let input = LinearCombination::zero().with_term(F::one(), Variable(Index::Input(i)));
            let zero = LinearCombination::zero();
            let ghost before = *self;
            proof {
                assert(lc_value(input.0@, self.input_assignment@, self.aux_assignment@, 0) == 0);
                assert(marked_aux(self.a_aux_density@, input.0@, 0) == self.a_aux_density@);
                F::modulus_is_positive();
            }
            self.enforce_with(&input, &zero, &zero);
            proof {
                let inputs = old(self).input_assignment@;
                lemma_input_constraints_step(old(self).a@, before.a@, self.a@, inputs, i as int, true);
                lemma_input_constraints_step(old(self).b@, before.b@, self.b@, inputs, i as int, false);
                lemma_input_constraints_step(old(self).c@, before.c@, self.c@, inputs, i as int, false);
            }
            i += 1;
        }
    }

    /// Adds the constraint `a * b = c`.
    pub fn enforce_with(
        &mut self,
        a: &LinearCombination<F>,
        b: &LinearCombination<F>,
        c: &LinearCombination<F>,
    )
        requires
            old(self).wf(),
            old(self).admits(*a),
            old(self).admits(*b),
            old(self).admits(*c),
        ensures
            old(self).enforced(*final(self), *a, *b, *c),
    {
        // Inputs have full density in the A query, because there is a
        // constraint of the form x * 0 = 0 for each input.
        let a_value = eval(
            a,
            None,
            Some(&mut self.a_aux_density),
            self.input_assignment.as_slice(),
            self.aux_assignment.as_slice(),
        );
        self.a.push(a_value);
        let b_value = eval(
            b,
            Some(&mut self.b_input_density),
            Some(&mut self.b_aux_density),
            self.input_assignment.as_slice(),
            self.aux_assignment.as_slice(),
        );
        self.b.push(b_value);
        // There is no C query, and the query over the sum of all three
        // sides has full density.
        let c_value = eval(
            c,
            None,
            None,
            self.input_assignment.as_slice(),
            self.aux_assignment.as_slice(),
        );
        self.c.push(c_value);
        proof {
            lemma_marked_aux_len(old(self).a_aux_density@, a.0@, a.0@.len() as int);
            lemma_marked_inputs_len(old(self).b_input_density@, b.0@, b.0@.len() as int);
            lemma_marked_aux_len(old(self).b_aux_density@, b.0@, b.0@.len() as int);
            assert(final(self).a@.take(old(self).a@.len() as int) =~= old(self).a@);
            assert(final(self).b@.take(old(self).b@.len() as int) =~= old(self).b@);
            assert(final(self).c@.take(old(self).c@.len() as int) =~= old(self).c@);
        }
    }
}

/// The values of an assignment as exponents.
pub fn exponents_of<F: ScalarField>(assignment: &Vec<F>) -> (exponents: Vec<Exponent>)
    ensures
        exponents@.len() == assignment@.len(),
        forall|i: int|
            0 <= i < assignment@.len() ==> (#[trigger] exponents@[i]).value()
                == assignment@[i].value() && exponents@[i].value() < F::modulus(),
{
    let mut exponents: Vec<Exponent> = Vec::new();
    let mut i: usize = 0;
    while i < assignment.len()
        invariant
            i <= assignment@.len(),
            exponents@.len() == i,
            forall|k: int|
                0 <= k < i ==> (#[trigger] exponents@[k]).value() == assignment@[k].value()
                    && exponents@[k].value() < F::modulus(),
        decreases assignment@.len() - i,
    {
        exponents.push(assignment[i].into_exponent());
        i += 1;
    }
    exponents
}

} // verus!
