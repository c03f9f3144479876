//! Fixed-step explicit fourth-order Runge-Kutta integration over
//! arbitrary-width state vectors, parameterized by a derivative model.

use vstd::prelude::*;
use crate::fixed::{Fx, fx_add, fx_add_spec, fx_div, fx_div_spec, fx_mul, fx_mul_spec};

verus! {

/// Raw value of the scalar two.
pub const TWO_RAW: i64 = 2_000_000_000_000;

/// Raw value of the scalar six.
pub const SIX_RAW: i64 = 6_000_000_000_000;

/// Error from registering a derivative model.
#[derive(Clone, Copy, Debug, PartialEq, Eq, Structural)]
pub enum OdeError {
    /// The derivative model's output width differs from the width of the
    /// initial state vector.
    InvalidStateDimension,
}

/// One integration sample: the scalar parameter (time) and the state
/// vector at that parameter.
pub struct OdeState {
    pub param: Fx,
    pub value: Vec<Fx>,
}

/// A derivative model: a pure function from a state vector and a parameter
/// value to the state's derivative vector, of a fixed width. Each
/// evaluation is also handed `base`, the parameter at the start of the
/// step it belongs to, so a model can resolve per-step data (such as a
/// parent trajectory sample) once per step, fixed across the four
/// sub-stages, rather than re-deriving it per sub-stage.
pub trait Derivative: Sized {
    /// Width of the state vectors the model works on.
    spec fn dim(&self) -> nat;

    /// The derivative of `state` at parameter `param`, within the step
    /// that starts at parameter `base`.
    spec fn deriv(&self, state: Seq<Fx>, param: Fx, base: Fx) -> Seq<Fx>;

    /// The derivative of a well-dimensioned state again has the model's
    /// width.
    proof fn lemma_deriv_len(&self, state: Seq<Fx>, param: Fx, base: Fx)
        requires
            state.len() == self.dim(),
        ensures
            self.deriv(state, param, base).len() == self.dim(),
    ;

    /// Width of the state vectors, as an executable value.
    fn dim_exec(&self) -> (n: usize)
        ensures
            n as nat == self.dim(),
    ;

    /// Evaluate the derivative of `state` at parameter `param`, within
    /// the step that starts at parameter `base`.
    fn eval(&self, state: &Vec<Fx>, param: Fx, base: Fx) -> (d: Vec<Fx>)
        requires
            state@.len() == self.dim(),
        ensures
            d@ == self.deriv(state@, param, base),
    ;
}

/// Componentwise sum of two state vectors of equal width.
pub open spec fn seq_add_spec(a: Seq<Fx>, b: Seq<Fx>) -> Seq<Fx> {
    Seq::new(a.len(), |i: int| fx_add_spec(a[i], b[i]))
}

/// Scalar multiple of a state vector.
pub open spec fn seq_scale_spec(c: Fx, a: Seq<Fx>) -> Seq<Fx> {
    Seq::new(a.len(), |i: int| fx_mul_spec(c, a[i]))
}

/// The RK4 update `s + h/6 * (k1 + 2*k2 + 2*k3 + k4)`.
pub open spec fn rk4_combine_spec(
    s: Seq<Fx>,
    h: Fx,
    k1: Seq<Fx>,
    k2: Seq<Fx>,
    k3: Seq<Fx>,
    k4: Seq<Fx>,
) -> Seq<Fx> {
    let two = Fx { raw: TWO_RAW };
    let h6 = fx_div_spec(h, Fx { raw: SIX_RAW });
    let sum = seq_add_spec(
        seq_add_spec(k1, seq_scale_spec(two, k2)),
        seq_add_spec(seq_scale_spec(two, k3), k4),
    );
    seq_add_spec(s, seq_scale_spec(h6, sum))
}

/// One RK4 step of model `d` from state `s` at parameter `t` with step
/// `h`: `k1 = D(s, t)`, `k2 = D(s + h/2*k1, t + h/2)`,
/// `k3 = D(s + h/2*k2, t + h/2)`, `k4 = D(s + h*k3, t + h)`. All four
/// stages belong to the step starting at `t`, which they receive as their
/// base parameter.
pub open spec fn rk4_step_spec<D: Derivative>(d: D, s: Seq<Fx>, t: Fx, h: Fx) -> Seq<Fx> {
    let h2 = fx_div_spec(h, Fx { raw: TWO_RAW });
    let th2 = fx_add_spec(t, h2);
    let th = fx_add_spec(t, h);
    let k1 = d.deriv(s, t, t);
    let k2 = d.deriv(seq_add_spec(s, seq_scale_spec(h2, k1)), th2, t);
    let k3 = d.deriv(seq_add_spec(s, seq_scale_spec(h2, k2)), th2, t);
    let k4 = d.deriv(seq_add_spec(s, seq_scale_spec(h, k3)), th, t);
    rk4_combine_spec(s, h, k1, k2, k3, k4)
}

/// The `i`-th sample of the batch: parameter `t0 + i*h` (by repeated
/// saturating addition) and the state after `i` RK4 steps from `s0`.
pub open spec fn rk4_state_spec<D: Derivative>(d: D, s0: Seq<Fx>, t0: Fx, h: Fx, i: nat) -> (
    Fx,
    Seq<Fx>,
)
    decreases i,
{
    if i == 0 {
        (t0, s0)
    } else {
        let prev = rk4_state_spec(d, s0, t0, h, (i - 1) as nat);
        (fx_add_spec(prev.0, h), rk4_step_spec(d, prev.1, prev.0, h))
    }
}

/// Every state of a batch started from a well-dimensioned state has the
/// model's width.
pub proof fn lemma_rk4_state_len<D: Derivative>(d: D, s0: Seq<Fx>, t0: Fx, h: Fx, i: nat)
    requires
        s0.len() == d.dim(),
    ensures
        rk4_state_spec(d, s0, t0, h, i).1.len() == d.dim(),
    decreases i,
{
    if i > 0 {
        lemma_rk4_state_len(d, s0, t0, h, (i - 1) as nat);
        let prev = rk4_state_spec(d, s0, t0, h, (i - 1) as nat);
        let s = prev.1;
        let t = prev.0;
        let h2 = fx_div_spec(h, Fx { raw: TWO_RAW });
        let th2 = fx_add_spec(t, h2);
        let th = fx_add_spec(t, h);
        let k1 = d.deriv(s, t, t);
        d.lemma_deriv_len(s, t, t);
        let a2 = seq_add_spec(s, seq_scale_spec(h2, k1));
        d.lemma_deriv_len(a2, th2, t);
        let k2 = d.deriv(a2, th2, t);
        let a3 = seq_add_spec(s, seq_scale_spec(h2, k2));
        d.lemma_deriv_len(a3, th2, t);
        let k3 = d.deriv(a3, th2, t);
        let a4 = seq_add_spec(s, seq_scale_spec(h, k3));
        d.lemma_deriv_len(a4, th, t);
    }
}

/// Copy a state vector.
fn copy_fx_vec(v: &Vec<Fx>) -> (r: Vec<Fx>)
    ensures
        r@ == v@,
{
    let mut r: Vec<Fx> = Vec::new();
    let mut i: usize = 0;
    while i < v.len()
        invariant
            i <= v@.len(),
            r@ == v@.subrange(0, i as int),
        decreases v@.len() - i,
    {
        r.push(v[i]);
        proof {
            assert(r@ =~= v@.subrange(0, i + 1));
        }
        i = i + 1;
    }
    proof {
        assert(r@ =~= v@);
    }
    r
}

/// Componentwise sum of two state vectors.
fn vec_add(a: &Vec<Fx>, b: &Vec<Fx>) -> (r: Vec<Fx>)
    requires
        a@.len() == b@.len(),
    ensures
        r@ == seq_add_spec(a@, b@),
{
    let mut r: Vec<Fx> = Vec::new();
    let mut i: usize = 0;
    while i < a.len()
        invariant
            i <= a@.len(),
            a@.len() == b@.len(),
            r@.len() == i,
            forall|j: int| 0 <= j < i ==> r@[j] == fx_add_spec(a@[j], b@[j]),
        decreases a@.len() - i,
    {
        r.push(fx_add(a[i], b[i]));
        i = i + 1;
    }
    proof {
        assert(r@ =~= seq_add_spec(a@, b@));
    }
    r
}

/// Scalar multiple of a state vector.
fn vec_scale(c: Fx, a: &Vec<Fx>) -> (r: Vec<Fx>)
    ensures
        r@ == seq_scale_spec(c, a@),
{
    let mut r: Vec<Fx> = Vec::new();
    let mut i: usize = 0;
    while i < a.len()
        invariant
            i <= a@.len(),
            r@.len() == i,
            forall|j: int| 0 <= j < i ==> r@[j] == fx_mul_spec(c, a@[j]),
        decreases a@.len() - i,
    {
        r.push(fx_mul(c, a[i]));
        i = i + 1;
    }
    proof {
        assert(r@ =~= seq_scale_spec(c, a@));
    }
    r
}

/// A registered integration problem: a derivative model together with the
/// initial condition it will be run from.
pub struct ExplicitOde<D: Derivative> {
    pub model: D,
    pub init: OdeState,
}

impl<D: Derivative> ExplicitOde<D> {
    /// The initial state vector has the model's width.
    pub open spec fn wf(&self) -> bool {
        self.init.value@.len() == self.model.dim()
    }

    /// Register a derivative model with an initial condition. Fails with
    /// `InvalidStateDimension` exactly when the model's width differs from
    /// the width of the initial state vector; this is the one-time
    /// construction check, not repeated per step.
    pub fn new(model: D, init: OdeState) -> (r: Result<ExplicitOde<D>, OdeError>)
        ensures
            (r is Err) <==> init.value@.len() != model.dim(),
            match r {
                Ok(o) => o.model == model && o.init.param == init.param && o.init.value@
                    == init.value@ && o.wf(),
                Err(e) => e == OdeError::InvalidStateDimension,
            },
    {
        if model.dim_exec() == init.value.len() {
            Ok(ExplicitOde { model, init })
        } else {
            Err(OdeError::InvalidStateDimension)
        }
    }

    /// Run `times` fixed steps of size `h`, producing the whole batch of
    /// `times + 1` samples eagerly and in order, the initial condition
    /// first.
    pub fn integrate(&self, h: Fx, times: usize) -> (out: Vec<OdeState>)
        requires
            self.wf(),
            times < usize::MAX,
        ensures
            out@.len() == times + 1,
            forall|i: int|
                #![trigger out@[i]]
                0 <= i <= times ==> {
                    let st = rk4_state_spec(self.model, self.init.value@, self.init.param, h,
                        i as nat);
                    out@[i].param == st.0 && out@[i].value@ == st.1
                },
    {
        let two = Fx { raw: TWO_RAW };
        let h2 = fx_div(h, Fx { raw: TWO_RAW });
        let h6 = fx_div(h, Fx { raw: SIX_RAW });
        let mut cur: Vec<Fx> = copy_fx_vec(&self.init.value);
        let mut t: Fx = self.init.param;
        let mut out: Vec<OdeState> = Vec::new();
        out.push(OdeState { param: t, value: copy_fx_vec(&self.init.value) });
        let mut n: usize = 0;
        while n < times
            invariant
                n <= times,
                times < usize::MAX,
                self.wf(),
                two == (Fx { raw: TWO_RAW }),
                h2 == fx_div_spec(h, Fx { raw: TWO_RAW }),
                h6 == fx_div_spec(h, Fx { raw: SIX_RAW }),
                cur@.len() == self.model.dim(),
                t == rk4_state_spec(self.model, self.init.value@, self.init.param, h, n as nat).0,
                cur@ == rk4_state_spec(self.model, self.init.value@, self.init.param, h,
                    n as nat).1,
                out@.len() == n + 1,
                forall|i: int|
                    #![trigger out@[i]]
                    0 <= i <= n ==> {
                        let st = rk4_state_spec(self.model, self.init.value@, self.init.param, h,
                            i as nat);
                        out@[i].param == st.0 && out@[i].value@ == st.1
                    },
            decreases times - n,
        {
            let ghost prev_t = t;
            let ghost prev_s = cur@;
            let th2 = fx_add(t, h2);
            let th = fx_add(t, h);
            let k1 = self.model.eval(&cur, t, t);
            proof {
                self.model.lemma_deriv_len(cur@, t, t);
            }
            let a2 = vec_add(&cur, &vec_scale(h2, &k1));
            let k2 = self.model.eval(&a2, th2, t);
            proof {
                self.model.lemma_deriv_len(a2@, th2, t);
            }
            let a3 = vec_add(&cur, &vec_scale(h2, &k2));
            let k3 = self.model.eval(&a3, th2, t);
            proof {
                self.model.lemma_deriv_len(a3@, th2, t);
            }
            let a4 = vec_add(&cur, &vec_scale(h, &k3));
            let k4 = self.model.eval(&a4, th, t);
            proof {
                self.model.lemma_deriv_len(a4@, th, t);
            }
            let sum = vec_add(&vec_add(&k1, &vec_scale(two, &k2)), &vec_add(&vec_scale(two, &k3), &k4));
            let next = vec_add(&cur, &vec_scale(h6, &sum));
            t = fx_add(t, h);
            cur = next;
            n = n + 1;
            proof {
                assert(cur@ == rk4_step_spec(self.model, prev_s, prev_t, h));
                assert(cur@ == rk4_state_spec(self.model, self.init.value@, self.init.param, h,
                    n as nat).1);
            }
            out.push(OdeState { param: t, value: copy_fx_vec(&cur) });
        }
        out
    }
}

} // verus!
