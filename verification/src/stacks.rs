//! The two stacks of the abstract typechecker: values (possibly the
//! polymorphic `Unknown`) and control frames.

use vstd::prelude::*;
use crate::types::ValueType;

verus! {

/// One slot of the value stack: a concrete value type, or the polymorphic
/// `Unknown` that arises only in unreachable code.
#[derive(Debug, Clone, Copy, PartialEq, Eq, Structural)]
pub enum StackValue {
    Unknown,
    Value(ValueType),
}

/// One frame of the control stack: the types at entry and exit, the value
/// stack height when the frame was pushed, and the unreachable flag.
#[derive(Debug, Clone, PartialEq, Eq)]
pub struct ControlFrame {
    pub start_types: Vec<ValueType>,
    pub end_types: Vec<ValueType>,
    pub height_of_value_stack: usize,
    pub unreachable: bool,
}

/// Model of a control frame.
#[verifier::ext_equal]
pub struct ControlFrameV {
    pub start_types: Seq<ValueType>,
    pub end_types: Seq<ValueType>,
    pub height_of_value_stack: int,
    pub unreachable: bool,
}

impl DeepView for ControlFrame {
    type V = ControlFrameV;

    open spec fn deep_view(&self) -> ControlFrameV {
        ControlFrameV {
            start_types: self.start_types@,
            end_types: self.end_types@,
            height_of_value_stack: self.height_of_value_stack as int,
            unreachable: self.unreachable,
        }
    }
}

/// Model of the two stacks together.
#[verifier::ext_equal]
pub struct StacksV {
    pub values: Seq<StackValue>,
    pub controls: Seq<ControlFrameV>,
}

use crate::verror::VInstError;

/// What popping one value does: inside an unreachable frame at its floor,
/// `Unknown` materializes without popping; at the floor of a reachable
/// frame, or on an empty stack, it is an underflow.
pub open spec fn spec_pop_val(st: StacksV) -> Result<(StackValue, StacksV), (VInstError, StacksV)> {
    if st.controls.len() == 0 {
        Err((VInstError::ControlStackUnderflow, st))
    } else {
        let top = st.controls.last();
        if st.values.len() == top.height_of_value_stack && top.unreachable {
            Ok((StackValue::Unknown, st))
        } else if st.values.len() == top.height_of_value_stack {
            Err((VInstError::ValueStackUnderflow, st))
        } else if st.values.len() == 0 {
            Err((VInstError::ValueStackUnderflow, st))
        } else {
            Ok((st.values.last(), StacksV { values: st.values.drop_last(), ..st }))
        }
    }
}

/// What popping against an expected type does: `Unknown` on either side is
/// compatible; two concrete types must be equal.  The value comes off the
/// stack even when the types mismatch.
pub open spec fn spec_pop_expect(st: StacksV, expected: StackValue) -> Result<
    (StackValue, StacksV),
    (VInstError, StacksV),
> {
    match spec_pop_val(st) {
        Ok((actual, st2)) => match (actual, expected) {
            (StackValue::Unknown, _) => Ok((actual, st2)),
            (_, StackValue::Unknown) => Ok((actual, st2)),
            (StackValue::Value(a), StackValue::Value(b)) => if a == b {
                Ok((actual, st2))
            } else {
                Err((VInstError::PopValueTypeMismatch { expected: b, actual: a }, st2))
            },
        },
        Err(e) => Err(e),
    }
}

/// What popping a list of expected types does: the types come off in
/// reverse order, and the popped values are collected in that order.
pub open spec fn spec_pop_vals(st: StacksV, expected: Seq<StackValue>) -> Result<
    (Seq<StackValue>, StacksV),
    (VInstError, StacksV),
>
    decreases expected.len(),
{
    if expected.len() == 0 {
        Ok((Seq::empty(), st))
    } else {
        match spec_pop_expect(st, expected.last()) {
            Ok((v, st2)) => match spec_pop_vals(st2, expected.drop_last()) {
                Ok((rest, st3)) => Ok((seq![v] + rest, st3)),
                Err(e) => Err(e),
            },
            Err(e) => Err(e),
        }
    }
}

/// Popping values never touches the control stack.
pub proof fn lemma_pop_vals_preserves_controls(st: StacksV, expected: Seq<StackValue>)
    ensures
        match spec_pop_vals(st, expected) {
            Ok((_, st2)) => st2.controls == st.controls,
            Err((_, st2)) => st2.controls == st.controls,
        },
    decreases expected.len(),
{
    if expected.len() > 0 {
        match spec_pop_expect(st, expected.last()) {
            Ok((_, st2)) => {
                lemma_pop_vals_preserves_controls(st2, expected.drop_last());
            },
            Err(_) => {},
        }
    }
}

/// What closing the top frame does: its end types are popped, the frame is
/// removed, and the stack must sit exactly at the frame's recorded height.
pub open spec fn spec_pop_ctrl(st: StacksV) -> Result<
    (ControlFrameV, StacksV),
    (VInstError, StacksV),
> {
    if st.controls.len() == 0 {
        Err((VInstError::ControlStackUnderflow, st))
    } else {
        let frame = st.controls.last();
        match spec_pop_vals(st, frame.end_types.map_values(|t: ValueType| StackValue::Value(t))) {
            Ok((_, st2)) => {
                let st3 = StacksV { controls: st2.controls.drop_last(), ..st2 };
                if st3.values.len() != frame.height_of_value_stack {
                    Err((VInstError::ValueStackUnderflow, st3))
                } else {
                    Ok((frame, st3))
                }
            },
            Err(e) => Err(e),
        }
    }
}

/// The two stacks of the typechecker.
#[derive(Debug)]
pub struct Stacks {
    pub values: Vec<StackValue>,
    pub controls: Vec<ControlFrame>,
}

impl DeepView for Stacks {
    type V = StacksV;

    open spec fn deep_view(&self) -> StacksV {
        StacksV { values: self.values@, controls: self.controls.deep_view() }
    }
}

/// Copies a vector of value types.
fn copy_value_types(v: &Vec<ValueType>) -> (r: Vec<ValueType>)
    ensures
        r@ == v@,
{
    let mut r: Vec<ValueType> = Vec::new();
    let mut i: usize = 0;
    while i < v.len()
        invariant
            i <= v@.len(),
            r@ == v@.subrange(0, i as int),
        decreases v@.len() - i,
    {
        r.push(v[i]);
        proof {
            assert(r@ =~= v@.subrange(0, i + 1));
        }
        i = i + 1;
    }
    proof {
        assert(r@ =~= v@);
    }
    r
}

/// Creates an empty pair of stacks.
pub fn generate_stack() -> (r: Stacks)
    ensures
        r.deep_view().values == Seq::<StackValue>::empty(),
        r.deep_view().controls == Seq::<ControlFrameV>::empty(),
{
    let r = Stacks { values: Vec::new(), controls: Vec::new() };
    proof {
        assert(r.deep_view().values =~= Seq::<StackValue>::empty());
        assert(r.deep_view().controls =~= Seq::<ControlFrameV>::empty());
    }
    r
}

impl Stacks {
    /// Pushes one value.
    pub fn push_val(&mut self, value: StackValue)
        ensures
            final(self).deep_view().values == old(self).deep_view().values.push(value),
            final(self).deep_view().controls == old(self).deep_view().controls,
    {
        let ghost old_view = self.deep_view();
        self.values.push(value);
        proof {
            assert(self.deep_view().controls =~= old_view.controls);
        }
    }

    /// Pops one value, as `spec_pop_val` says.
    pub fn pop_val(&mut self) -> (r: Result<StackValue, VInstError>)
        ensures
            match r {
                Ok(v) => spec_pop_val(old(self).deep_view()) == Ok::<
                    (StackValue, StacksV),
                    (VInstError, StacksV),
                >((v, final(self).deep_view())),
                Err(e) => spec_pop_val(old(self).deep_view()) == Err::<
                    (StackValue, StacksV),
                    (VInstError, StacksV),
                >((e, final(self).deep_view())),
            },
    {
        let ghost old_view = self.deep_view();
        if self.controls.len() == 0 {
            return Err(VInstError::ControlStackUnderflow);
        }
        let top_height = self.controls[self.controls.len() - 1].height_of_value_stack;
        let top_unreachable = self.controls[self.controls.len() - 1].unreachable;
        proof {
            assert(old_view.controls.last() == self.controls@[self.controls@.len()
                - 1].deep_view());
        }
        if self.values.len() == top_height && top_unreachable {
            return Ok(StackValue::Unknown);
        }
        if self.values.len() == top_height {
            return Err(VInstError::ValueStackUnderflow);
        }
        match self.values.pop() {
            Some(v) => {
                proof {
                    assert(self.deep_view().values =~= old_view.values.drop_last());
                    assert(self.deep_view().controls =~= old_view.controls);
                    assert(self.deep_view() == StacksV { values: old_view.values.drop_last(), ..old_view });
                }
                Ok(v)
            },
            None => Err(VInstError::ValueStackUnderflow),
        }
    }

    /// Pops one value against an expected type, as `spec_pop_expect` says.
    pub fn pop_expect_val(&mut self, expected: StackValue) -> (r: Result<StackValue, VInstError>)
        ensures
            match r {
                Ok(v) => spec_pop_expect(old(self).deep_view(), expected) == Ok::<
                    (StackValue, StacksV),
                    (VInstError, StacksV),
                >((v, final(self).deep_view())),
                Err(e) => spec_pop_expect(old(self).deep_view(), expected) == Err::<
                    (StackValue, StacksV),
                    (VInstError, StacksV),
                >((e, final(self).deep_view())),
            },
    {
        let actual = match self.pop_val() {
            Ok(v) => v,
            Err(e) => {
                return Err(e);
            },
        };
        match (actual, expected) {
            (StackValue::Unknown, _) => Ok(actual),
            (_, StackValue::Unknown) => Ok(actual),
            (StackValue::Value(a), StackValue::Value(b)) => {
                if a == b {
                    Ok(actual)
                } else {
                    Err(VInstError::PopValueTypeMismatch { expected: b, actual: a })
                }
            },
        }
    }

    /// Pops a list of expected types in reverse order, as `spec_pop_vals`
    /// says.
    pub fn pop_vals(&mut self, expected: &Vec<StackValue>) -> (r: Result<Vec<StackValue>, VInstError>)
        ensures
            match r {
                Ok(vs) => spec_pop_vals(old(self).deep_view(), expected@) == Ok::<
                    (Seq<StackValue>, StacksV),
                    (VInstError, StacksV),
                >((vs@, final(self).deep_view())),
                Err(e) => spec_pop_vals(old(self).deep_view(), expected@) == Err::<
                    (Seq<StackValue>, StacksV),
                    (VInstError, StacksV),
                >((e, final(self).deep_view())),
            },
    {
        let ghost st0 = self.deep_view();
        let mut collected: Vec<StackValue> = Vec::new();
        let mut k: usize = expected.len();
        proof {
            assert(expected@.subrange(0, expected@.len() as int) =~= expected@);
            assert(collected@ =~= Seq::<StackValue>::empty());
        }
        while k > 0
            invariant
                k <= expected@.len(),
                st0 == old(self).deep_view(),
                ({
                    match spec_pop_vals(self.deep_view(), expected@.subrange(0, k as int)) {
                        Ok(p) => spec_pop_vals(st0, expected@) == Ok::<
                            (Seq<StackValue>, StacksV),
                            (VInstError, StacksV),
                        >((collected@ + p.0, p.1)),
                        Err(e) => spec_pop_vals(st0, expected@) == Err::<
                            (Seq<StackValue>, StacksV),
                            (VInstError, StacksV),
                        >(e),
                    }
                }),
            decreases k,
        {
            let ghost pre = self.deep_view();
            let ghost exp_pre = expected@.subrange(0, k as int);
            proof {
                assert(exp_pre.last() == expected@[k - 1]);
                assert(exp_pre.drop_last() =~= expected@.subrange(0, k - 1));
            }
            match self.pop_expect_val(expected[k - 1]) {
                Ok(v) => {
                    let ghost old_collected = collected@;
                    collected.push(v);
                    proof {
                        match spec_pop_vals(self.deep_view(), expected@.subrange(0, k - 1)) {
                            Ok(p) => {
                                assert(old_collected + (seq![v] + p.0) =~= (old_collected + seq![v])
                                    + p.0);
                                assert(collected@ =~= old_collected + seq![v]);
                            },
                            Err(_) => {},
                        }
                    }
                    k = k - 1;
                },
                Err(e) => {
                    return Err(e);
                },
            }
        }
        proof {
            assert(expected@.subrange(0, 0) =~= Seq::<StackValue>::empty());
            assert(collected@ + Seq::<StackValue>::empty() =~= collected@);
        }
        Ok(collected)
    }

    /// Pushes one control frame.
    pub fn push_ctrl(&mut self, frame: ControlFrame)
        ensures
            final(self).deep_view().values == old(self).deep_view().values,
            final(self).deep_view().controls == old(self).deep_view().controls.push(
                frame.deep_view(),
            ),
    {
        let ghost old_view = self.deep_view();
        let ghost fv = frame.deep_view();
        self.controls.push(frame);
        proof {
            assert(self.deep_view().controls =~= old_view.controls.push(fv));
        }
    }

    /// Closes the top control frame, as `spec_pop_ctrl` says.
    pub fn pop_ctrl(&mut self) -> (r: Result<ControlFrame, VInstError>)
        ensures
            match r {
                Ok(frame) => spec_pop_ctrl(old(self).deep_view()) == Ok::<
                    (ControlFrameV, StacksV),
                    (VInstError, StacksV),
                >((frame.deep_view(), final(self).deep_view())),
                Err(e) => spec_pop_ctrl(old(self).deep_view()) == Err::<
                    (ControlFrameV, StacksV),
                    (VInstError, StacksV),
                >((e, final(self).deep_view())),
            },
    {
        let ghost st0 = self.deep_view();
        if self.controls.len() == 0 {
            return Err(VInstError::ControlStackUnderflow);
        }
        let ghost framev = st0.controls.last();
        let mut end_vals: Vec<StackValue> = Vec::new();
        let n = self.controls[self.controls.len() - 1].end_types.len();
        let mut i: usize = 0;
        proof {
            assert(st0.controls.last() == self.controls@[self.controls@.len() - 1].deep_view());
        }
        while i < n
            invariant
                i <= n,
                self.controls@.len() > 0,
                self.deep_view() == st0,
                n == self.controls@[self.controls@.len() - 1].end_types@.len(),
                framev == st0.controls.last(),
                st0.controls.last() == self.controls@[self.controls@.len() - 1].deep_view(),
                end_vals@.len() == i,
                forall|j: int| 0 <= j < i ==> end_vals@[j] == StackValue::Value(
                    #[trigger] framev.end_types[j],
                ),
            decreases n - i,
        {
            let t = self.controls[self.controls.len() - 1].end_types[i];
            end_vals.push(StackValue::Value(t));
            i = i + 1;
        }
        proof {
            assert(end_vals@ =~= framev.end_types.map_values(
                |t: ValueType| StackValue::Value(t),
            ));
        }
        proof {
            lemma_pop_vals_preserves_controls(st0, end_vals@);
        }
        let popped = self.pop_vals(&end_vals);
        match popped {
            Ok(_) => {},
            Err(e) => {
                return Err(e);
            },
        }
        let ghost st2 = self.deep_view();
        let frame = match self.controls.pop() {
            Some(f) => f,
            None => {
                proof {
                    assert(st2.controls == st0.controls);
                    assert(false);
                }
                return Err(VInstError::ControlStackUnderflow);
            },
        };
        proof {
            assert(st2.controls == st0.controls);
            assert(frame.deep_view() == framev);
            assert(self.deep_view().controls =~= st2.controls.drop_last());
            assert(self.deep_view().values == st2.values);
            assert(self.deep_view() == (StacksV { controls: st2.controls.drop_last(), ..st2 }));
        }
        if self.values.len() != frame.height_of_value_stack {
            return Err(VInstError::ValueStackUnderflow);
        }
                Ok(frame)
    }

    /// Marks the top frame unreachable, if one exists.
    pub fn unreachable(&mut self)
        ensures
            final(self).deep_view().values == old(self).deep_view().values,
            old(self).deep_view().controls.len() == 0 ==> final(self).deep_view() == old(
                self,
            ).deep_view(),
            old(self).deep_view().controls.len() > 0 ==> final(self).deep_view().controls == old(
                self,
            ).deep_view().controls.update(
                old(self).deep_view().controls.len() - 1,
                ControlFrameV { unreachable: true, ..old(self).deep_view().controls.last() },
            ),
    {
        let ghost old_view = self.deep_view();
        let len = self.controls.len();
        if len > 0 {
            let ghost oldf = self.controls@[len - 1].deep_view();
            self.controls[len - 1].unreachable = true;
            proof {
                assert(self.deep_view().controls =~= old_view.controls.update(
                    len - 1,
                    ControlFrameV { unreachable: true, ..oldf },
                ));
                assert(self.deep_view().values =~= old_view.values);
            }
        } else {
            proof {
                assert(self.deep_view().controls =~= old_view.controls);
            }
        }
    }

    /// A copy of the value stack, for diagnostics.
    pub fn get_clone_of_value_stack(&self) -> (r: Vec<StackValue>)
        ensures
            r@ == self.deep_view().values,
    {
        let mut r: Vec<StackValue> = Vec::new();
        let mut i: usize = 0;
        while i < self.values.len()
            invariant
                i <= self.values@.len(),
                r@ == self.values@.subrange(0, i as int),
            decreases self.values@.len() - i,
        {
            r.push(self.values[i]);
            proof {
                assert(r@ =~= self.values@.subrange(0, i + 1));
            }
            i = i + 1;
        }
        proof {
            assert(r@ =~= self.values@);
        }
        r
    }

    /// A copy of the control stack, for diagnostics.
    pub fn get_clone_of_control_stack(&self) -> (r: Vec<ControlFrame>)
        ensures
            r.deep_view() == self.deep_view().controls,
    {
        let mut r: Vec<ControlFrame> = Vec::new();
        let mut i: usize = 0;
        while i < self.controls.len()
            invariant
                i <= self.controls@.len(),
                r.deep_view() == self.controls.deep_view().subrange(0, i as int),
            decreases self.controls@.len() - i,
        {
            let f = &self.controls[i];
            let nf = ControlFrame {
                start_types: copy_value_types(&f.start_types),
                end_types: copy_value_types(&f.end_types),
                height_of_value_stack: f.height_of_value_stack,
                unreachable: f.unreachable,
            };
            proof {
                assert(nf.deep_view() == f.deep_view());
                assert(self.controls.deep_view()[i as int] == self.controls@[i as int].deep_view());
            }
            let ghost prev = r@;
            let ghost prevdv = r.deep_view();
            proof {
                assert(prevdv.len() == prev.len());
                assert(prev.len() == i);
            }
            r.push(nf);
            proof {
                assert(r@ == prev.push(nf));
                assert(r@.len() == i + 1);
                assert forall|j: int| 0 <= j < i + 1 implies r.deep_view()[j]
                    == self.controls.deep_view().subrange(0, i + 1)[j] by {
                    assert(r.deep_view()[j] == r@[j].deep_view());
                    if j < i {
                        assert(r@[j] == prev[j]);
                        assert(prevdv[j] == prev[j].deep_view());
                        assert(prevdv[j] == self.controls.deep_view()[j]);
                    } else {
                        assert(r@[j] == nf);
                        assert(nf.deep_view() == self.controls@[j].deep_view());
                        assert(self.controls.deep_view()[j] == self.controls@[j].deep_view());
                    }
                }
                assert(r.deep_view() =~= self.controls.deep_view().subrange(0, i + 1));
            }
            i = i + 1;
        }
        proof {
            assert(r.deep_view() =~~= self.controls.deep_view());
        }
        r
    }
}

} // verus!
