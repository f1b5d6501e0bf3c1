//! The stack-machine typechecker: an abstract interpreter that runs every
//! opcode of an expression against the value and control stacks, then
//! closes the outer frame against the expected result types.

use vstd::prelude::*;
use crate::context::{Context, ContextV};
use crate::instructions::{spec_is_constant, Opcode, RawExpression};
use crate::parse_error::ParseError;
use crate::parse_instructions::{parse_instruction, spec_parse_instruction};
use crate::stacks::{
    generate_stack, spec_pop_ctrl, spec_pop_expect, spec_pop_val, ControlFrame, ControlFrameV,
    Stacks, StacksV, StackValue,
};
use crate::types::{FunctionType, Mutability, NumberType, ReferenceType, ValueType};
use crate::verror::{ExprLocation, ValidationError, ValidationErrorV, VInstError};
use crate::views::FunctionTypeV;

verus! {

/// The `i32` stack slot.
pub open spec fn sv_i32() -> StackValue {
    StackValue::Value(ValueType::Number(NumberType::I32))
}

/// What one opcode does to the stacks under a context, or how it fails;
/// on failure the stacks keep whatever the opcode popped before failing.
/// In constant mode every opcode must come from the constant set, and a
/// `global.get` must read an immutable global.
pub open spec fn spec_validate_opcode(ctx: ContextV, st: StacksV, op: Opcode) -> Result<
    StacksV,
    (VInstError, StacksV),
> {
    let step = match op {
        Opcode::LocalGet(i) => if (i as int) < ctx.locals.len() {
            Ok(StacksV { values: st.values.push(StackValue::Value(ctx.locals[i as int])), ..st })
        } else {
            Err((VInstError::NoLocalAtIndex(i), st))
        },
        Opcode::LocalSet(i) => if (i as int) < ctx.locals.len() {
            match spec_pop_expect(st, StackValue::Value(ctx.locals[i as int])) {
                Ok((_, st2)) => Ok(st2),
                Err(e) => Err(e),
            }
        } else {
            Err((VInstError::NoLocalAtIndex(i), st))
        },
        Opcode::LocalTee(i) => if (i as int) < ctx.locals.len() {
            match spec_pop_expect(st, StackValue::Value(ctx.locals[i as int])) {
                Ok((_, st2)) => Ok(
                    StacksV {
                        values: st2.values.push(StackValue::Value(ctx.locals[i as int])),
                        ..st2
                    },
                ),
                Err(e) => Err(e),
            }
        } else {
            Err((VInstError::NoLocalAtIndex(i), st))
        },
        Opcode::GlobalGet(i) => if (i as int) < ctx.globals.len() {
            Ok(
                StacksV {
                    values: st.values.push(StackValue::Value(ctx.globals[i as int].t().val_type)),
                    ..st
                },
            )
        } else {
            Err((VInstError::NoGlobalAtIndex(i), st))
        },
        Opcode::GlobalSet(i) => if (i as int) < ctx.globals.len() {
            match spec_pop_expect(st, StackValue::Value(ctx.globals[i as int].t().val_type)) {
                Ok((_, st2)) => Ok(st2),
                Err(e) => Err(e),
            }
        } else {
            Err((VInstError::NoGlobalAtIndex(i), st))
        },
        Opcode::I32Const(_) => Ok(StacksV { values: st.values.push(sv_i32()), ..st }),
        Opcode::I64Const(_) => Ok(
            StacksV {
                values: st.values.push(StackValue::Value(ValueType::Number(NumberType::I64))),
                ..st
            },
        ),
        Opcode::F32Const(_) => Ok(
            StacksV {
                values: st.values.push(StackValue::Value(ValueType::Number(NumberType::F32))),
                ..st
            },
        ),
        Opcode::F64Const(_) => Ok(
            StacksV {
                values: st.values.push(StackValue::Value(ValueType::Number(NumberType::F64))),
                ..st
            },
        ),
        Opcode::RefNull(t) => Ok(
            StacksV { values: st.values.push(StackValue::Value(ValueType::Reference(t))), ..st },
        ),
        Opcode::RefIsNull => match spec_pop_val(st) {
            Ok((v, st2)) => if v matches StackValue::Value(ValueType::Reference(_)) {
                Ok(StacksV { values: st2.values.push(sv_i32()), ..st2 })
            } else {
                Err((VInstError::StackValueShouldBeRefType(v), st2))
            },
            Err(e) => Err(e),
        },
        Opcode::RefFunc(i) => if (i as int) < ctx.functions.len() && (ctx.functions[
            i as int
        ].t() as int) < ctx.types.len() {
            if ctx.refs.contains(i) {
                Ok(
                    StacksV {
                        values: st.values.push(
                            StackValue::Value(ValueType::Reference(ReferenceType::FuncRef)),
                        ),
                        ..st
                    },
                )
            } else {
                Err((VInstError::NotIncludedInRefs(i), st))
            }
        } else {
            Err((VInstError::NoFunctionAtIndex(i), st))
        },
        Opcode::I32Add => match spec_pop_expect(st, sv_i32()) {
            Ok((_, st2)) => match spec_pop_expect(st2, sv_i32()) {
                Ok((_, st3)) => Ok(StacksV { values: st3.values.push(sv_i32()), ..st3 }),
                Err(e) => Err(e),
            },
            Err(e) => Err(e),
        },
    };
    match step {
        Ok(st2) => if ctx.instructions_should_be_constant {
            if !spec_is_constant(op) {
                Err((VInstError::OpcodeShouldBeConstant(op), st2))
            } else {
                match op {
                    Opcode::GlobalGet(i) => if ctx.globals[i as int].t().mutability
                        == Mutability::Const {
                        Ok(st2)
                    } else {
                        Err((VInstError::GlobalGetShouldBeConstant(i), st2))
                    },
                    _ => Ok(st2),
                }
            }
        } else {
            Ok(st2)
        },
        Err(e) => Err(e),
    }
}

/// What running the opcode stream from `pos` to the end does, closing the
/// top frame after the last opcode: the final stacks and the opcodes
/// consumed, or the failure with the opcodes consumed and the stacks as
/// the failure left them.
pub open spec fn spec_run_instrs(
    ctx: ContextV,
    bytes: Seq<u8>,
    pos: int,
    st: StacksV,
    prog: Seq<Opcode>,
) -> Result<(StacksV, Seq<Opcode>), (VInstError, Seq<Opcode>, StacksV)>
    decreases bytes.len() - pos,
{
    if pos >= bytes.len() {
        match spec_pop_ctrl(st) {
            Ok((_, st2)) => Ok((st2, prog)),
            Err((e, st2)) => Err((e, prog, st2)),
        }
    } else {
        match spec_parse_instruction(bytes, pos) {
            Ok((op, p)) => if pos < p <= bytes.len() {
                let prog2 = prog.push(op);
                match spec_validate_opcode(ctx, st, op) {
                    Ok(st2) => spec_run_instrs(ctx, bytes, p, st2, prog2),
                    Err((e, st2)) => Err((e, prog2, st2)),
                }
            } else {
                Err((VInstError::OpcodeParseFailed(ParseError::UnexpectedEof), prog, st))
            },
            Err(e) => Err((VInstError::OpcodeParseFailed(e), prog, st)),
        }
    }
}

/// What typechecking a whole expression against a function type does: one
/// outer frame expecting the result types is pushed, the opcode stream is
/// run, and any failure is wrapped with its location and both stack
/// snapshots.
pub open spec fn spec_validate_expr(
    ctx: ContextV,
    ft: FunctionTypeV,
    bytes: Seq<u8>,
    desc: ExprLocation,
) -> Result<(), ValidationErrorV> {
    let st0 = StacksV {
        values: Seq::empty(),
        controls: seq![
            ControlFrameV {
                start_types: Seq::empty(),
                end_types: ft.results,
                height_of_value_stack: 0,
                unreachable: false,
            },
        ],
    };
    match spec_run_instrs(ctx, bytes, 0, st0, Seq::empty()) {
        Ok(_) => Ok(()),
        Err((e, prog, st)) => Err(
            ValidationErrorV::InstructionValidationError {
                desc,
                error: e,
                progress: prog,
                value_stack: st.values,
                control_stack: st.controls,
            },
        ),
    }
}

/// Whether a vector of indices holds one.
fn contains_u32(v: &Vec<u32>, x: u32) -> (r: bool)
    ensures
        r == v@.contains(x),
{
    let mut i: usize = 0;
    while i < v.len()
        invariant
            i <= v@.len(),
            forall|j: int| 0 <= j < i ==> v@[j] != x,
        decreases v@.len() - i,
    {
        if v[i] == x {
            return true;
        }
        i = i + 1;
    }
    proof {
        assert(forall|j: int| 0 <= j < v@.len() ==> v@[j] != x);
    }
    false
}

/// Runs one opcode against the stacks, as `spec_validate_opcode` says.
fn validate_opcode(op: &Opcode, stack: &mut Stacks, ctx: &Context) -> (r: Result<(), VInstError>)
    ensures
        match r {
            Ok(_) => spec_validate_opcode(ctx.deep_view(), old(stack).deep_view(), *op) == Ok::<
                StacksV,
                (VInstError, StacksV),
            >(final(stack).deep_view()),
            Err(e) => spec_validate_opcode(ctx.deep_view(), old(stack).deep_view(), *op) == Err::<
                StacksV,
                (VInstError, StacksV),
            >((e, final(stack).deep_view())),
        },
{
    let ghost ctxv = ctx.deep_view();
    let ghost st0 = stack.deep_view();
    match op {
        Opcode::LocalGet(i) => {
            if (*i as usize) >= ctx.locals.len() {
                return Err(VInstError::NoLocalAtIndex(*i));
            }
            stack.push_val(StackValue::Value(ctx.locals[*i as usize]));
        },
        Opcode::LocalSet(i) => {
            if (*i as usize) >= ctx.locals.len() {
                return Err(VInstError::NoLocalAtIndex(*i));
            }
            match stack.pop_expect_val(StackValue::Value(ctx.locals[*i as usize])) {
                Ok(_) => {},
                Err(e) => {
                    return Err(e);
                },
            }
        },
        Opcode::LocalTee(i) => {
            if (*i as usize) >= ctx.locals.len() {
                return Err(VInstError::NoLocalAtIndex(*i));
            }
            let t = ctx.locals[*i as usize];
            match stack.pop_expect_val(StackValue::Value(t)) {
                Ok(_) => {},
                Err(e) => {
                    return Err(e);
                },
            }
            stack.push_val(StackValue::Value(t));
        },
        Opcode::GlobalGet(i) => {
            if (*i as usize) >= ctx.globals.len() {
                return Err(VInstError::NoGlobalAtIndex(*i));
            }
            let t = ctx.globals[*i as usize].t().val_type;
            proof {
                assert(ctx.globals@[*i as int].deep_view().t() == ctx.globals@[*i as int].t_spec(
                ).deep_view());
            }
            stack.push_val(StackValue::Value(t));
        },
        Opcode::GlobalSet(i) => {
            if (*i as usize) >= ctx.globals.len() {
                return Err(VInstError::NoGlobalAtIndex(*i));
            }
            let t = ctx.globals[*i as usize].t().val_type;
            proof {
                assert(ctx.globals@[*i as int].deep_view().t() == ctx.globals@[*i as int].t_spec(
                ).deep_view());
            }
            match stack.pop_expect_val(StackValue::Value(t)) {
                Ok(_) => {},
                Err(e) => {
                    return Err(e);
                },
            }
        },
        Opcode::I32Const(_) => {
            stack.push_val(StackValue::Value(ValueType::Number(NumberType::I32)));
        },
        Opcode::I64Const(_) => {
            stack.push_val(StackValue::Value(ValueType::Number(NumberType::I64)));
        },
        Opcode::F32Const(_) => {
            stack.push_val(StackValue::Value(ValueType::Number(NumberType::F32)));
        },
        Opcode::F64Const(_) => {
            stack.push_val(StackValue::Value(ValueType::Number(NumberType::F64)));
        },
        Opcode::RefNull(t) => {
            stack.push_val(StackValue::Value(ValueType::Reference(*t)));
        },
        Opcode::RefIsNull => {
            let v = match stack.pop_val() {
                Ok(v) => v,
                Err(e) => {
                    return Err(e);
                },
            };
            let is_ref = match v {
                StackValue::Value(ValueType::Reference(_)) => true,
                _ => false,
            };
            if !is_ref {
                return Err(VInstError::StackValueShouldBeRefType(v));
            }
            stack.push_val(StackValue::Value(ValueType::Number(NumberType::I32)));
        },
        Opcode::RefFunc(i) => {
            if (*i as usize) >= ctx.functions.len() {
                return Err(VInstError::NoFunctionAtIndex(*i));
            }
            let ti = *ctx.functions[*i as usize].t();
            proof {
                assert(ctx.functions@[*i as int].deep_view().t() == ctx.functions@[*i as int]
                    .t_spec());
            }
            if (ti as usize) >= ctx.types.len() {
                return Err(VInstError::NoFunctionAtIndex(*i));
            }
            if !contains_u32(&ctx.refs, *i) {
                return Err(VInstError::NotIncludedInRefs(*i));
            }
            stack.push_val(StackValue::Value(ValueType::Reference(ReferenceType::FuncRef)));
        },
        Opcode::I32Add => {
            match stack.pop_expect_val(StackValue::Value(ValueType::Number(NumberType::I32))) {
                Ok(_) => {},
                Err(e) => {
                    return Err(e);
                },
            }
            match stack.pop_expect_val(StackValue::Value(ValueType::Number(NumberType::I32))) {
                Ok(_) => {},
                Err(e) => {
                    return Err(e);
                },
            }
            stack.push_val(StackValue::Value(ValueType::Number(NumberType::I32)));
        },
    }
    // In constant mode, only the constant opcodes may run, and a
    // `global.get` must read an immutable global.
    if ctx.instructions_should_be_constant {
        if !op.is_constant() {
            return Err(VInstError::OpcodeShouldBeConstant(*op));
        }
        if let Opcode::GlobalGet(i) = op {
            let m = ctx.globals[*i as usize].t().mutability;
            proof {
                assert(ctx.globals@[*i as int].deep_view().t() == ctx.globals@[*i as int].t_spec(
                ).deep_view());
            }
            let is_const = match m {
                Mutability::Const => true,
                Mutability::Var => false,
            };
            if !is_const {
                return Err(VInstError::GlobalGetShouldBeConstant(*i));
            }
        }
    }
    Ok(())
}

/// Runs the whole opcode stream and closes the outer frame, as
/// `spec_run_instrs` says; `progress` collects the opcodes consumed.
fn validate_instructions(
    instructions: &[u8],
    stack: &mut Stacks,
    ctx: &Context,
    progress: &mut Vec<Opcode>,
) -> (r: Result<(), VInstError>)
    ensures
        match r {
            Ok(_) => spec_run_instrs(
                ctx.deep_view(),
                instructions@,
                0,
                old(stack).deep_view(),
                old(progress)@,
            ) == Ok::<(StacksV, Seq<Opcode>), (VInstError, Seq<Opcode>, StacksV)>(
                (final(stack).deep_view(), final(progress)@),
            ),
            Err(e) => spec_run_instrs(
                ctx.deep_view(),
                instructions@,
                0,
                old(stack).deep_view(),
                old(progress)@,
            ) == Err::<(StacksV, Seq<Opcode>), (VInstError, Seq<Opcode>, StacksV)>(
                (e, final(progress)@, final(stack).deep_view()),
            ),
        },
{
    let ghost ctxv = ctx.deep_view();
    let ghost s = instructions@;
    let ghost st0 = stack.deep_view();
    let ghost prog0 = progress@;
    let mut pos: usize = 0;
    while pos < instructions.len()
        invariant
            pos <= s.len(),
            s == instructions@,
            ctxv == ctx.deep_view(),
            st0 == old(stack).deep_view(),
            prog0 == old(progress)@,
            spec_run_instrs(ctxv, s, 0, st0, prog0) == spec_run_instrs(
                ctxv,
                s,
                pos as int,
                stack.deep_view(),
                progress@,
            ),
        decreases s.len() - pos,
    {
        match parse_instruction(instructions, pos) {
            Ok((op, p)) => {
                progress.push(op);
                match validate_opcode(&op, stack, ctx) {
                    Ok(_) => {},
                    Err(e) => {
                        return Err(e);
                    },
                }
                pos = p;
            },
            Err(e) => {
                return Err(VInstError::OpcodeParseFailed(e));
            },
        }
    }
    match stack.pop_ctrl() {
        Ok(_) => Ok(()),
        Err(e) => Err(e),
    }
}

/// Typechecks a raw expression against a function type, as
/// `spec_validate_expr` says: the opcodes run under the context, and the
/// declared results must be exactly what remains on the stack.
pub fn validate_raw_expression(
    ctx: &Context,
    t: &FunctionType,
    expr: &RawExpression,
    desc: ExprLocation,
) -> (r: Result<(), ValidationError>)
    ensures
        match r {
            Ok(_) => spec_validate_expr(
                ctx.deep_view(),
                t.deep_view(),
                expr.instructions@,
                desc,
            ) is Ok,
            Err(e) => spec_validate_expr(ctx.deep_view(), t.deep_view(), expr.instructions@, desc)
                == Err::<(), ValidationErrorV>(e.deep_view()),
        },
{
    let mut stack = generate_stack();
    let mut progress: Vec<Opcode> = Vec::new();
    let end_types = crate::context::clone_value_types(&t.results);
    let outer = ControlFrame {
        start_types: Vec::new(),
        end_types,
        height_of_value_stack: 0,
        unreachable: false,
    };
    proof {
        assert(outer.deep_view() == (ControlFrameV {
            start_types: Seq::<ValueType>::empty(),
            end_types: t.deep_view().results,
            height_of_value_stack: 0,
            unreachable: false,
        }));
    }
    stack.push_ctrl(outer);
    proof {
        assert(stack.deep_view().controls =~= seq![
            ControlFrameV {
                start_types: Seq::<ValueType>::empty(),
                end_types: t.deep_view().results,
                height_of_value_stack: 0,
                unreachable: false,
            },
        ]);
        assert(stack.deep_view() == (StacksV {
            values: Seq::<StackValue>::empty(),
            controls: seq![
                ControlFrameV {
                    start_types: Seq::<ValueType>::empty(),
                    end_types: t.deep_view().results,
                    height_of_value_stack: 0,
                    unreachable: false,
                },
            ],
        }));
    }
    match validate_instructions(expr.instructions.as_slice(), &mut stack, ctx, &mut progress) {
        Ok(_) => Ok(()),
        Err(e) => {
            let value_stack = stack.get_clone_of_value_stack();
            let control_stack = stack.get_clone_of_control_stack();
            Err(
                ValidationError::InstructionValidationError {
                    desc,
                    error: e,
                    progress,
                    value_stack,
                    control_stack,
                },
            )
        },
    }
}

/// What scanning an expression for `ref.func` indices yields: the indices
/// in order of appearance appended to `acc`, or the decode failure with
/// the indices found before it.
pub open spec fn spec_collect_funcrefs(bytes: Seq<u8>, pos: int, acc: Seq<u32>) -> Result<
    Seq<u32>,
    (ParseError, Seq<u32>),
>
    decreases bytes.len() - pos,
{
    if pos >= bytes.len() {
        Ok(acc)
    } else {
        match spec_parse_instruction(bytes, pos) {
            Ok((op, p)) => if pos < p <= bytes.len() {
                spec_collect_funcrefs(
                    bytes,
                    p,
                    match op {
                        Opcode::RefFunc(j) => acc.push(j),
                        _ => acc,
                    },
                )
            } else {
                Err((ParseError::UnexpectedEof, acc))
            },
            Err(e) => Err((e, acc)),
        }
    }
}

/// Scans an expression and appends every `ref.func` index it holds to
/// `refs`, as `spec_collect_funcrefs` says; a decode failure is reported
/// with its location, keeping the indices found before it.
pub fn collect_funcref_in_expression(
    expr: &RawExpression,
    refs: &mut Vec<u32>,
    desc: ExprLocation,
) -> (r: Result<(), ValidationError>)
    ensures
        match r {
            Ok(_) => spec_collect_funcrefs(expr.instructions@, 0, old(refs)@) == Ok::<
                Seq<u32>,
                (ParseError, Seq<u32>),
            >(final(refs)@),
            Err(e) => {
                &&& spec_collect_funcrefs(expr.instructions@, 0, old(refs)@) matches Err(pe)
                    && pe.1 == final(refs)@ && e.deep_view()
                    == ValidationErrorV::CollectFuncRefFromExprError {
                    desc,
                    error: VInstError::OpcodeParseFailed(pe.0),
                }
            },
        },
{
    let ghost s = expr.instructions@;
    let ghost acc0 = refs@;
    let input = expr.instructions.as_slice();
    let mut pos: usize = 0;
    while pos < input.len()
        invariant
            pos <= s.len(),
            s == input@,
            input@ == expr.instructions@,
            acc0 == old(refs)@,
            spec_collect_funcrefs(s, 0, acc0) == spec_collect_funcrefs(s, pos as int, refs@),
        decreases s.len() - pos,
    {
        match parse_instruction(input, pos) {
            Ok((op, p)) => {
                if let Opcode::RefFunc(j) = op {
                    refs.push(j);
                }
                pos = p;
            },
            Err(e) => {
                return Err(ValidationError::CollectFuncRefFromExprError {
                    desc,
                    error: VInstError::OpcodeParseFailed(e),
                });
            },
        }
    }
    Ok(())
}


/// What constant mode demands of one opcode: it is in the constant set,
/// and a `global.get` reads an immutable global of the context.
pub open spec fn const_opcode_ok(ctx: ContextV, op: Opcode) -> bool {
    &&& spec_is_constant(op)
    &&& (op matches Opcode::GlobalGet(i) ==> (i as int) < ctx.globals.len() && ctx.globals[
        i as int
    ].t().mutability == Mutability::Const)
}

/// Law: in constant mode the typechecker accepts an opcode stream only if
/// every opcode it runs is in the constant set and every `global.get`
/// reads an immutable global.  The opcodes the run reports extend `prog`
/// and each added one satisfies the constant rule.
pub proof fn lemma_constant_mode_closure(
    ctx: ContextV,
    bytes: Seq<u8>,
    pos: int,
    st: StacksV,
    prog: Seq<Opcode>,
)
    requires
        ctx.instructions_should_be_constant,
    ensures
        spec_run_instrs(ctx, bytes, pos, st, prog) matches Ok(r) ==> {
            &&& r.1.len() >= prog.len()
            &&& r.1.subrange(0, prog.len() as int) == prog
            &&& forall|q: int|
                prog.len() <= q < r.1.len() ==> const_opcode_ok(ctx, #[trigger] r.1[q])
        },
    decreases bytes.len() - pos,
{
    if pos >= bytes.len() {
        match spec_run_instrs(ctx, bytes, pos, st, prog) {
            Ok(r) => {
                assert(r.1 == prog);
                assert(r.1.subrange(0, prog.len() as int) =~= prog);
            },
            Err(_) => {},
        }
    } else {
        match spec_parse_instruction(bytes, pos) {
            Ok((op, p)) => {
                if pos < p <= bytes.len() {
                    let prog2 = prog.push(op);
                    match spec_validate_opcode(ctx, st, op) {
                        Ok(st2) => {
                            assert(const_opcode_ok(ctx, op));
                            lemma_constant_mode_closure(ctx, bytes, p, st2, prog2);
                            match spec_run_instrs(ctx, bytes, p, st2, prog2) {
                                Ok(r) => {
                                    assert(r.1.subrange(0, prog2.len() as int) == prog2);
                                    assert forall|q: int| 0 <= q < prog.len() implies r.1[q]
                                        == prog[q] by {
                                        assert(r.1.subrange(0, prog2.len() as int)[q] == r.1[q]);
                                        assert(prog2[q] == prog[q]);
                                    }
                                    assert(r.1.subrange(0, prog.len() as int) =~= prog);
                                    assert(r.1[prog.len() as int] == prog2[prog.len() as int]) by {
                                        assert(r.1.subrange(0, prog2.len() as int)[prog.len() as int]
                                            == r.1[prog.len() as int]);
                                    }
                                    assert(r.1[prog.len() as int] == op);
                                },
                                Err(_) => {},
                            }
                        },
                        Err(_) => {},
                    }
                }
            },
            Err(_) => {},
        }
    }
}


/// Law: a whole expression that typechecks in constant mode runs only
/// opcodes of the constant set, and its `global.get`s read immutable
/// globals of the context.  Under the primed context those globals are all
/// imported ones.
pub proof fn lemma_constant_expression_closure(
    ctx: ContextV,
    ft: FunctionTypeV,
    bytes: Seq<u8>,
    desc: ExprLocation,
)
    requires
        ctx.instructions_should_be_constant,
        spec_validate_expr(ctx, ft, bytes, desc) is Ok,
    ensures
        ({
            let st0 = StacksV {
                values: Seq::empty(),
                controls: seq![
                    ControlFrameV {
                        start_types: Seq::empty(),
                        end_types: ft.results,
                        height_of_value_stack: 0,
                        unreachable: false,
                    },
                ],
            };
            spec_run_instrs(ctx, bytes, 0, st0, Seq::empty()) matches Ok(r) && forall|q: int|
                0 <= q < r.1.len() ==> const_opcode_ok(ctx, #[trigger] r.1[q])
        }),
{
    let st0 = StacksV {
        values: Seq::empty(),
        controls: seq![
            ControlFrameV {
                start_types: Seq::empty(),
                end_types: ft.results,
                height_of_value_stack: 0,
                unreachable: false,
            },
        ],
    };
    lemma_constant_mode_closure(ctx, bytes, 0, st0, Seq::empty());
}

} // verus!
