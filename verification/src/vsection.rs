//! Per-section validators: index resolution, limit ranges, and the
//! expression checks for globals, elements, and code.

use vstd::prelude::*;
use crate::context::{internal_ts, Context, ContextV};
use crate::section::{
    CodeSection, ElementItems, ElementKind, ElementSection, ExportDesc, ExportSection,
    FunctionSection, GlobalSection, ImportDesc, ImportSection, MemorySection, SectionID,
    StartSection, TableSection,
};
use crate::types::{FunctionType, Limits, MemoryType, NumberType, TableType, ValueType};
use crate::verror::{ExprLocation, IndexSpace, ValidationError, ValidationErrorV};
use crate::views::{ElementItemsV, ElementKindV, ElementV, ExportV, FunctionBodyV, FunctionTypeV, GlobalV, ImportV};
use crate::vinstruction::{spec_validate_expr, validate_raw_expression};

verus! {

/// The largest table size the system accepts.
pub const MAX_TABLE_SIZE: u32 = 0xffff_ffff;

/// The largest memory size the system accepts, in pages.
pub const MAX_PAGES_SIZE: u32 = 0x10000;

/// Whether limits fit under a maximum: the minimum must not exceed the
/// declared maximum, nor either the system maximum.
pub open spec fn spec_validate_limits(limits: Limits, maximum: u32) -> bool {
    match limits.max {
        Some(max) => limits.min <= max && max <= maximum,
        None => limits.min <= maximum,
    }
}

/// Checks limits against a maximum, as `spec_validate_limits` says.
pub fn validate_limits(limits: &Limits, maximum: u32) -> (r: bool)
    ensures
        r == spec_validate_limits(*limits, maximum),
{
    match limits.max {
        Some(max) => limits.min <= max && max <= maximum,
        None => limits.min <= maximum,
    }
}

/// Copies limits.
fn copy_limits(l: &Limits) -> (r: Limits)
    ensures
        r == *l,
{
    Limits { min: l.min, max: l.max }
}

/// What validating the function section from entry `i` on yields: every
/// type index must resolve in the types.
pub open spec fn spec_validate_function_section(
    indices: Seq<u32>,
    ctx: ContextV,
    i: int,
) -> Result<(), ValidationErrorV>
    decreases indices.len() - i,
{
    if i < 0 || i >= indices.len() {
        Ok(())
    } else if (indices[i] as int) >= ctx.types.len() {
        Err(
            ValidationErrorV::IndexOutOfBoundsIn {
                referring: IndexSpace::Function,
                referring_index: i,
                referred: IndexSpace::Type,
                referred_index: indices[i],
            },
        )
    } else {
        spec_validate_function_section(indices, ctx, i + 1)
    }
}

/// Validates the function section: every type index resolves.
pub fn validate_function_section(function_section: &FunctionSection, context: &Context) -> (r:
    Result<(), ValidationError>)
    ensures
        match r {
            Ok(_) => spec_validate_function_section(
                function_section.type_indices@,
                context.deep_view(),
                0,
            ) == Ok::<(), ValidationErrorV>(()),
            Err(e) => spec_validate_function_section(
                function_section.type_indices@,
                context.deep_view(),
                0,
            ) == Err::<(), ValidationErrorV>(e.deep_view()),
        },
{
    let ghost indices = function_section.type_indices@;
    let ghost ctxv = context.deep_view();
    let mut i: usize = 0;
    while i < function_section.type_indices.len()
        invariant
            i <= indices.len(),
            indices == function_section.type_indices@,
            ctxv == context.deep_view(),
            spec_validate_function_section(indices, ctxv, 0) == spec_validate_function_section(
                indices,
                ctxv,
                i as int,
            ),
        decreases indices.len() - i,
    {
        let idx = function_section.type_indices[i];
        if (idx as usize) >= context.types.len() {
            return Err(
                ValidationError::IndexOutOfBoundsIn {
                    referring: IndexSpace::Function,
                    referring_index: i,
                    referred: IndexSpace::Type,
                    referred_index: idx,
                },
            );
        }
        i = i + 1;
    }
    Ok(())
}

/// What validating the export section from entry `i` on yields: each
/// export's index must resolve in its space.
pub open spec fn spec_validate_export_section(
    exports: Seq<ExportV>,
    ctx: ContextV,
    i: int,
) -> Result<(), ValidationErrorV>
    decreases exports.len() - i,
{
    if i < 0 || i >= exports.len() {
        Ok(())
    } else {
        let bad = |referred: IndexSpace, idx: u32| ValidationErrorV::IndexOutOfBoundsIn {
            referring: IndexSpace::Export,
            referring_index: i,
            referred,
            referred_index: idx,
        };
        match exports[i].desc {
            ExportDesc::FunctionIndex(idx) => if (idx as int) >= ctx.functions.len() {
                Err(bad(IndexSpace::Function, idx))
            } else {
                spec_validate_export_section(exports, ctx, i + 1)
            },
            ExportDesc::TableIndex(idx) => if (idx as int) >= ctx.tables.len() {
                Err(bad(IndexSpace::Table, idx))
            } else {
                spec_validate_export_section(exports, ctx, i + 1)
            },
            ExportDesc::MemoryIndex(idx) => if (idx as int) >= ctx.memories.len() {
                Err(bad(IndexSpace::Memory, idx))
            } else {
                spec_validate_export_section(exports, ctx, i + 1)
            },
            ExportDesc::GlobalIndex(idx) => if (idx as int) >= ctx.globals.len() {
                Err(bad(IndexSpace::Global, idx))
            } else {
                spec_validate_export_section(exports, ctx, i + 1)
            },
        }
    }
}

/// Validates the export section: each export's index resolves in the
/// corresponding space, imports included.
pub fn validate_export_section(export_section: &ExportSection, context: &Context) -> (r: Result<
    (),
    ValidationError,
>)
    ensures
        match r {
            Ok(_) => spec_validate_export_section(
                export_section.exports.deep_view(),
                context.deep_view(),
                0,
            ) == Ok::<(), ValidationErrorV>(()),
            Err(e) => spec_validate_export_section(
                export_section.exports.deep_view(),
                context.deep_view(),
                0,
            ) == Err::<(), ValidationErrorV>(e.deep_view()),
        },
{
    let ghost exports = export_section.exports.deep_view();
    let ghost ctxv = context.deep_view();
    let mut i: usize = 0;
    while i < export_section.exports.len()
        invariant
            i <= exports.len(),
            exports == export_section.exports.deep_view(),
            exports.len() == export_section.exports@.len(),
            ctxv == context.deep_view(),
            spec_validate_export_section(exports, ctxv, 0) == spec_validate_export_section(
                exports,
                ctxv,
                i as int,
            ),
        decreases exports.len() - i,
    {
        proof {
            assert(exports[i as int] == export_section.exports@[i as int].deep_view());
        }
        let (space, idx, ok) = match export_section.exports[i].desc {
            ExportDesc::FunctionIndex(idx) => (
                IndexSpace::Function,
                idx,
                (idx as usize) < context.functions.len(),
            ),
            ExportDesc::TableIndex(idx) => (
                IndexSpace::Table,
                idx,
                (idx as usize) < context.tables.len(),
            ),
            ExportDesc::MemoryIndex(idx) => (
                IndexSpace::Memory,
                idx,
                (idx as usize) < context.memories.len(),
            ),
            ExportDesc::GlobalIndex(idx) => (
                IndexSpace::Global,
                idx,
                (idx as usize) < context.globals.len(),
            ),
        };
        if !ok {
            return Err(
                ValidationError::IndexOutOfBoundsIn {
                    referring: IndexSpace::Export,
                    referring_index: i,
                    referred: space,
                    referred_index: idx,
                },
            );
        }
        i = i + 1;
    }
    Ok(())
}

/// What validating the table section from entry `i` on yields: every
/// table's limits must fit under the system maximum.
pub open spec fn spec_validate_table_section(tables: Seq<TableType>, i: int) -> Result<
    (),
    ValidationErrorV,
>
    decreases tables.len() - i,
{
    if i < 0 || i >= tables.len() {
        Ok(())
    } else if !spec_validate_limits(tables[i].limits, MAX_TABLE_SIZE) {
        Err(
            ValidationErrorV::TableSizeError {
                section: SectionID::Table,
                index: i,
                limits: tables[i].limits,
                maximum: MAX_TABLE_SIZE,
            },
        )
    } else {
        spec_validate_table_section(tables, i + 1)
    }
}

/// Validates the table section: every table's limits fit under the system
/// maximum.
pub fn validate_table_section(table_section: &TableSection) -> (r: Result<(), ValidationError>)
    ensures
        match r {
            Ok(_) => spec_validate_table_section(table_section.tables@, 0) == Ok::<
                (),
                ValidationErrorV,
            >(()),
            Err(e) => spec_validate_table_section(table_section.tables@, 0) == Err::<
                (),
                ValidationErrorV,
            >(e.deep_view()),
        },
{
    let ghost tables = table_section.tables@;
    let mut i: usize = 0;
    while i < table_section.tables.len()
        invariant
            i <= tables.len(),
            tables == table_section.tables@,
            spec_validate_table_section(tables, 0) == spec_validate_table_section(
                tables,
                i as int,
            ),
        decreases tables.len() - i,
    {
        let table = &table_section.tables[i];
        if !validate_limits(&table.limits, MAX_TABLE_SIZE) {
            return Err(
                ValidationError::TableSizeError {
                    section: SectionID::Table,
                    index: i,
                    limits: copy_limits(&table.limits),
                    maximum: MAX_TABLE_SIZE,
                },
            );
        }
        i = i + 1;
    }
    Ok(())
}

/// What validating the memory section from entry `i` on yields: every
/// memory's limits must fit under the system maximum in pages.
pub open spec fn spec_validate_memory_section(memories: Seq<MemoryType>, i: int) -> Result<
    (),
    ValidationErrorV,
>
    decreases memories.len() - i,
{
    if i < 0 || i >= memories.len() {
        Ok(())
    } else if !spec_validate_limits(memories[i].limits, MAX_PAGES_SIZE) {
        Err(
            ValidationErrorV::MemorySizeError {
                section: SectionID::Memory,
                index: i,
                limits: memories[i].limits,
                maximum: MAX_PAGES_SIZE,
            },
        )
    } else {
        spec_validate_memory_section(memories, i + 1)
    }
}

/// Validates the memory section: every memory's limits fit under the
/// system maximum in pages.
pub fn validate_memory_section(memory_section: &MemorySection) -> (r: Result<(), ValidationError>)
    ensures
        match r {
            Ok(_) => spec_validate_memory_section(memory_section.memories@, 0) == Ok::<
                (),
                ValidationErrorV,
            >(()),
            Err(e) => spec_validate_memory_section(memory_section.memories@, 0) == Err::<
                (),
                ValidationErrorV,
            >(e.deep_view()),
        },
{
    let ghost memories = memory_section.memories@;
    let mut i: usize = 0;
    while i < memory_section.memories.len()
        invariant
            i <= memories.len(),
            memories == memory_section.memories@,
            spec_validate_memory_section(memories, 0) == spec_validate_memory_section(
                memories,
                i as int,
            ),
        decreases memories.len() - i,
    {
        let memory = &memory_section.memories[i];
        if !validate_limits(&memory.limits, MAX_PAGES_SIZE) {
            return Err(
                ValidationError::MemorySizeError {
                    section: SectionID::Memory,
                    index: i,
                    limits: copy_limits(&memory.limits),
                    maximum: MAX_PAGES_SIZE,
                },
            );
        }
        i = i + 1;
    }
    Ok(())
}

/// What validating the import section from entry `i` on yields: type
/// indices must resolve, and imported tables and memories must fit their
/// system maxima.
pub open spec fn spec_validate_import_section(
    imports: Seq<ImportV>,
    ctx: ContextV,
    i: int,
) -> Result<(), ValidationErrorV>
    decreases imports.len() - i,
{
    if i < 0 || i >= imports.len() {
        Ok(())
    } else {
        match imports[i].desc {
            ImportDesc::TypeIndex(idx) => if (idx as int) >= ctx.types.len() {
                Err(
                    ValidationErrorV::IndexOutOfBoundsIn {
                        referring: IndexSpace::Import,
                        referring_index: i,
                        referred: IndexSpace::Function,
                        referred_index: idx,
                    },
                )
            } else {
                spec_validate_import_section(imports, ctx, i + 1)
            },
            ImportDesc::Table(table_type) => if !spec_validate_limits(
                table_type.limits,
                MAX_TABLE_SIZE,
            ) {
                Err(
                    ValidationErrorV::TableSizeError {
                        section: SectionID::Import,
                        index: i,
                        limits: table_type.limits,
                        maximum: MAX_TABLE_SIZE,
                    },
                )
            } else {
                spec_validate_import_section(imports, ctx, i + 1)
            },
            ImportDesc::Memory(memory_type) => if !spec_validate_limits(
                memory_type.limits,
                MAX_PAGES_SIZE,
            ) {
                Err(
                    ValidationErrorV::MemorySizeError {
                        section: SectionID::Import,
                        index: i,
                        limits: memory_type.limits,
                        maximum: MAX_PAGES_SIZE,
                    },
                )
            } else {
                spec_validate_import_section(imports, ctx, i + 1)
            },
            ImportDesc::Global(_) => spec_validate_import_section(imports, ctx, i + 1),
        }
    }
}

/// Validates the import section: type-index imports resolve in the types,
/// and imported tables and memories fit their system maxima.
pub fn validate_import_section(import_section: &ImportSection, ctx: &Context) -> (r: Result<
    (),
    ValidationError,
>)
    ensures
        match r {
            Ok(_) => spec_validate_import_section(
                import_section.imports.deep_view(),
                ctx.deep_view(),
                0,
            ) == Ok::<(), ValidationErrorV>(()),
            Err(e) => spec_validate_import_section(
                import_section.imports.deep_view(),
                ctx.deep_view(),
                0,
            ) == Err::<(), ValidationErrorV>(e.deep_view()),
        },
{
    let ghost imports = import_section.imports.deep_view();
    let ghost ctxv = ctx.deep_view();
    let mut i: usize = 0;
    while i < import_section.imports.len()
        invariant
            i <= imports.len(),
            imports == import_section.imports.deep_view(),
            imports.len() == import_section.imports@.len(),
            ctxv == ctx.deep_view(),
            spec_validate_import_section(imports, ctxv, 0) == spec_validate_import_section(
                imports,
                ctxv,
                i as int,
            ),
        decreases imports.len() - i,
    {
        proof {
            assert(imports[i as int] == import_section.imports@[i as int].deep_view());
        }
        match &import_section.imports[i].desc {
            ImportDesc::TypeIndex(idx) => {
                if (*idx as usize) >= ctx.types.len() {
                    return Err(
                        ValidationError::IndexOutOfBoundsIn {
                            referring: IndexSpace::Import,
                            referring_index: i,
                            referred: IndexSpace::Function,
                            referred_index: *idx,
                        },
                    );
                }
            },
            ImportDesc::Table(table_type) => {
                if !validate_limits(&table_type.limits, MAX_TABLE_SIZE) {
                    return Err(
                        ValidationError::TableSizeError {
                            section: SectionID::Import,
                            index: i,
                            limits: copy_limits(&table_type.limits),
                            maximum: MAX_TABLE_SIZE,
                        },
                    );
                }
            },
            ImportDesc::Memory(memory_type) => {
                if !validate_limits(&memory_type.limits, MAX_PAGES_SIZE) {
                    return Err(
                        ValidationError::MemorySizeError {
                            section: SectionID::Import,
                            index: i,
                            limits: copy_limits(&memory_type.limits),
                            maximum: MAX_PAGES_SIZE,
                        },
                    );
                }
            },
            ImportDesc::Global(_) => {},
        }
        i = i + 1;
    }
    Ok(())
}

/// What validating the start section yields: the start function index
/// resolves, its type index resolves, and the type is empty-to-empty.
pub open spec fn spec_validate_start_section(start_function_index: u32, ctx: ContextV) -> Result<
    (),
    ValidationErrorV,
> {
    if (start_function_index as int) >= ctx.functions.len() {
        Err(
            ValidationErrorV::IndexOutOfBoundsIn {
                referring: IndexSpace::Start,
                referring_index: 0,
                referred: IndexSpace::Function,
                referred_index: start_function_index,
            },
        )
    } else {
        let t = ctx.functions[start_function_index as int].t();
        if (t as int) >= ctx.types.len() {
            Err(
                ValidationErrorV::IndexOutOfBoundsIn {
                    referring: IndexSpace::Start,
                    referring_index: 0,
                    referred: IndexSpace::Type,
                    referred_index: t,
                },
            )
        } else {
            let f = ctx.types[t as int];
            if f.params.len() != 0 || f.results.len() != 0 {
                Err(ValidationErrorV::StartFuncInvalid { functype: f })
            } else {
                Ok(())
            }
        }
    }
}

/// Validates the start section: the referenced function must have the
/// empty-to-empty type.
pub fn validate_start_section(start_section: &StartSection, ctx: &Context) -> (r: Result<
    (),
    ValidationError,
>)
    ensures
        match r {
            Ok(_) => spec_validate_start_section(
                start_section.start_function_index,
                ctx.deep_view(),
            ) == Ok::<(), ValidationErrorV>(()),
            Err(e) => spec_validate_start_section(
                start_section.start_function_index,
                ctx.deep_view(),
            ) == Err::<(), ValidationErrorV>(e.deep_view()),
        },
{
    let idx = start_section.start_function_index;
    if (idx as usize) >= ctx.functions.len() {
        return Err(
            ValidationError::IndexOutOfBoundsIn {
                referring: IndexSpace::Start,
                referring_index: 0,
                referred: IndexSpace::Function,
                referred_index: idx,
            },
        );
    }
    let t = *ctx.functions[idx as usize].t();
    proof {
        assert(ctx.functions@[idx as int].deep_view().t() == ctx.functions@[idx as int].t_spec());
    }
    if (t as usize) >= ctx.types.len() {
        return Err(
            ValidationError::IndexOutOfBoundsIn {
                referring: IndexSpace::Start,
                referring_index: 0,
                referred: IndexSpace::Type,
                referred_index: t,
            },
        );
    }
    let f = &ctx.types[t as usize];
    proof {
        assert(ctx.deep_view().types[t as int] == ctx.types@[t as int].deep_view());
    }
    if f.params.len() != 0 || f.results.len() != 0 {
        return Err(
            ValidationError::StartFuncInvalid {
                functype: FunctionType {
                    params: crate::context::clone_value_types(&f.params),
                    results: crate::context::clone_value_types(&f.results),
                },
            },
        );
    }
    Ok(())
}


/// The function type with no parameters and one result.
pub open spec fn ft_result(t: ValueType) -> FunctionTypeV {
    FunctionTypeV { params: Seq::empty(), results: seq![t] }
}

/// Builds the function type with no parameters and one result.
fn make_result_type(t: ValueType) -> (r: FunctionType)
    ensures
        r.deep_view() == ft_result(t),
{
    let mut results: Vec<ValueType> = Vec::new();
    results.push(t);
    let r = FunctionType { params: Vec::new(), results };
    proof {
        assert(r.deep_view().params =~= ft_result(t).params);
        assert(r.deep_view().results =~= ft_result(t).results);
        assert(r.deep_view() =~= ft_result(t));
    }
    r
}

/// What validating the global section from entry `i` on yields: each
/// initializer must typecheck as a constant expression of the global's
/// value type under the given (primed) context.
pub open spec fn spec_validate_global_section(
    globals: Seq<GlobalV>,
    ctx: ContextV,
    i: int,
) -> Result<(), ValidationErrorV>
    decreases globals.len() - i,
{
    if i < 0 || i >= globals.len() {
        Ok(())
    } else {
        match spec_validate_expr(
            ctx,
            ft_result(globals[i].global_type.val_type),
            globals[i].expression,
            ExprLocation::GlobalSection(i as usize),
        ) {
            Ok(_) => spec_validate_global_section(globals, ctx, i + 1),
            Err(e) => Err(e),
        }
    }
}

/// Validates the global section: each initializer typechecks against the
/// global's value type under the given context.
pub fn validate_global_section(global_section: &GlobalSection, ctx: &Context) -> (r: Result<
    (),
    ValidationError,
>)
    ensures
        match r {
            Ok(_) => spec_validate_global_section(
                global_section.globals.deep_view(),
                ctx.deep_view(),
                0,
            ) == Ok::<(), ValidationErrorV>(()),
            Err(e) => spec_validate_global_section(
                global_section.globals.deep_view(),
                ctx.deep_view(),
                0,
            ) == Err::<(), ValidationErrorV>(e.deep_view()),
        },
{
    let ghost globals = global_section.globals.deep_view();
    let ghost ctxv = ctx.deep_view();
    let mut i: usize = 0;
    while i < global_section.globals.len()
        invariant
            i <= globals.len(),
            globals == global_section.globals.deep_view(),
            globals.len() == global_section.globals@.len(),
            ctxv == ctx.deep_view(),
            spec_validate_global_section(globals, ctxv, 0) == spec_validate_global_section(
                globals,
                ctxv,
                i as int,
            ),
        decreases globals.len() - i,
    {
        proof {
            assert(globals[i as int] == global_section.globals@[i as int].deep_view());
        }
        let g = &global_section.globals[i];
        let f = make_result_type(g.global_type.val_type);
        match validate_raw_expression(ctx, &f, &g.expression, ExprLocation::GlobalSection(i)) {
            Ok(_) => {},
            Err(e) => {
                return Err(e);
            },
        }
        i = i + 1;
    }
    Ok(())
}

/// What validating the function-index items of element `i` from item `j`
/// on yields: every index must resolve in the functions.
pub open spec fn spec_validate_element_functions(
    items: Seq<u32>,
    ctx: ContextV,
    i: int,
    j: int,
) -> Result<(), ValidationErrorV>
    decreases items.len() - j,
{
    if j < 0 || j >= items.len() {
        Ok(())
    } else if (items[j] as int) >= ctx.functions.len() {
        Err(
            ValidationErrorV::IndexOutOfBoundsIn {
                referring: IndexSpace::ElementItems,
                referring_index: i,
                referred: IndexSpace::Function,
                referred_index: items[j],
            },
        )
    } else {
        spec_validate_element_functions(items, ctx, i, j + 1)
    }
}

/// What validating the expression items of element `i` from item `j` on
/// yields: each expression must typecheck as a constant expression of the
/// declared reference type.
pub open spec fn spec_validate_element_exprs(
    exprs: Seq<Seq<u8>>,
    rt: crate::types::ReferenceType,
    ctx: ContextV,
    i: int,
    j: int,
) -> Result<(), ValidationErrorV>
    decreases exprs.len() - j,
{
    if j < 0 || j >= exprs.len() {
        Ok(())
    } else {
        match spec_validate_expr(
            ctx,
            ft_result(ValueType::Reference(rt)),
            exprs[j],
            ExprLocation::ElementItem(i as usize, j as usize),
        ) {
            Ok(_) => spec_validate_element_exprs(exprs, rt, ctx, i, j + 1),
            Err(e) => Err(e),
        }
    }
}

/// What validating the element section from entry `i` on yields: active
/// segments' tables resolve and their offsets typecheck as constant
/// expressions of `i32`; function-index items resolve; expression items
/// typecheck against the declared reference type.
pub open spec fn spec_validate_element_section(
    elements: Seq<ElementV>,
    ctx: ContextV,
    i: int,
) -> Result<(), ValidationErrorV>
    decreases elements.len() - i,
{
    if i < 0 || i >= elements.len() {
        Ok(())
    } else {
        let kind_check = match elements[i].kind {
            ElementKindV::Active { table_index, offset_expression } => {
                let ti = match table_index {
                    Some(t) => t,
                    None => 0,
                };
                if (ti as int) >= ctx.tables.len() {
                    Err(
                        ValidationErrorV::IndexOutOfBoundsIn {
                            referring: IndexSpace::Element,
                            referring_index: i,
                            referred: IndexSpace::Table,
                            referred_index: ti,
                        },
                    )
                } else {
                    spec_validate_expr(
                        ctx,
                        ft_result(ValueType::Number(NumberType::I32)),
                        offset_expression,
                        ExprLocation::ElementOffset(i as usize),
                    )
                }
            },
            ElementKindV::Declarative => Ok(()),
            ElementKindV::Passive => Ok(()),
        };
        match kind_check {
            Ok(_) => {
                let items_check = match elements[i].items {
                    ElementItemsV::Functions(items) => spec_validate_element_functions(
                        items,
                        ctx,
                        i,
                        0,
                    ),
                    ElementItemsV::Expressions(rt, exprs) => spec_validate_element_exprs(
                        exprs,
                        rt,
                        ctx,
                        i,
                        0,
                    ),
                };
                match items_check {
                    Ok(_) => spec_validate_element_section(elements, ctx, i + 1),
                    Err(e) => Err(e),
                }
            },
            Err(e) => Err(e),
        }
    }
}


/// Validates the function-index items of element `i`: every index
/// resolves in the functions.
fn validate_element_functions(items: &Vec<u32>, ctx: &Context, i: usize) -> (r: Result<(), ValidationError>)
    ensures
        match r {
            Ok(_) => spec_validate_element_functions(items@, ctx.deep_view(), i as int, 0) == Ok::<
                (),
                ValidationErrorV,
            >(()),
            Err(e) => spec_validate_element_functions(items@, ctx.deep_view(), i as int, 0)
                == Err::<(), ValidationErrorV>(e.deep_view()),
        },
{
    let ghost itemsv = items@;
    let ghost ctxv = ctx.deep_view();
    let mut j: usize = 0;
    while j < items.len()
        invariant
            j <= itemsv.len(),
            itemsv == items@,
            ctxv == ctx.deep_view(),
            spec_validate_element_functions(itemsv, ctxv, i as int, 0)
                == spec_validate_element_functions(itemsv, ctxv, i as int, j as int),
        decreases itemsv.len() - j,
    {
        let idx = items[j];
        if (idx as usize) >= ctx.functions.len() {
            return Err(
                ValidationError::IndexOutOfBoundsIn {
                    referring: IndexSpace::ElementItems,
                    referring_index: i,
                    referred: IndexSpace::Function,
                    referred_index: idx,
                },
            );
        }
        j = j + 1;
    }
    Ok(())
}

/// Validates the expression items of element `i`: each typechecks against
/// the declared reference type.
fn validate_element_exprs(
    exprs: &Vec<crate::instructions::RawExpression>,
    rt: crate::types::ReferenceType,
    ctx: &Context,
    i: usize,
) -> (r: Result<(), ValidationError>)
    ensures
        match r {
            Ok(_) => spec_validate_element_exprs(exprs.deep_view(), rt, ctx.deep_view(), i as int, 0)
                == Ok::<(), ValidationErrorV>(()),
            Err(e) => spec_validate_element_exprs(
                exprs.deep_view(),
                rt,
                ctx.deep_view(),
                i as int,
                0,
            ) == Err::<(), ValidationErrorV>(e.deep_view()),
        },
{
    let ghost exprsv = exprs.deep_view();
    let ghost ctxv = ctx.deep_view();
    let f = make_result_type(ValueType::Reference(rt));
    let mut j: usize = 0;
    while j < exprs.len()
        invariant
            j <= exprsv.len(),
            exprsv == exprs.deep_view(),
            exprsv.len() == exprs@.len(),
            ctxv == ctx.deep_view(),
            f.deep_view() == ft_result(ValueType::Reference(rt)),
            spec_validate_element_exprs(exprsv, rt, ctxv, i as int, 0)
                == spec_validate_element_exprs(exprsv, rt, ctxv, i as int, j as int),
        decreases exprsv.len() - j,
    {
        proof {
            assert(exprsv[j as int] == exprs@[j as int].deep_view());
        }
        match validate_raw_expression(ctx, &f, &exprs[j], ExprLocation::ElementItem(i, j)) {
            Ok(_) => {},
            Err(err) => {
                return Err(err);
            },
        }
        j = j + 1;
    }
    Ok(())
}

/// Validates the element section, as `spec_validate_element_section` says.
pub fn validate_element_section(element_section: &ElementSection, ctx: &Context) -> (r: Result<(), ValidationError>)
    ensures
        match r {
            Ok(_) => spec_validate_element_section(
                element_section.elements.deep_view(),
                ctx.deep_view(),
                0,
            ) == Ok::<(), ValidationErrorV>(()),
            Err(e) => spec_validate_element_section(
                element_section.elements.deep_view(),
                ctx.deep_view(),
                0,
            ) == Err::<(), ValidationErrorV>(e.deep_view()),
        },
{
    let ghost elements = element_section.elements.deep_view();
    let ghost ctxv = ctx.deep_view();
    let mut i: usize = 0;
    while i < element_section.elements.len()
        invariant
            i <= elements.len(),
            elements == element_section.elements.deep_view(),
            elements.len() == element_section.elements@.len(),
            ctxv == ctx.deep_view(),
            spec_validate_element_section(elements, ctxv, 0) == spec_validate_element_section(
                elements,
                ctxv,
                i as int,
            ),
        decreases elements.len() - i,
    {
        proof {
            assert(elements[i as int] == element_section.elements@[i as int].deep_view());
        }
        let e = &element_section.elements[i];
        match &e.kind {
            ElementKind::Active { table_index, offset_expression } => {
                let ti = match table_index {
                    Some(t) => *t,
                    None => 0,
                };
                if (ti as usize) >= ctx.tables.len() {
                    return Err(
                        ValidationError::IndexOutOfBoundsIn {
                            referring: IndexSpace::Element,
                            referring_index: i,
                            referred: IndexSpace::Table,
                            referred_index: ti,
                        },
                    );
                }
                let f = make_result_type(ValueType::Number(NumberType::I32));
                match validate_raw_expression(
                    ctx,
                    &f,
                    offset_expression,
                    ExprLocation::ElementOffset(i),
                ) {
                    Ok(_) => {},
                    Err(err) => {
                        return Err(err);
                    },
                }
            },
            ElementKind::Declarative => {},
            ElementKind::Passive => {},
        }
        match &e.items {
            ElementItems::Functions(items) => {
                proof {
                    assert(items.deep_view() =~= items@);
                }
                match validate_element_functions(items, ctx, i) {
                    Ok(_) => {},
                    Err(err) => {
                        return Err(err);
                    },
                }
            },
            ElementItems::Expressions(rt, exprs) => {
                match validate_element_exprs(exprs, *rt, ctx, i) {
                    Ok(_) => {},
                    Err(err) => {
                        return Err(err);
                    },
                }
            },
        }
        i = i + 1;
    }
    Ok(())
}


/// The flat locals a body's runs expand to: `count` copies of each run's
/// value type, in order.
pub open spec fn expand_locals(runs: Seq<crate::section::Locals>) -> Seq<ValueType>
    decreases runs.len(),
{
    if runs.len() == 0 {
        Seq::empty()
    } else {
        expand_locals(runs.drop_last()) + Seq::new(
            runs.last().count as nat,
            |k: int| runs.last().value_type,
        )
    }
}

/// The context with its locals replaced.
pub open spec fn with_locals(ctx: ContextV, locals: Seq<ValueType>) -> ContextV {
    ContextV { locals, ..ctx }
}

/// What validating the bodies from entry `i` on yields, with
/// `funcs_declared` the type indices of the internal functions: each
/// body's type index must resolve, and its expression must typecheck
/// against its function type with the locals set to the parameters
/// followed by the expanded local runs.
pub open spec fn spec_validate_bodies(
    code: Seq<FunctionBodyV>,
    ctx: ContextV,
    funcs_declared: Seq<u32>,
    i: int,
) -> Result<(), ValidationErrorV>
    decreases code.len() - i,
{
    if i < 0 || i >= code.len() || i >= funcs_declared.len() {
        Ok(())
    } else {
        let ti = funcs_declared[i];
        if (ti as int) >= ctx.types.len() {
            Err(
                ValidationErrorV::IndexOutOfBoundsIn {
                    referring: IndexSpace::Code,
                    referring_index: i,
                    referred: IndexSpace::Type,
                    referred_index: ti,
                },
            )
        } else {
            let ft = ctx.types[ti as int];
            let locals = ft.params + expand_locals(code[i].locals);
            match spec_validate_expr(
                with_locals(ctx, locals),
                ft,
                code[i].expression,
                ExprLocation::CodeSection(i as usize),
            ) {
                Ok(_) => spec_validate_bodies(code, ctx, funcs_declared, i + 1),
                Err(e) => Err(e),
            }
        }
    }
}

/// What validating the code section yields: the number of bodies must
/// equal the number of internal functions, and each body must typecheck.
pub open spec fn spec_validate_code_section(code: Seq<FunctionBodyV>, ctx: ContextV) -> Result<
    (),
    ValidationErrorV,
> {
    let funcs_declared = internal_ts(ctx.functions);
    if funcs_declared.len() != code.len() {
        Err(
            ValidationErrorV::CodeSectionLengthMismatch {
                funcs_declared: funcs_declared.len() as int,
                code_bodies: code.len() as int,
            },
        )
    } else {
        spec_validate_bodies(code, ctx, funcs_declared, 0)
    }
}

/// Copies a function type.
fn copy_function_type(ft: &FunctionType) -> (r: FunctionType)
    ensures
        r.deep_view() == ft.deep_view(),
{
    let r = FunctionType {
        params: crate::context::clone_value_types(&ft.params),
        results: crate::context::clone_value_types(&ft.results),
    };
    proof {
        assert(r.deep_view() =~= ft.deep_view());
    }
    r
}

/// Validates the code section, as `spec_validate_code_section` says.  The
/// context's locals are working state: they hold each body's locals in
/// turn and are cleared on success; no other field changes.
pub fn validate_code_section(code_section: &CodeSection, context: &mut Context) -> (r: Result<(), ValidationError>)
    ensures
        match r {
            Ok(_) => spec_validate_code_section(
                code_section.code.deep_view(),
                old(context).deep_view(),
            ) == Ok::<(), ValidationErrorV>(()) && final(context).deep_view() == with_locals(
                old(context).deep_view(),
                Seq::empty(),
            ),
            Err(e) => spec_validate_code_section(
                code_section.code.deep_view(),
                old(context).deep_view(),
            ) == Err::<(), ValidationErrorV>(e.deep_view()) && final(context).deep_view()
                == with_locals(old(context).deep_view(), final(context).deep_view().locals),
        },
{
    let ghost codev = code_section.code.deep_view();
    let ghost ctxv = old(context).deep_view();
    // The type indices of the internal functions, in order.
    let mut funcs_declared: Vec<u32> = Vec::new();
    let mut k: usize = 0;
    proof {
        assert(ctxv.functions.subrange(0, 0) =~= Seq::<
            crate::context::ItemDescV<u32>,
        >::empty());
        assert(funcs_declared@ =~= internal_ts(ctxv.functions.subrange(0, 0)));
    }
    while k < context.functions.len()
        invariant
            k <= context.functions@.len(),
            *context == *old(context),
            ctxv == old(context).deep_view(),
            ctxv.functions.len() == context.functions@.len(),
            funcs_declared@ == internal_ts(ctxv.functions.subrange(0, k as int)),
        decreases context.functions@.len() - k,
    {
        let ghost next_prefix = ctxv.functions.subrange(0, k + 1);
        proof {
            assert(next_prefix.drop_last() =~= ctxv.functions.subrange(0, k as int));
            assert(next_prefix.last() == ctxv.functions[k as int]);
            assert(ctxv.functions[k as int] == context.functions@[k as int].deep_view());
        }
        match &context.functions[k] {
            crate::context::ItemDesc::Internal { t } => {
                funcs_declared.push(*t);
            },
            crate::context::ItemDesc::Imported { .. } => {},
        }
        k = k + 1;
    }
    proof {
        assert(ctxv.functions.subrange(0, ctxv.functions.len() as int) =~= ctxv.functions);
    }
    let code_bodies = code_section.code.len();
    if funcs_declared.len() != code_bodies {
        return Err(
            ValidationError::CodeSectionLengthMismatch {
                funcs_declared: funcs_declared.len(),
                code_bodies,
            },
        );
    }
    let ghost fd = funcs_declared@;
    let mut i: usize = 0;
    while i < code_section.code.len()
        invariant
            i <= codev.len(),
            codev == code_section.code.deep_view(),
            codev.len() == code_section.code@.len(),
            ctxv == old(context).deep_view(),
            fd == funcs_declared@,
            fd == internal_ts(ctxv.functions),
            fd.len() == codev.len(),
            funcs_declared@.len() == code_section.code@.len(),
            with_locals(context.deep_view(), Seq::empty()) == with_locals(ctxv, Seq::empty()),
            context.types@.len() == ctxv.types.len(),
            spec_validate_bodies(codev, ctxv, fd, 0) == spec_validate_bodies(
                codev,
                ctxv,
                fd,
                i as int,
            ),
        decreases codev.len() - i,
    {
        proof {
            assert(codev[i as int] == code_section.code@[i as int].deep_view());
        }
        let ti = funcs_declared[i];
        if (ti as usize) >= context.types.len() {
            return Err(
                ValidationError::IndexOutOfBoundsIn {
                    referring: IndexSpace::Code,
                    referring_index: i,
                    referred: IndexSpace::Type,
                    referred_index: ti,
                },
            );
        }
        let ft = copy_function_type(&context.types[ti as usize]);
        proof {
            assert(context.deep_view().types[ti as int] == context.types@[ti as int].deep_view());
            assert(context.deep_view().types =~= ctxv.types);
            assert(ft.deep_view() == ctxv.types[ti as int]);
        }
        let body = &code_section.code[i];
        let ghost bodyv = codev[i as int];
        // The flat locals: the parameters, then the expanded runs.
        let mut locals = crate::context::clone_value_types(&ft.params);
        let mut j: usize = 0;
        proof {
            assert(bodyv.locals =~= body.locals@);
            assert(bodyv.locals.subrange(0, 0) =~= Seq::<crate::section::Locals>::empty());
            assert(locals@ =~= ft.deep_view().params + expand_locals(
                bodyv.locals.subrange(0, 0),
            ));
        }
        while j < body.locals.len()
            invariant
                j <= body.locals@.len(),
                bodyv.locals == body.locals@,
                locals@ == ft.deep_view().params + expand_locals(
                    bodyv.locals.subrange(0, j as int),
                ),
            decreases body.locals@.len() - j,
        {
            let run = &body.locals[j];
            let cnt = run.count;
            let vt = run.value_type;
            let ghost base = locals@;
            let mut c: u32 = 0;
            while c < cnt
                invariant
                    c <= cnt,
                    locals@ == base + Seq::new(c as nat, |x: int| vt),
                decreases cnt - c,
            {
                locals.push(vt);
                proof {
                    assert(locals@ =~= base + Seq::new((c + 1) as nat, |x: int| vt));
                }
                c = c + 1;
            }
            proof {
                let next_prefix = bodyv.locals.subrange(0, j + 1);
                assert(next_prefix.drop_last() =~= bodyv.locals.subrange(0, j as int));
                assert(next_prefix.last() == body.locals@[j as int]);
                assert(expand_locals(next_prefix) == expand_locals(
                    bodyv.locals.subrange(0, j as int),
                ) + Seq::new(cnt as nat, |x: int| vt));
                assert(locals@ =~= ft.deep_view().params + expand_locals(next_prefix));
            }
            j = j + 1;
        }
        proof {
            assert(bodyv.locals.subrange(0, body.locals@.len() as int) =~= bodyv.locals);
        }
        context.locals = locals;
        proof {
            assert(context.deep_view() =~= with_locals(
                ctxv,
                ft.deep_view().params + expand_locals(bodyv.locals),
            ));
        }
        match validate_raw_expression(
            &*context,
            &ft,
            &body.expression,
            ExprLocation::CodeSection(i),
        ) {
            Ok(_) => {},
            Err(e) => {
                proof {
                    assert(context.deep_view() =~= with_locals(
                        ctxv,
                        context.deep_view().locals,
                    ));
                }
                return Err(e);
            },
        }
        i = i + 1;
    }
    context.locals = Vec::new();
    proof {
        assert(context.deep_view() =~= with_locals(ctxv, Seq::empty()));
    }
    Ok(())
}

} // verus!\n