//! Whole-module validation: one pass builds the context from every
//! section, a second pass runs each section's validator under it.

use vstd::prelude::*;
use crate::context::{
    clone_string, empty_context, Context, ContextV, ItemDesc, ItemDescV,
};
use crate::module::Module;
use crate::section::{
    ElementItems, ExportDesc, ExportSection, FunctionSection, GlobalSection, ElementSection,
    ImportDesc, ImportSection, MemorySection, Section, TableSection, TypeSection,
};
use crate::types::{GlobalType, Limits, MemoryType, ReferenceType, TableType, ValueType};
use crate::verror::{ExprLocation, ValidationError, ValidationErrorV, VInstError};
use crate::views::{ElementItemsV, ElementV, ExportV, GlobalV, ImportV, ModuleV, SectionV};
use crate::vinstruction::{collect_funcref_in_expression, spec_collect_funcrefs};
use crate::vsection::{
    spec_validate_code_section, spec_validate_element_section, spec_validate_export_section,
    spec_validate_function_section, spec_validate_global_section, spec_validate_import_section,
    spec_validate_memory_section, spec_validate_start_section, spec_validate_table_section,
    validate_code_section, validate_element_section, validate_export_section,
    validate_function_section, validate_global_section, validate_import_section,
    validate_memory_section, validate_start_section, validate_table_section,
};

verus! {

/// What folding the imports from entry `j` on into the context does:
/// each import is appended to its index space, tagged imported.
pub open spec fn ctx_after_imports(imports: Seq<ImportV>, j: int, acc: ContextV) -> ContextV
    decreases imports.len() - j,
{
    if j < 0 || j >= imports.len() {
        acc
    } else {
        let im = imports[j];
        let acc2 = match im.desc {
            ImportDesc::TypeIndex(t) => ContextV {
                functions: acc.functions.push(
                    ItemDescV::Imported { module: im.module, name: im.name, t },
                ),
                ..acc
            },
            ImportDesc::Table(tt) => ContextV { tables: acc.tables.push(tt), ..acc },
            ImportDesc::Memory(mt) => ContextV { memories: acc.memories.push(mt), ..acc },
            ImportDesc::Global(gt) => ContextV {
                globals: acc.globals.push(
                    ItemDescV::Imported { module: im.module, name: im.name, t: gt },
                ),
                ..acc
            },
        };
        ctx_after_imports(imports, j + 1, acc2)
    }
}

/// What folding the globals from entry `j` on into the context does: each
/// initializer is scanned for `ref.func` indices, which join the declared
/// references, and the global is appended; a scan failure carries its
/// location.
pub open spec fn ctx_after_globals(globals: Seq<GlobalV>, j: int, acc: ContextV) -> Result<
    ContextV,
    ValidationErrorV,
>
    decreases globals.len() - j,
{
    if j < 0 || j >= globals.len() {
        Ok(acc)
    } else {
        match spec_collect_funcrefs(globals[j].expression, 0, acc.refs) {
            Ok(refs2) => ctx_after_globals(
                globals,
                j + 1,
                ContextV {
                    refs: refs2,
                    globals: acc.globals.push(
                        ItemDescV::Internal { t: globals[j].global_type },
                    ),
                    ..acc
                },
            ),
            Err(pe) => Err(
                ValidationErrorV::CollectFuncRefFromExprError {
                    desc: ExprLocation::GlobalRefScan(j as usize),
                    error: VInstError::OpcodeParseFailed(pe.0),
                },
            ),
        }
    }
}

/// What folding the exports from entry `j` on into the context does: every
/// exported function index becomes a declared reference.
pub open spec fn ctx_after_exports(exports: Seq<ExportV>, j: int, acc: ContextV) -> ContextV
    decreases exports.len() - j,
{
    if j < 0 || j >= exports.len() {
        acc
    } else {
        let acc2 = match exports[j].desc {
            ExportDesc::FunctionIndex(i) => ContextV { refs: acc.refs.push(i), ..acc },
            _ => acc,
        };
        ctx_after_exports(exports, j + 1, acc2)
    }
}

/// What scanning the expression items of element `j` from item `k` on
/// does: each is scanned for `ref.func` indices.
pub open spec fn ctx_after_elem_exprs(
    exprs: Seq<Seq<u8>>,
    j: int,
    k: int,
    acc: ContextV,
) -> Result<ContextV, ValidationErrorV>
    decreases exprs.len() - k,
{
    if k < 0 || k >= exprs.len() {
        Ok(acc)
    } else {
        match spec_collect_funcrefs(exprs[k], 0, acc.refs) {
            Ok(refs2) => ctx_after_elem_exprs(exprs, j, k + 1, ContextV { refs: refs2, ..acc }),
            Err(pe) => Err(
                ValidationErrorV::CollectFuncRefFromExprError {
                    desc: ExprLocation::ElementRefScan(j as usize, k as usize),
                    error: VInstError::OpcodeParseFailed(pe.0),
                },
            ),
        }
    }
}

/// What folding the elements from entry `j` on into the context does:
/// function-index items all become declared references; expression items
/// of `funcref` type are scanned for `ref.func` indices.
pub open spec fn ctx_after_elements(elements: Seq<ElementV>, j: int, acc: ContextV) -> Result<
    ContextV,
    ValidationErrorV,
>
    decreases elements.len() - j,
{
    if j < 0 || j >= elements.len() {
        Ok(acc)
    } else {
        match elements[j].items {
            ElementItemsV::Functions(items) => ctx_after_elements(
                elements,
                j + 1,
                ContextV { refs: acc.refs + items, ..acc },
            ),
            ElementItemsV::Expressions(rt, exprs) => if rt == ReferenceType::FuncRef {
                match ctx_after_elem_exprs(exprs, j, 0, acc) {
                    Ok(acc2) => ctx_after_elements(elements, j + 1, acc2),
                    Err(e) => Err(e),
                }
            } else {
                ctx_after_elements(elements, j + 1, acc)
            },
        }
    }
}

/// What one section contributes to the context under construction.
pub open spec fn spec_context_step(sec: SectionV, acc: ContextV) -> Result<
    ContextV,
    ValidationErrorV,
> {
    match sec {
        SectionV::Type(ts) => Ok(ContextV { types: ts, ..acc }),
        SectionV::Import(imports) => Ok(ctx_after_imports(imports, 0, acc)),
        SectionV::Function(indices) => Ok(
            ContextV {
                functions: acc.functions + indices.map_values(|t: u32| ItemDescV::Internal { t }),
                ..acc
            },
        ),
        SectionV::Table(tables) => Ok(ContextV { tables: acc.tables + tables, ..acc }),
        SectionV::Memory(memories) => Ok(ContextV { memories: acc.memories + memories, ..acc }),
        SectionV::Global(globals) => ctx_after_globals(globals, 0, acc),
        SectionV::Export(exports) => Ok(ctx_after_exports(exports, 0, acc)),
        SectionV::Start(_) => Ok(acc),
        SectionV::Element(elements) => ctx_after_elements(elements, 0, acc),
        SectionV::Code(_) => Ok(acc),
        SectionV::Data(_) => Ok(acc),
        SectionV::DataCount(_) => Ok(acc),
        SectionV::Custom(_) => Ok(acc),
    }
}

/// What one pass over the sections from index `i` on builds: the types are
/// installed, imports and declarations fill the index spaces in order, and
/// the declared function references are collected from globals, exports,
/// and elements.
pub open spec fn spec_initialize_context(secs: Seq<SectionV>, i: int, acc: ContextV) -> Result<
    ContextV,
    ValidationErrorV,
>
    decreases secs.len() - i,
{
    if i < 0 || i >= secs.len() {
        Ok(acc)
    } else {
        match spec_context_step(secs[i], acc) {
            Ok(acc2) => spec_initialize_context(secs, i + 1, acc2),
            Err(e) => Err(e),
        }
    }
}

/// Pushes one entry onto a function index space.
fn push_function_entry(v: &mut Vec<ItemDesc<u32>>, e: ItemDesc<u32>)
    ensures
        final(v).deep_view() == old(v).deep_view().push(e.deep_view()),
        final(v)@.len() == old(v)@.len() + 1,
{
    let ghost prevv = v@;
    let ghost prevdv = v.deep_view();
    let ghost edv = e.deep_view();
    v.push(e);
    proof {
        assert forall|q: int| 0 <= q < v@.len() implies v.deep_view()[q] == prevdv.push(edv)[q] by {
            assert(v.deep_view()[q] == v@[q].deep_view());
            if q < prevv.len() {
                assert(v@[q] == prevv[q]);
                assert(prevdv[q] == prevv[q].deep_view());
            }
        }
        assert(v.deep_view() =~= prevdv.push(edv));
    }
}

/// Pushes one entry onto a global index space.
fn push_global_entry(v: &mut Vec<ItemDesc<GlobalType>>, e: ItemDesc<GlobalType>)
    ensures
        final(v).deep_view() == old(v).deep_view().push(e.deep_view()),
        final(v)@.len() == old(v)@.len() + 1,
{
    let ghost prevv = v@;
    let ghost prevdv = v.deep_view();
    let ghost edv = e.deep_view();
    v.push(e);
    proof {
        assert forall|q: int| 0 <= q < v@.len() implies v.deep_view()[q] == prevdv.push(edv)[q] by {
            assert(v.deep_view()[q] == v@[q].deep_view());
            if q < prevv.len() {
                assert(v@[q] == prevv[q]);
                assert(prevdv[q] == prevv[q].deep_view());
            }
        }
        assert(v.deep_view() =~= prevdv.push(edv));
    }
}

/// Installs the type section's types in the context.
fn ctx_add_types(context: &mut Context, type_section: &TypeSection)
    ensures
        final(context).deep_view() == (ContextV {
            types: type_section.types.deep_view(),
            ..old(context).deep_view()
        }),
{
    let ghost pre = context.deep_view();
    context.types = crate::context::clone_function_types(&type_section.types);
    proof {
        assert(context.deep_view() =~= (ContextV {
            types: type_section.types.deep_view(),
            ..pre
        }));
    }
}

/// Appends every import to its index space, tagged imported.
fn ctx_add_imports(context: &mut Context, import_section: &ImportSection)
    ensures
        final(context).deep_view() == ctx_after_imports(
            import_section.imports.deep_view(),
            0,
            old(context).deep_view(),
        ),
{
    let ghost pre = context.deep_view();
    let ghost importsv = import_section.imports.deep_view();
    let mut j: usize = 0;
    while j < import_section.imports.len()
        invariant
            j <= importsv.len(),
            importsv == import_section.imports.deep_view(),
            importsv.len() == import_section.imports@.len(),
            ctx_after_imports(importsv, j as int, context.deep_view()) == ctx_after_imports(
                importsv,
                0,
                pre,
            ),
        decreases importsv.len() - j,
    {
        let ghost loop_pre = context.deep_view();
        proof {
            assert(importsv[j as int] == import_section.imports@[j as int].deep_view());
        }
        let im = &import_section.imports[j];
        match &im.desc {
            ImportDesc::TypeIndex(t) => {
                let entry = ItemDesc::Imported {
                    module: clone_string(&im.module),
                    name: clone_string(&im.name),
                    t: *t,
                };
                proof {
                    assert(entry.deep_view() == (ItemDescV::Imported {
                        module: im.module@,
                        name: im.name@,
                        t: *t,
                    }));
                }
                push_function_entry(&mut context.functions, entry);
                proof {
                    assert(context.deep_view() =~= (ContextV {
                        functions: loop_pre.functions.push(
                            ItemDescV::Imported { module: im.module@, name: im.name@, t: *t },
                        ),
                        ..loop_pre
                    }));
                }
            },
            ImportDesc::Table(tt) => {
                context.tables.push(
                    TableType {
                        ref_type: tt.ref_type,
                        limits: Limits { min: tt.limits.min, max: tt.limits.max },
                    },
                );
                proof {
                    assert(context.deep_view() =~= (ContextV {
                        tables: loop_pre.tables.push(*tt),
                        ..loop_pre
                    }));
                }
            },
            ImportDesc::Memory(mt) => {
                context.memories.push(
                    MemoryType { limits: Limits { min: mt.limits.min, max: mt.limits.max } },
                );
                proof {
                    assert(context.deep_view() =~= (ContextV {
                        memories: loop_pre.memories.push(*mt),
                        ..loop_pre
                    }));
                }
            },
            ImportDesc::Global(gt) => {
                let entry = ItemDesc::Imported {
                    module: clone_string(&im.module),
                    name: clone_string(&im.name),
                    t: crate::context::copy_global_type(gt),
                };
                proof {
                    assert(entry.deep_view() == (ItemDescV::Imported {
                        module: im.module@,
                        name: im.name@,
                        t: *gt,
                    }));
                }
                push_global_entry(&mut context.globals, entry);
                proof {
                    assert(context.deep_view() =~= (ContextV {
                        globals: loop_pre.globals.push(
                            ItemDescV::Imported { module: im.module@, name: im.name@, t: *gt },
                        ),
                        ..loop_pre
                    }));
                }
            },
        }
        j = j + 1;
    }
}

/// Appends every declared function's type index, tagged internal.
fn ctx_add_functions(context: &mut Context, function_section: &FunctionSection)
    ensures
        final(context).deep_view() == (ContextV {
            functions: old(context).deep_view().functions
                + function_section.type_indices@.map_values(|t: u32| ItemDescV::Internal { t }),
            ..old(context).deep_view()
        }),
{
    let ghost pre = context.deep_view();
    let ghost indicesv = function_section.type_indices@;
    let mut j: usize = 0;
    while j < function_section.type_indices.len()
        invariant
            j <= indicesv.len(),
            indicesv == function_section.type_indices@,
            context.deep_view() == (ContextV {
                functions: pre.functions + indicesv.subrange(0, j as int).map_values(
                    |t: u32| ItemDescV::Internal { t },
                ),
                ..pre
            }),
        decreases indicesv.len() - j,
    {
        let t = function_section.type_indices[j];
        push_function_entry(&mut context.functions, ItemDesc::Internal { t });
        proof {
            assert(indicesv.subrange(0, j + 1).map_values(|t: u32| ItemDescV::Internal { t })
                =~= indicesv.subrange(0, j as int).map_values(
                |t: u32| ItemDescV::Internal { t },
            ).push(ItemDescV::Internal { t }));
            assert(context.deep_view() =~= (ContextV {
                functions: pre.functions + indicesv.subrange(0, j + 1).map_values(
                    |t: u32| ItemDescV::Internal { t },
                ),
                ..pre
            }));
        }
        j = j + 1;
    }
    proof {
        assert(indicesv.subrange(0, indicesv.len() as int) =~= indicesv);
    }
}

/// Appends every declared table.
fn ctx_add_tables(context: &mut Context, table_section: &TableSection)
    ensures
        final(context).deep_view() == (ContextV {
            tables: old(context).deep_view().tables + table_section.tables@,
            ..old(context).deep_view()
        }),
{
    let ghost pre = context.deep_view();
    let ghost tablesv = table_section.tables@;
    let mut j: usize = 0;
    while j < table_section.tables.len()
        invariant
            j <= tablesv.len(),
            tablesv == table_section.tables@,
            context.deep_view() == (ContextV {
                tables: pre.tables + tablesv.subrange(0, j as int),
                ..pre
            }),
        decreases tablesv.len() - j,
    {
        let tt = &table_section.tables[j];
        context.tables.push(
            TableType {
                ref_type: tt.ref_type,
                limits: Limits { min: tt.limits.min, max: tt.limits.max },
            },
        );
        proof {
            assert(pre.tables + tablesv.subrange(0, j + 1) =~= (pre.tables + tablesv.subrange(
                0,
                j as int,
            )).push(tablesv[j as int]));
            assert(context.deep_view() =~= (ContextV {
                tables: pre.tables + tablesv.subrange(0, j + 1),
                ..pre
            }));
        }
        j = j + 1;
    }
    proof {
        assert(tablesv.subrange(0, tablesv.len() as int) =~= tablesv);
    }
}

/// Appends every declared memory.
fn ctx_add_memories(context: &mut Context, memory_section: &MemorySection)
    ensures
        final(context).deep_view() == (ContextV {
            memories: old(context).deep_view().memories + memory_section.memories@,
            ..old(context).deep_view()
        }),
{
    let ghost pre = context.deep_view();
    let ghost memsv = memory_section.memories@;
    let mut j: usize = 0;
    while j < memory_section.memories.len()
        invariant
            j <= memsv.len(),
            memsv == memory_section.memories@,
            context.deep_view() == (ContextV {
                memories: pre.memories + memsv.subrange(0, j as int),
                ..pre
            }),
        decreases memsv.len() - j,
    {
        let mt = &memory_section.memories[j];
        context.memories.push(
            MemoryType { limits: Limits { min: mt.limits.min, max: mt.limits.max } },
        );
        proof {
            assert(pre.memories + memsv.subrange(0, j + 1) =~= (pre.memories + memsv.subrange(
                0,
                j as int,
            )).push(memsv[j as int]));
            assert(context.deep_view() =~= (ContextV {
                memories: pre.memories + memsv.subrange(0, j + 1),
                ..pre
            }));
        }
        j = j + 1;
    }
    proof {
        assert(memsv.subrange(0, memsv.len() as int) =~= memsv);
    }
}

/// Scans every global initializer for `ref.func` indices and appends the
/// global, as `ctx_after_globals` says.
fn ctx_add_globals(context: &mut Context, global_section: &GlobalSection) -> (r: Result<
    (),
    ValidationError,
>)
    ensures
        match r {
            Ok(_) => ctx_after_globals(
                global_section.globals.deep_view(),
                0,
                old(context).deep_view(),
            ) == Ok::<ContextV, ValidationErrorV>(final(context).deep_view()),
            Err(e) => ctx_after_globals(
                global_section.globals.deep_view(),
                0,
                old(context).deep_view(),
            ) == Err::<ContextV, ValidationErrorV>(e.deep_view()),
        },
{
    let ghost pre = context.deep_view();
    let ghost globalsv = global_section.globals.deep_view();
    let mut j: usize = 0;
    while j < global_section.globals.len()
        invariant
            j <= globalsv.len(),
            globalsv == global_section.globals.deep_view(),
            globalsv.len() == global_section.globals@.len(),
            pre == old(context).deep_view(),
            ctx_after_globals(globalsv, j as int, context.deep_view()) == ctx_after_globals(
                globalsv,
                0,
                pre,
            ),
        decreases globalsv.len() - j,
    {
        let ghost loop_pre = context.deep_view();
        proof {
            assert(globalsv[j as int] == global_section.globals@[j as int].deep_view());
        }
        let g = &global_section.globals[j];
        match collect_funcref_in_expression(
            &g.expression,
            &mut context.refs,
            ExprLocation::GlobalRefScan(j),
        ) {
            Ok(_) => {},
            Err(e) => {
                proof {
                    assert(ctx_after_globals(globalsv, j as int, loop_pre) == Err::<
                        ContextV,
                        ValidationErrorV,
                    >(e.deep_view()));
                }
                return Err(e);
            },
        }
        let ghost mid = context.deep_view();
        proof {
            assert(mid =~= (ContextV { refs: context.refs@, ..loop_pre }));
        }
        push_global_entry(
            &mut context.globals,
            ItemDesc::Internal { t: crate::context::copy_global_type(&g.global_type) },
        );
        proof {
            assert(context.deep_view() =~= (ContextV {
                refs: mid.refs,
                globals: loop_pre.globals.push(ItemDescV::Internal { t: g.global_type }),
                ..loop_pre
            }));
        }
        j = j + 1;
    }
    Ok(())
}

/// Records every exported function index as a declared reference.
fn ctx_add_exports(context: &mut Context, export_section: &ExportSection)
    ensures
        final(context).deep_view() == ctx_after_exports(
            export_section.exports.deep_view(),
            0,
            old(context).deep_view(),
        ),
{
    let ghost pre = context.deep_view();
    let ghost exportsv = export_section.exports.deep_view();
    let mut j: usize = 0;
    while j < export_section.exports.len()
        invariant
            j <= exportsv.len(),
            exportsv == export_section.exports.deep_view(),
            exportsv.len() == export_section.exports@.len(),
            ctx_after_exports(exportsv, j as int, context.deep_view()) == ctx_after_exports(
                exportsv,
                0,
                pre,
            ),
        decreases exportsv.len() - j,
    {
        let ghost loop_pre = context.deep_view();
        proof {
            assert(exportsv[j as int] == export_section.exports@[j as int].deep_view());
        }
        match &export_section.exports[j].desc {
            ExportDesc::FunctionIndex(idx) => {
                context.refs.push(*idx);
                proof {
                    assert(context.deep_view() =~= (ContextV {
                        refs: loop_pre.refs.push(*idx),
                        ..loop_pre
                    }));
                }
            },
            _ => {},
        }
        j = j + 1;
    }
}

/// Records the declared references of every element segment, as
/// `ctx_after_elements` says.
fn ctx_add_elements(context: &mut Context, element_section: &ElementSection) -> (r: Result<
    (),
    ValidationError,
>)
    ensures
        match r {
            Ok(_) => ctx_after_elements(
                element_section.elements.deep_view(),
                0,
                old(context).deep_view(),
            ) == Ok::<ContextV, ValidationErrorV>(final(context).deep_view()),
            Err(e) => ctx_after_elements(
                element_section.elements.deep_view(),
                0,
                old(context).deep_view(),
            ) == Err::<ContextV, ValidationErrorV>(e.deep_view()),
        },
{
    let ghost pre = context.deep_view();
    let ghost elementsv = element_section.elements.deep_view();
    let mut j: usize = 0;
    while j < element_section.elements.len()
        invariant
            j <= elementsv.len(),
            elementsv == element_section.elements.deep_view(),
            elementsv.len() == element_section.elements@.len(),
            pre == old(context).deep_view(),
            ctx_after_elements(elementsv, j as int, context.deep_view()) == ctx_after_elements(
                elementsv,
                0,
                pre,
            ),
        decreases elementsv.len() - j,
    {
        let ghost loop_pre = context.deep_view();
        proof {
            assert(elementsv[j as int] == element_section.elements@[j as int].deep_view());
        }
        let e = &element_section.elements[j];
        match &e.items {
            ElementItems::Functions(items) => {
                let ghost itemsv = items@;
                let mut k: usize = 0;
                while k < items.len()
                    invariant
                        k <= itemsv.len(),
                        itemsv == items@,
                        context.deep_view() == (ContextV {
                            refs: loop_pre.refs + itemsv.subrange(0, k as int),
                            ..loop_pre
                        }),
                    decreases itemsv.len() - k,
                {
                    context.refs.push(items[k]);
                    proof {
                        assert(loop_pre.refs + itemsv.subrange(0, k + 1) =~= (loop_pre.refs
                            + itemsv.subrange(0, k as int)).push(itemsv[k as int]));
                        assert(context.deep_view() =~= (ContextV {
                            refs: loop_pre.refs + itemsv.subrange(0, k + 1),
                            ..loop_pre
                        }));
                    }
                    k = k + 1;
                }
                proof {
                    assert(itemsv.subrange(0, itemsv.len() as int) =~= itemsv);
                    assert(items.deep_view() =~= itemsv);
                }
            },
            ElementItems::Expressions(rt, exprs) => {
                let is_funcref = match rt {
                    ReferenceType::FuncRef => true,
                    ReferenceType::ExternRef => false,
                };
                if is_funcref {
                    let ghost exprsv = exprs.deep_view();
                    let mut k: usize = 0;
                    while k < exprs.len()
                        invariant
                            k <= exprsv.len(),
                            exprsv == exprs.deep_view(),
                            exprsv.len() == exprs@.len(),
                            elementsv == element_section.elements.deep_view(),
                            j < elementsv.len(),
                            elementsv[j as int].items == ElementItemsV::Expressions(
                                ReferenceType::FuncRef,
                                exprsv,
                            ),
                            pre == old(context).deep_view(),
                            ctx_after_elements(elementsv, j as int, loop_pre)
                                == ctx_after_elements(elementsv, 0, pre),
                            ctx_after_elem_exprs(exprsv, j as int, k as int, context.deep_view())
                                == ctx_after_elem_exprs(exprsv, j as int, 0, loop_pre),
                        decreases exprsv.len() - k,
                    {
                        let ghost inner_pre = context.deep_view();
                        proof {
                            assert(exprsv[k as int] == exprs@[k as int].deep_view());
                        }
                        match collect_funcref_in_expression(
                            &exprs[k],
                            &mut context.refs,
                            ExprLocation::ElementRefScan(j, k),
                        ) {
                            Ok(_) => {},
                            Err(e) => {
                                proof {
                                    assert(ctx_after_elem_exprs(
                                        exprsv,
                                        j as int,
                                        k as int,
                                        inner_pre,
                                    ) == Err::<ContextV, ValidationErrorV>(e.deep_view()));
                                    assert(ctx_after_elements(elementsv, j as int, loop_pre)
                                        == Err::<ContextV, ValidationErrorV>(e.deep_view()));
                                }
                                return Err(e);
                            },
                        }
                        proof {
                            assert(context.deep_view() =~= (ContextV {
                                refs: context.refs@,
                                ..inner_pre
                            }));
                        }
                        k = k + 1;
                    }
                }
            },
        }
        j = j + 1;
    }
    Ok(())
}

/// Builds the validation context from the module's sections, as
/// `spec_initialize_context` says; locals stay empty.
fn initialize_context(module: &Module) -> (r: Result<Context, ValidationError>)
    ensures
        match r {
            Ok(c) => spec_initialize_context(module.deep_view().sections, 0, empty_context())
                == Ok::<ContextV, ValidationErrorV>(c.deep_view()) && c.deep_view().locals
                == Seq::<ValueType>::empty(),
            Err(e) => spec_initialize_context(module.deep_view().sections, 0, empty_context())
                == Err::<ContextV, ValidationErrorV>(e.deep_view()),
        },
{
    let ghost secs = module.deep_view().sections;
    let mut context = Context::new();
    let mut i: usize = 0;
    while i < module.sections.len()
        invariant
            i <= secs.len(),
            secs == module.deep_view().sections,
            secs.len() == module.sections@.len(),
            context.deep_view().locals == Seq::<ValueType>::empty(),
            spec_initialize_context(secs, i as int, context.deep_view())
                == spec_initialize_context(secs, 0, empty_context()),
        decreases secs.len() - i,
    {
        let ghost pre = context.deep_view();
        proof {
            assert(secs[i as int] == module.sections@[i as int].deep_view());
        }
        match &module.sections[i] {
            Section::Type(type_section) => {
                ctx_add_types(&mut context, type_section);
            },
            Section::Import(import_section) => {
                ctx_add_imports(&mut context, import_section);
                proof {
                    crate::validation::lemma_imports_keep_locals(
                        import_section.imports.deep_view(),
                        0,
                        pre,
                    );
                }
            },
            Section::Function(function_section) => {
                ctx_add_functions(&mut context, function_section);
                proof {
                    assert(function_section.type_indices.deep_view() =~= function_section
                        .type_indices@);
                }
            },
            Section::Table(table_section) => {
                ctx_add_tables(&mut context, table_section);
                proof {
                    assert(table_section.tables.deep_view() =~= table_section.tables@);
                }
            },
            Section::Memory(memory_section) => {
                ctx_add_memories(&mut context, memory_section);
                proof {
                    assert(memory_section.memories.deep_view() =~= memory_section.memories@);
                }
            },
            Section::Global(global_section) => {
                match ctx_add_globals(&mut context, global_section) {
                    Ok(_) => {},
                    Err(e) => {
                        return Err(e);
                    },
                }
                proof {
                    lemma_globals_keep_locals(global_section.globals.deep_view(), 0, pre);
                }
            },
            Section::Export(export_section) => {
                ctx_add_exports(&mut context, export_section);
                proof {
                    lemma_exports_keep_locals(export_section.exports.deep_view(), 0, pre);
                }
            },
            Section::Start(_) => {},
            Section::Element(element_section) => {
                match ctx_add_elements(&mut context, element_section) {
                    Ok(_) => {},
                    Err(e) => {
                        return Err(e);
                    },
                }
                proof {
                    lemma_elements_keep_locals(element_section.elements.deep_view(), 0, pre);
                }
            },
            Section::Code(_) => {},
            Section::Data(_) => {},
            Section::DataCount(_) => {},
            Section::Custom(_) => {},
        }
        proof {
            assert(spec_initialize_context(secs, i + 1, context.deep_view())
                == spec_initialize_context(secs, 0, empty_context()));
        }
        i = i + 1;
    }
    Ok(context)
}

/// The import fold never touches the locals.
pub proof fn lemma_imports_keep_locals(imports: Seq<ImportV>, j: int, acc: ContextV)
    ensures
        ctx_after_imports(imports, j, acc).locals == acc.locals,
    decreases imports.len() - j,
{
    if 0 <= j < imports.len() {
        let im = imports[j];
        match im.desc {
            ImportDesc::TypeIndex(t) => {
                lemma_imports_keep_locals(
                    imports,
                    j + 1,
                    ContextV {
                        functions: acc.functions.push(
                            ItemDescV::Imported { module: im.module, name: im.name, t },
                        ),
                        ..acc
                    },
                );
            },
            ImportDesc::Table(tt) => {
                lemma_imports_keep_locals(
                    imports,
                    j + 1,
                    ContextV { tables: acc.tables.push(tt), ..acc },
                );
            },
            ImportDesc::Memory(mt) => {
                lemma_imports_keep_locals(
                    imports,
                    j + 1,
                    ContextV { memories: acc.memories.push(mt), ..acc },
                );
            },
            ImportDesc::Global(gt) => {
                lemma_imports_keep_locals(
                    imports,
                    j + 1,
                    ContextV {
                        globals: acc.globals.push(
                            ItemDescV::Imported { module: im.module, name: im.name, t: gt },
                        ),
                        ..acc
                    },
                );
            },
        }
    }
}

/// The global fold never touches the locals.
pub proof fn lemma_globals_keep_locals(globals: Seq<GlobalV>, j: int, acc: ContextV)
    ensures
        ctx_after_globals(globals, j, acc) matches Ok(c) ==> c.locals == acc.locals,
    decreases globals.len() - j,
{
    if 0 <= j < globals.len() {
        match spec_collect_funcrefs(globals[j].expression, 0, acc.refs) {
            Ok(refs2) => {
                lemma_globals_keep_locals(
                    globals,
                    j + 1,
                    ContextV {
                        refs: refs2,
                        globals: acc.globals.push(
                            ItemDescV::Internal { t: globals[j].global_type },
                        ),
                        ..acc
                    },
                );
            },
            Err(_) => {},
        }
    }
}

/// The export fold never touches the locals.
pub proof fn lemma_exports_keep_locals(exports: Seq<ExportV>, j: int, acc: ContextV)
    ensures
        ctx_after_exports(exports, j, acc).locals == acc.locals,
    decreases exports.len() - j,
{
    if 0 <= j < exports.len() {
        match exports[j].desc {
            ExportDesc::FunctionIndex(i) => {
                lemma_exports_keep_locals(
                    exports,
                    j + 1,
                    ContextV { refs: acc.refs.push(i), ..acc },
                );
            },
            _ => {
                lemma_exports_keep_locals(exports, j + 1, acc);
            },
        }
    }
}

/// The element-expression fold never touches the locals.
pub proof fn lemma_elem_exprs_keep_locals(exprs: Seq<Seq<u8>>, j: int, k: int, acc: ContextV)
    ensures
        ctx_after_elem_exprs(exprs, j, k, acc) matches Ok(c) ==> c.locals == acc.locals,
    decreases exprs.len() - k,
{
    if 0 <= k < exprs.len() {
        match spec_collect_funcrefs(exprs[k], 0, acc.refs) {
            Ok(refs2) => {
                lemma_elem_exprs_keep_locals(exprs, j, k + 1, ContextV { refs: refs2, ..acc });
            },
            Err(_) => {},
        }
    }
}

/// The element fold never touches the locals.
pub proof fn lemma_elements_keep_locals(elements: Seq<ElementV>, j: int, acc: ContextV)
    ensures
        ctx_after_elements(elements, j, acc) matches Ok(c) ==> c.locals == acc.locals,
    decreases elements.len() - j,
{
    if 0 <= j < elements.len() {
        match elements[j].items {
            ElementItemsV::Functions(items) => {
                lemma_elements_keep_locals(
                    elements,
                    j + 1,
                    ContextV { refs: acc.refs + items, ..acc },
                );
            },
            ElementItemsV::Expressions(rt, exprs) => {
                if rt == ReferenceType::FuncRef {
                    lemma_elem_exprs_keep_locals(exprs, j, 0, acc);
                    match ctx_after_elem_exprs(exprs, j, 0, acc) {
                        Ok(acc2) => {
                            lemma_elements_keep_locals(elements, j + 1, acc2);
                        },
                        Err(_) => {},
                    }
                } else {
                    lemma_elements_keep_locals(elements, j + 1, acc);
                }
            },
        }
    }
}

/// The context a constant expression is checked under: the primed context,
/// with the constant flag raised.
pub open spec fn const_ctx(ctx: ContextV) -> ContextV {
    ContextV { instructions_should_be_constant: true, ..crate::context::spec_prime(ctx) }
}

/// What validating one section under the context yields: its validator's
/// verdict; constant expressions run under the primed context.
pub open spec fn spec_section_check(sec: SectionV, ctx: ContextV) -> Result<(), ValidationErrorV> {
    match sec {
        SectionV::Type(_) => Ok(()),
        SectionV::Import(imports) => spec_validate_import_section(imports, ctx, 0),
        SectionV::Function(indices) => spec_validate_function_section(indices, ctx, 0),
        SectionV::Table(tables) => spec_validate_table_section(tables, 0),
        SectionV::Memory(memories) => spec_validate_memory_section(memories, 0),
        SectionV::Global(globals) => spec_validate_global_section(globals, const_ctx(ctx), 0),
        SectionV::Export(exports) => spec_validate_export_section(exports, ctx, 0),
        SectionV::Start(idx) => spec_validate_start_section(idx, ctx),
        SectionV::Element(elements) => spec_validate_element_section(elements, const_ctx(ctx), 0),
        SectionV::Code(code) => spec_validate_code_section(code, ctx),
        SectionV::Data(_) => Ok(()),
        SectionV::DataCount(_) => Ok(()),
        SectionV::Custom(_) => Ok(()),
    }
}

/// What validating the sections from index `i` on under the context
/// yields: each section kind runs its validator, in order, first failure
/// first.
pub open spec fn spec_validate_sections(secs: Seq<SectionV>, i: int, ctx: ContextV) -> Result<
    (),
    ValidationErrorV,
>
    decreases secs.len() - i,
{
    if i < 0 || i >= secs.len() {
        Ok(())
    } else {
        match spec_section_check(secs[i], ctx) {
            Ok(_) => spec_validate_sections(secs, i + 1, ctx),
            Err(e) => Err(e),
        }
    }
}

/// What validating a whole module yields: the context is built from all
/// sections, then every section is validated under it, in order.  The
/// result is a function of the module alone: identical modules validate
/// identically.
pub open spec fn spec_validate_module(m: ModuleV) -> Result<(), ValidationErrorV> {
    match spec_initialize_context(m.sections, 0, empty_context()) {
        Ok(ctx) => spec_validate_sections(m.sections, 0, ctx),
        Err(e) => Err(e),
    }
}

/// Validates one section under the context, as `spec_section_check` says.
/// The context is only working state for the code section's locals, and is
/// restored on success.
fn validate_section(section: &Section, context: &mut Context) -> (r: Result<(), ValidationError>)
    requires
        old(context).deep_view().locals == Seq::<ValueType>::empty(),
    ensures
        match r {
            Ok(_) => spec_section_check(section.deep_view(), old(context).deep_view()) == Ok::<
                (),
                ValidationErrorV,
            >(()) && final(context).deep_view() == old(context).deep_view(),
            Err(e) => spec_section_check(section.deep_view(), old(context).deep_view()) == Err::<
                (),
                ValidationErrorV,
            >(e.deep_view()),
        },
{
    let ghost ctxv = context.deep_view();
    match section {
        Section::Type(_) => Ok(()),
        Section::Import(import_section) => validate_import_section(import_section, context),
        Section::Function(function_section) => {
            proof {
                assert(function_section.type_indices.deep_view() =~= function_section
                    .type_indices@);
            }
            validate_function_section(function_section, context)
        },
        Section::Table(table_section) => {
            proof {
                assert(table_section.tables.deep_view() =~= table_section.tables@);
            }
            validate_table_section(table_section)
        },
        Section::Memory(memory_section) => {
            proof {
                assert(memory_section.memories.deep_view() =~= memory_section.memories@);
            }
            validate_memory_section(memory_section)
        },
        Section::Global(global_section) => {
            let mut c_prime = context.prime();
            c_prime.instructions_should_be_constant = true;
            proof {
                assert(c_prime.deep_view() =~= const_ctx(ctxv));
            }
            validate_global_section(global_section, &c_prime)
        },
        Section::Export(export_section) => validate_export_section(export_section, context),
        Section::Start(start_section) => validate_start_section(start_section, context),
        Section::Element(element_section) => {
            let mut c_prime = context.prime();
            c_prime.instructions_should_be_constant = true;
            proof {
                assert(c_prime.deep_view() =~= const_ctx(ctxv));
            }
            validate_element_section(element_section, &c_prime)
        },
        Section::Code(code_section) => {
            let r = validate_code_section(code_section, context);
            proof {
                if r is Ok {
                    assert(context.deep_view() =~= ctxv);
                }
            }
            r
        },
        Section::Data(_) => Ok(()),
        Section::DataCount(_) => Ok(()),
        Section::Custom(_) => Ok(()),
    }
}

/// Validates a parsed module, as `spec_validate_module` says: the context
/// is built from all sections, then each section is validated in order,
/// with constant-expression checks running under the primed context.
pub fn validate_module(module: &Module) -> (r: Result<(), ValidationError>)
    ensures
        match r {
            Ok(_) => spec_validate_module(module.deep_view()) == Ok::<(), ValidationErrorV>(()),
            Err(e) => spec_validate_module(module.deep_view()) == Err::<(), ValidationErrorV>(
                e.deep_view(),
            ),
        },
{
    let ghost secs = module.deep_view().sections;
    let mut context = match initialize_context(module) {
        Ok(c) => c,
        Err(e) => {
            return Err(e);
        },
    };
    let ghost ctxv = context.deep_view();
    let mut i: usize = 0;
    while i < module.sections.len()
        invariant
            i <= secs.len(),
            secs == module.deep_view().sections,
            secs.len() == module.sections@.len(),
            context.deep_view() == ctxv,
            ctxv.locals == Seq::<ValueType>::empty(),
            spec_initialize_context(secs, 0, empty_context()) == Ok::<
                ContextV,
                ValidationErrorV,
            >(ctxv),
            spec_validate_sections(secs, 0, ctxv) == spec_validate_sections(secs, i as int, ctxv),
        decreases secs.len() - i,
    {
        proof {
            assert(secs[i as int] == module.sections@[i as int].deep_view());
        }
        match validate_section(&module.sections[i], &mut context) {
            Ok(_) => {},
            Err(e) => {
                return Err(e);
            },
        }
        i = i + 1;
    }
    Ok(())
}

} // verus!
