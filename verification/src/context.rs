//! The validation context: the flat index spaces assembled from a module's
//! sections, in declaration order.

use vstd::prelude::*;
use crate::types::{FunctionType, GlobalType, Limits, MemoryType, TableType, ValueType};
use crate::views::FunctionTypeV;

verus! {

/// An entry of a flat index space: declared in this module, or imported.
#[derive(Debug, Clone, PartialEq, Eq)]
pub enum ItemDesc<T> {
    Internal { t: T },
    Imported { module: String, name: String, t: T },
}

/// Model of an index-space entry.
pub enum ItemDescV<TV> {
    Internal { t: TV },
    Imported { module: Seq<char>, name: Seq<char>, t: TV },
}

impl<T: DeepView> DeepView for ItemDesc<T> {
    type V = ItemDescV<T::V>;

    open spec fn deep_view(&self) -> ItemDescV<T::V> {
        match self {
            ItemDesc::Internal { t } => ItemDescV::Internal { t: t.deep_view() },
            ItemDesc::Imported { module, name, t } => ItemDescV::Imported {
                module: module@,
                name: name@,
                t: t.deep_view(),
            },
        }
    }
}

impl<TV> ItemDescV<TV> {
    /// The payload of the entry, whatever its origin.
    pub open spec fn t(self) -> TV {
        match self {
            ItemDescV::Internal { t } => t,
            ItemDescV::Imported { t, .. } => t,
        }
    }

    /// Whether the entry came from an import.
    pub open spec fn is_imported(self) -> bool {
        match self {
            ItemDescV::Internal { .. } => false,
            ItemDescV::Imported { .. } => true,
        }
    }
}

impl<T> ItemDesc<T> {
    /// The payload of the entry, whatever its origin.
    pub fn t(&self) -> (r: &T)
        ensures
            *r == self.t_spec(),
    {
        match self {
            ItemDesc::Internal { t } => t,
            ItemDesc::Imported { t, .. } => t,
        }
    }

    /// The payload of the entry, in spec form.
    pub open spec fn t_spec(&self) -> T {
        match self {
            ItemDesc::Internal { t } => *t,
            ItemDesc::Imported { t, .. } => *t,
        }
    }
}

/// The validation context: function types, then the four flat index spaces
/// (imports first), the locals of the body under check, the declared
/// function references, and the constant-expression flag.
#[derive(Debug)]
pub struct Context {
    pub types: Vec<FunctionType>,
    pub functions: Vec<ItemDesc<u32>>,
    pub tables: Vec<TableType>,
    pub memories: Vec<MemoryType>,
    pub globals: Vec<ItemDesc<GlobalType>>,
    pub locals: Vec<ValueType>,
    pub refs: Vec<u32>,
    pub instructions_should_be_constant: bool,
}

/// Model of the validation context.
#[verifier::ext_equal]
pub struct ContextV {
    pub types: Seq<FunctionTypeV>,
    pub functions: Seq<ItemDescV<u32>>,
    pub tables: Seq<TableType>,
    pub memories: Seq<MemoryType>,
    pub globals: Seq<ItemDescV<GlobalType>>,
    pub locals: Seq<ValueType>,
    pub refs: Seq<u32>,
    pub instructions_should_be_constant: bool,
}

impl DeepView for Context {
    type V = ContextV;

    open spec fn deep_view(&self) -> ContextV {
        ContextV {
            types: self.types.deep_view(),
            functions: self.functions.deep_view(),
            tables: self.tables@,
            memories: self.memories@,
            globals: self.globals.deep_view(),
            locals: self.locals@,
            refs: self.refs@,
            instructions_should_be_constant: self.instructions_should_be_constant,
        }
    }
}

/// The imported entries of an index space, in order.
pub open spec fn imported_entries<TV>(entries: Seq<ItemDescV<TV>>) -> Seq<ItemDescV<TV>>
    decreases entries.len(),
{
    if entries.len() == 0 {
        Seq::empty()
    } else if entries.last().is_imported() {
        imported_entries(entries.drop_last()).push(entries.last())
    } else {
        imported_entries(entries.drop_last())
    }
}

/// The payloads of the internal entries of an index space, in order.
pub open spec fn internal_ts<TV>(entries: Seq<ItemDescV<TV>>) -> Seq<TV>
    decreases entries.len(),
{
    if entries.len() == 0 {
        Seq::empty()
    } else if entries.last().is_imported() {
        internal_ts(entries.drop_last())
    } else {
        internal_ts(entries.drop_last()).push(entries.last().t())
    }
}

/// What priming does to the model: the globals are filtered to the
/// imported ones; every other field is kept.
pub open spec fn spec_prime(ctx: ContextV) -> ContextV {
    ContextV { globals: imported_entries(ctx.globals), ..ctx }
}

impl Context {
    /// Creates an empty context.
    pub fn new() -> (r: Context)
        ensures
            r.deep_view() == empty_context(),
    {
        let r = Context {
            types: Vec::new(),
            functions: Vec::new(),
            tables: Vec::new(),
            memories: Vec::new(),
            globals: Vec::new(),
            locals: Vec::new(),
            refs: Vec::new(),
            instructions_should_be_constant: false,
        };
        proof {
            assert(r.deep_view() =~= empty_context());
        }
        r
    }

    /// A copy of this context in which only the imported globals remain,
    /// for checking constant expressions: internal-global indices fall out
    /// of range, as a global initializer may only read prior imported
    /// globals.
    pub fn prime(&self) -> (r: Context)
        ensures
            r.deep_view() == spec_prime(self.deep_view()),
    {
        let mut globals: Vec<ItemDesc<GlobalType>> = Vec::new();
        let mut i: usize = 0;
        proof {
            assert(self.globals.deep_view().subrange(0, 0) =~= Seq::<
                ItemDescV<GlobalType>,
            >::empty());
            assert(globals.deep_view() =~= imported_entries(
                self.globals.deep_view().subrange(0, 0),
            ));
        }
        while i < self.globals.len()
            invariant
                i <= self.globals@.len(),
                globals.deep_view() == imported_entries(
                    self.globals.deep_view().subrange(0, i as int),
                ),
            decreases self.globals@.len() - i,
        {
            let g = &self.globals[i];
            let keep = match g {
                ItemDesc::Internal { .. } => false,
                ItemDesc::Imported { .. } => true,
            };
            let ghost prefix = self.globals.deep_view().subrange(0, i as int);
            let ghost next_prefix = self.globals.deep_view().subrange(0, i + 1);
            proof {
                assert(next_prefix.drop_last() =~= prefix);
                assert(next_prefix.last() == self.globals.deep_view()[i as int]);
                assert(self.globals.deep_view()[i as int] == self.globals@[i as int].deep_view());
            }
            if keep {
                let copy = match g {
                    ItemDesc::Internal { t } => ItemDesc::Internal { t: copy_global_type(t) },
                    ItemDesc::Imported { module, name, t } => ItemDesc::Imported {
                        module: clone_string(module),
                        name: clone_string(name),
                        t: copy_global_type(t),
                    },
                };
                let ghost prevdv = globals.deep_view();
                proof {
                    assert(copy.deep_view() == g.deep_view());
                }
                let ghost prevg = globals@;
                globals.push(copy);
                proof {
                    assert(globals@ == prevg.push(copy));
                    assert forall|j: int| 0 <= j < globals@.len() implies globals.deep_view()[j]
                        == prevdv.push(self.globals@[i as int].deep_view())[j] by {
                        assert(globals.deep_view()[j] == globals@[j].deep_view());
                        if j < prevg.len() {
                            assert(globals@[j] == prevg[j]);
                            assert(prevdv[j] == prevg[j].deep_view());
                        } else {
                            assert(globals@[j] == copy);
                        }
                    }
                    assert(globals.deep_view() =~= prevdv.push(
                        self.globals@[i as int].deep_view(),
                    ));
                }
            }
            i = i + 1;
        }
        proof {
            assert(self.globals.deep_view().subrange(0, self.globals@.len() as int) =~= self
                .globals.deep_view());
        }
        let r = Context {
            types: clone_function_types(&self.types),
            functions: clone_function_entries(&self.functions),
            tables: clone_tables(&self.tables),
            memories: clone_memories(&self.memories),
            globals,
            locals: clone_value_types(&self.locals),
            refs: clone_u32s(&self.refs),
            instructions_should_be_constant: self.instructions_should_be_constant,
        };
        proof {
            assert(r.deep_view() =~= spec_prime(self.deep_view()));
        }
        r
    }
}

/// The empty context.
pub open spec fn empty_context() -> ContextV {
    ContextV {
        types: Seq::empty(),
        functions: Seq::empty(),
        tables: Seq::empty(),
        memories: Seq::empty(),
        globals: Seq::empty(),
        locals: Seq::empty(),
        refs: Seq::empty(),
        instructions_should_be_constant: false,
    }
}

/// Copies a string.
pub fn clone_string(s: &String) -> (r: String)
    ensures
        r@ == s@,
{
    s.clone()
}

/// Copies a vector of value types.
pub fn clone_value_types(v: &Vec<ValueType>) -> (r: Vec<ValueType>)
    ensures
        r@ == v@,
{
    let mut r: Vec<ValueType> = Vec::new();
    let mut i: usize = 0;
    while i < v.len()
        invariant
            i <= v@.len(),
            r@ == v@.subrange(0, i as int),
        decreases v@.len() - i,
    {
        r.push(v[i]);
        proof {
            assert(r@ =~= v@.subrange(0, i + 1));
        }
        i = i + 1;
    }
    proof {
        assert(r@ =~= v@);
    }
    r
}

/// Copies a vector of indices.
pub fn clone_u32s(v: &Vec<u32>) -> (r: Vec<u32>)
    ensures
        r@ == v@,
{
    let mut r: Vec<u32> = Vec::new();
    let mut i: usize = 0;
    while i < v.len()
        invariant
            i <= v@.len(),
            r@ == v@.subrange(0, i as int),
        decreases v@.len() - i,
    {
        r.push(v[i]);
        proof {
            assert(r@ =~= v@.subrange(0, i + 1));
        }
        i = i + 1;
    }
    proof {
        assert(r@ =~= v@);
    }
    r
}

/// Copies a vector of table types.
pub fn clone_tables(v: &Vec<TableType>) -> (r: Vec<TableType>)
    ensures
        r@ == v@,
{
    let mut r: Vec<TableType> = Vec::new();
    let mut i: usize = 0;
    while i < v.len()
        invariant
            i <= v@.len(),
            r@ == v@.subrange(0, i as int),
        decreases v@.len() - i,
    {
        let e = &v[i];
        r.push(TableType { ref_type: e.ref_type, limits: Limits { min: e.limits.min, max: e.limits.max } });
        proof {
            assert(r@ =~= v@.subrange(0, i + 1));
        }
        i = i + 1;
    }
    proof {
        assert(r@ =~= v@);
    }
    r
}

/// Copies a vector of memory types.
pub fn clone_memories(v: &Vec<MemoryType>) -> (r: Vec<MemoryType>)
    ensures
        r@ == v@,
{
    let mut r: Vec<MemoryType> = Vec::new();
    let mut i: usize = 0;
    while i < v.len()
        invariant
            i <= v@.len(),
            r@ == v@.subrange(0, i as int),
        decreases v@.len() - i,
    {
        let e = &v[i];
        r.push(MemoryType { limits: Limits { min: e.limits.min, max: e.limits.max } });
        proof {
            assert(r@ =~= v@.subrange(0, i + 1));
        }
        i = i + 1;
    }
    proof {
        assert(r@ =~= v@);
    }
    r
}

/// Copies one global type.
pub fn copy_global_type(t: &GlobalType) -> (r: GlobalType)
    ensures
        r == *t,
{
    GlobalType { val_type: t.val_type, mutability: t.mutability }
}

/// Copies a vector of function types.
pub fn clone_function_types(v: &Vec<FunctionType>) -> (r: Vec<FunctionType>)
    ensures
        r.deep_view() == v.deep_view(),
{
    let mut r: Vec<FunctionType> = Vec::new();
    let mut i: usize = 0;
    proof {
        assert(r.deep_view() =~= v.deep_view().subrange(0, 0));
    }
    while i < v.len()
        invariant
            i <= v@.len(),
            r.deep_view() == v.deep_view().subrange(0, i as int),
        decreases v@.len() - i,
    {
        let ft = &v[i];
        let nf = FunctionType {
            params: clone_value_types(&ft.params),
            results: clone_value_types(&ft.results),
        };
        let ghost prev = r@;
        let ghost prevdv = r.deep_view();
        proof {
            assert(nf.deep_view() =~= ft.deep_view());
            assert(v.deep_view()[i as int] == v@[i as int].deep_view());
            assert(prevdv.len() == prev.len());
        }
        r.push(nf);
        proof {
            assert(r@ == prev.push(nf));
            assert forall|j: int| 0 <= j < i + 1 implies r.deep_view()[j] == v.deep_view().subrange(
                0,
                i + 1,
            )[j] by {
                assert(r.deep_view()[j] == r@[j].deep_view());
                if j < i {
                    assert(r@[j] == prev[j]);
                    assert(prevdv[j] == prev[j].deep_view());
                } else {
                    assert(r@[j] == nf);
                }
            }
            assert(r.deep_view() =~= v.deep_view().subrange(0, i + 1));
        }
        i = i + 1;
    }
    proof {
        assert(r.deep_view() =~= v.deep_view());
    }
    r
}

/// Copies a vector of function index-space entries.
pub fn clone_function_entries(v: &Vec<ItemDesc<u32>>) -> (r: Vec<ItemDesc<u32>>)
    ensures
        r.deep_view() == v.deep_view(),
{
    let mut r: Vec<ItemDesc<u32>> = Vec::new();
    let mut i: usize = 0;
    proof {
        assert(r.deep_view() =~= v.deep_view().subrange(0, 0));
    }
    while i < v.len()
        invariant
            i <= v@.len(),
            r.deep_view() == v.deep_view().subrange(0, i as int),
        decreases v@.len() - i,
    {
        let e = &v[i];
        let ne = match e {
            ItemDesc::Internal { t } => ItemDesc::Internal { t: *t },
            ItemDesc::Imported { module, name, t } => ItemDesc::Imported {
                module: clone_string(module),
                name: clone_string(name),
                t: *t,
            },
        };
        let ghost prev = r@;
        let ghost prevdv = r.deep_view();
        proof {
            assert(ne.deep_view() == e.deep_view());
            assert(v.deep_view()[i as int] == v@[i as int].deep_view());
            assert(prevdv.len() == prev.len());
        }
        r.push(ne);
        proof {
            assert(r@ == prev.push(ne));
            assert forall|j: int| 0 <= j < i + 1 implies r.deep_view()[j] == v.deep_view().subrange(
                0,
                i + 1,
            )[j] by {
                assert(r.deep_view()[j] == r@[j].deep_view());
                if j < i {
                    assert(r@[j] == prev[j]);
                    assert(prevdv[j] == prev[j].deep_view());
                } else {
                    assert(r@[j] == ne);
                }
            }
            assert(r.deep_view() =~= v.deep_view().subrange(0, i + 1));
        }
        i = i + 1;
    }
    proof {
        assert(r.deep_view() =~= v.deep_view());
    }
    r
}


/// Law: priming keeps only imported entries, so under the primed context
/// every global an expression can reach is an imported one.
pub proof fn lemma_primed_globals_imported<TV>(entries: Seq<ItemDescV<TV>>)
    ensures
        forall|q: int|
            0 <= q < imported_entries(entries).len() ==> (#[trigger] imported_entries(
                entries,
            )[q]).is_imported(),
    decreases entries.len(),
{
    if entries.len() > 0 {
        lemma_primed_globals_imported(entries.drop_last());
        let rec = imported_entries(entries.drop_last());
        if entries.last().is_imported() {
            assert forall|q: int| 0 <= q < imported_entries(entries).len() implies (
            #[trigger] imported_entries(entries)[q]).is_imported() by {
                if q < rec.len() {
                    assert(imported_entries(entries)[q] == rec[q]);
                } else {
                    assert(imported_entries(entries)[q] == entries.last());
                }
            }
        }
    }
}

} // verus!
