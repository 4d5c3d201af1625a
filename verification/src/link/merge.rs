//! Merging two parsed modules into one.
use vstd::prelude::*;
use wasmparser::{Element, MemoryType};
use super::emit::{all_encoded, cat, count_bytes, counted, encode_all, encode_counted, encode_merged, index_bytes, join, merged_items, models, BytesV};
use super::error::{seen_bytes, LinkError, LinkErrorV, Side};
use super::model::{Data, Export, ExportKind, ExportV, Global, Import, ImportType, ImportV, Table, TypeDef};
use super::outside::{append_section, empty_module, encode_u32, module_header, section_bytes};
use super::parse::{views, Custom, CustomV, ModuleV, ParsedModule};
use super::rewrite::{shifted, IndexMap, IndexMapV};

verus! {

/// Additional exports of pool memories: name and memory index.
pub struct LinkOptions {
    pub aliases: Vec<(String, u32)>,
}

impl LinkOptions {
    pub open spec fn view(&self) -> Seq<(Seq<char>, u32)> {
        self.aliases@.map_values(|a: (String, u32)| (a.0@, a.1))
    }
}

impl Default for LinkOptions {
    fn default() -> (r: Self)
        ensures
            r@ == Seq::<(Seq<char>, u32)>::empty(),
    {
        let r = LinkOptions { aliases: Vec::new() };
        assert(r@ =~= Seq::empty());
        r
    }
}

/// Imports under this module name are wired to exports of the shell.
pub open spec fn helper_module() -> Seq<char> {
    "tvm_mm"@
}

// ---------------------------------------------------------------------------
// Imports of the user module
// ---------------------------------------------------------------------------

/// What becomes of an imported function.
#[derive(Clone, Copy, Debug, PartialEq, Eq, Structural)]
pub enum Target {
    /// It is the shell's function with this index.
    Shell(u32),
    /// It is this one of the forwarded functions.
    Forwarded(u32),
}

/// What becomes of the imports of the user module.
pub struct PlanV {
    pub targets: Seq<Target>,
    pub forwarded: Seq<ImportV>,
    pub globals: nat,
    pub funcs: nat,
}

/// The function that the shell exports under this name, looked for among the
/// first `n` exports; of several the last.
pub open spec fn helper(exports: Seq<ExportV>, name: Seq<char>, n: int) -> Option<u32>
    decreases n,
{
    if n <= 0 {
        None
    } else if exports[n - 1].kind == ExportKind::Func && exports[n - 1].name == name {
        Some(exports[n - 1].index)
    } else {
        helper(exports, name, n - 1)
    }
}

/// The plan `p` with one more import taken in.
pub open spec fn planned(exports: Seq<ExportV>, p: PlanV, x: ImportV) -> Result<PlanV, LinkErrorV> {
    match x.ty {
        ImportType::Func(_) => if x.module == helper_module() {
            match helper(exports, x.name, exports.len() as int) {
                Some(i) => Ok(PlanV { targets: p.targets.push(Target::Shell(i)), ..p }),
                None => Err(LinkErrorV::MissingHelper(x.name)),
            }
        } else if p.funcs >= u32::MAX {
            Err(LinkErrorV::IndexOverflow)
        } else {
            Ok(
                PlanV {
                    targets: p.targets.push(Target::Forwarded(p.funcs as u32)),
                    forwarded: p.forwarded.push(x),
                    funcs: p.funcs + 1,
                    ..p
                },
            )
        },
        ImportType::Global(_) => if x.module == helper_module() {
            Err(LinkErrorV::UnsupportedImport(x.module, x.name))
        } else if p.globals >= u32::MAX {
            Err(LinkErrorV::IndexOverflow)
        } else {
            Ok(PlanV { forwarded: p.forwarded.push(x), globals: p.globals + 1, ..p })
        },
        ImportType::Memory => Err(LinkErrorV::MemoryImport(x.module, x.name)),
        ImportType::Other => Err(LinkErrorV::UnsupportedImport(x.module, x.name)),
    }
}

/// What becomes of the first `n` imports.
pub open spec fn plan_of(exports: Seq<ExportV>, imports: Seq<ImportV>, n: int) -> Result<
    PlanV,
    LinkErrorV,
>
    decreases n,
{
    if n <= 0 {
        Ok(PlanV { targets: Seq::empty(), forwarded: Seq::empty(), globals: 0, funcs: 0 })
    } else {
        match plan_of(exports, imports, n - 1) {
            Err(e) => Err(e),
            Ok(p) => planned(exports, p, imports[n - 1]),
        }
    }
}

proof fn lemma_plan_error_stays(exports: Seq<ExportV>, imports: Seq<ImportV>, k: int, n: int)
    requires
        0 <= k <= n,
        plan_of(exports, imports, k) is Err,
    ensures
        plan_of(exports, imports, n) == plan_of(exports, imports, k),
    decreases n - k,
{
    if k < n {
        lemma_plan_error_stays(exports, imports, k, n - 1);
    }
}

/// What becomes of the imports of the user module.
pub struct Plan {
    pub targets: Vec<Target>,
    pub forwarded: Vec<Import>,
    pub globals: u32,
    pub funcs: u32,
}

impl View for Plan {
    type V = PlanV;

    open spec fn view(&self) -> PlanV {
        PlanV {
            targets: self.targets@,
            forwarded: views(self.forwarded@),
            globals: self.globals as nat,
            funcs: self.funcs as nat,
        }
    }
}

fn find_helper(exports: &Vec<Export>, name: &String) -> (r: Option<u32>)
    ensures
        r == helper(views(exports@), name@, exports@.len() as int),
{
    let mut n: usize = exports.len();
    while n > 0
        invariant
            n <= exports@.len(),
            helper(views(exports@), name@, exports@.len() as int) == helper(
                views(exports@),
                name@,
                n as int,
            ),
        decreases n,
    {
        assert(views(exports@)[n - 1] == exports@[n - 1]@);
        if exports[n - 1].kind == ExportKind::Func && exports[n - 1].name == *name {
            return Some(exports[n - 1].index);
        }
        n -= 1;
    }
    None
}

fn clone_import(x: &Import) -> (r: Import)
    ensures
        r@ == x@,
{
    let ty = match &x.ty {
        ImportType::Func(t) => ImportType::Func(*t),
        ImportType::Global(g) => ImportType::Global(*g),
        ImportType::Memory => ImportType::Memory,
        ImportType::Other => ImportType::Other,
    };
    Import { module: x.module.clone(), name: x.name.clone(), ty }
}

/// Decides what becomes of the imports of the user module.
pub fn plan_imports(exports: &Vec<Export>, imports: &Vec<Import>) -> (r: Result<Plan, LinkError>)
    ensures
        match r {
            Ok(p) => plan_of(views(exports@), views(imports@), imports@.len() as int) == Ok::<
                PlanV,
                LinkErrorV,
            >(p@),
            Err(e) => plan_of(views(exports@), views(imports@), imports@.len() as int) == Err::<
                PlanV,
                LinkErrorV,
            >(e@),
        },
{
    let ghost es = views(exports@);
    let ghost xs = views(imports@);
    let helpers = "tvm_mm".to_owned();
    let mut plan = Plan { targets: Vec::new(), forwarded: Vec::new(), globals: 0, funcs: 0 };
    assert(views(plan.forwarded@) =~= Seq::empty());
    let mut i: usize = 0;
    while i < imports.len()
        invariant
            i <= imports@.len(),
            es == views(exports@),
            xs == views(imports@),
            helpers@ == helper_module(),
            plan_of(es, xs, i as int) == Ok::<PlanV, LinkErrorV>(plan@),
        decreases imports@.len() - i,
    {
        let x = &imports[i];
        let ghost before = plan@;
        assert(xs[i as int] == x@);
        let step: Result<(), LinkError> = match &x.ty {
            ImportType::Func(_) => {
                if x.module == helpers {
                    match find_helper(exports, &x.name) {
                        Some(f) => {
                            plan.targets.push(Target::Shell(f));
                            Ok(())
                        },
                        None => Err(LinkError::MissingHelper(x.name.clone())),
                    }
                } else if plan.funcs == u32::MAX {
                    Err(LinkError::IndexOverflow)
                } else {
                    plan.targets.push(Target::Forwarded(plan.funcs));
                    plan.forwarded.push(clone_import(x));
                    plan.funcs = plan.funcs + 1;
                    assert(plan@.forwarded =~= before.forwarded.push(x@));
                    Ok(())
                }
            },
            ImportType::Global(_) => {
                if x.module == helpers {
                    Err(LinkError::UnsupportedImport(x.module.clone(), x.name.clone()))
                } else if plan.globals == u32::MAX {
                    Err(LinkError::IndexOverflow)
                } else {
                    plan.forwarded.push(clone_import(x));
                    plan.globals = plan.globals + 1;
                    assert(plan@.forwarded =~= before.forwarded.push(x@));
                    Ok(())
                }
            },
            ImportType::Memory => Err(LinkError::MemoryImport(x.module.clone(), x.name.clone())),
            ImportType::Other => Err(
                LinkError::UnsupportedImport(x.module.clone(), x.name.clone()),
            ),
        };
        match step {
            Err(e) => {
                proof {
                    lemma_plan_error_stays(es, xs, i + 1, xs.len() as int);
                }
                return Err(e);
            },
            Ok(_) => {},
        }
        i += 1;
    }
    Ok(plan)
}

// ---------------------------------------------------------------------------
// Index spaces
// ---------------------------------------------------------------------------

/// The shell's indices: its functions and globals move behind the forwarded ones.
pub open spec fn shell_map(funcs: u32, globals: u32) -> IndexMapV {
    IndexMapV {
        side: Side::Shell,
        func_imports: Seq::empty(),
        func_base: funcs,
        globals_kept: 0,
        global_shift: globals,
        type_shift: 0,
        table_shift: 0,
        elem_shift: 0,
        data_shift: 0,
    }
}

/// Where the first `n` imported functions of the user module end up.
pub open spec fn import_indices(targets: Seq<Target>, funcs: u32, n: int) -> Result<
    Seq<u32>,
    LinkErrorV,
>
    decreases n,
{
    if n <= 0 {
        Ok(Seq::empty())
    } else {
        match import_indices(targets, funcs, n - 1) {
            Err(e) => Err(e),
            Ok(s) => match targets[n - 1] {
                Target::Forwarded(k) => Ok(s.push(k)),
                Target::Shell(i) => match shifted(i as int, funcs as int) {
                    Ok(j) => Ok(s.push(j)),
                    Err(e) => Err(e),
                },
            },
        }
    }
}

/// The counts that the indices of the user module move by all fit.
pub open spec fn counts_fit(shell: ModuleV, funcs: nat) -> bool {
    &&& funcs + shell.functions.len() <= u32::MAX
    &&& shell.globals.len() <= u32::MAX
    &&& shell.types.len() <= u32::MAX
    &&& shell.tables.len() <= u32::MAX
    &&& shell.elements.len() <= u32::MAX
    &&& shell.data.len() <= u32::MAX
}

/// The user module's indices: behind the forwarded imports and the shell's own.
pub open spec fn user_map(shell: ModuleV, plan: PlanV) -> Result<IndexMapV, LinkErrorV> {
    if !counts_fit(shell, plan.funcs) {
        Err(LinkErrorV::IndexOverflow)
    } else {
        match import_indices(plan.targets, plan.funcs as u32, plan.targets.len() as int) {
            Err(e) => Err(e),
            Ok(s) => Ok(
                IndexMapV {
                    side: Side::User,
                    func_imports: s,
                    func_base: (plan.funcs + shell.functions.len()) as u32,
                    globals_kept: plan.globals as u32,
                    global_shift: shell.globals.len() as u32,
                    type_shift: shell.types.len() as u32,
                    table_shift: shell.tables.len() as u32,
                    elem_shift: shell.elements.len() as u32,
                    data_shift: shell.data.len() as u32,
                },
            ),
        }
    }
}

proof fn lemma_indices_error_stays(targets: Seq<Target>, funcs: u32, k: int, n: int)
    requires
        0 <= k <= n,
        import_indices(targets, funcs, k) is Err,
    ensures
        import_indices(targets, funcs, n) == import_indices(targets, funcs, k),
    decreases n - k,
{
    if k < n {
        lemma_indices_error_stays(targets, funcs, k, n - 1);
    }
}

fn build_shell_map(plan: &Plan) -> (r: IndexMap)
    ensures
        r@ == shell_map(plan.funcs, plan.globals),
{
    let r = IndexMap {
        side: Side::Shell,
        func_imports: Vec::new(),
        func_base: plan.funcs,
        globals_kept: 0,
        global_shift: plan.globals,
        type_shift: 0,
        table_shift: 0,
        elem_shift: 0,
        data_shift: 0,
    };
    assert(r@.func_imports =~= Seq::empty());
    r
}

fn build_user_map(shell: &ParsedModule<'_>, plan: &Plan) -> (r: Result<IndexMap, LinkError>)
    ensures
        match r {
            Ok(m) => user_map(shell@, plan@) == Ok::<IndexMapV, LinkErrorV>(m@),
            Err(e) => user_map(shell@, plan@) == Err::<IndexMapV, LinkErrorV>(e@),
        },
{
    let limit: u64 = 0xffff_ffff;
    let functions: u64 = shell.functions.len() as u64;
    if functions > limit || plan.funcs as u64 + functions > limit || shell.globals.len() as u64
        > limit || shell.types.len() as u64 > limit || shell.tables.len() as u64 > limit
        || shell.elements.len() as u64 > limit || shell.data.len() as u64 > limit {
        return Err(LinkError::IndexOverflow);
    }
    let mut func_imports: Vec<u32> = Vec::new();
    let mut i: usize = 0;
    assert(func_imports@ =~= Seq::empty());
    while i < plan.targets.len()
        invariant
            i <= plan.targets@.len(),
            import_indices(plan.targets@, plan.funcs, i as int) == Ok::<Seq<u32>, LinkErrorV>(
                func_imports@,
            ),
            counts_fit(shell@, plan.funcs as nat),
        decreases plan.targets@.len() - i,
    {
        let index: u32 = match plan.targets[i] {
            Target::Forwarded(k) => k,
            Target::Shell(f) => match f.checked_add(plan.funcs) {
                Some(j) => j,
                None => {
                    proof {
                        lemma_indices_error_stays(
                            plan.targets@,
                            plan.funcs,
                            i + 1,
                            plan.targets@.len() as int,
                        );
                    }
                    return Err(LinkError::IndexOverflow);
                },
            },
        };
        func_imports.push(index);
        i += 1;
    }
    Ok(
        IndexMap {
            side: Side::User,
            func_imports,
            func_base: plan.funcs + shell.functions.len() as u32,
            globals_kept: plan.globals,
            global_shift: shell.globals.len() as u32,
            type_shift: shell.types.len() as u32,
            table_shift: shell.tables.len() as u32,
            elem_shift: shell.elements.len() as u32,
            data_shift: shell.data.len() as u32,
        },
    )
}

// ---------------------------------------------------------------------------
// Exports
// ---------------------------------------------------------------------------

/// The user exports that stay: memories go, and so do the names that a
/// compiler adds for its own use.
pub open spec fn export_stays(x: ExportV) -> bool {
    x.kind != ExportKind::Memory && x.name != "__data_end"@ && x.name != "__heap_base"@ && x.name
        != "__indirect_function_table"@
}

/// The ones of the first `n` user exports that stay.
pub open spec fn staying(exports: Seq<ExportV>, n: int) -> Seq<ExportV>
    decreases n,
{
    if n <= 0 {
        Seq::empty()
    } else if export_stays(exports[n - 1]) {
        staying(exports, n - 1).push(exports[n - 1])
    } else {
        staying(exports, n - 1)
    }
}

fn staying_exports(exports: &Vec<Export>) -> (r: Vec<Export>)
    ensures
        views(r@) == staying(views(exports@), exports@.len() as int),
{
    let ghost xs = views(exports@);
    let data_end = "__data_end".to_owned();
    let heap_base = "__heap_base".to_owned();
    let table = "__indirect_function_table".to_owned();
    let mut out: Vec<Export> = Vec::new();
    assert(views(out@) =~= Seq::empty());
    let mut i: usize = 0;
    while i < exports.len()
        invariant
            i <= exports@.len(),
            xs == views(exports@),
            data_end@ == "__data_end"@,
            heap_base@ == "__heap_base"@,
            table@ == "__indirect_function_table"@,
            views(out@) == staying(xs, i as int),
        decreases exports@.len() - i,
    {
        let x = &exports[i];
        let ghost before = out@;
        assert(xs[i as int] == x@);
        if x.kind != ExportKind::Memory && x.name != data_end && x.name != heap_base && x.name
            != table {
            out.push(Export { name: x.name.clone(), kind: x.kind, index: x.index });
            assert(views(out@) =~= views(before).push(x@));
        }
        i += 1;
    }
    out
}

/// Some export has this name.
pub open spec fn names(exports: Seq<ExportV>, name: Seq<char>) -> bool {
    exists|i: int| 0 <= i < exports.len() && (#[trigger] exports[i]).name == name
}

/// The exports that the first `n` aliases add. An alias must name a memory
/// that exists, and its name must be new.
pub open spec fn alias_exports(
    aliases: Seq<(Seq<char>, u32)>,
    memories: nat,
    taken: Seq<ExportV>,
    n: int,
) -> Result<Seq<ExportV>, LinkErrorV>
    decreases n,
{
    if n <= 0 {
        Ok(Seq::empty())
    } else {
        match alias_exports(aliases, memories, taken, n - 1) {
            Err(e) => Err(e),
            Ok(s) => {
                let (name, index) = aliases[n - 1];
                if index >= memories {
                    Err(LinkErrorV::AliasIndex(name, index, memories))
                } else if names(taken, name) || names(s, name) {
                    Err(LinkErrorV::AliasCollision(name))
                } else {
                    Ok(s.push(ExportV { name, kind: ExportKind::Memory, index }))
                }
            },
        }
    }
}

proof fn lemma_alias_error_stays(
    aliases: Seq<(Seq<char>, u32)>,
    memories: nat,
    taken: Seq<ExportV>,
    k: int,
    n: int,
)
    requires
        0 <= k <= n,
        alias_exports(aliases, memories, taken, k) is Err,
    ensures
        alias_exports(aliases, memories, taken, n) == alias_exports(aliases, memories, taken, k),
    decreases n - k,
{
    if k < n {
        lemma_alias_error_stays(aliases, memories, taken, k, n - 1);
    }
}

fn is_named(exports: &Vec<Export>, name: &String) -> (r: bool)
    ensures
        r == names(views(exports@), name@),
{
    let ghost xs = views(exports@);
    let mut i: usize = 0;
    while i < exports.len()
        invariant
            i <= exports@.len(),
            xs == views(exports@),
            forall|j: int| 0 <= j < i ==> (#[trigger] xs[j]).name != name@,
        decreases exports@.len() - i,
    {
        assert(xs[i as int] == exports@[i as int]@);
        if exports[i].name == *name {
            return true;
        }
        i += 1;
    }
    false
}

fn build_aliases(
    options: &LinkOptions,
    memories: usize,
    shell: &Vec<Export>,
    user: &Vec<Export>,
) -> (r: Result<Vec<Export>, LinkError>)
    ensures
        ({
            let taken = views(shell@) + views(user@);
            match r {
                Ok(v) => alias_exports(options@, memories as nat, taken, options@.len() as int)
                    == Ok::<Seq<ExportV>, LinkErrorV>(views(v@)),
                Err(e) => alias_exports(options@, memories as nat, taken, options@.len() as int)
                    == Err::<Seq<ExportV>, LinkErrorV>(e@),
            }
        }),
{
    let ghost taken = views(shell@) + views(user@);
    let ghost list = options@;
    let mut out: Vec<Export> = Vec::new();
    assert(views(out@) =~= Seq::empty());
    let mut i: usize = 0;
    while i < options.aliases.len()
        invariant
            i <= options.aliases@.len(),
            list == options@,
            taken == views(shell@) + views(user@),
            alias_exports(list, memories as nat, taken, i as int) == Ok::<
                Seq<ExportV>,
                LinkErrorV,
            >(views(out@)),
        decreases options.aliases@.len() - i,
    {
        let name = &options.aliases[i].0;
        let index: u32 = options.aliases[i].1;
        let ghost before = out@;
        assert(list[i as int] == (name@, index));
        if index as usize >= memories {
            let e = LinkError::AliasIndex(name.clone(), index, memories);
            proof {
                lemma_alias_error_stays(list, memories as nat, taken, i + 1, list.len() as int);
            }
            return Err(e);
        }
        proof {
            lemma_names_split(views(shell@), views(user@), name@);
        }
        if is_named(shell, name) || is_named(user, name) || is_named(&out, name) {
            let e = LinkError::AliasCollision(name.clone());
            proof {
                lemma_alias_error_stays(list, memories as nat, taken, i + 1, list.len() as int);
            }
            return Err(e);
        }
        out.push(Export { name: name.clone(), kind: ExportKind::Memory, index });
        assert(views(out@) =~= views(before).push(
            ExportV { name: name@, kind: ExportKind::Memory, index },
        ));
        i += 1;
    }
    Ok(out)
}

proof fn lemma_names_split(a: Seq<ExportV>, b: Seq<ExportV>, name: Seq<char>)
    ensures
        names(a + b, name) <==> names(a, name) || names(b, name),
{
    let c = a + b;
    if names(a, name) {
        let i = choose|i: int| 0 <= i < a.len() && (#[trigger] a[i]).name == name;
        assert(c[i].name == name);
    }
    if names(b, name) {
        let i = choose|i: int| 0 <= i < b.len() && (#[trigger] b[i]).name == name;
        assert(c[a.len() + i].name == name);
    }
    if names(c, name) {
        let i = choose|i: int| 0 <= i < c.len() && (#[trigger] c[i]).name == name;
        if i < a.len() {
            assert(a[i].name == name);
        } else {
            assert(b[i - a.len()].name == name);
        }
    }
}

// ---------------------------------------------------------------------------
// The merged module
// ---------------------------------------------------------------------------

/// Everything that the merged module is made of.
pub struct PartsV {
    pub shell: ModuleV,
    pub user: ModuleV,
    pub sm: IndexMapV,
    pub um: IndexMapV,
    pub forwarded: Seq<ImportV>,
    pub user_exports: Seq<ExportV>,
    pub aliases: Seq<ExportV>,
}

/// A section with these contents.
pub open spec fn framed(id: u8, contents: BytesV) -> BytesV {
    match contents {
        Err(e) => Err(e),
        Ok(c) => if c.len() > u32::MAX {
            Err(LinkErrorV::TooLarge)
        } else {
            Ok(section_bytes(id, c))
        },
    }
}

/// The custom sections at this place among the first `n`, byte for byte.
pub open spec fn customs_at(customs: Seq<CustomV>, rank: u8, n: int) -> BytesV
    decreases n,
{
    if n <= 0 {
        Ok(Seq::empty())
    } else if customs[n - 1].rank == rank {
        cat(customs_at(customs, rank, n - 1), framed(0, Ok(customs[n - 1].contents)))
    } else {
        customs_at(customs, rank, n - 1)
    }
}

/// The exports: the shell's, the user's that stay, then the aliases.
pub open spec fn exports_contents(p: PartsV) -> BytesV {
    cat(
        cat(
            cat(
                count_bytes(p.shell.exports.len() + p.user_exports.len() + p.aliases.len()),
                all_encoded::<Export>(p.shell.exports, p.sm, p.shell.exports.len() as int),
            ),
            all_encoded::<Export>(p.user_exports, p.um, p.user_exports.len() as int),
        ),
        all_encoded::<Export>(p.aliases, p.sm, p.aliases.len() as int),
    )
}

/// The section at each place of the merged module; nothing where there is none.
pub open spec fn section_at(p: PartsV, rank: int) -> BytesV {
    let none = Ok::<Seq<u8>, LinkErrorV>(Seq::empty());
    let segments = p.shell.data.len() + p.user.data.len();
    if rank == 1 {
        framed(1, merged_items::<TypeDef>(p.shell.types, p.sm, p.user.types, p.um))
    } else if rank == 2 {
        if p.forwarded.len() == 0 {
            none
        } else {
            framed(2, counted::<Import>(p.forwarded, p.um))
        }
    } else if rank == 3 {
        framed(3, merged_items::<u32>(p.shell.functions, p.sm, p.user.functions, p.um))
    } else if rank == 4 {
        framed(4, merged_items::<Table<'_>>(p.shell.tables, p.sm, p.user.tables, p.um))
    } else if rank == 5 {
        framed(5, counted::<MemoryType>(p.shell.memories, p.sm))
    } else if rank == 6 {
        framed(6, merged_items::<Global<'_>>(p.shell.globals, p.sm, p.user.globals, p.um))
    } else if rank == 7 {
        framed(7, exports_contents(p))
    } else if rank == 8 {
        match p.shell.start {
            None => none,
            Some(f) => framed(8, index_bytes(p.sm.func(f))),
        }
    } else if rank == 9 {
        framed(9, merged_items::<Element<'_>>(p.shell.elements, p.sm, p.user.elements, p.um))
    } else if rank == 10 {
        if segments == 0 {
            none
        } else {
            framed(12, count_bytes(segments))
        }
    } else if rank == 11 {
        framed(10, merged_items::<Vec<u8>>(p.shell.bodies, p.sm, p.user.bodies, p.um))
    } else {
        framed(11, merged_items::<Data<'_>>(p.shell.data, p.sm, p.user.data, p.um))
    }
}

/// The custom sections of both modules at one place, the shell's first.
pub open spec fn both_customs(p: PartsV, rank: u8) -> BytesV {
    cat(
        customs_at(p.shell.customs, rank, p.shell.customs.len() as int),
        customs_at(p.user.customs, rank, p.user.customs.len() as int),
    )
}

/// The merged module up to and with the sections at place `rank`.
pub open spec fn output(p: PartsV, rank: int) -> BytesV
    decreases rank,
{
    if rank <= 0 {
        cat(Ok(module_header()), both_customs(p, 0))
    } else {
        cat(cat(output(p, rank - 1), section_at(p, rank)), both_customs(p, rank as u8))
    }
}

/// The merged module of a shell and a user module.
pub open spec fn merged(shell: ModuleV, user: ModuleV, aliases: Seq<(Seq<char>, u32)>) -> BytesV {
    if shell.imports.len() > 0 {
        Err(LinkErrorV::ShellImports(shell.imports.len()))
    } else {
        match plan_of(shell.exports, user.imports, user.imports.len() as int) {
            Err(e) => Err(e),
            Ok(plan) => if user.start is Some {
                Err(LinkErrorV::UserStart)
            } else {
                match user_map(shell, plan) {
                    Err(e) => Err(e),
                    Ok(um) => {
                        let user_exports = staying(user.exports, user.exports.len() as int);
                        match alias_exports(
                            aliases,
                            shell.memories.len(),
                            shell.exports + user_exports,
                            aliases.len() as int,
                        ) {
                            Err(e) => Err(e),
                            Ok(extra) => output(
                                PartsV {
                                    shell,
                                    user,
                                    sm: shell_map(plan.funcs as u32, plan.globals as u32),
                                    um,
                                    forwarded: plan.forwarded,
                                    user_exports,
                                    aliases: extra,
                                },
                                12,
                            ),
                        }
                    },
                }
            },
        }
    }
}

fn frame(id: u8, contents: Result<Vec<u8>, LinkError>) -> (r: Result<Vec<u8>, LinkError>)
    ensures
        seen_bytes(r) == framed(id, seen_bytes(contents)),
{
    match contents {
        Err(e) => Err(e),
        Ok(c) => {
            if c.len() as u64 > 0xffff_ffff {
                return Err(LinkError::TooLarge);
            }
            let mut out: Vec<u8> = Vec::new();
            append_section(&mut out, id, c.as_slice());
            assert(out@ =~= section_bytes(id, c@));
            Ok(out)
        },
    }
}

fn nothing() -> (r: Result<Vec<u8>, LinkError>)
    ensures
        seen_bytes(r) == Ok::<Seq<u8>, LinkErrorV>(Seq::empty()),
{
    let v: Vec<u8> = Vec::new();
    assert(v@ =~= Seq::empty());
    Ok(v)
}

proof fn lemma_customs_error_stays(customs: Seq<CustomV>, rank: u8, k: int, n: int)
    requires
        0 <= k <= n,
        customs_at(customs, rank, k) is Err,
    ensures
        customs_at(customs, rank, n) == customs_at(customs, rank, k),
    decreases n - k,
{
    if k < n {
        lemma_customs_error_stays(customs, rank, k, n - 1);
    }
}

fn encode_customs(customs: &Vec<Custom>, rank: u8) -> (r: Result<Vec<u8>, LinkError>)
    ensures
        seen_bytes(r) == customs_at(views(customs@), rank, customs@.len() as int),
{
    let ghost xs = views(customs@);
    let mut out: Vec<u8> = Vec::new();
    assert(out@ =~= Seq::empty());
    let mut i: usize = 0;
    while i < customs.len()
        invariant
            i <= customs@.len(),
            xs == views(customs@),
            customs_at(xs, rank, i as int) == Ok::<Seq<u8>, LinkErrorV>(out@),
        decreases customs@.len() - i,
    {
        assert(xs[i as int] == customs@[i as int]@);
        if customs[i].rank == rank {
            let copy = vstd::slice::slice_to_vec(customs[i].contents.as_slice());
            assert(copy@ =~= customs@[i as int].contents@);
            match frame(0, Ok(copy)) {
                Err(e) => {
                    proof {
                        lemma_customs_error_stays(xs, rank, i + 1, xs.len() as int);
                    }
                    return Err(e);
                },
                Ok(mut b) => {
                    out.append(&mut b);
                },
            }
        }
        i += 1;
    }
    Ok(out)
}

fn encode_total(a: usize, b: usize, c: usize) -> (r: Result<Vec<u8>, LinkError>)
    ensures
        seen_bytes(r) == count_bytes((a + b + c) as nat),
{
    let limit: u64 = 0xffff_ffff;
    if a as u64 > limit || b as u64 > limit || c as u64 > limit || a as u64 + b as u64 + c as u64
        > limit {
        Err(LinkError::TooLarge)
    } else {
        Ok(encode_u32((a as u64 + b as u64 + c as u64) as u32))
    }
}

proof fn lemma_models_are_views(s: ParsedModule<'_>, u: ParsedModule<'_>)
    ensures
        models(s.types@) == s@.types && models(u.types@) == u@.types,
        models(s.functions@) == s@.functions && models(u.functions@) == u@.functions,
        models(s.tables@) == s@.tables && models(u.tables@) == u@.tables,
        models(s.memories@) == s@.memories,
        models(s.globals@) == s@.globals && models(u.globals@) == u@.globals,
        models(s.exports@) == s@.exports,
        models(s.elements@) == s@.elements && models(u.elements@) == u@.elements,
        models(s.bodies@) == s@.bodies && models(u.bodies@) == u@.bodies,
        models(s.data@) == s@.data && models(u.data@) == u@.data,
{
    assert(models(s.types@) =~= s@.types && models(u.types@) =~= u@.types);
    assert(models(s.functions@) =~= s@.functions && models(u.functions@) =~= u@.functions);
    assert(models(s.tables@) =~= s@.tables && models(u.tables@) =~= u@.tables);
    assert(models(s.memories@) =~= s@.memories);
    assert(models(s.globals@) =~= s@.globals && models(u.globals@) =~= u@.globals);
    assert(models(s.exports@) =~= s@.exports);
    assert(models(s.elements@) =~= s@.elements && models(u.elements@) =~= u@.elements);
    assert(models(s.bodies@) =~= s@.bodies && models(u.bodies@) =~= u@.bodies);
    assert(models(s.data@) =~= s@.data && models(u.data@) =~= u@.data);
}

/// Merges a shell and a user module.
pub fn merge(shell: &ParsedModule<'_>, user: &ParsedModule<'_>, options: &LinkOptions) -> (r: Result<
    Vec<u8>,
    LinkError,
>)
    ensures
        seen_bytes(r) == merged(shell@, user@, options@),
{
    if shell.imports.len() > 0 {
        return Err(LinkError::ShellImports(shell.imports.len()));
    }
    let plan = match plan_imports(&shell.exports, &user.imports) {
        Err(e) => return Err(e),
        Ok(p) => p,
    };
    if user.start.is_some() {
        return Err(LinkError::UserStart);
    }
    let sm = build_shell_map(&plan);
    let um = match build_user_map(shell, &plan) {
        Err(e) => return Err(e),
        Ok(m) => m,
    };
    let user_exports = staying_exports(&user.exports);
    let aliases = match build_aliases(options, shell.memories.len(), &shell.exports, &user_exports) {
        Err(e) => return Err(e),
        Ok(v) => v,
    };
    emit_sections(shell, user, &sm, &um, &plan.forwarded, &user_exports, &aliases)
}

fn emit_sections(
    shell: &ParsedModule<'_>,
    user: &ParsedModule<'_>,
    sm: &IndexMap,
    um: &IndexMap,
    forwarded: &Vec<Import>,
    user_exports: &Vec<Export>,
    aliases: &Vec<Export>,
) -> (r: Result<Vec<u8>, LinkError>)
    ensures
        seen_bytes(r) == output(
            PartsV {
                shell: shell@,
                user: user@,
                sm: sm@,
                um: um@,
                forwarded: views(forwarded@),
                user_exports: views(user_exports@),
                aliases: views(aliases@),
            },
            12,
        ),
{
    let ghost p = PartsV {
        shell: shell@,
        user: user@,
        sm: sm@,
        um: um@,
        forwarded: views(forwarded@),
        user_exports: views(user_exports@),
        aliases: views(aliases@),
    };
    proof {
        lemma_models_are_views(*shell, *user);
        assert(models(forwarded@) =~= views(forwarded@));
        assert(models(user_exports@) =~= views(user_exports@));
        assert(models(aliases@) =~= views(aliases@));
    }
    let mut out = join(
        Ok(empty_module()),
        join(encode_customs(&shell.customs, 0), encode_customs(&user.customs, 0)),
    );
    let mut rank: u8 = 0;
    while rank < 12
        invariant
            rank <= 12,
            p == (PartsV {
                shell: shell@,
                user: user@,
                sm: sm@,
                um: um@,
                forwarded: views(forwarded@),
                user_exports: views(user_exports@),
                aliases: views(aliases@),
            }),
            models(forwarded@) == views(forwarded@),
            models(user_exports@) == views(user_exports@),
            models(aliases@) == views(aliases@),
            seen_bytes(out) == output(p, rank as int),
        decreases 12 - rank,
    {
        rank += 1;
        let section = encode_section_at(
            rank,
            shell,
            user,
            sm,
            um,
            forwarded,
            user_exports,
            aliases,
        );
        let customs = join(
            encode_customs(&shell.customs, rank),
            encode_customs(&user.customs, rank),
        );
        out = join(join(out, section), customs);
    }
    out
}

fn encode_section_at(
    rank: u8,
    shell: &ParsedModule<'_>,
    user: &ParsedModule<'_>,
    sm: &IndexMap,
    um: &IndexMap,
    forwarded: &Vec<Import>,
    user_exports: &Vec<Export>,
    aliases: &Vec<Export>,
) -> (r: Result<Vec<u8>, LinkError>)
    requires
        1 <= rank <= 12,
    ensures
        seen_bytes(r) == section_at(
            PartsV {
                shell: shell@,
                user: user@,
                sm: sm@,
                um: um@,
                forwarded: views(forwarded@),
                user_exports: views(user_exports@),
                aliases: views(aliases@),
            },
            rank as int,
        ),
{
    proof {
        lemma_models_are_views(*shell, *user);
        assert(models(forwarded@) =~= views(forwarded@));
        assert(models(user_exports@) =~= views(user_exports@));
        assert(models(aliases@) =~= views(aliases@));
    }
    match rank {
        1 => frame(1, encode_merged(&shell.types, sm, &user.types, um)),
        2 => {
            if forwarded.len() == 0 {
                nothing()
            } else {
                frame(2, encode_counted(forwarded, um))
            }
        },
        3 => frame(3, encode_merged(&shell.functions, sm, &user.functions, um)),
        4 => frame(4, encode_merged(&shell.tables, sm, &user.tables, um)),
        5 => frame(5, encode_counted(&shell.memories, sm)),
        6 => frame(6, encode_merged(&shell.globals, sm, &user.globals, um)),
        7 => frame(
            7,
            join(
                join(
                    join(
                        encode_total(shell.exports.len(), user_exports.len(), aliases.len()),
                        encode_all(&shell.exports, sm),
                    ),
                    encode_all(user_exports, um),
                ),
                encode_all(aliases, sm),
            ),
        ),
        8 => match shell.start {
            None => nothing(),
            Some(f) => match sm.func(f) {
                Ok(i) => frame(8, Ok(encode_u32(i))),
                Err(e) => Err(e),
            },
        },
        9 => frame(9, encode_merged(&shell.elements, sm, &user.elements, um)),
        10 => {
            if shell.data.len() == 0 && user.data.len() == 0 {
                nothing()
            } else {
                frame(12, encode_total(shell.data.len(), user.data.len(), 0))
            }
        },
        11 => frame(10, encode_merged(&shell.bodies, sm, &user.bodies, um)),
        _ => frame(11, encode_merged(&shell.data, sm, &user.data, um)),
    }
}

} // verus!
