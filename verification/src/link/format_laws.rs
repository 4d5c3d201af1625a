//! What holds of the sections of a linked module: which entries they hold, in which
//! order, and in which bytes of the binary format.
use vstd::prelude::*;
use vstd::utf8::encode_utf8;
use wasmparser::{ConstExpr, Element, GlobalType, MemoryType, RefType, ValType};
use super::emit::{all_encoded, body_bytes, counted, merged_items, segment_bytes, FuncRef, Item};
use super::error::{LinkErrorV, Side};
use super::merge::{alias_exports, export_stays, exports_contents, helper, helper_module, plan_of, section_at, staying, PartsV, PlanV, Target};
use super::model::{Data, DataPlaceV, DataV, ElementV, Export, ExportKind, ExportV, Global, GlobalV, Import, ImportType, ImportV, OpsV, SegmentItemsV, SegmentKindV, Table, TableV, TypeDef, TypeDefV};
use super::outside::{
    global_type_bytes, leb, memory_type_bytes, parsed_bodies, parsed_data, parsed_elements,
    parsed_exports, parsed_functions, parsed_globals, parsed_imports, parsed_locals,
    parsed_memories, parsed_operators, parsed_start, parsed_tables, parsed_types, ref_type_bytes,
    section_bytes, table_type_bytes, val_type_bytes,
};
use super::parse::{with_section, CustomV, ModuleV};
use super::rewrite::{moved_const, moved_ops, moved_type, IndexMapV};

verus! {

/// The bytes of a name: how many there are, then its characters in UTF-8.
pub open spec fn name_format(name: Seq<char>) -> Seq<u8> {
    leb(encode_utf8(name).len()) + encode_utf8(name)
}

/// The name is not too long to be written.
pub open spec fn name_fits(name: Seq<char>) -> bool {
    encode_utf8(name).len() <= u32::MAX
}

/// Lists of entries keep their order: the entries of one list and then of another are
/// written one behind the other, and a list of one is written as that entry.
pub proof fn law_entries_keep_order<T: Item>(a: Seq<T::Model>, b: Seq<T::Model>, m: IndexMapV)
    ensures
        all_encoded::<T>(a, m, a.len() as int) is Ok && all_encoded::<T>(b, m, b.len() as int) is Ok
            ==> all_encoded::<T>(a + b, m, (a + b).len() as int) == Ok::<Seq<u8>, LinkErrorV>(
            all_encoded::<T>(a, m, a.len() as int)->Ok_0 + all_encoded::<T>(
                b,
                m,
                b.len() as int,
            )->Ok_0,
        ),
        a.len() == 1 && T::encoded(a[0], m) is Ok ==> all_encoded::<T>(a, m, 1) == T::encoded(
            a[0],
            m,
        ),
    decreases b.len(),
{
    let all = a + b;
    if b.len() == 0 {
        assert(all =~= a);
        if all_encoded::<T>(a, m, a.len() as int) is Ok {
            let x = all_encoded::<T>(a, m, a.len() as int)->Ok_0;
            assert(x + Seq::<u8>::empty() =~= x);
        }
    } else {
        let c = b.drop_last();
        law_entries_keep_order::<T>(a, c, m);
        lemma_entries_prefix::<T>(all, a + c, m, (a + c).len() as int);
        lemma_entries_prefix::<T>(b, c, m, c.len() as int);
        assert(all[all.len() - 1] == b[b.len() - 1]);
        if all_encoded::<T>(a, m, a.len() as int) is Ok && all_encoded::<T>(b, m, b.len() as int)
            is Ok {
            let x = all_encoded::<T>(a, m, a.len() as int)->Ok_0;
            let y = all_encoded::<T>(c, m, c.len() as int)->Ok_0;
            let z = T::encoded(b[b.len() - 1], m)->Ok_0;
            assert(x + (y + z) =~= (x + y) + z);
        }
    }
    if a.len() == 1 && T::encoded(a[0], m) is Ok {
        assert(all_encoded::<T>(a, m, 0) == Ok::<Seq<u8>, LinkErrorV>(Seq::empty()));
        let x = T::encoded(a[0], m)->Ok_0;
        assert(Seq::<u8>::empty() + x =~= x);
    }
}

proof fn lemma_entries_prefix<T: Item>(
    long: Seq<T::Model>,
    short: Seq<T::Model>,
    m: IndexMapV,
    n: int,
)
    requires
        0 <= n <= short.len() <= long.len(),
        forall|i: int| 0 <= i < short.len() ==> long[i] == #[trigger] short[i],
    ensures
        all_encoded::<T>(long, m, n) == all_encoded::<T>(short, m, n),
    decreases n,
{
    if n > 0 {
        lemma_entries_prefix::<T>(long, short, m, n - 1);
        assert(long[n - 1] == short[n - 1]);
    }
}

/// A section that both modules have holds the number of all entries, then those of the
/// shell and then those of the user module.
pub proof fn law_merged_list<T: Item>(
    shell: Seq<T::Model>,
    sm: IndexMapV,
    user: Seq<T::Model>,
    um: IndexMapV,
)
    requires
        shell.len() + user.len() <= u32::MAX,
        all_encoded::<T>(shell, sm, shell.len() as int) is Ok,
        all_encoded::<T>(user, um, user.len() as int) is Ok,
    ensures
        merged_items::<T>(shell, sm, user, um) == Ok::<Seq<u8>, LinkErrorV>(
            leb(shell.len() + user.len()) + all_encoded::<T>(shell, sm, shell.len() as int)->Ok_0
                + all_encoded::<T>(user, um, user.len() as int)->Ok_0,
        ),
{
}

/// What each section of the linked module holds. Types, functions, tables, globals,
/// exports, element segments, code and data are those of both modules, the memories
/// and the start function those of the shell, and the imports the forwarded ones.
pub proof fn law_sections(p: PartsV, c: Seq<u8>)
    requires
        c.len() <= u32::MAX,
    ensures
        merged_items::<TypeDef>(p.shell.types, p.sm, p.user.types, p.um) == Ok::<
            Seq<u8>,
            LinkErrorV,
        >(c) ==> section_at(p, 1) == Ok::<Seq<u8>, LinkErrorV>(section_bytes(1, c)),
        p.forwarded.len() > 0 && counted::<Import>(p.forwarded, p.um) == Ok::<Seq<u8>, LinkErrorV>(
            c,
        ) ==> section_at(p, 2) == Ok::<Seq<u8>, LinkErrorV>(section_bytes(2, c)),
        p.forwarded.len() == 0 ==> section_at(p, 2) == Ok::<Seq<u8>, LinkErrorV>(Seq::empty()),
        merged_items::<u32>(p.shell.functions, p.sm, p.user.functions, p.um) == Ok::<
            Seq<u8>,
            LinkErrorV,
        >(c) ==> section_at(p, 3) == Ok::<Seq<u8>, LinkErrorV>(section_bytes(3, c)),
        merged_items::<Table<'_>>(p.shell.tables, p.sm, p.user.tables, p.um) == Ok::<
            Seq<u8>,
            LinkErrorV,
        >(c) ==> section_at(p, 4) == Ok::<Seq<u8>, LinkErrorV>(section_bytes(4, c)),
        counted::<MemoryType>(p.shell.memories, p.sm) == Ok::<Seq<u8>, LinkErrorV>(c)
            ==> section_at(p, 5) == Ok::<Seq<u8>, LinkErrorV>(section_bytes(5, c)),
        merged_items::<Global<'_>>(p.shell.globals, p.sm, p.user.globals, p.um) == Ok::<
            Seq<u8>,
            LinkErrorV,
        >(c) ==> section_at(p, 6) == Ok::<Seq<u8>, LinkErrorV>(section_bytes(6, c)),
        exports_contents(p) == Ok::<Seq<u8>, LinkErrorV>(c) ==> section_at(p, 7) == Ok::<
            Seq<u8>,
            LinkErrorV,
        >(section_bytes(7, c)),
        p.shell.start is None ==> section_at(p, 8) == Ok::<Seq<u8>, LinkErrorV>(Seq::empty()),
        p.shell.start matches Some(f) ==> p.sm.func(f) matches Ok(j) ==> c == leb(j as nat)
            ==> section_at(p, 8) == Ok::<Seq<u8>, LinkErrorV>(section_bytes(8, c)),
        merged_items::<Element<'_>>(p.shell.elements, p.sm, p.user.elements, p.um) == Ok::<
            Seq<u8>,
            LinkErrorV,
        >(c) ==> section_at(p, 9) == Ok::<Seq<u8>, LinkErrorV>(section_bytes(9, c)),
        p.shell.data.len() + p.user.data.len() == 0 ==> section_at(p, 10) == Ok::<
            Seq<u8>,
            LinkErrorV,
        >(Seq::empty()),
        0 < p.shell.data.len() + p.user.data.len() <= u32::MAX && c == leb(
            p.shell.data.len() + p.user.data.len(),
        ) ==> section_at(p, 10) == Ok::<Seq<u8>, LinkErrorV>(section_bytes(12, c)),
        merged_items::<Vec<u8>>(p.shell.bodies, p.sm, p.user.bodies, p.um) == Ok::<
            Seq<u8>,
            LinkErrorV,
        >(c) ==> section_at(p, 11) == Ok::<Seq<u8>, LinkErrorV>(section_bytes(10, c)),
        merged_items::<Data<'_>>(p.shell.data, p.sm, p.user.data, p.um) == Ok::<
            Seq<u8>,
            LinkErrorV,
        >(c) ==> section_at(p, 12) == Ok::<Seq<u8>, LinkErrorV>(section_bytes(11, c)),
{
}

/// An export is its name, the byte of its kind, and the index that the thing it names has
/// in the merged module.
pub proof fn law_export_format(x: ExportV, m: IndexMapV, j: u32)
    requires
        name_fits(x.name),
    ensures
        (x.kind == ExportKind::Func || x.kind == ExportKind::FuncExact) && m.func(x.index) == Ok::<
            u32,
            LinkErrorV,
        >(j) ==> Export::encoded(x, m) == Ok::<Seq<u8>, LinkErrorV>(
            name_format(x.name) + seq![0u8] + leb(j as nat),
        ),
        x.kind == ExportKind::Table && m.table(x.index) == Ok::<u32, LinkErrorV>(j)
            ==> Export::encoded(x, m) == Ok::<Seq<u8>, LinkErrorV>(
            name_format(x.name) + seq![1u8] + leb(j as nat),
        ),
        x.kind == ExportKind::Memory && (m.side == Side::Shell || x.index == 0)
            ==> Export::encoded(x, m) == Ok::<Seq<u8>, LinkErrorV>(
            name_format(x.name) + seq![2u8] + leb(x.index as nat),
        ),
        x.kind == ExportKind::Global && m.global(x.index) == Ok::<u32, LinkErrorV>(j)
            ==> Export::encoded(x, m) == Ok::<Seq<u8>, LinkErrorV>(
            name_format(x.name) + seq![3u8] + leb(j as nat),
        ),
{
}

/// A forwarded import keeps its module and name. A function names its type by the index
/// that the type has in the merged module.
pub proof fn law_import_format(x: ImportV, m: IndexMapV, j: u32)
    requires
        name_fits(x.module),
        name_fits(x.name),
    ensures
        x.ty matches ImportType::Func(t) ==> m.ty(t) == Ok::<u32, LinkErrorV>(j)
            ==> Import::encoded(x, m) == Ok::<Seq<u8>, LinkErrorV>(
            name_format(x.module) + name_format(x.name) + (seq![0u8] + leb(j as nat)),
        ),
        x.ty matches ImportType::Global(g) ==> global_type_bytes(g) matches Ok(b) ==> (b.len() == 0
            || (b[0] != 0x63 && b[0] != 0x64)) ==> Import::encoded(x, m) == Ok::<
            Seq<u8>,
            LinkErrorV,
        >(name_format(x.module) + name_format(x.name) + (seq![3u8] + b)),
        x.ty is Memory || x.ty is Other ==> Import::encoded(x, m) is Err,
{
}

/// A function type keeps its parameters and results, in their order; a type that is no
/// reference to a type of the module is written as it was.
pub proof fn law_type_format(
    params: Seq<ValType>,
    results: Seq<ValType>,
    m: IndexMapV,
    p: Seq<u8>,
    r: Seq<u8>,
    v: ValType,
)
    requires
        params.len() <= u32::MAX,
        results.len() <= u32::MAX,
        all_encoded::<ValType>(params, m, params.len() as int) == Ok::<Seq<u8>, LinkErrorV>(p),
        all_encoded::<ValType>(results, m, results.len() as int) == Ok::<Seq<u8>, LinkErrorV>(r),
    ensures
        TypeDef::encoded(TypeDefV::Func(params, results), m) == Ok::<Seq<u8>, LinkErrorV>(
            seq![0x60u8] + leb(params.len()) + p + leb(results.len()) + r,
        ),
        val_type_bytes(v) matches Ok(b) ==> (b.len() == 0 || (b[0] != 0x63 && b[0] != 0x64))
            ==> ValType::encoded(v, m) == Ok::<Seq<u8>, LinkErrorV>(b),
{
    assert(seq![0x60u8] + (leb(params.len()) + p) + (leb(results.len()) + r) =~= seq![0x60u8] + leb(
        params.len(),
    ) + p + leb(results.len()) + r);
}

/// A function names its type by the index that the type has in the merged module.
pub proof fn law_function_format(t: u32, m: IndexMapV, j: u32)
    requires
        m.ty(t) == Ok::<u32, LinkErrorV>(j),
    ensures
        u32::encoded(t, m) == Ok::<Seq<u8>, LinkErrorV>(leb(j as nat)),
{
}

/// A global keeps its type, and its first value follows.
pub proof fn law_global_format(ty: GlobalType, init: OpsV, m: IndexMapV, t: Seq<u8>, e: Seq<u8>)
    requires
        global_type_bytes(ty) == Ok::<Seq<u8>, Seq<char>>(t),
        t.len() == 0 || (t[0] != 0x63 && t[0] != 0x64),
        moved_const(m, init) == Ok::<Seq<u8>, LinkErrorV>(e),
    ensures
        Global::encoded(GlobalV { ty, init }, m) == Ok::<Seq<u8>, LinkErrorV>(t + e),
{
}

/// A data segment keeps its bytes and its place: nowhere, or an offset of a memory. The
/// user module has the first memory alone.
pub proof fn law_data_format(x: DataV, m: IndexMapV, e: Seq<u8>)
    requires
        x.bytes.len() <= u32::MAX,
    ensures
        x.place is Passive ==> Data::encoded(x, m) == Ok::<Seq<u8>, LinkErrorV>(
            seq![1u8] + (leb(x.bytes.len()) + x.bytes),
        ),
        x.place matches DataPlaceV::Active(mem, offset) ==> moved_const(m, offset) == Ok::<
            Seq<u8>,
            LinkErrorV,
        >(e) ==> {
            &&& mem == 0 ==> Data::encoded(x, m) == Ok::<Seq<u8>, LinkErrorV>(
                seq![0u8] + e + (leb(x.bytes.len()) + x.bytes),
            )
            &&& mem != 0 && m.side == Side::Shell ==> Data::encoded(x, m) == Ok::<
                Seq<u8>,
                LinkErrorV,
            >(seq![2u8] + leb(mem as nat) + e + (leb(x.bytes.len()) + x.bytes))
            &&& mem != 0 && m.side == Side::User ==> Data::encoded(x, m) is Err
        },
{
}

/// An element segment of functions keeps its kind and its functions, in their order. An
/// active one of the user module names its table, the first one where it names none,
/// by the index that the table has in the merged module.
pub proof fn law_element_format(
    kind: SegmentKindV,
    fs: Seq<u32>,
    m: IndexMapV,
    f: Seq<u8>,
    e: Seq<u8>,
    j: u32,
)
    requires
        fs.len() <= u32::MAX,
        all_encoded::<FuncRef>(fs, m, fs.len() as int) == Ok::<Seq<u8>, LinkErrorV>(f),
    ensures
        ({
            let x = ElementV { kind, items: Ok(SegmentItemsV::Functions(fs)) };
            let items = leb(fs.len()) + f;
            match kind {
                SegmentKindV::Passive => segment_bytes(m, x) == Ok::<Seq<u8>, LinkErrorV>(
                    seq![1u8] + seq![0u8] + items,
                ),
                SegmentKindV::Declared => segment_bytes(m, x) == Ok::<Seq<u8>, LinkErrorV>(
                    seq![3u8] + seq![0u8] + items,
                ),
                SegmentKindV::Active(t, offset) => moved_const(m, offset) == Ok::<
                    Seq<u8>,
                    LinkErrorV,
                >(e) ==> {
                    let named = match t {
                        Some(t) => t,
                        None => 0,
                    };
                    &&& t is None && m.side == Side::Shell ==> segment_bytes(m, x) == Ok::<
                        Seq<u8>,
                        LinkErrorV,
                    >(seq![0u8] + e + items)
                    &&& (t is Some || m.side == Side::User) && m.table(named) == Ok::<
                        u32,
                        LinkErrorV,
                    >(j) ==> segment_bytes(m, x) == Ok::<Seq<u8>, LinkErrorV>(
                        seq![2u8] + leb(j as nat) + e + seq![0u8] + items,
                    )
                },
            }
        }),
{
}

/// An element segment of expressions has bit two set in its first byte and names the type
/// of its references, but for an active segment of plain function references without a
/// table; behind it stand the expressions, with their number in front.
pub proof fn law_element_expressions(
    kind: SegmentKindV,
    ty: RefType,
    es: Seq<OpsV>,
    m: IndexMapV,
    raw: Seq<u8>,
    t: Seq<u8>,
    x: Seq<u8>,
    e: Seq<u8>,
    j: u32,
)
    requires
        es.len() <= u32::MAX,
        ref_type_bytes(ty) == Ok::<Seq<u8>, Seq<char>>(raw),
        moved_type(m, raw) == Ok::<Seq<u8>, LinkErrorV>(t),
        all_encoded::<ConstExpr<'_>>(es, m, es.len() as int) == Ok::<Seq<u8>, LinkErrorV>(x),
    ensures
        ({
            let seg = segment_bytes(
                m,
                ElementV { kind, items: Ok(SegmentItemsV::Expressions(ty, es)) },
            );
            let items = leb(es.len()) + x;
            match kind {
                SegmentKindV::Passive => seg == Ok::<Seq<u8>, LinkErrorV>(seq![5u8] + t + items),
                SegmentKindV::Declared => seg == Ok::<Seq<u8>, LinkErrorV>(seq![7u8] + t + items),
                SegmentKindV::Active(k, offset) => moved_const(m, offset) == Ok::<
                    Seq<u8>,
                    LinkErrorV,
                >(e) ==> {
                    let named = match k {
                        Some(k) => k,
                        None => 0,
                    };
                    &&& k is None && m.side == Side::Shell && t == seq![0x70u8] ==> seg == Ok::<
                        Seq<u8>,
                        LinkErrorV,
                    >(seq![4u8] + e + items)
                    &&& (k is Some || m.side == Side::User) && m.table(named) == Ok::<
                        u32,
                        LinkErrorV,
                    >(j) ==> seg == Ok::<Seq<u8>, LinkErrorV>(
                        seq![6u8] + leb(j as nat) + e + t + items,
                    )
                },
            }
        }),
{
}

/// A table is written as its type; one whose places start with a value has two bytes in
/// front and the value behind. A memory is written as its type.
pub proof fn law_table_format(
    x: TableV,
    memory: MemoryType,
    m: IndexMapV,
    raw: Seq<u8>,
    t: Seq<u8>,
    v: Seq<u8>,
)
    requires
        table_type_bytes(x.ty) == Ok::<Seq<u8>, Seq<char>>(raw),
        moved_type(m, raw) == Ok::<Seq<u8>, LinkErrorV>(t),
    ensures
        x.init is None ==> <Table<'_> as Item>::encoded(x, m) == Ok::<Seq<u8>, LinkErrorV>(t),
        x.init is Some && moved_const(m, x.init->0) == Ok::<Seq<u8>, LinkErrorV>(v) ==> <Table<
            '_,
        > as Item>::encoded(x, m) == Ok::<Seq<u8>, LinkErrorV>(seq![0x40u8, 0u8] + t + v),
        <MemoryType as Item>::encoded(memory, m) == Ok::<Seq<u8>, LinkErrorV>(
            memory_type_bytes(memory),
        ),
{
    assert(seq![0x40u8] + seq![0u8] =~= seq![0x40u8, 0u8]);
}

/// The exports of the linked module are those of the shell, then those of the user module
/// that stay, then the aliases, with the number of all three in front.
pub proof fn law_exports_are_joined(p: PartsV, a: Seq<u8>, b: Seq<u8>, c: Seq<u8>)
    requires
        p.shell.exports.len() + p.user_exports.len() + p.aliases.len() <= u32::MAX,
        all_encoded::<Export>(p.shell.exports, p.sm, p.shell.exports.len() as int) == Ok::<
            Seq<u8>,
            LinkErrorV,
        >(a),
        all_encoded::<Export>(p.user_exports, p.um, p.user_exports.len() as int) == Ok::<
            Seq<u8>,
            LinkErrorV,
        >(b),
        all_encoded::<Export>(p.aliases, p.sm, p.aliases.len() as int) == Ok::<
            Seq<u8>,
            LinkErrorV,
        >(c),
    ensures
        exports_contents(p) == Ok::<Seq<u8>, LinkErrorV>(
            leb(p.shell.exports.len() + p.user_exports.len() + p.aliases.len()) + a + b + c,
        ),
{
}

/// Each section of a module fills its own list, in the order of the sections, and leaves
/// the other lists alone. A custom section is kept with the place of the section in front
/// of it; sections of other numbers are refused.
pub proof fn law_sections_fill_their_list(
    side: Side,
    m: ModuleV,
    id: u8,
    c: Seq<u8>,
    base: usize,
    n: ModuleV,
)
    requires
        with_section(side, m, id, c, base) == Ok::<ModuleV, LinkErrorV>(n),
    ensures
        id <= 12,
        n.types == (if id == 1 {
            m.types + parsed_types(c, base)->Ok_0
        } else {
            m.types
        }),
        n.imports == (if id == 2 {
            m.imports + parsed_imports(c, base)->Ok_0
        } else {
            m.imports
        }),
        n.functions == (if id == 3 {
            m.functions + parsed_functions(c, base)->Ok_0
        } else {
            m.functions
        }),
        n.tables == (if id == 4 {
            m.tables + parsed_tables(c, base)->Ok_0
        } else {
            m.tables
        }),
        n.memories == (if id == 5 {
            m.memories + parsed_memories(c, base)->Ok_0
        } else {
            m.memories
        }),
        n.globals == (if id == 6 {
            m.globals + parsed_globals(c, base)->Ok_0
        } else {
            m.globals
        }),
        n.exports == (if id == 7 {
            m.exports + parsed_exports(c, base)->Ok_0
        } else {
            m.exports
        }),
        n.start == (if id == 8 {
            Some(parsed_start(c, base)->Ok_0)
        } else {
            m.start
        }),
        n.elements == (if id == 9 {
            m.elements + parsed_elements(c, base)->Ok_0
        } else {
            m.elements
        }),
        n.bodies == (if id == 10 {
            m.bodies + parsed_bodies(c, base)->Ok_0
        } else {
            m.bodies
        }),
        n.data == (if id == 11 {
            m.data + parsed_data(c, base)->Ok_0
        } else {
            m.data
        }),
        n.customs == (if id == 0 {
            m.customs.push(CustomV { rank: m.rank, contents: c })
        } else {
            m.customs
        }),
{
}

/// A function in an element segment is named by its index in the merged module.
pub proof fn law_element_function(x: u32, m: IndexMapV, j: u32)
    requires
        m.func(x) == Ok::<u32, LinkErrorV>(j),
    ensures
        FuncRef::encoded(x, m) == Ok::<Seq<u8>, LinkErrorV>(leb(j as nat)),
{
}

/// A function body of the user module is its locals and then its instructions, with the
/// length of both in front; each declaration of locals keeps its number and type. A body of
/// the shell is kept byte for byte where nothing of the shell moves.
pub proof fn law_body_format(
    m: IndexMapV,
    body: Seq<u8>,
    l: Seq<u8>,
    o: Seq<u8>,
    n: u32,
    v: ValType,
)
    requires
        body.len() <= u32::MAX,
    ensures
        m.side == Side::Shell && m.func_base == 0 && m.global_shift == 0 ==> body_bytes(m, body)
            == Ok::<Seq<u8>, LinkErrorV>(leb(body.len()) + body),
        m.side == Side::User ==> (parsed_locals(body) matches Ok(locals) ==> parsed_operators(
            body,
        ) matches Ok(ops) ==> locals.len() <= u32::MAX && all_encoded::<(u32, ValType)>(
            locals,
            m,
            locals.len() as int,
        ) == Ok::<Seq<u8>, LinkErrorV>(l) && moved_ops(m, ops, ops.len() as int) == Ok::<
            Seq<u8>,
            LinkErrorV,
        >(o) && (leb(locals.len()) + l + o).len() <= u32::MAX ==> body_bytes(m, body) == Ok::<
            Seq<u8>,
            LinkErrorV,
        >(leb((leb(locals.len()) + l + o).len()) + (leb(locals.len()) + l + o))),
        val_type_bytes(v) matches Ok(b) ==> (b.len() == 0 || (b[0] != 0x63 && b[0] != 0x64))
            ==> <(u32, ValType)>::encoded((n, v), m) == Ok::<Seq<u8>, LinkErrorV>(
            leb(n as nat) + b,
        ),
{
}

/// An imported helper is a function that the shell exports under that name, the last
/// one of several; one that the shell does not export is refused.
pub proof fn law_helpers_are_found_by_name(exports: Seq<ExportV>, name: Seq<char>, n: int)
    requires
        0 <= n <= exports.len(),
    ensures
        match helper(exports, name, n) {
            Some(f) => exists|i: int|
                0 <= i < n && (#[trigger] exports[i]).kind == ExportKind::Func && exports[i].name
                    == name && exports[i].index == f && forall|k: int|
                    i < k < n && (#[trigger] exports[k]).kind == ExportKind::Func
                        ==> exports[k].name != name,
            None => forall|i: int|
                0 <= i < n && (#[trigger] exports[i]).kind == ExportKind::Func ==> exports[i].name
                    != name,
        },
    decreases n,
{
    if n > 0 {
        if exports[n - 1].kind == ExportKind::Func && exports[n - 1].name == name {
            assert(exports[n - 1].index == helper(exports, name, n)->0);
        } else {
            law_helpers_are_found_by_name(exports, name, n - 1);
        }
    }
}

/// How many of the first `n` imports are functions.
pub open spec fn functions_among(imports: Seq<ImportV>, n: int) -> nat
    decreases n,
{
    if n <= 0 {
        0
    } else {
        functions_among(imports, n - 1) + (if imports[n - 1].ty is Func {
            1nat
        } else {
            0
        })
    }
}

/// The imported functions of the user module keep their order: the one at index `i` is the
/// helper of the shell by its name where it is imported from `tvm_mm`, and a forwarded
/// import otherwise.
pub proof fn law_imports_are_resolved(
    exports: Seq<ExportV>,
    imports: Seq<ImportV>,
    n: int,
    i: int,
    p: PlanV,
)
    requires
        0 <= i < n <= imports.len(),
        imports[i].ty is Func,
        plan_of(exports, imports, n) == Ok::<PlanV, LinkErrorV>(p),
    ensures
        functions_among(imports, i) < p.targets.len(),
        p.targets.len() == functions_among(imports, n),
        ({
            let t = p.targets[functions_among(imports, i) as int];
            if imports[i].module == "tvm_mm"@ {
                helper(exports, imports[i].name, exports.len() as int) is Some && t
                    == Target::Shell(
                    helper(exports, imports[i].name, exports.len() as int)->0,
                )
            } else {
                t is Forwarded
            }
        }),
    decreases n,
{
    lemma_targets_counted(exports, imports, n - 1);
    if i < n - 1 {
        let q = plan_of(exports, imports, n - 1)->Ok_0;
        law_imports_are_resolved(exports, imports, n - 1, i, q);
        assert(p.targets[functions_among(imports, i) as int] == q.targets[functions_among(
            imports,
            i,
        ) as int]);
    }
    assert(helper_module() == "tvm_mm"@);
}

proof fn lemma_targets_counted(exports: Seq<ExportV>, imports: Seq<ImportV>, n: int)
    requires
        0 <= n <= imports.len(),
    ensures
        plan_of(exports, imports, n) matches Ok(p) ==> p.targets.len() == functions_among(
            imports,
            n,
        ),
    decreases n,
{
    if n > 0 {
        lemma_targets_counted(exports, imports, n - 1);
    }
}

/// Of the user module's exports all stay, in their order, but for its memories and the
/// three names that the compiler's runtime uses for itself.
pub proof fn law_user_exports_that_stay(exports: Seq<ExportV>, x: ExportV)
    ensures
        export_stays(x) <==> x.kind != ExportKind::Memory && x.name != "__data_end"@ && x.name
            != "__heap_base"@ && x.name != "__indirect_function_table"@,
        staying(exports, exports.len() as int) == exports.filter(|e: ExportV| export_stays(e)),
{
    lemma_staying(exports, exports.len() as int);
    assert(exports.subrange(0, exports.len() as int) =~= exports);
}

proof fn lemma_staying(exports: Seq<ExportV>, n: int)
    requires
        0 <= n <= exports.len(),
    ensures
        staying(exports, n) == exports.subrange(0, n).filter(|e: ExportV| export_stays(e)),
    decreases n,
{
    reveal(Seq::filter);
    let f = |e: ExportV| export_stays(e);
    if n > 0 {
        lemma_staying(exports, n - 1);
        let s = exports.subrange(0, n);
        assert(s.drop_last() =~= exports.subrange(0, n - 1));
        assert(s.last() == exports[n - 1]);
    } else {
        assert(exports.subrange(0, 0).filter(f) =~= Seq::<ExportV>::empty());
    }
}

/// Every alias becomes an export of the memory that it names, under its own name. One that
/// names a memory that is not there, or a name that is taken, is refused.
pub proof fn law_aliases_name_memories(
    aliases: Seq<(Seq<char>, u32)>,
    memories: nat,
    taken: Seq<ExportV>,
    n: int,
    i: int,
)
    requires
        0 <= i < n <= aliases.len(),
    ensures
        alias_exports(aliases, memories, taken, n) matches Ok(s) ==> {
            &&& s.len() == n
            &&& s[i].name == aliases[i].0
            &&& s[i].kind == ExportKind::Memory
            &&& s[i].index == aliases[i].1
            &&& aliases[i].1 < memories
            &&& forall|k: int| 0 <= k < taken.len() ==> (#[trigger] taken[k]).name != aliases[i].0
            &&& forall|k: int|
                0 <= k < n && k != i ==> (#[trigger] aliases[k]).0 != aliases[i].0
        },
        aliases[i].1 >= memories ==> alias_exports(aliases, memories, taken, n) is Err,
    decreases n,
{
    if let Ok(s) = alias_exports(aliases, memories, taken, n) {
        lemma_aliases(aliases, memories, taken, n);
        assert forall|k: int| 0 <= k < n && k != i implies (#[trigger] aliases[k]).0
            != aliases[i].0 by {
            if k < i {
                lemma_alias_new(aliases, memories, taken, n, k, i);
            } else {
                lemma_alias_new(aliases, memories, taken, n, i, k);
            }
        }
        lemma_alias_new(aliases, memories, taken, n, i, i);
    } else if i < n - 1 {
        if alias_exports(aliases, memories, taken, n - 1) is Ok {
            law_aliases_name_memories(aliases, memories, taken, n - 1, i);
        }
    }
    if aliases[i].1 >= memories {
        if i < n - 1 {
            law_aliases_name_memories(aliases, memories, taken, n - 1, i);
        }
    }
}

proof fn lemma_aliases(
    aliases: Seq<(Seq<char>, u32)>,
    memories: nat,
    taken: Seq<ExportV>,
    n: int,
)
    requires
        0 <= n <= aliases.len(),
        alias_exports(aliases, memories, taken, n) is Ok,
    ensures
        ({
            let s = alias_exports(aliases, memories, taken, n)->Ok_0;
            &&& s.len() == n
            &&& forall|i: int|
                0 <= i < n ==> (#[trigger] s[i]) == (ExportV {
                    name: aliases[i].0,
                    kind: ExportKind::Memory,
                    index: aliases[i].1,
                }) && aliases[i].1 < memories
        }),
    decreases n,
{
    if n > 0 {
        lemma_aliases(aliases, memories, taken, n - 1);
    }
}

proof fn lemma_alias_new(
    aliases: Seq<(Seq<char>, u32)>,
    memories: nat,
    taken: Seq<ExportV>,
    n: int,
    k: int,
    i: int,
)
    requires
        0 <= k <= i < n <= aliases.len(),
        alias_exports(aliases, memories, taken, n) is Ok,
    ensures
        k < i ==> aliases[k].0 != aliases[i].0,
        forall|t: int| 0 <= t < taken.len() ==> (#[trigger] taken[t]).name != aliases[i].0,
    decreases n,
{
    if i < n - 1 {
        lemma_alias_new(aliases, memories, taken, n - 1, k, i);
    } else {
        lemma_aliases(aliases, memories, taken, n - 1);
        let s = alias_exports(aliases, memories, taken, n - 1)->Ok_0;
        if k < i {
            assert(s[k].name == aliases[k].0);
        }
    }
}

} // verus!
