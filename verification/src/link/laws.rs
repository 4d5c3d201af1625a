//! What holds of every link.
use vstd::prelude::*;
use wasmparser::MemoryType;
use super::emit::{cat, BytesV, all_encoded, count_bytes, Item};
use super::error::{LinkErrorV, Side};
use super::linked;
use super::merge::{alias_exports, both_customs, customs_at, export_stays, exports_contents, helper_module, import_indices, merged, output, plan_of, section_at, shell_map, staying, user_map, PartsV, PlanV, Target};
use super::model::{Export, ExportV, ImportV};
use super::outside::{leb, module_header, parsed_sections, section_bytes, signed_leb};
use super::parse::{module_of, parts_of, CustomV, ModuleV};
use super::rewrite::{leb_len, leb_value, moved_type, IndexMapV};

verus! {

/// No import of a helper is left: everything that is forwarded comes from
/// another module.
pub proof fn law_no_helper_import_is_left(
    exports: Seq<ExportV>,
    imports: Seq<ImportV>,
    n: int,
    i: int,
)
    requires
        0 <= n <= imports.len(),
        plan_of(exports, imports, n) is Ok,
        0 <= i < plan_of(exports, imports, n)->Ok_0.forwarded.len(),
    ensures
        plan_of(exports, imports, n)->Ok_0.forwarded[i].module != helper_module(),
        imports.contains(plan_of(exports, imports, n)->Ok_0.forwarded[i]),
    decreases n,
{
    if n > 0 {
        let p = plan_of(exports, imports, n - 1)->Ok_0;
        let q = plan_of(exports, imports, n)->Ok_0;
        if i < p.forwarded.len() {
            law_no_helper_import_is_left(exports, imports, n - 1, i);
            assert(q.forwarded[i] == p.forwarded[i]);
        } else {
            assert(q.forwarded[i] == imports[n - 1]);
        }
    }
}

/// Every import that is not a helper is forwarded.
pub proof fn law_other_imports_are_forwarded(
    exports: Seq<ExportV>,
    imports: Seq<ImportV>,
    n: int,
    i: int,
)
    requires
        0 <= i < n <= imports.len(),
        plan_of(exports, imports, n) is Ok,
        imports[i].module != helper_module(),
    ensures
        plan_of(exports, imports, n)->Ok_0.forwarded.contains(imports[i]),
    decreases n,
{
    let p = plan_of(exports, imports, n - 1)->Ok_0;
    let q = plan_of(exports, imports, n)->Ok_0;
    if i < n - 1 {
        law_other_imports_are_forwarded(exports, imports, n - 1, i);
        let k = choose|k: int| 0 <= k < p.forwarded.len() && p.forwarded[k] == imports[i];
        assert(q.forwarded[k] == imports[i]);
    } else {
        assert(q.forwarded[p.forwarded.len() as int] == imports[i]);
    }
}

/// The forwarded functions are numbered from zero in the order of their imports.
proof fn lemma_forwarded_targets(exports: Seq<ExportV>, imports: Seq<ImportV>, n: int, i: int)
    requires
        0 <= n <= imports.len(),
        plan_of(exports, imports, n) is Ok,
        0 <= i < plan_of(exports, imports, n)->Ok_0.targets.len(),
    ensures
        plan_of(exports, imports, n)->Ok_0.targets[i] matches Target::Forwarded(k) ==> k < plan_of(
            exports,
            imports,
            n,
        )->Ok_0.funcs,
    decreases n,
{
    if n > 0 {
        let p = plan_of(exports, imports, n - 1)->Ok_0;
        let q = plan_of(exports, imports, n)->Ok_0;
        if i < p.targets.len() {
            lemma_forwarded_targets(exports, imports, n - 1, i);
            assert(q.targets[i] == p.targets[i]);
        }
    }
}

proof fn lemma_import_indices(targets: Seq<Target>, funcs: u32, n: int, i: int)
    requires
        0 <= i < n <= targets.len(),
        import_indices(targets, funcs, n) is Ok,
    ensures
        import_indices(targets, funcs, n)->Ok_0.len() == n,
        match targets[i] {
            Target::Forwarded(k) => import_indices(targets, funcs, n)->Ok_0[i] == k,
            Target::Shell(f) => import_indices(targets, funcs, n)->Ok_0[i] == f + funcs,
        },
    decreases n,
{
    if i < n - 1 {
        lemma_import_indices(targets, funcs, n - 1, i);
    } else if n > 1 {
        lemma_import_indices(targets, funcs, n - 1, 0);
    }
}

/// The function index space of the merged module: forwarded imports first, then
/// the shell's functions, then the user module's own. An imported helper is the
/// very function of the shell, wherever that went.
pub proof fn law_function_spaces(
    shell: ModuleV,
    imports: Seq<ImportV>,
    um: IndexMapV,
    plan: PlanV,
    i: u32,
)
    requires
        plan_of(shell.exports, imports, imports.len() as int) == Ok::<PlanV, LinkErrorV>(plan),
        user_map(shell, plan) == Ok::<IndexMapV, LinkErrorV>(um),
    ensures
        i < plan.targets.len() ==> match plan.targets[i as int] {
            Target::Forwarded(k) => um.func(i) == Ok::<u32, LinkErrorV>(k) && k < plan.funcs,
            Target::Shell(f) => um.func(i) == shell_map(plan.funcs as u32, plan.globals as u32).func(
                f,
            ),
        },
        i >= plan.targets.len() && um.func(i) is Ok ==> um.func(i)->Ok_0 == plan.funcs
            + shell.functions.len() + (i - plan.targets.len()),
        shell_map(plan.funcs as u32, plan.globals as u32).func(i) matches Ok(j) ==> j == plan.funcs
            + i,
{
    let n = plan.targets.len() as int;
    if n > 0 {
        lemma_import_indices(plan.targets, plan.funcs as u32, n, 0);
    }
    if i < plan.targets.len() {
        lemma_import_indices(plan.targets, plan.funcs as u32, n, i as int);
        lemma_forwarded_targets(shell.exports, imports, imports.len() as int, i as int);
    }
}

/// Two different functions of the user module's own never become one, and none
/// of them becomes a function of the shell or an import.
pub proof fn law_own_functions_stay_apart(
    shell: ModuleV,
    imports: Seq<ImportV>,
    um: IndexMapV,
    plan: PlanV,
    i: u32,
    j: u32,
)
    requires
        plan_of(shell.exports, imports, imports.len() as int) == Ok::<PlanV, LinkErrorV>(plan),
        user_map(shell, plan) == Ok::<IndexMapV, LinkErrorV>(um),
        plan.targets.len() <= i < j,
        um.func(j) is Ok,
    ensures
        um.func(i) is Ok,
        um.func(i)->Ok_0 < um.func(j)->Ok_0,
        um.func(i)->Ok_0 >= plan.funcs + shell.functions.len(),
{
    law_function_spaces(shell, imports, um, plan, i);
    law_function_spaces(shell, imports, um, plan, j);
    if plan.targets.len() > 0 {
        lemma_import_indices(plan.targets, plan.funcs as u32, plan.targets.len() as int, 0);
    }
}

/// Globals: the forwarded imports keep their place, the shell's follow, then
/// the user module's own.
pub proof fn law_global_spaces(shell: ModuleV, um: IndexMapV, plan: PlanV, i: u32)
    requires
        user_map(shell, plan) == Ok::<IndexMapV, LinkErrorV>(um),
        plan.globals <= u32::MAX,
    ensures
        i < plan.globals ==> um.global(i) == Ok::<u32, LinkErrorV>(i),
        i >= plan.globals && um.global(i) is Ok ==> um.global(i)->Ok_0 == i + shell.globals.len(),
        shell_map(plan.funcs as u32, plan.globals as u32).global(i) matches Ok(j) ==> j
            == plan.globals + i,
{
}

proof fn lemma_signed_leb_reads_back(n: nat, rest: Seq<u8>)
    ensures
        signed_leb(n).len() > 0,
        signed_leb(n)[0] < 0x40 || signed_leb(n)[0] >= 0x80,
        leb_value(signed_leb(n) + rest) == n,
        leb_len(signed_leb(n) + rest) == signed_leb(n).len(),
    decreases n,
{
    let b = signed_leb(n) + rest;
    if n >= 64 {
        lemma_signed_leb_reads_back(n / 128, rest);
        assert(b.skip(1) =~= signed_leb(n / 128) + rest);
    }
}

proof fn lemma_leb_reads_back(n: nat, rest: Seq<u8>)
    ensures
        leb(n).len() > 0,
        leb_value(leb(n) + rest) == n,
        leb_len(leb(n) + rest) == leb(n).len(),
    decreases n,
{
    let b = leb(n) + rest;
    if n >= 128 {
        lemma_leb_reads_back(n / 128, rest);
        assert(b.skip(1) =~= leb(n / 128) + rest);
    }
}

/// Types: the shell's keep their index and the user module's follow. A reference
/// to a type of the user module, nullable (`0x63`) or not (`0x64`), plain or exact,
/// names that very type in the merged module, and what follows it is kept.
pub proof fn law_type_spaces(
    shell: ModuleV,
    um: IndexMapV,
    plan: PlanV,
    i: u32,
    form: u8,
    rest: Seq<u8>,
)
    requires
        user_map(shell, plan) == Ok::<IndexMapV, LinkErrorV>(um),
        i + shell.types.len() <= u32::MAX,
        form == 0x63 || form == 0x64,
    ensures
        um.ty(i) == Ok::<u32, LinkErrorV>((i + shell.types.len()) as u32),
        moved_type(um, seq![form] + signed_leb(i as nat) + rest) == Ok::<Seq<u8>, LinkErrorV>(
            seq![form] + signed_leb((i + shell.types.len()) as nat) + rest,
        ),
        moved_type(um, seq![form, 0x62u8] + leb(i as nat) + rest) == Ok::<Seq<u8>, LinkErrorV>(
            seq![form] + signed_leb((i + shell.types.len()) as nat) + rest,
        ),
{
    let n = i as nat;
    let moved = signed_leb((i + shell.types.len()) as nat);
    lemma_signed_leb_reads_back(n, rest);
    lemma_leb_reads_back(n, rest);
    let plain = seq![form] + signed_leb(n) + rest;
    assert(plain.skip(1) =~= signed_leb(n) + rest);
    assert((signed_leb(n) + rest).skip(signed_leb(n).len() as int) =~= rest);
    assert(seq![form] + (moved + rest) =~= seq![form] + moved + rest);
    let exact = seq![form, 0x62u8] + leb(n) + rest;
    assert(exact.skip(1) =~= seq![0x62u8] + leb(n) + rest);
    assert(exact.skip(1).skip(1) =~= leb(n) + rest);
    assert((leb(n) + rest).skip(leb(n).len() as int) =~= rest);
}

/// With nothing forwarded the shell's own indices stay what they are.
pub proof fn law_shell_stays_put(i: u32)
    ensures
        shell_map(0, 0).func(i) == Ok::<u32, LinkErrorV>(i),
        shell_map(0, 0).global(i) == Ok::<u32, LinkErrorV>(i),
        shell_map(0, 0).ty(i) == Ok::<u32, LinkErrorV>(i),
        shell_map(0, 0).table(i) == Ok::<u32, LinkErrorV>(i),
        shell_map(0, 0).memory(i) == Ok::<u32, LinkErrorV>(i),
{
}

/// `part` stands somewhere in `whole`.
pub open spec fn occurs(part: Seq<u8>, whole: Seq<u8>) -> bool {
    exists|at: int|
        0 <= at && at + part.len() <= whole.len() && #[trigger] whole.subrange(
            at,
            at + part.len(),
        ) == part
}

proof fn lemma_occurs_in_cat(part: Seq<u8>, a: Seq<u8>, b: Seq<u8>)
    requires
        occurs(part, a) || occurs(part, b),
    ensures
        occurs(part, a + b),
{
    let c = a + b;
    if occurs(part, a) {
        let at = choose|at: int|
            0 <= at && at + part.len() <= a.len() && #[trigger] a.subrange(at, at + part.len())
                == part;
        assert(c.subrange(at, at + part.len()) =~= part);
    } else {
        let at = choose|at: int|
            0 <= at && at + part.len() <= b.len() && #[trigger] b.subrange(at, at + part.len())
                == part;
        assert(c.subrange(a.len() + at, a.len() + at + part.len()) =~= part) by {
            assert(forall|k: int|
                0 <= k < part.len() ==> c[a.len() + at + k] == #[trigger] b.subrange(
                    at,
                    at + part.len(),
                )[k]);
        }
    }
}

proof fn lemma_custom_in_place(customs: Seq<CustomV>, rank: u8, n: int, i: int)
    requires
        0 <= i < n <= customs.len(),
        customs[i].rank == rank,
        customs_at(customs, rank, n) is Ok,
    ensures
        occurs(section_bytes(0, customs[i].contents), customs_at(customs, rank, n)->Ok_0),
    decreases n,
{
    let part = section_bytes(0, customs[i].contents);
    if i == n - 1 {
        let before = customs_at(customs, rank, n - 1)->Ok_0;
        assert(part.subrange(0, 0int + part.len()) =~= part);
        assert(occurs(part, part));
        lemma_occurs_in_cat(part, before, part);
    } else {
        lemma_custom_in_place(customs, rank, n - 1, i);
        if customs[n - 1].rank == rank {
            let before = customs_at(customs, rank, n - 1)->Ok_0;
            let more = section_bytes(0, customs[n - 1].contents);
            lemma_occurs_in_cat(part, before, more);
        }
    }
}

proof fn lemma_output_has_customs(p: PartsV, rank: int, r: u8)
    requires
        0 <= r <= rank <= 12,
        output(p, rank) is Ok,
    ensures
        both_customs(p, r) is Ok,
    decreases rank,
{
    if r < rank {
        lemma_output_has_customs(p, rank - 1, r);
    }
}

proof fn lemma_custom_ranks(
    side: Side,
    bytes: Seq<u8>,
    sections: Seq<Option<(u8, usize, usize)>>,
    n: int,
)
    requires
        parts_of(side, bytes, sections, n) is Ok,
    ensures
        parts_of(side, bytes, sections, n)->Ok_0.rank <= 12,
        forall|i: int|
            0 <= i < parts_of(side, bytes, sections, n)->Ok_0.customs.len() ==> (
            #[trigger] parts_of(side, bytes, sections, n)->Ok_0.customs[i]).rank <= 12,
    decreases n,
{
    if n > 0 {
        lemma_custom_ranks(side, bytes, sections, n - 1);
    }
}

/// The parts that a link puts together.
pub open spec fn link_parts(shell: ModuleV, user: ModuleV, aliases: Seq<(Seq<char>, u32)>) -> PartsV {
    let plan = plan_of(shell.exports, user.imports, user.imports.len() as int)->Ok_0;
    let user_exports = staying(user.exports, user.exports.len() as int);
    PartsV {
        shell,
        user,
        sm: shell_map(plan.funcs as u32, plan.globals as u32),
        um: user_map(shell, plan)->Ok_0,
        forwarded: plan.forwarded,
        user_exports,
        aliases: alias_exports(
            aliases,
            shell.memories.len(),
            shell.exports + user_exports,
            aliases.len() as int,
        )->Ok_0,
    }
}

/// The merged module up to and with its section at place `rank`, without the
/// custom sections that stand there.
pub open spec fn upto_section(p: PartsV, rank: int) -> Seq<u8> {
    if rank <= 0 {
        module_header()
    } else {
        output(p, rank - 1)->Ok_0 + section_at(p, rank)->Ok_0
    }
}

/// In `whole`, `part` stands among the custom sections right behind the section
/// at place `rank`, and so before the section at the next place.
pub open spec fn stands_behind(p: PartsV, rank: u8, part: Seq<u8>, whole: Seq<u8>) -> bool {
    &&& occurs(part, both_customs(p, rank)->Ok_0)
    &&& exists|tail: Seq<u8>|
        whole == #[trigger] (upto_section(p, rank as int) + both_customs(p, rank)->Ok_0 + tail)
}

proof fn lemma_output_from(p: PartsV, r: u8, rank: int)
    requires
        0 <= r <= rank <= 12,
        output(p, rank) is Ok,
    ensures
        exists|tail: Seq<u8>|
            output(p, rank)->Ok_0 == #[trigger] (upto_section(p, r as int) + both_customs(
                p,
                r,
            )->Ok_0 + tail),
    decreases rank,
{
    let start = upto_section(p, r as int) + both_customs(p, r)->Ok_0;
    if r == rank {
        assert(output(p, rank)->Ok_0 =~= start + Seq::<u8>::empty());
    } else {
        lemma_output_from(p, r, rank - 1);
        let tail = choose|tail: Seq<u8>| output(p, rank - 1)->Ok_0 == #[trigger] (start + tail);
        let section = section_at(p, rank)->Ok_0;
        let customs = both_customs(p, rank as u8)->Ok_0;
        assert(output(p, rank)->Ok_0 =~= start + (tail + section + customs));
    }
}

proof fn lemma_custom_stands_behind(p: PartsV, i: int)
    requires
        output(p, 12) is Ok,
    ensures
        0 <= i < p.shell.customs.len() && p.shell.customs[i].rank <= 12 ==> stands_behind(
            p,
            p.shell.customs[i].rank,
            section_bytes(0, p.shell.customs[i].contents),
            output(p, 12)->Ok_0,
        ),
        0 <= i < p.user.customs.len() && p.user.customs[i].rank <= 12 ==> stands_behind(
            p,
            p.user.customs[i].rank,
            section_bytes(0, p.user.customs[i].contents),
            output(p, 12)->Ok_0,
        ),
{
    let n = p.shell.customs.len() as int;
    let k = p.user.customs.len() as int;
    if 0 <= i < n && p.shell.customs[i].rank <= 12 {
        let r = p.shell.customs[i].rank;
        lemma_output_has_customs(p, 12, r);
        lemma_custom_in_place(p.shell.customs, r, n, i);
        lemma_occurs_in_cat(
            section_bytes(0, p.shell.customs[i].contents),
            customs_at(p.shell.customs, r, n)->Ok_0,
            customs_at(p.user.customs, r, k)->Ok_0,
        );
        lemma_output_from(p, r, 12);
    }
    if 0 <= i < k && p.user.customs[i].rank <= 12 {
        let r = p.user.customs[i].rank;
        lemma_output_has_customs(p, 12, r);
        lemma_custom_in_place(p.user.customs, r, k, i);
        lemma_occurs_in_cat(
            section_bytes(0, p.user.customs[i].contents),
            customs_at(p.shell.customs, r, n)->Ok_0,
            customs_at(p.user.customs, r, k)->Ok_0,
        );
        lemma_output_from(p, r, 12);
    }
}

proof fn lemma_behind_occurs(p: PartsV, rank: u8, part: Seq<u8>, whole: Seq<u8>)
    requires
        stands_behind(p, rank, part, whole),
    ensures
        occurs(part, whole),
{
    let before = upto_section(p, rank as int);
    let customs = both_customs(p, rank)->Ok_0;
    let tail = choose|tail: Seq<u8>| whole == #[trigger] (before + customs + tail);
    lemma_occurs_in_cat(part, before, customs);
    lemma_occurs_in_cat(part, before + customs, tail);
}

/// Every custom section of either input stands in the linked module, byte for byte.
pub proof fn law_custom_sections_survive(
    shell: Seq<u8>,
    user: Seq<u8>,
    aliases: Seq<(Seq<char>, u32)>,
    i: int,
)
    requires
        linked(shell, user, aliases) is Ok,
    ensures
        ({
            let customs = module_of(Side::Shell, shell)->Ok_0.customs;
            0 <= i < customs.len() ==> occurs(
                section_bytes(0, customs[i].contents),
                linked(shell, user, aliases)->Ok_0,
            )
        }),
        ({
            let customs = module_of(Side::User, user)->Ok_0.customs;
            0 <= i < customs.len() ==> occurs(
                section_bytes(0, customs[i].contents),
                linked(shell, user, aliases)->Ok_0,
            )
        }),
{
    let s = module_of(Side::Shell, shell)->Ok_0;
    let u = module_of(Side::User, user)->Ok_0;
    let shell_sections = parsed_sections(shell)->Ok_0;
    let user_sections = parsed_sections(user)->Ok_0;
    lemma_custom_ranks(Side::Shell, shell, shell_sections, shell_sections.len() as int);
    lemma_custom_ranks(Side::User, user, user_sections, user_sections.len() as int);
    let p = link_parts(s, u, aliases);
    let out = output(p, 12)->Ok_0;
    lemma_custom_stands_behind(p, i);
    if 0 <= i < s.customs.len() {
        lemma_behind_occurs(p, s.customs[i].rank, section_bytes(0, s.customs[i].contents), out);
    }
    if 0 <= i < u.customs.len() {
        lemma_behind_occurs(p, u.customs[i].rank, section_bytes(0, u.customs[i].contents), out);
    }
}

/// Every custom section keeps its place: one that stood behind some section of
/// its input, such as the code, stands right behind that section of the linked module.
pub proof fn law_custom_sections_keep_place(
    shell: Seq<u8>,
    user: Seq<u8>,
    aliases: Seq<(Seq<char>, u32)>,
    i: int,
)
    requires
        linked(shell, user, aliases) is Ok,
    ensures
        ({
            let s = module_of(Side::Shell, shell)->Ok_0;
            let u = module_of(Side::User, user)->Ok_0;
            let p = link_parts(s, u, aliases);
            let out = linked(shell, user, aliases)->Ok_0;
            &&& 0 <= i < s.customs.len() ==> s.customs[i].rank <= 12 && stands_behind(
                p,
                s.customs[i].rank,
                section_bytes(0, s.customs[i].contents),
                out,
            )
            &&& 0 <= i < u.customs.len() ==> u.customs[i].rank <= 12 && stands_behind(
                p,
                u.customs[i].rank,
                section_bytes(0, u.customs[i].contents),
                out,
            )
        }),
{
    let s = module_of(Side::Shell, shell)->Ok_0;
    let u = module_of(Side::User, user)->Ok_0;
    let shell_sections = parsed_sections(shell)->Ok_0;
    let user_sections = parsed_sections(user)->Ok_0;
    lemma_custom_ranks(Side::Shell, shell, shell_sections, shell_sections.len() as int);
    lemma_custom_ranks(Side::User, user, user_sections, user_sections.len() as int);
    lemma_custom_stands_behind(link_parts(s, u, aliases), i);
}

/// The header and the sections up to place `rank`, with no custom section.
pub open spec fn sections_alone(p: PartsV, rank: int) -> BytesV
    decreases rank,
{
    if rank <= 0 {
        Ok(module_header())
    } else {
        cat(sections_alone(p, rank - 1), section_at(p, rank))
    }
}

proof fn lemma_sections_alone(p: PartsV, rank: int)
    requires
        p.shell.customs.len() == 0,
        p.user.customs.len() == 0,
        0 <= rank <= 12,
    ensures
        output(p, rank) == sections_alone(p, rank),
    decreases rank,
{
    assert(both_customs(p, rank as u8)->Ok_0 =~= Seq::<u8>::empty());
    if rank > 0 {
        lemma_sections_alone(p, rank - 1);
        if output(p, rank) is Ok {
            assert(output(p, rank)->Ok_0 =~= sections_alone(p, rank)->Ok_0);
        }
    } else {
        assert(output(p, 0)->Ok_0 =~= module_header());
    }
}

/// Where neither input has a custom section the linked module has none: it is
/// the header and the merged sections, and nothing else.
pub proof fn law_no_custom_section_is_added(
    shell: Seq<u8>,
    user: Seq<u8>,
    aliases: Seq<(Seq<char>, u32)>,
)
    requires
        linked(shell, user, aliases) is Ok,
        module_of(Side::Shell, shell)->Ok_0.customs.len() == 0,
        module_of(Side::User, user)->Ok_0.customs.len() == 0,
    ensures
        linked(shell, user, aliases) == sections_alone(
            link_parts(
                module_of(Side::Shell, shell)->Ok_0,
                module_of(Side::User, user)->Ok_0,
                aliases,
            ),
            12,
        ),
{
    let s = module_of(Side::Shell, shell)->Ok_0;
    let u = module_of(Side::User, user)->Ok_0;
    lemma_sections_alone(link_parts(s, u, aliases), 12);
}

proof fn lemma_section_in_output(p: PartsV, rank: int, part: Seq<u8>, r: int)
    requires
        1 <= r <= rank <= 12,
        output(p, rank) is Ok,
        section_at(p, r) is Ok ==> occurs(part, section_at(p, r)->Ok_0),
    ensures
        section_at(p, r) is Ok,
        occurs(part, output(p, rank)->Ok_0),
    decreases rank,
{
    let before = output(p, rank - 1)->Ok_0;
    let section = section_at(p, rank)->Ok_0;
    let customs = both_customs(p, rank as u8)->Ok_0;
    if r < rank {
        lemma_section_in_output(p, rank - 1, part, r);
    }
    lemma_occurs_in_cat(part, before, section);
    lemma_occurs_in_cat(part, before + section, customs);
}

proof fn lemma_item_in_all<T: Item>(items: Seq<T::Model>, m: IndexMapV, n: int, i: int)
    requires
        0 <= i < n <= items.len(),
        all_encoded::<T>(items, m, n) is Ok,
    ensures
        T::encoded(items[i], m) is Ok,
        occurs(T::encoded(items[i], m)->Ok_0, all_encoded::<T>(items, m, n)->Ok_0),
    decreases n,
{
    let part = T::encoded(items[i], m)->Ok_0;
    let before = all_encoded::<T>(items, m, n - 1)->Ok_0;
    let last = T::encoded(items[n - 1], m)->Ok_0;
    if i < n - 1 {
        lemma_item_in_all::<T>(items, m, n - 1, i);
    } else {
        assert(part.subrange(0, 0int + part.len()) =~= part);
        assert(occurs(part, last));
    }
    lemma_occurs_in_cat(part, before, last);
}

proof fn lemma_stays(exports: Seq<ExportV>, n: int, i: int) -> (k: int)
    requires
        0 <= i < n <= exports.len(),
        export_stays(exports[i]),
    ensures
        0 <= k < staying(exports, n).len(),
        staying(exports, n)[k] == exports[i],
    decreases n,
{
    if i < n - 1 {
        lemma_stays(exports, n - 1, i)
    } else {
        staying(exports, n).len() - 1
    }
}

/// Every export of the user module stands in the merged module under its own name,
/// but for memories and the linker's own bookkeeping, and names the thing that it
/// named, wherever that went.
pub proof fn law_user_exports_survive(
    shell: ModuleV,
    user: ModuleV,
    aliases: Seq<(Seq<char>, u32)>,
    i: int,
)
    requires
        merged(shell, user, aliases) is Ok,
        0 <= i < user.exports.len(),
        export_stays(user.exports[i]),
    ensures
        ({
            let um = link_parts(shell, user, aliases).um;
            &&& Export::encoded(user.exports[i], um) is Ok
            &&& occurs(
                Export::encoded(user.exports[i], um)->Ok_0,
                merged(shell, user, aliases)->Ok_0,
            )
        }),
{
    let p = link_parts(shell, user, aliases);
    let x = user.exports[i];
    let n = p.user_exports.len() as int;
    let k = lemma_stays(user.exports, user.exports.len() as int, i);
    lemma_output_has_section(p, 12, 7);
    let mine = all_encoded::<Export>(p.user_exports, p.um, n)->Ok_0;
    lemma_item_in_all::<Export>(p.user_exports, p.um, n, k);
    let part = Export::encoded(x, p.um)->Ok_0;
    let head = count_bytes(p.shell.exports.len() + p.user_exports.len() + p.aliases.len())->Ok_0;
    let theirs = all_encoded::<Export>(p.shell.exports, p.sm, p.shell.exports.len() as int)->Ok_0;
    let extra = all_encoded::<Export>(p.aliases, p.sm, p.aliases.len() as int)->Ok_0;
    lemma_occurs_in_cat(part, head + theirs, mine);
    lemma_occurs_in_cat(part, head + theirs + mine, extra);
    let contents = exports_contents(p)->Ok_0;
    assert(contents == head + theirs + mine + extra);
    let front = seq![7u8] + leb(contents.len());
    lemma_occurs_in_cat(part, front, contents);
    assert(section_bytes(7, contents) == front + contents);
    lemma_section_in_output(p, 12, part, 7);
}

proof fn lemma_output_has_section(p: PartsV, rank: int, r: int)
    requires
        1 <= r <= rank <= 12,
        output(p, rank) is Ok,
    ensures
        section_at(p, r) is Ok,
    decreases rank,
{
    if r < rank {
        lemma_output_has_section(p, rank - 1, r);
    }
}

proof fn lemma_output_without_memories(p: PartsV, memories: Seq<MemoryType>, rank: int)
    requires
        rank <= 12,
    ensures
        output(PartsV { user: ModuleV { memories, ..p.user }, ..p }, rank) == output(p, rank),
    decreases rank,
{
    if rank > 0 {
        lemma_output_without_memories(p, memories, rank - 1);
    }
}

/// The memories that the user module declares are dropped: the merged module does
/// not depend on them.
pub proof fn law_user_memories_are_dropped(
    shell: ModuleV,
    user: ModuleV,
    aliases: Seq<(Seq<char>, u32)>,
    memories: Seq<MemoryType>,
)
    ensures
        merged(shell, ModuleV { memories, ..user }, aliases) == merged(shell, user, aliases),
{
    lemma_output_without_memories(link_parts(shell, user, aliases), memories, 12);
}

/// A module with imports is refused as a shell, and a user module with a start
/// function is refused.
pub proof fn law_refusals(shell: ModuleV, user: ModuleV, aliases: Seq<(Seq<char>, u32)>)
    ensures
        shell.imports.len() > 0 ==> merged(shell, user, aliases) is Err,
        user.start is Some ==> merged(shell, user, aliases) is Err,
{
}

} // verus!
