//! What holds of the instructions of a linked module: which ones the user may use,
//! that those without an index come through as they are, and that every index names in
//! the merged module the thing that it named before.
use vstd::prelude::*;
use super::error::{LinkErrorV, Side};
use super::merge::{user_map, PlanV};
use super::model::{BlockOp, CallOp, MemoryOp, OpKindV, OpV, OpsV, TableOp};
use super::outside::{leb, signed_leb};
use super::parse::ModuleV;
use super::rewrite::{moved_const, moved_op, moved_ops, IndexMapV};

verus! {

/// The instructions that user code may use, by opcode, without those that name an
/// index: unreachable, nop, block, loop, if and else; end, br, br_if, br_table and return;
/// drop and select; local.get, local.set and local.tee; loads and stores; constants;
/// comparisons and arithmetic of integers; i32.wrap_i64 and the two i64.extend_i32; and
/// sign extension.
pub open spec fn user_may_use(opcode: u8) -> bool {
    ||| 0x00 <= opcode <= 0x05
    ||| 0x0b <= opcode <= 0x0f
    ||| opcode == 0x1a || opcode == 0x1b
    ||| opcode == 0x20 || opcode == 0x21 || opcode == 0x22
    ||| 0x28 <= opcode <= 0x3e
    ||| 0x41 <= opcode <= 0x44
    ||| 0x45 <= opcode <= 0x5a
    ||| 0x67 <= opcode <= 0x8a
    ||| opcode == 0xa7 || opcode == 0xac || opcode == 0xad
    ||| 0xc0 <= opcode <= 0xc4
}

/// An instruction of user code without an index comes through byte for byte, but for
/// the type of a block.
pub proof fn law_plain_instructions_are_kept(m: IndexMapV, op: OpV, b: Seq<u8>)
    requires
        m.side == Side::User,
        op.kind == OpKindV::Plain(Ok(b)),
        b.len() > 0,
        user_may_use(b[0]),
        b[0] < 0x02 || b[0] > 0x04,
    ensures
        moved_op(m, op) == Ok::<Seq<u8>, LinkErrorV>(b),
{
}

/// The start of a block of user code comes through byte for byte where the block has no
/// result, or one that is not a reference to a type of the module.
pub proof fn law_plain_blocks_are_kept(m: IndexMapV, op: OpV, b: Seq<u8>)
    requires
        m.side == Side::User,
        op.kind == OpKindV::Plain(Ok(b)),
        b.len() > 1,
        0x02 <= b[0] <= 0x04,
        b[1] != 0x63 && b[1] != 0x64,
    ensures
        moved_op(m, op) == Ok::<Seq<u8>, LinkErrorV>(b),
{
    assert(seq![b[0]] + b.skip(1) =~= b);
}

/// An instruction of user code that is not among those it may use is refused, with its
/// text.
pub proof fn law_other_instructions_are_refused(m: IndexMapV, op: OpV, b: Seq<u8>)
    requires
        m.side == Side::User,
        op.kind == OpKindV::Plain(Ok(b)),
        b.len() > 0,
        !user_may_use(b[0]),
    ensures
        moved_op(m, op) == Err::<Seq<u8>, LinkErrorV>(LinkErrorV::UnsupportedOperator(op.text)),
{
}

/// An instruction of the shell without an index comes through byte for byte. The one
/// exception are the atomic accesses to globals, where the shell's globals move.
pub proof fn law_shell_instructions_are_kept(m: IndexMapV, op: OpV, b: Seq<u8>)
    requires
        m.side == Side::Shell,
        op.kind == OpKindV::Plain(Ok(b)),
        m.global_shift == 0 || b.len() < 2 || b[0] != 0xfe || b[1] < 0x4f || b[1] > 0x57,
    ensures
        moved_op(m, op) == Ok::<Seq<u8>, LinkErrorV>(b),
{
}

/// A call, a reference to a function or an access to a global stays what it is and names
/// the index that its function or global has in the merged module. A call through table
/// `t`, which becomes `u`, names the new index of its type too.
pub proof fn law_calls_follow_their_index(
    m: IndexMapV,
    text: Seq<char>,
    i: u32,
    j: u32,
    t: u32,
    u: u32,
)
    ensures
        m.func(i) == Ok::<u32, LinkErrorV>(j) ==> {
            &&& moved_op(m, OpV { kind: OpKindV::Call(CallOp::Call(i)), text }) == Ok::<
                Seq<u8>,
                LinkErrorV,
            >(seq![0x10u8] + leb(j as nat))
            &&& moved_op(m, OpV { kind: OpKindV::Call(CallOp::ReturnCall(i)), text }) == Ok::<
                Seq<u8>,
                LinkErrorV,
            >(seq![0x12u8] + leb(j as nat))
            &&& moved_op(m, OpV { kind: OpKindV::Call(CallOp::RefFunc(i)), text }) == Ok::<
                Seq<u8>,
                LinkErrorV,
            >(seq![0xd2u8] + leb(j as nat))
        },
        m.global(i) == Ok::<u32, LinkErrorV>(j) ==> {
            &&& moved_op(m, OpV { kind: OpKindV::Call(CallOp::GlobalGet(i)), text }) == Ok::<
                Seq<u8>,
                LinkErrorV,
            >(seq![0x23u8] + leb(j as nat))
            &&& moved_op(m, OpV { kind: OpKindV::Call(CallOp::GlobalSet(i)), text }) == Ok::<
                Seq<u8>,
                LinkErrorV,
            >(seq![0x24u8] + leb(j as nat))
        },
        m.table(t) == Ok::<u32, LinkErrorV>(u) && m.ty(i) == Ok::<u32, LinkErrorV>(j) ==> {
            &&& moved_op(m, OpV { kind: OpKindV::Call(CallOp::CallIndirect(i, t)), text })
                == Ok::<Seq<u8>, LinkErrorV>(seq![0x11u8] + leb(j as nat) + leb(u as nat))
            &&& moved_op(m, OpV { kind: OpKindV::Call(CallOp::ReturnCallIndirect(i, t)), text })
                == Ok::<Seq<u8>, LinkErrorV>(seq![0x13u8] + leb(j as nat) + leb(u as nat))
        },
{
}

/// An instruction on tables or element segments stays what it is and names the indices
/// that they have in the merged module: `t` becomes `u`, `v` becomes `w`, and segment `e`
/// becomes `f`.
pub proof fn law_table_instructions_follow_their_index(
    m: IndexMapV,
    text: Seq<char>,
    t: u32,
    u: u32,
    v: u32,
    w: u32,
    e: u32,
    f: u32,
)
    requires
        m.table(t) == Ok::<u32, LinkErrorV>(u),
        m.table(v) == Ok::<u32, LinkErrorV>(w),
        m.elem(e) == Ok::<u32, LinkErrorV>(f),
    ensures
        moved_op(m, OpV { kind: OpKindV::Table(TableOp::Load(t)), text }) == Ok::<
            Seq<u8>,
            LinkErrorV,
        >(seq![0x25u8] + leb(u as nat)),
        moved_op(m, OpV { kind: OpKindV::Table(TableOp::Store(t)), text }) == Ok::<
            Seq<u8>,
            LinkErrorV,
        >(seq![0x26u8] + leb(u as nat)),
        moved_op(m, OpV { kind: OpKindV::Table(TableOp::Size(t)), text }) == Ok::<
            Seq<u8>,
            LinkErrorV,
        >(seq![0xfcu8, 0x10u8] + leb(u as nat)),
        moved_op(m, OpV { kind: OpKindV::Table(TableOp::Grow(t)), text }) == Ok::<
            Seq<u8>,
            LinkErrorV,
        >(seq![0xfcu8, 0x0fu8] + leb(u as nat)),
        moved_op(m, OpV { kind: OpKindV::Table(TableOp::Fill(t)), text }) == Ok::<
            Seq<u8>,
            LinkErrorV,
        >(seq![0xfcu8, 0x11u8] + leb(u as nat)),
        moved_op(m, OpV { kind: OpKindV::Table(TableOp::Copy(t, v)), text }) == Ok::<
            Seq<u8>,
            LinkErrorV,
        >(seq![0xfcu8, 0x0eu8] + leb(u as nat) + leb(w as nat)),
        moved_op(m, OpV { kind: OpKindV::Table(TableOp::Init(e, t)), text }) == Ok::<
            Seq<u8>,
            LinkErrorV,
        >(seq![0xfcu8, 0x0cu8] + leb(f as nat) + leb(u as nat)),
        moved_op(m, OpV { kind: OpKindV::Table(TableOp::ElemDrop(e)), text }) == Ok::<
            Seq<u8>,
            LinkErrorV,
        >(seq![0xfcu8, 0x0du8] + leb(f as nat)),
{
}

/// An instruction on a whole memory stays what it is. In user code it may name the
/// first memory alone, which is the shell's first one; data segment `d` becomes `f`.
pub proof fn law_memory_instructions_keep_memory(
    m: IndexMapV,
    text: Seq<char>,
    a: u32,
    b: u32,
    d: u32,
    f: u32,
)
    requires
        m.data(d) == Ok::<u32, LinkErrorV>(f),
    ensures
        m.side == Side::Shell || (a == 0 && b == 0) ==> {
            &&& moved_op(m, OpV { kind: OpKindV::Memory(MemoryOp::Size(a)), text }) == Ok::<
                Seq<u8>,
                LinkErrorV,
            >(seq![0x3fu8] + leb(a as nat))
            &&& moved_op(m, OpV { kind: OpKindV::Memory(MemoryOp::Grow(a)), text }) == Ok::<
                Seq<u8>,
                LinkErrorV,
            >(seq![0x40u8] + leb(a as nat))
            &&& moved_op(m, OpV { kind: OpKindV::Memory(MemoryOp::Fill(a)), text }) == Ok::<
                Seq<u8>,
                LinkErrorV,
            >(seq![0xfcu8, 0x0bu8] + leb(a as nat))
            &&& moved_op(m, OpV { kind: OpKindV::Memory(MemoryOp::Copy(a, b)), text }) == Ok::<
                Seq<u8>,
                LinkErrorV,
            >(seq![0xfcu8, 0x0au8] + leb(a as nat) + leb(b as nat))
            &&& moved_op(m, OpV { kind: OpKindV::Memory(MemoryOp::Init(a, d)), text }) == Ok::<
                Seq<u8>,
                LinkErrorV,
            >(seq![0xfcu8, 0x08u8] + leb(f as nat) + leb(a as nat))
        },
        moved_op(m, OpV { kind: OpKindV::Memory(MemoryOp::DataDrop(d)), text }) == Ok::<
            Seq<u8>,
            LinkErrorV,
        >(seq![0xfcu8, 0x09u8] + leb(f as nat)),
        m.side == Side::User && a != 0 ==> {
            &&& moved_op(m, OpV { kind: OpKindV::Memory(MemoryOp::Size(a)), text }) is Err
            &&& moved_op(m, OpV { kind: OpKindV::Memory(MemoryOp::Grow(a)), text }) is Err
            &&& moved_op(m, OpV { kind: OpKindV::Memory(MemoryOp::Fill(a)), text }) is Err
            &&& moved_op(m, OpV { kind: OpKindV::Memory(MemoryOp::Copy(a, b)), text }) is Err
            &&& moved_op(m, OpV { kind: OpKindV::Memory(MemoryOp::Copy(b, a)), text }) is Err
            &&& moved_op(m, OpV { kind: OpKindV::Memory(MemoryOp::Init(a, d)), text }) is Err
        },
{
}

/// The start of a block of a function type stays what it is and names the index that
/// the type has in the merged module.
pub proof fn law_typed_blocks_follow_their_type(m: IndexMapV, text: Seq<char>, i: u32, j: u32)
    requires
        m.ty(i) == Ok::<u32, LinkErrorV>(j),
    ensures
        moved_op(m, OpV { kind: OpKindV::Block(BlockOp::Block(i)), text }) == Ok::<
            Seq<u8>,
            LinkErrorV,
        >(seq![0x02u8] + signed_leb(j as nat)),
        moved_op(m, OpV { kind: OpKindV::Block(BlockOp::Loop(i)), text }) == Ok::<
            Seq<u8>,
            LinkErrorV,
        >(seq![0x03u8] + signed_leb(j as nat)),
        moved_op(m, OpV { kind: OpKindV::Block(BlockOp::If(i)), text }) == Ok::<
            Seq<u8>,
            LinkErrorV,
        >(seq![0x04u8] + signed_leb(j as nat)),
{
}

/// Tables, element segments, data segments and types of the user module stand behind
/// those of the shell, in their own order.
pub proof fn law_other_spaces(shell: ModuleV, um: IndexMapV, plan: PlanV, i: u32)
    requires
        user_map(shell, plan) == Ok::<IndexMapV, LinkErrorV>(um),
    ensures
        um.side == Side::User,
        i + shell.tables.len() <= u32::MAX ==> um.table(i) == Ok::<u32, LinkErrorV>(
            (i + shell.tables.len()) as u32,
        ),
        i + shell.elements.len() <= u32::MAX ==> um.elem(i) == Ok::<u32, LinkErrorV>(
            (i + shell.elements.len()) as u32,
        ),
        i + shell.data.len() <= u32::MAX ==> um.data(i) == Ok::<u32, LinkErrorV>(
            (i + shell.data.len()) as u32,
        ),
        i + shell.types.len() <= u32::MAX ==> um.ty(i) == Ok::<u32, LinkErrorV>(
            (i + shell.types.len()) as u32,
        ),
{
}

/// The instructions of a body keep their order: the code of two runs of instructions
/// is the code of the first and then that of the second, and it fails where either does.
pub proof fn law_instructions_keep_order(m: IndexMapV, a: Seq<OpV>, b: Seq<OpV>)
    ensures
        moved_ops(m, a, a.len() as int) is Ok && moved_ops(m, b, b.len() as int) is Ok
            ==> moved_ops(m, a + b, (a + b).len() as int) == Ok::<Seq<u8>, LinkErrorV>(
            moved_ops(m, a, a.len() as int)->Ok_0 + moved_ops(m, b, b.len() as int)->Ok_0,
        ),
        moved_ops(m, a, a.len() as int) is Err || moved_ops(m, b, b.len() as int) is Err
            ==> moved_ops(m, a + b, (a + b).len() as int) is Err,
        a.len() == 1 ==> moved_ops(m, a, 1) == moved_op(m, a[0]),
    decreases b.len(),
{
    let all = a + b;
    if b.len() == 0 {
        assert(all =~= a);
        if moved_ops(m, a, a.len() as int) is Ok {
            let x = moved_ops(m, a, a.len() as int)->Ok_0;
            assert(x + Seq::<u8>::empty() =~= x);
        }
    } else {
        let c = b.drop_last();
        law_instructions_keep_order(m, a, c);
        lemma_prefix(m, all, a + c, (a + c).len() as int);
        lemma_prefix(m, b, c, c.len() as int);
        assert(all[all.len() - 1] == b[b.len() - 1]);
        if moved_ops(m, a, a.len() as int) is Ok && moved_ops(m, b, b.len() as int) is Ok {
            let x = moved_ops(m, a, a.len() as int)->Ok_0;
            let y = moved_ops(m, c, c.len() as int)->Ok_0;
            let z = moved_op(m, b[b.len() - 1])->Ok_0;
            assert(x + (y + z) =~= (x + y) + z);
        }
    }
    if a.len() == 1 {
        reveal_with_fuel(moved_ops, 3);
        if moved_op(m, a[0]) is Ok {
            let x = moved_op(m, a[0])->Ok_0;
            assert(Seq::<u8>::empty() + x =~= x);
        }
    }
}

proof fn lemma_prefix(m: IndexMapV, long: Seq<OpV>, short: Seq<OpV>, n: int)
    requires
        0 <= n <= short.len() <= long.len(),
        forall|i: int| 0 <= i < short.len() ==> long[i] == #[trigger] short[i],
    ensures
        moved_ops(m, long, n) == moved_ops(m, short, n),
    decreases n,
{
    if n > 0 {
        lemma_prefix(m, long, short, n - 1);
        assert(long[n - 1] == short[n - 1]);
    }
}

/// A constant expression of a number comes through byte for byte with its end; one of
/// a function or a global names the index that it has in the merged module; anything
/// longer, and any other first instruction, is refused.
pub proof fn law_constants_are_kept(m: IndexMapV, ops: OpsV, v: OpV, end: OpV)
    requires
        ops matches Ok(s) && s.len() >= 2 && s[0] == v && s[1] == end,
    ensures
        end.kind != OpKindV::Plain(Ok(seq![0x0bu8])) ==> moved_const(m, ops) is Err,
        end.kind == OpKindV::Plain(Ok(seq![0x0bu8])) ==> match v.kind {
            OpKindV::Plain(Ok(b)) => {
                &&& b.len() > 0 && 0x41 <= b[0] <= 0x44 ==> moved_const(m, ops) == Ok::<
                    Seq<u8>,
                    LinkErrorV,
                >(b.push(0x0b))
                &&& b.len() > 1 && b[0] == 0xd0 && 0x40 <= b[1] < 0x80 && b[1] != 0x62
                    ==> moved_const(m, ops) == Ok::<Seq<u8>, LinkErrorV>(b.push(0x0b))
                &&& b.len() == 0 || !(0x41 <= b[0] <= 0x44 || b[0] == 0xd0) ==> moved_const(m, ops)
                    is Err
            },
            OpKindV::Call(CallOp::RefFunc(i)) => m.func(i) matches Ok(j) ==> moved_const(m, ops)
                == Ok::<Seq<u8>, LinkErrorV>((seq![0xd2u8] + leb(j as nat)).push(0x0b)),
            OpKindV::Call(CallOp::GlobalGet(i)) => m.global(i) matches Ok(j) ==> moved_const(m, ops)
                == Ok::<Seq<u8>, LinkErrorV>((seq![0x23u8] + leb(j as nat)).push(0x0b)),
            _ => moved_const(m, ops) is Err,
        },
{
    if let OpKindV::Plain(Ok(b)) = v.kind {
        if b.len() > 0 {
            assert(seq![b[0]] + b.skip(1) =~= b);
        }
    }
}

} // verus!
