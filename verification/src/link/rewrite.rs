//! Moving instructions and constant expressions into the index spaces of the
//! merged module.
use vstd::prelude::*;
use wasmparser::{ConstExpr, Operator};
use super::error::{seen_bytes, LinkError, LinkErrorV, Side};
use super::model::{BlockOp, CallOp, MemoryOp, MemoryUse, OpKindV, OpV, OpsV, TableOp};
use super::outside::{as_block_op, as_call_op, as_memory_op, as_table_op, block_op_bytes, call_op_bytes, const_operators, encode_block_op, encode_call_op, encode_memory_op, encode_operator, encode_table_op, memory_op_bytes, operator_model, operator_text, parse_const, signed_leb, table_op_bytes};

verus! {

/// How the indices of one input module move into the merged module.
pub struct IndexMap {
    pub side: Side,
    /// Where each imported function ends up.
    pub func_imports: Vec<u32>,
    /// Where the first defined function ends up.
    pub func_base: u32,
    /// Globals below this index keep it.
    pub globals_kept: u32,
    /// What is added to the index of every other global.
    pub global_shift: u32,
    pub type_shift: u32,
    pub table_shift: u32,
    pub elem_shift: u32,
    pub data_shift: u32,
}

pub struct IndexMapV {
    pub side: Side,
    pub func_imports: Seq<u32>,
    pub func_base: u32,
    pub globals_kept: u32,
    pub global_shift: u32,
    pub type_shift: u32,
    pub table_shift: u32,
    pub elem_shift: u32,
    pub data_shift: u32,
}

impl View for IndexMap {
    type V = IndexMapV;

    open spec fn view(&self) -> IndexMapV {
        IndexMapV {
            side: self.side,
            func_imports: self.func_imports@,
            func_base: self.func_base,
            globals_kept: self.globals_kept,
            global_shift: self.global_shift,
            type_shift: self.type_shift,
            table_shift: self.table_shift,
            elem_shift: self.elem_shift,
            data_shift: self.data_shift,
        }
    }
}

/// `i + by`, if it is an index.
pub open spec fn shifted(i: int, by: int) -> Result<u32, LinkErrorV> {
    if i + by <= u32::MAX {
        Ok((i + by) as u32)
    } else {
        Err(LinkErrorV::IndexOverflow)
    }
}

/// A result of one index as the contracts see it.
pub open spec fn seen_index(r: Result<u32, LinkError>) -> Result<u32, LinkErrorV> {
    match r {
        Ok(i) => Ok(i),
        Err(e) => Err(e@),
    }
}

fn shift(i: u32, by: u32) -> (r: Result<u32, LinkError>)
    ensures
        seen_index(r) == shifted(i as int, by as int),
{
    match i.checked_add(by) {
        Some(j) => Ok(j),
        None => Err(LinkError::IndexOverflow),
    }
}

impl IndexMapV {
    /// Where a function ends up: an imported one where its import does, a
    /// defined one behind the base.
    pub open spec fn func(self, i: u32) -> Result<u32, LinkErrorV> {
        if i < self.func_imports.len() {
            Ok(self.func_imports[i as int])
        } else {
            shifted(i - self.func_imports.len(), self.func_base as int)
        }
    }

    pub open spec fn global(self, i: u32) -> Result<u32, LinkErrorV> {
        if i < self.globals_kept {
            Ok(i)
        } else {
            shifted(i as int, self.global_shift as int)
        }
    }

    pub open spec fn ty(self, i: u32) -> Result<u32, LinkErrorV> {
        shifted(i as int, self.type_shift as int)
    }

    pub open spec fn table(self, i: u32) -> Result<u32, LinkErrorV> {
        shifted(i as int, self.table_shift as int)
    }

    pub open spec fn elem(self, i: u32) -> Result<u32, LinkErrorV> {
        shifted(i as int, self.elem_shift as int)
    }

    pub open spec fn data(self, i: u32) -> Result<u32, LinkErrorV> {
        shifted(i as int, self.data_shift as int)
    }

    /// The user module has only its first memory, the shell keeps all of its own.
    pub open spec fn has_memory(self, i: u32) -> bool {
        self.side == Side::Shell || i == 0
    }

    pub open spec fn memory(self, i: u32) -> Result<u32, LinkErrorV> {
        if self.has_memory(i) {
            Ok(i)
        } else {
            Err(LinkErrorV::UserMemory(i))
        }
    }
}

impl IndexMap {
    pub fn func(&self, i: u32) -> (r: Result<u32, LinkError>)
        ensures
            seen_index(r) == self@.func(i),
    {
        let n: usize = self.func_imports.len();
        if (i as usize) < n {
            Ok(self.func_imports[i as usize])
        } else {
            shift(i - n as u32, self.func_base)
        }
    }

    pub fn global(&self, i: u32) -> (r: Result<u32, LinkError>)
        ensures
            seen_index(r) == self@.global(i),
    {
        if i < self.globals_kept {
            Ok(i)
        } else {
            shift(i, self.global_shift)
        }
    }

    pub fn ty(&self, i: u32) -> (r: Result<u32, LinkError>)
        ensures
            seen_index(r) == self@.ty(i),
    {
        shift(i, self.type_shift)
    }

    pub fn table(&self, i: u32) -> (r: Result<u32, LinkError>)
        ensures
            seen_index(r) == self@.table(i),
    {
        shift(i, self.table_shift)
    }

    pub fn elem(&self, i: u32) -> (r: Result<u32, LinkError>)
        ensures
            seen_index(r) == self@.elem(i),
    {
        shift(i, self.elem_shift)
    }

    pub fn data(&self, i: u32) -> (r: Result<u32, LinkError>)
        ensures
            seen_index(r) == self@.data(i),
    {
        shift(i, self.data_shift)
    }

    pub fn memory(&self, i: u32) -> (r: Result<u32, LinkError>)
        ensures
            seen_index(r) == self@.memory(i),
    {
        if self.has_memory(i) {
            Ok(i)
        } else {
            Err(LinkError::UserMemory(i))
        }
    }

    pub fn has_memory(&self, i: u32) -> (r: bool)
        ensures
            r == self@.has_memory(i),
    {
        self.side == Side::Shell || i == 0
    }
}

/// Both results, or the first error.
pub open spec fn both<A, B>(a: Result<A, LinkErrorV>, b: Result<B, LinkErrorV>) -> Result<
    (A, B),
    LinkErrorV,
> {
    match a {
        Err(e) => Err(e),
        Ok(x) => match b {
            Err(e) => Err(e),
            Ok(y) => Ok((x, y)),
        },
    }
}

/// An instruction that names functions, globals, types and tables, moved.
pub open spec fn moved_call(m: IndexMapV, op: CallOp) -> Result<CallOp, LinkErrorV> {
    match op {
        CallOp::Call(f) => match m.func(f) {
            Ok(i) => Ok(CallOp::Call(i)),
            Err(e) => Err(e),
        },
        CallOp::ReturnCall(f) => match m.func(f) {
            Ok(i) => Ok(CallOp::ReturnCall(i)),
            Err(e) => Err(e),
        },
        CallOp::RefFunc(f) => match m.func(f) {
            Ok(i) => Ok(CallOp::RefFunc(i)),
            Err(e) => Err(e),
        },
        CallOp::GlobalGet(g) => match m.global(g) {
            Ok(i) => Ok(CallOp::GlobalGet(i)),
            Err(e) => Err(e),
        },
        CallOp::GlobalSet(g) => match m.global(g) {
            Ok(i) => Ok(CallOp::GlobalSet(i)),
            Err(e) => Err(e),
        },
        CallOp::CallIndirect(ty, t) => match both(m.ty(ty), m.table(t)) {
            Ok((i, j)) => Ok(CallOp::CallIndirect(i, j)),
            Err(e) => Err(e),
        },
        CallOp::ReturnCallIndirect(ty, t) => match both(m.ty(ty), m.table(t)) {
            Ok((i, j)) => Ok(CallOp::ReturnCallIndirect(i, j)),
            Err(e) => Err(e),
        },
    }
}

/// An instruction that names tables and element segments, moved.
pub open spec fn moved_table(m: IndexMapV, op: TableOp) -> Result<TableOp, LinkErrorV> {
    match op {
        TableOp::Load(t) => match m.table(t) {
            Ok(i) => Ok(TableOp::Load(i)),
            Err(e) => Err(e),
        },
        TableOp::Store(t) => match m.table(t) {
            Ok(i) => Ok(TableOp::Store(i)),
            Err(e) => Err(e),
        },
        TableOp::Size(t) => match m.table(t) {
            Ok(i) => Ok(TableOp::Size(i)),
            Err(e) => Err(e),
        },
        TableOp::Grow(t) => match m.table(t) {
            Ok(i) => Ok(TableOp::Grow(i)),
            Err(e) => Err(e),
        },
        TableOp::Fill(t) => match m.table(t) {
            Ok(i) => Ok(TableOp::Fill(i)),
            Err(e) => Err(e),
        },
        TableOp::Copy(d, s) => match both(m.table(d), m.table(s)) {
            Ok((i, j)) => Ok(TableOp::Copy(i, j)),
            Err(e) => Err(e),
        },
        TableOp::Init(el, t) => match both(m.elem(el), m.table(t)) {
            Ok((i, j)) => Ok(TableOp::Init(i, j)),
            Err(e) => Err(e),
        },
        TableOp::ElemDrop(el) => match m.elem(el) {
            Ok(i) => Ok(TableOp::ElemDrop(i)),
            Err(e) => Err(e),
        },
    }
}

/// The memories that an instruction names as a whole.
pub open spec fn memory_use(op: MemoryOp) -> Option<MemoryUse> {
    match op {
        MemoryOp::Init(mem, _) => Some(MemoryUse::Init(mem)),
        MemoryOp::DataDrop(_) => None,
        MemoryOp::Copy(d, s) => Some(MemoryUse::Copy(d, s)),
        MemoryOp::Fill(mem) => Some(MemoryUse::Fill(mem)),
        MemoryOp::Size(mem) => Some(MemoryUse::Size(mem)),
        MemoryOp::Grow(mem) => Some(MemoryUse::Grow(mem)),
    }
}

/// The module has the memories that the instruction names.
pub open spec fn memories_there(m: IndexMapV, op: MemoryOp) -> bool {
    match memory_use(op) {
        None => true,
        Some(MemoryUse::Copy(d, s)) => m.has_memory(d) && m.has_memory(s),
        Some(MemoryUse::Init(i)) => m.has_memory(i),
        Some(MemoryUse::Fill(i)) => m.has_memory(i),
        Some(MemoryUse::Size(i)) => m.has_memory(i),
        Some(MemoryUse::Grow(i)) => m.has_memory(i),
    }
}

/// An instruction that names whole memories and data segments, moved. Memories
/// keep their index.
pub open spec fn moved_memory(m: IndexMapV, op: MemoryOp) -> Result<MemoryOp, LinkErrorV> {
    if !memories_there(m, op) {
        Err(LinkErrorV::MemoryUsed(memory_use(op)->0))
    } else {
        match op {
            MemoryOp::Init(mem, d) => match m.data(d) {
                Ok(j) => Ok(MemoryOp::Init(mem, j)),
                Err(e) => Err(e),
            },
            MemoryOp::DataDrop(d) => match m.data(d) {
                Ok(j) => Ok(MemoryOp::DataDrop(j)),
                Err(e) => Err(e),
            },
            _ => Ok(op),
        }
    }
}

/// The start of a block of a function type, moved.
pub open spec fn moved_block(m: IndexMapV, op: BlockOp) -> Result<BlockOp, LinkErrorV> {
    match op {
        BlockOp::Block(t) => match m.ty(t) {
            Ok(i) => Ok(BlockOp::Block(i)),
            Err(e) => Err(e),
        },
        BlockOp::Loop(t) => match m.ty(t) {
            Ok(i) => Ok(BlockOp::Loop(i)),
            Err(e) => Err(e),
        },
        BlockOp::If(t) => match m.ty(t) {
            Ok(i) => Ok(BlockOp::If(i)),
            Err(e) => Err(e),
        },
    }
}

pub fn move_call(m: &IndexMap, op: CallOp) -> (r: Result<CallOp, LinkError>)
    ensures
        match r {
            Ok(o) => moved_call(m@, op) == Ok::<CallOp, LinkErrorV>(o),
            Err(e) => moved_call(m@, op) == Err::<CallOp, LinkErrorV>(e@),
        },
{
    Ok(
        match op {
            CallOp::Call(f) => CallOp::Call(m.func(f)?),
            CallOp::ReturnCall(f) => CallOp::ReturnCall(m.func(f)?),
            CallOp::RefFunc(f) => CallOp::RefFunc(m.func(f)?),
            CallOp::GlobalGet(g) => CallOp::GlobalGet(m.global(g)?),
            CallOp::GlobalSet(g) => CallOp::GlobalSet(m.global(g)?),
            CallOp::CallIndirect(ty, t) => CallOp::CallIndirect(m.ty(ty)?, m.table(t)?),
            CallOp::ReturnCallIndirect(ty, t) => CallOp::ReturnCallIndirect(
                m.ty(ty)?,
                m.table(t)?,
            ),
        },
    )
}

pub fn move_table(m: &IndexMap, op: TableOp) -> (r: Result<TableOp, LinkError>)
    ensures
        match r {
            Ok(o) => moved_table(m@, op) == Ok::<TableOp, LinkErrorV>(o),
            Err(e) => moved_table(m@, op) == Err::<TableOp, LinkErrorV>(e@),
        },
{
    Ok(
        match op {
            TableOp::Load(t) => TableOp::Load(m.table(t)?),
            TableOp::Store(t) => TableOp::Store(m.table(t)?),
            TableOp::Size(t) => TableOp::Size(m.table(t)?),
            TableOp::Grow(t) => TableOp::Grow(m.table(t)?),
            TableOp::Fill(t) => TableOp::Fill(m.table(t)?),
            TableOp::Copy(d, s) => TableOp::Copy(m.table(d)?, m.table(s)?),
            TableOp::Init(el, t) => TableOp::Init(m.elem(el)?, m.table(t)?),
            TableOp::ElemDrop(el) => TableOp::ElemDrop(m.elem(el)?),
        },
    )
}

pub fn move_memory(m: &IndexMap, op: MemoryOp) -> (r: Result<MemoryOp, LinkError>)
    ensures
        match r {
            Ok(o) => moved_memory(m@, op) == Ok::<MemoryOp, LinkErrorV>(o),
            Err(e) => moved_memory(m@, op) == Err::<MemoryOp, LinkErrorV>(e@),
        },
{
    match op {
        MemoryOp::Init(mem, d) => {
            if !m.has_memory(mem) {
                return Err(LinkError::MemoryUsed(MemoryUse::Init(mem)));
            }
            Ok(MemoryOp::Init(mem, m.data(d)?))
        },
        MemoryOp::DataDrop(d) => Ok(MemoryOp::DataDrop(m.data(d)?)),
        MemoryOp::Copy(d, s) => {
            if !m.has_memory(d) || !m.has_memory(s) {
                return Err(LinkError::MemoryUsed(MemoryUse::Copy(d, s)));
            }
            Ok(op)
        },
        MemoryOp::Fill(mem) => {
            if !m.has_memory(mem) {
                return Err(LinkError::MemoryUsed(MemoryUse::Fill(mem)));
            }
            Ok(op)
        },
        MemoryOp::Size(mem) => {
            if !m.has_memory(mem) {
                return Err(LinkError::MemoryUsed(MemoryUse::Size(mem)));
            }
            Ok(op)
        },
        MemoryOp::Grow(mem) => {
            if !m.has_memory(mem) {
                return Err(LinkError::MemoryUsed(MemoryUse::Grow(mem)));
            }
            Ok(op)
        },
    }
}

pub fn move_block(m: &IndexMap, op: BlockOp) -> (r: Result<BlockOp, LinkError>)
    ensures
        match r {
            Ok(o) => moved_block(m@, op) == Ok::<BlockOp, LinkErrorV>(o),
            Err(e) => moved_block(m@, op) == Err::<BlockOp, LinkErrorV>(e@),
        },
{
    Ok(
        match op {
            BlockOp::Block(t) => BlockOp::Block(m.ty(t)?),
            BlockOp::Loop(t) => BlockOp::Loop(m.ty(t)?),
            BlockOp::If(t) => BlockOp::If(m.ty(t)?),
        },
    )
}

/// The instructions that user code may use unchanged, by opcode: control flow,
/// drop and select, locals, loads and stores, constants, and the integer
/// comparisons, arithmetic and conversions.
pub open spec fn is_forwarded(opcode: u8) -> bool {
    ||| opcode <= 0x05
    ||| 0x0b <= opcode <= 0x0f
    ||| 0x1a <= opcode <= 0x1b
    ||| 0x20 <= opcode <= 0x22
    ||| 0x28 <= opcode <= 0x3e
    ||| 0x41 <= opcode <= 0x5a
    ||| 0x67 <= opcode <= 0x8a
    ||| opcode == 0xa7
    ||| 0xac <= opcode <= 0xad
    ||| 0xc0 <= opcode <= 0xc4
}

/// Whether user code may use the instruction with this opcode unchanged.
pub fn forwards(opcode: u8) -> (r: bool)
    ensures
        r == is_forwarded(opcode),
{
    opcode <= 0x05 || (0x0b <= opcode && opcode <= 0x0f) || (0x1a <= opcode && opcode <= 0x1b) || (
    0x20 <= opcode && opcode <= 0x22) || (0x28 <= opcode && opcode <= 0x3e) || (0x41 <= opcode
        && opcode <= 0x5a) || (0x67 <= opcode && opcode <= 0x8a) || opcode == 0xa7 || (0xac
        <= opcode && opcode <= 0xad) || (0xc0 <= opcode && opcode <= 0xc4)
}

/// The number in LEB128 that `b` starts with. Of a number that is not negative
/// the signed and the unsigned form are read alike.
pub open spec fn leb_value(b: Seq<u8>) -> nat
    decreases b.len(),
{
    if b.len() == 0 {
        0
    } else if b[0] >= 128 {
        (b[0] - 128 + 128 * leb_value(b.skip(1))) as nat
    } else {
        b[0] as nat
    }
}

/// How many bytes that number takes.
pub open spec fn leb_len(b: Seq<u8>) -> nat
    decreases b.len(),
{
    if b.len() == 0 {
        0
    } else if b[0] >= 128 {
        1 + leb_len(b.skip(1))
    } else {
        1
    }
}

/// What starts with a type index, moved: the index goes where the type goes, in
/// signed LEB128, and the rest stays behind it.
pub open spec fn moved_type_index(m: IndexMapV, b: Seq<u8>) -> Result<Seq<u8>, LinkErrorV> {
    match shifted(leb_value(b) as int, m.type_shift as int) {
        Ok(i) => Ok(signed_leb(i as nat) + b.skip(leb_len(b) as int)),
        Err(e) => Err(e),
    }
}

/// What starts with a heap type, moved. A type of the module goes where its index
/// goes; an exact one becomes the type itself. An abstract heap type, which is one
/// byte below zero, is kept.
pub open spec fn moved_heap(m: IndexMapV, b: Seq<u8>) -> Result<Seq<u8>, LinkErrorV> {
    if b.len() == 0 {
        Ok(b)
    } else if b[0] == 0x62 {
        moved_type_index(m, b.skip(1))
    } else if 0x40 <= b[0] < 0x80 {
        Ok(b)
    } else {
        moved_type_index(m, b)
    }
}

/// What starts with a value type, moved. Only references to heap types that are
/// written out name types of the module.
pub open spec fn moved_type(m: IndexMapV, b: Seq<u8>) -> Result<Seq<u8>, LinkErrorV> {
    if b.len() > 0 && (b[0] == 0x63 || b[0] == 0x64) {
        match moved_heap(m, b.skip(1)) {
            Ok(h) => Ok(seq![b[0]] + h),
            Err(e) => Err(e),
        }
    } else {
        Ok(b)
    }
}

/// `op`, then what follows it, if that can be moved.
pub open spec fn behind(op: u8, r: Result<Seq<u8>, LinkErrorV>) -> Result<Seq<u8>, LinkErrorV> {
    match r {
        Ok(b) => Ok(seq![op] + b),
        Err(e) => Err(e),
    }
}

/// The number that starts at `at` and where it ends; nothing where it is larger
/// than an index.
fn read_leb(b: &Vec<u8>, at: usize) -> (r: Option<(u32, usize)>)
    requires
        at <= b@.len(),
    ensures
        match r {
            Some((value, end)) => value == leb_value(b@.skip(at as int)) && end == at + leb_len(
                b@.skip(at as int),
            ) && end <= b@.len(),
            None => leb_value(b@.skip(at as int)) > u32::MAX,
        },
    decreases b@.len() - at,
{
    let ghost tail = b@.skip(at as int);
    if at >= b.len() {
        return Some((0, at));
    }
    let first: u8 = b[at];
    if first < 128 {
        return Some((first as u32, at + 1));
    }
    assert(tail.skip(1) =~= b@.skip(at + 1));
    match read_leb(b, at + 1) {
        None => None,
        Some((rest, end)) => {
            let value: u64 = (first - 128) as u64 + 128 * rest as u64;
            if value > 0xffff_ffff {
                None
            } else {
                Some((value as u32, end))
            }
        },
    }
}

/// Appends `n` in signed LEB128.
fn push_signed(out: &mut Vec<u8>, n: u32)
    ensures
        final(out)@ == old(out)@ + signed_leb(n as nat),
    decreases n,
{
    if n < 64 {
        out.push(n as u8);
        assert(out@ =~= old(out)@ + signed_leb(n as nat));
    } else {
        let low: u8 = (n % 128 + 128) as u8;
        out.push(low);
        let ghost mid = out@;
        push_signed(out, n / 128);
        assert(out@ =~= old(out)@ + signed_leb(n as nat)) by {
            assert(signed_leb(n as nat) == seq![low] + signed_leb((n / 128) as nat));
            assert(mid =~= old(out)@ + seq![low]);
        }
    }
}

/// Appends the bytes from `at` on.
fn push_from(out: &mut Vec<u8>, b: &Vec<u8>, at: usize)
    requires
        at <= b@.len(),
    ensures
        final(out)@ == old(out)@ + b@.skip(at as int),
{
    let ghost before = out@;
    let n: usize = b.len();
    let mut i: usize = at;
    assert(out@ =~= before + b@.subrange(at as int, at as int));
    while i < n
        invariant
            at <= i <= n,
            n == b@.len(),
            out@ == before + b@.subrange(at as int, i as int),
        decreases n - i,
    {
        out.push(b[i]);
        i += 1;
        assert(out@ =~= before + b@.subrange(at as int, i as int));
    }
    assert(b@.subrange(at as int, n as int) =~= b@.skip(at as int));
}

/// Moves the type index that starts at `at`; the first `keep` bytes stay in front of it.
fn move_type_index(m: &IndexMap, b: &Vec<u8>, keep: usize, at: usize) -> (r: Result<
    Vec<u8>,
    LinkError,
>)
    requires
        keep <= at <= b@.len(),
    ensures
        seen_bytes(r) == (match moved_type_index(m@, b@.skip(at as int)) {
            Ok(x) => Ok(b@.take(keep as int) + x),
            Err(e) => Err(e),
        }),
{
    let ghost tail = b@.skip(at as int);
    let (value, end): (u32, usize) = match read_leb(b, at) {
        Some(found) => found,
        None => return Err(LinkError::IndexOverflow),
    };
    let index: u32 = match shift(value, m.type_shift) {
        Ok(i) => i,
        Err(e) => return Err(e),
    };
    let mut out: Vec<u8> = Vec::new();
    let mut i: usize = 0;
    while i < keep
        invariant
            i <= keep <= b@.len(),
            out@ == b@.take(i as int),
        decreases keep - i,
    {
        out.push(b[i]);
        i += 1;
        assert(out@ =~= b@.take(i as int));
    }
    push_signed(&mut out, index);
    push_from(&mut out, b, end);
    assert(b@.skip(end as int) =~= tail.skip(leb_len(tail) as int));
    assert(out@ =~= b@.take(keep as int) + (signed_leb(index as nat) + b@.skip(end as int)));
    Ok(out)
}

/// Moves the heap type that starts at `at`.
fn move_heap_at(m: &IndexMap, b: Vec<u8>, at: usize) -> (r: Result<Vec<u8>, LinkError>)
    requires
        at <= b@.len(),
    ensures
        seen_bytes(r) == (match moved_heap(m@, b@.skip(at as int)) {
            Ok(x) => Ok(b@.take(at as int) + x),
            Err(e) => Err(e),
        }),
{
    assert(b@ =~= b@.take(at as int) + b@.skip(at as int));
    if at >= b.len() {
        return Ok(b);
    }
    if b[at] == 0x62 {
        assert(b@.skip(at as int).skip(1) =~= b@.skip(at + 1));
        move_type_index(m, &b, at, at + 1)
    } else if 0x40 <= b[at] && b[at] < 0x80 {
        Ok(b)
    } else {
        move_type_index(m, &b, at, at)
    }
}

/// Moves the value type that starts at `at`.
fn move_type_at(m: &IndexMap, b: Vec<u8>, at: usize) -> (r: Result<Vec<u8>, LinkError>)
    requires
        at <= b@.len(),
    ensures
        seen_bytes(r) == (match moved_type(m@, b@.skip(at as int)) {
            Ok(x) => Ok(b@.take(at as int) + x),
            Err(e) => Err(e),
        }),
{
    if at < b.len() && (b[at] == 0x63 || b[at] == 0x64) {
        proof {
            let t = b@.skip(at as int);
            assert(t.skip(1) =~= b@.skip(at + 1));
            if let Ok(x) = moved_heap(m@, b@.skip(at + 1)) {
                assert(b@.take(at + 1) + x =~= b@.take(at as int) + (seq![t[0]] + x));
            }
        }
        move_heap_at(m, b, at + 1)
    } else {
        assert(b@ =~= b@.take(at as int) + b@.skip(at as int));
        Ok(b)
    }
}

/// Moves an encoded value type, and keeps what follows it.
pub fn move_type(m: &IndexMap, b: Vec<u8>) -> (r: Result<Vec<u8>, LinkError>)
    ensures
        seen_bytes(r) == moved_type(m@, b@),
{
    proof {
        assert(b@.skip(0) =~= b@);
        if let Ok(x) = moved_type(m@, b@) {
            assert(b@.take(0) + x =~= x);
        }
    }
    move_type_at(m, b, 0)
}

/// The instruction reads or changes a global atomically.
pub open spec fn names_global(encoding: Seq<u8>) -> bool {
    encoding.len() > 1 && encoding[0] == 0xfe && 0x4f <= encoding[1] <= 0x57
}

/// An instruction that names nothing that is looked at, in the merged module. In
/// the shell any is kept as it is, but for one on a global that may move. In user
/// code only the forwarded ones are; the type of a block's result is moved.
pub open spec fn kept(m: IndexMapV, encoding: Seq<u8>, text: Seq<char>) -> Result<
    Seq<u8>,
    LinkErrorV,
> {
    if m.side == Side::Shell {
        if names_global(encoding) && m.global_shift != 0 {
            Err(LinkErrorV::FixedOperator(text))
        } else {
            Ok(encoding)
        }
    } else if encoding.len() > 0 && is_forwarded(encoding[0]) {
        if 0x02 <= encoding[0] <= 0x04 {
            behind(encoding[0], moved_type(m, encoding.skip(1)))
        } else {
            Ok(encoding)
        }
    } else {
        Err(LinkErrorV::UnsupportedOperator(text))
    }
}

/// Keeps an instruction that names nothing that is looked at, or says that it is
/// not handled.
fn map_simple_op(m: &IndexMap, op: &Operator<'_>, encoding: Vec<u8>) -> (r: Result<
    Vec<u8>,
    LinkError,
>)
    ensures
        seen_bytes(r) == kept(m@, encoding@, operator_model(*op).text),
{
    if m.side == Side::Shell {
        if encoding.len() > 1 && encoding[0] == 0xfe && 0x4f <= encoding[1] && encoding[1] <= 0x57
            && m.global_shift != 0 {
            Err(LinkError::FixedOperator(operator_text(op)))
        } else {
            Ok(encoding)
        }
    } else if encoding.len() > 0 && forwards(encoding[0]) {
        if 0x02 <= encoding[0] && encoding[0] <= 0x04 {
            assert(encoding@.take(1) =~= seq![encoding@[0]]);
            move_type_at(m, encoding, 1)
        } else {
            Ok(encoding)
        }
    } else {
        Err(LinkError::UnsupportedOperator(operator_text(op)))
    }
}

/// One instruction in the merged module.
pub open spec fn moved_op(m: IndexMapV, op: OpV) -> Result<Seq<u8>, LinkErrorV> {
    match op.kind {
        OpKindV::Call(c) => match moved_call(m, c) {
            Ok(o) => Ok(call_op_bytes(o)),
            Err(e) => Err(e),
        },
        OpKindV::Table(t) => match moved_table(m, t) {
            Ok(o) => Ok(table_op_bytes(o)),
            Err(e) => Err(e),
        },
        OpKindV::Memory(x) => match moved_memory(m, x) {
            Ok(o) => Ok(memory_op_bytes(o)),
            Err(e) => Err(e),
        },
        OpKindV::Block(b) => match moved_block(m, b) {
            Ok(o) => Ok(block_op_bytes(o)),
            Err(e) => Err(e),
        },
        OpKindV::Plain(p) => match p {
            Ok(b) => kept(m, b, op.text),
            Err(t) => Err(LinkErrorV::Unencodable(t)),
        },
    }
}

/// Encodes one instruction for the merged module.
pub fn rewrite_op(m: &IndexMap, op: &Operator<'_>) -> (r: Result<Vec<u8>, LinkError>)
    ensures
        seen_bytes(r) == moved_op(m@, operator_model(*op)),
{
    if let Some(c) = as_call_op(op) {
        return match move_call(m, c) {
            Ok(o) => Ok(encode_call_op(o)),
            Err(e) => Err(e),
        };
    }
    if let Some(t) = as_table_op(op) {
        return match move_table(m, t) {
            Ok(o) => Ok(encode_table_op(o)),
            Err(e) => Err(e),
        };
    }
    if let Some(x) = as_memory_op(op) {
        return match move_memory(m, x) {
            Ok(o) => Ok(encode_memory_op(o)),
            Err(e) => Err(e),
        };
    }
    if let Some(b) = as_block_op(op) {
        return match move_block(m, b) {
            Ok(o) => Ok(encode_block_op(o)),
            Err(e) => Err(e),
        };
    }
    match encode_operator(op) {
        Ok(b) => map_simple_op(m, op, b),
        Err(t) => Err(LinkError::Unencodable(t)),
    }
}

/// The first `n` instructions in the merged module.
pub open spec fn moved_ops(m: IndexMapV, ops: Seq<OpV>, n: int) -> Result<Seq<u8>, LinkErrorV>
    decreases n,
{
    if n <= 0 {
        Ok(Seq::empty())
    } else {
        match both(moved_ops(m, ops, n - 1), moved_op(m, ops[n - 1])) {
            Ok((a, b)) => Ok(a + b),
            Err(e) => Err(e),
        }
    }
}

proof fn lemma_ops_error_stays(m: IndexMapV, ops: Seq<OpV>, k: int, n: int)
    requires
        0 <= k <= n,
        moved_ops(m, ops, k) is Err,
    ensures
        moved_ops(m, ops, n) == moved_ops(m, ops, k),
    decreases n - k,
{
    if k < n {
        lemma_ops_error_stays(m, ops, k, n - 1);
    }
}

/// Appends instructions, encoded for the merged module.
pub fn rewrite_ops(m: &IndexMap, ops: &Vec<Operator<'_>>, out: &mut Vec<u8>) -> (r: Result<
    (),
    LinkError,
>)
    ensures
        ({
            let model = ops@.map_values(|op: Operator<'_>| operator_model(op));
            match moved_ops(m@, model, model.len() as int) {
                Ok(b) => r is Ok && final(out)@ == old(out)@ + b,
                Err(e) => r matches Err(err) && err@ == e,
            }
        }),
{
    let ghost model = ops@.map_values(|op: Operator<'_>| operator_model(op));
    let ghost before = out@;
    let mut i: usize = 0;
    assert(out@ =~= before + Seq::empty());
    while i < ops.len()
        invariant
            i <= ops@.len(),
            model == ops@.map_values(|op: Operator<'_>| operator_model(op)),
            moved_ops(m@, model, i as int) is Ok,
            out@ == before + moved_ops(m@, model, i as int)->Ok_0,
        decreases ops@.len() - i,
    {
        match rewrite_op(m, &ops[i]) {
            Ok(mut b) => {
                let ghost piece = b@;
                let ghost so_far = moved_ops(m@, model, i as int)->Ok_0;
                out.append(&mut b);
                assert(moved_ops(m@, model, i + 1) == Ok::<Seq<u8>, LinkErrorV>(so_far + piece));
                assert(out@ =~= before + (so_far + piece));
            },
            Err(e) => {
                proof {
                    assert(moved_ops(m@, model, i + 1) == Err::<Seq<u8>, LinkErrorV>(e@));
                    lemma_ops_error_stays(m@, model, i + 1, model.len() as int);
                }
                return Err(e);
            },
        }
        i += 1;
    }
    Ok(())
}

/// The value part of a constant expression in the merged module: a number, a null
/// reference, a function reference or a global.
pub open spec fn moved_const_value(m: IndexMapV, op: OpV) -> Result<Seq<u8>, LinkErrorV> {
    match op.kind {
        OpKindV::Call(CallOp::RefFunc(f)) => moved_op(m, op),
        OpKindV::Call(CallOp::GlobalGet(g)) => moved_op(m, op),
        OpKindV::Plain(Ok(b)) => if b.len() > 0 && 0x41 <= b[0] <= 0x44 {
            Ok(b)
        } else if b.len() > 0 && b[0] == 0xd0 {
            behind(0xd0, moved_heap(m, b.skip(1)))
        } else {
            Err(LinkErrorV::UnsupportedConstOp(op.text))
        },
        _ => Err(LinkErrorV::UnsupportedConstOp(op.text)),
    }
}

/// An instruction is the end of an expression.
pub open spec fn is_end(op: OpV) -> bool {
    op.kind == OpKindV::Plain(Ok(seq![0x0bu8]))
}

/// A constant expression in the merged module: one number, null reference,
/// function reference or global, then the end.
pub open spec fn moved_const(m: IndexMapV, ops: OpsV) -> Result<Seq<u8>, LinkErrorV> {
    match ops {
        Err(t) => Err(LinkErrorV::Malformed(m.side, t)),
        Ok(s) => if s.len() == 0 {
            Err(LinkErrorV::UnendedConstExpr(m.side))
        } else {
            match moved_const_value(m, s[0]) {
                Err(e) => Err(e),
                Ok(b) => if s.len() == 1 {
                    Err(LinkErrorV::UnendedConstExpr(m.side))
                } else if !is_end(s[1]) {
                    Err(LinkErrorV::ConstExprTail(s[1].text))
                } else {
                    Ok(b.push(0x0b))
                },
            }
        },
    }
}

fn is_plain_end(op: &Operator<'_>) -> (r: bool)
    ensures
        r == is_end(operator_model(*op)),
{
    if as_call_op(op).is_some() || as_table_op(op).is_some() || as_memory_op(op).is_some()
        || as_block_op(op).is_some() {
        return false;
    }
    match encode_operator(op) {
        Ok(b) => {
            let r = b.len() == 1 && b[0] == 0x0b;
            proof {
                if r {
                    assert(b@ =~= seq![0x0bu8]);
                } else if b@ == seq![0x0bu8] {
                    assert(b@[0] == 0x0b);
                }
            }
            r
        },
        Err(_) => false,
    }
}

fn rewrite_const_value(m: &IndexMap, op: &Operator<'_>) -> (r: Result<Vec<u8>, LinkError>)
    ensures
        seen_bytes(r) == moved_const_value(m@, operator_model(*op)),
{
    if let Some(c) = as_call_op(op) {
        return match c {
            CallOp::RefFunc(_) | CallOp::GlobalGet(_) => rewrite_op(m, op),
            _ => Err(LinkError::UnsupportedConstOp(operator_text(op))),
        };
    }
    if as_table_op(op).is_some() || as_memory_op(op).is_some() || as_block_op(op).is_some() {
        return Err(LinkError::UnsupportedConstOp(operator_text(op)));
    }
    match encode_operator(op) {
        Ok(b) => {
            if b.len() > 0 && 0x41 <= b[0] && b[0] <= 0x44 {
                Ok(b)
            } else if b.len() > 0 && b[0] == 0xd0 {
                assert(b@.take(1) =~= seq![0xd0u8]);
                move_heap_at(m, b, 1)
            } else {
                Err(LinkError::UnsupportedConstOp(operator_text(op)))
            }
        },
        Err(_) => Err(LinkError::UnsupportedConstOp(operator_text(op))),
    }
}

/// Encodes a constant expression for the merged module.
pub fn rewrite_const(m: &IndexMap, e: &ConstExpr<'_>) -> (r: Result<Vec<u8>, LinkError>)
    ensures
        seen_bytes(r) == moved_const(m@, const_operators(*e)),
{
    match parse_const(e) {
        Err(t) => Err(LinkError::Malformed(m.side, t)),
        Ok(ops) => {
            if ops.len() == 0 {
                return Err(LinkError::UnendedConstExpr(m.side));
            }
            match rewrite_const_value(m, &ops[0]) {
                Ok(mut b) => {
                    if ops.len() == 1 {
                        return Err(LinkError::UnendedConstExpr(m.side));
                    }
                    if !is_plain_end(&ops[1]) {
                        return Err(LinkError::ConstExprTail(operator_text(&ops[1])));
                    }
                    b.push(0x0b);
                    Ok(b)
                },
                Err(e) => Err(e),
            }
        },
    }
}

} // verus!
