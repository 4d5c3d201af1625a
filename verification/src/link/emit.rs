//! Encoding the parts of the merged module.
use vstd::prelude::*;
use vstd::string::StringSliceAdditionalSpecFns;
use vstd::utf8::encode_utf8;
use wasmparser::{ConstExpr, Element, MemoryType, ValType};
use super::error::{seen_bytes, LinkError, LinkErrorV, Side};
use super::model::{Data, DataPlace, DataPlaceV, DataV, ElementV, Export, ExportKind, ExportV, Global, GlobalV, Import, ImportType, ImportV, OpsV, SegmentItems, SegmentItemsV, SegmentKind, SegmentKindV, Table, TableV, TypeDef, TypeDefV};
use super::outside::{const_operators, element_items, element_kind, element_model, encode_global_type, encode_memory_type, encode_ref_type, encode_table_type, encode_u32, encode_val_type, global_type_bytes, leb, memory_type_bytes, parse_locals, parse_operators, parsed_locals, parsed_operators, ref_type_bytes, table_type_bytes, val_type_bytes};
use super::rewrite::{both, move_type, moved_const, moved_type, moved_ops, rewrite_const, rewrite_ops, seen_index, IndexMap, IndexMapV};

verus! {

/// Bytes, or why there are none.
pub type BytesV = Result<Seq<u8>, LinkErrorV>;

/// One after the other; the first error counts.
pub open spec fn cat(a: BytesV, b: BytesV) -> BytesV {
    match both(a, b) {
        Ok((x, y)) => Ok(x + y),
        Err(e) => Err(e),
    }
}

/// A type in the merged module, which may have no encoding.
pub open spec fn typed(m: IndexMapV, r: Result<Seq<u8>, Seq<char>>) -> BytesV {
    match r {
        Ok(b) => moved_type(m, b),
        Err(t) => Err(LinkErrorV::Unencodable(t)),
    }
}

/// A type that is kept as it is, and may have no encoding.
pub open spec fn or_unencodable(r: Result<Seq<u8>, Seq<char>>) -> BytesV {
    match r {
        Ok(b) => Ok(b),
        Err(t) => Err(LinkErrorV::Unencodable(t)),
    }
}

/// A count, in front of what is counted.
pub open spec fn count_bytes(n: nat) -> BytesV {
    if n > u32::MAX {
        Err(LinkErrorV::TooLarge)
    } else {
        Ok(leb(n))
    }
}

/// An index, if there is one.
pub open spec fn index_bytes(i: Result<u32, LinkErrorV>) -> BytesV {
    match i {
        Ok(i) => Ok(leb(i as nat)),
        Err(e) => Err(e),
    }
}

/// Bytes with their length in front.
pub open spec fn sized(b: Seq<u8>) -> BytesV {
    cat(count_bytes(b.len()), Ok(b))
}

/// A name: its length in bytes, then its characters in UTF-8.
pub open spec fn name_bytes(name: Seq<char>) -> BytesV {
    sized(encode_utf8(name))
}

fn encode_count(n: usize) -> (r: Result<Vec<u8>, LinkError>)
    ensures
        seen_bytes(r) == count_bytes(n as nat),
{
    if n as u64 > 0xffff_ffff {
        Err(LinkError::TooLarge)
    } else {
        Ok(encode_u32(n as u32))
    }
}

fn encode_index(i: Result<u32, LinkError>) -> (r: Result<Vec<u8>, LinkError>)
    ensures
        seen_bytes(r) == index_bytes(seen_index(i)),
{
    match i {
        Ok(i) => Ok(encode_u32(i)),
        Err(e) => Err(e),
    }
}

fn encode_typed(m: &IndexMap, r: Result<Vec<u8>, String>) -> (x: Result<Vec<u8>, LinkError>)
    ensures
        seen_bytes(x) == typed(m@, super::model::seen_plain(r)),
{
    match r {
        Ok(b) => move_type(m, b),
        Err(t) => Err(LinkError::Unencodable(t)),
    }
}

fn or_no_encoding(r: Result<Vec<u8>, String>) -> (x: Result<Vec<u8>, LinkError>)
    ensures
        seen_bytes(x) == or_unencodable(super::model::seen_plain(r)),
{
    match r {
        Ok(b) => Ok(b),
        Err(t) => Err(LinkError::Unencodable(t)),
    }
}

/// Appends the second part to the first.
pub(crate) fn join(a: Result<Vec<u8>, LinkError>, b: Result<Vec<u8>, LinkError>) -> (r: Result<
    Vec<u8>,
    LinkError,
>)
    ensures
        seen_bytes(r) == cat(seen_bytes(a), seen_bytes(b)),
{
    match a {
        Err(e) => Err(e),
        Ok(mut x) => match b {
            Err(e) => Err(e),
            Ok(mut y) => {
                x.append(&mut y);
                Ok(x)
            },
        },
    }
}

fn one(byte: u8) -> (r: Result<Vec<u8>, LinkError>)
    ensures
        seen_bytes(r) == Ok::<Seq<u8>, LinkErrorV>(seq![byte]),
{
    let mut v: Vec<u8> = Vec::new();
    v.push(byte);
    assert(v@ =~= seq![byte]);
    Ok(v)
}

fn copied(b: &[u8]) -> (r: Result<Vec<u8>, LinkError>)
    ensures
        seen_bytes(r) == Ok::<Seq<u8>, LinkErrorV>(b@),
{
    let v = vstd::slice::slice_to_vec(b);
    assert(v@ =~= b@);
    Ok(v)
}

fn encode_sized(b: &[u8]) -> (r: Result<Vec<u8>, LinkError>)
    ensures
        seen_bytes(r) == sized(b@),
{
    join(encode_count(b.len()), copied(b))
}

fn encode_name(s: &str) -> (r: Result<Vec<u8>, LinkError>)
    ensures
        seen_bytes(r) == name_bytes(s@),
{
    encode_sized(s.as_bytes())
}

/// Something that has an encoding in the merged module.
pub trait Item: Sized {
    /// What the contracts see of it.
    type Model;

    spec fn model(&self) -> Self::Model;

    /// Its encoding, with its indices moved.
    spec fn encoded(x: Self::Model, m: IndexMapV) -> BytesV;

    fn encode(&self, m: &IndexMap) -> (r: Result<Vec<u8>, LinkError>)
        ensures
            seen_bytes(r) == Self::encoded(self.model(), m@),
    ;
}

/// What the contracts see of a list.
pub open spec fn models<T: Item>(items: Seq<T>) -> Seq<T::Model> {
    items.map_values(|x: T| x.model())
}

/// The first `n` items, one behind the other.
pub open spec fn all_encoded<T: Item>(items: Seq<T::Model>, m: IndexMapV, n: int) -> BytesV
    decreases n,
{
    if n <= 0 {
        Ok(Seq::empty())
    } else {
        cat(all_encoded::<T>(items, m, n - 1), T::encoded(items[n - 1], m))
    }
}

/// All items, with their number in front.
pub open spec fn counted<T: Item>(items: Seq<T::Model>, m: IndexMapV) -> BytesV {
    cat(count_bytes(items.len()), all_encoded::<T>(items, m, items.len() as int))
}

proof fn lemma_encoded_error_stays<T: Item>(items: Seq<T::Model>, m: IndexMapV, k: int, n: int)
    requires
        0 <= k <= n,
        all_encoded::<T>(items, m, k) is Err,
    ensures
        all_encoded::<T>(items, m, n) == all_encoded::<T>(items, m, k),
    decreases n - k,
{
    if k < n {
        lemma_encoded_error_stays::<T>(items, m, k, n - 1);
    }
}

/// Encodes a list of items, one behind the other.
pub fn encode_all<T: Item>(items: &Vec<T>, m: &IndexMap) -> (r: Result<Vec<u8>, LinkError>)
    ensures
        seen_bytes(r) == all_encoded::<T>(models(items@), m@, items@.len() as int),
{
    let ghost xs = models(items@);
    let mut out: Vec<u8> = Vec::new();
    let mut i: usize = 0;
    assert(out@ =~= Seq::empty());
    while i < items.len()
        invariant
            i <= items@.len(),
            xs == models(items@),
            all_encoded::<T>(xs, m@, i as int) == Ok::<Seq<u8>, LinkErrorV>(out@),
        decreases items@.len() - i,
    {
        assert(xs[i as int] == items@[i as int].model());
        match items[i].encode(m) {
            Ok(mut b) => {
                out.append(&mut b);
            },
            Err(e) => {
                proof {
                    lemma_encoded_error_stays::<T>(xs, m@, i + 1, items@.len() as int);
                }
                return Err(e);
            },
        }
        i += 1;
    }
    Ok(out)
}

/// Encodes a list of items with their number in front.
pub fn encode_counted<T: Item>(items: &Vec<T>, m: &IndexMap) -> (r: Result<Vec<u8>, LinkError>)
    ensures
        seen_bytes(r) == counted::<T>(models(items@), m@),
{
    join(encode_count(items.len()), encode_all(items, m))
}

/// The items of the shell, then those of the user module, with their number in front.
pub open spec fn merged_items<T: Item>(
    shell: Seq<T::Model>,
    sm: IndexMapV,
    user: Seq<T::Model>,
    um: IndexMapV,
) -> BytesV {
    cat(
        cat(
            count_bytes(shell.len() + user.len()),
            all_encoded::<T>(shell, sm, shell.len() as int),
        ),
        all_encoded::<T>(user, um, user.len() as int),
    )
}

/// Encodes the items of both modules with their number in front.
pub fn encode_merged<T: Item>(
    shell: &Vec<T>,
    sm: &IndexMap,
    user: &Vec<T>,
    um: &IndexMap,
) -> (r: Result<Vec<u8>, LinkError>)
    ensures
        seen_bytes(r) == merged_items::<T>(models(shell@), sm@, models(user@), um@),
{
    let n: u64 = shell.len() as u64;
    let k: u64 = user.len() as u64;
    let count = if n > 0xffff_ffff || k > 0xffff_ffff || n + k > 0xffff_ffff {
        Err(LinkError::TooLarge)
    } else {
        Ok(encode_u32((n + k) as u32))
    };
    join(join(count, encode_all(shell, sm)), encode_all(user, um))
}

impl Item for ValType {
    type Model = ValType;

    open spec fn model(&self) -> ValType {
        *self
    }

    open spec fn encoded(x: ValType, m: IndexMapV) -> BytesV {
        typed(m, val_type_bytes(x))
    }

    fn encode(&self, m: &IndexMap) -> Result<Vec<u8>, LinkError> {
        encode_typed(m, encode_val_type(self))
    }
}

/// A declaration of locals: how many, of which type.
impl Item for (u32, ValType) {
    type Model = (u32, ValType);

    open spec fn model(&self) -> (u32, ValType) {
        *self
    }

    open spec fn encoded(x: (u32, ValType), m: IndexMapV) -> BytesV {
        cat(
            Ok(leb(x.0 as nat)),
            if m.side == Side::Shell {
                or_unencodable(val_type_bytes(x.1))
            } else {
                typed(m, val_type_bytes(x.1))
            },
        )
    }

    fn encode(&self, m: &IndexMap) -> Result<Vec<u8>, LinkError> {
        let ty = if m.side == Side::Shell {
            or_no_encoding(encode_val_type(&self.1))
        } else {
            encode_typed(m, encode_val_type(&self.1))
        };
        join(Ok(encode_u32(self.0)), ty)
    }
}

/// A function type.
impl Item for TypeDef {
    type Model = TypeDefV;

    open spec fn model(&self) -> TypeDefV {
        self@
    }

    open spec fn encoded(x: TypeDefV, m: IndexMapV) -> BytesV {
        match x {
            TypeDefV::Func(params, results) => cat(
                cat(Ok(seq![0x60u8]), counted::<ValType>(params, m)),
                counted::<ValType>(results, m),
            ),
            TypeDefV::Other(t) => Err(LinkErrorV::UnsupportedType(m.side, t)),
        }
    }

    fn encode(&self, m: &IndexMap) -> Result<Vec<u8>, LinkError> {
        match self {
            TypeDef::Func(params, results) => {
                assert(models(params@) =~= params@);
                assert(models(results@) =~= results@);
                join(join(one(0x60), encode_counted(params, m)), encode_counted(results, m))
            },
            TypeDef::Other(t) => Err(LinkError::UnsupportedType(m.side, t.clone())),
        }
    }
}

/// A forwarded import.
impl Item for Import {
    type Model = ImportV;

    open spec fn model(&self) -> ImportV {
        self@
    }

    open spec fn encoded(x: ImportV, m: IndexMapV) -> BytesV {
        cat(
            cat(name_bytes(x.module), name_bytes(x.name)),
            match x.ty {
                ImportType::Func(t) => cat(Ok(seq![0x00u8]), index_bytes(m.ty(t))),
                ImportType::Global(g) => cat(Ok(seq![0x03u8]), typed(m, global_type_bytes(g))),
                ImportType::Memory => Err(LinkErrorV::MemoryImport(x.module, x.name)),
                ImportType::Other => Err(LinkErrorV::UnsupportedImport(x.module, x.name)),
            },
        )
    }

    fn encode(&self, m: &IndexMap) -> Result<Vec<u8>, LinkError> {
        join(
            join(encode_name(self.module.as_str()), encode_name(self.name.as_str())),
            match &self.ty {
                ImportType::Func(t) => join(one(0x00), encode_index(m.ty(*t))),
                ImportType::Global(g) => join(one(0x03), encode_typed(m, encode_global_type(g))),
                ImportType::Memory => Err(
                    LinkError::MemoryImport(self.module.clone(), self.name.clone()),
                ),
                ImportType::Other => Err(
                    LinkError::UnsupportedImport(self.module.clone(), self.name.clone()),
                ),
            },
        )
    }
}

/// The type index of a defined function.
impl Item for u32 {
    type Model = u32;

    open spec fn model(&self) -> u32 {
        *self
    }

    open spec fn encoded(x: u32, m: IndexMapV) -> BytesV {
        index_bytes(m.ty(x))
    }

    fn encode(&self, m: &IndexMap) -> Result<Vec<u8>, LinkError> {
        encode_index(m.ty(*self))
    }
}

impl<'a> Item for Table<'a> {
    type Model = TableV;

    open spec fn model(&self) -> TableV {
        self@
    }

    open spec fn encoded(x: TableV, m: IndexMapV) -> BytesV {
        match x.init {
            None => typed(m, table_type_bytes(x.ty)),
            Some(e) => cat(
                cat(
                    cat(Ok(seq![0x40u8]), Ok(seq![0x00u8])),
                    typed(m, table_type_bytes(x.ty)),
                ),
                moved_const(m, e),
            ),
        }
    }

    fn encode(&self, m: &IndexMap) -> Result<Vec<u8>, LinkError> {
        let ty = encode_typed(m, encode_table_type(&self.ty));
        match &self.init {
            None => ty,
            Some(e) => join(join(join(one(0x40), one(0x00)), ty), rewrite_const(m, e)),
        }
    }
}

impl Item for MemoryType {
    type Model = MemoryType;

    open spec fn model(&self) -> MemoryType {
        *self
    }

    open spec fn encoded(x: MemoryType, m: IndexMapV) -> BytesV {
        Ok(memory_type_bytes(x))
    }

    fn encode(&self, m: &IndexMap) -> Result<Vec<u8>, LinkError> {
        Ok(encode_memory_type(self))
    }
}

impl<'a> Item for Global<'a> {
    type Model = GlobalV;

    open spec fn model(&self) -> GlobalV {
        self@
    }

    open spec fn encoded(x: GlobalV, m: IndexMapV) -> BytesV {
        cat(typed(m, global_type_bytes(x.ty)), moved_const(m, x.init))
    }

    fn encode(&self, m: &IndexMap) -> Result<Vec<u8>, LinkError> {
        join(encode_typed(m, encode_global_type(&self.ty)), rewrite_const(m, &self.init))
    }
}

/// The byte that stands for what an export names.
pub open spec fn kind_byte(k: ExportKind) -> u8 {
    match k {
        ExportKind::Func => 0,
        ExportKind::FuncExact => 0,
        ExportKind::Table => 1,
        ExportKind::Memory => 2,
        ExportKind::Global => 3,
        ExportKind::Tag => 4,
    }
}

/// Where the thing that an export names ends up.
pub open spec fn export_index(m: IndexMapV, k: ExportKind, i: u32) -> Result<u32, LinkErrorV> {
    match k {
        ExportKind::Func => m.func(i),
        ExportKind::FuncExact => m.func(i),
        ExportKind::Table => m.table(i),
        ExportKind::Memory => m.memory(i),
        ExportKind::Global => m.global(i),
        ExportKind::Tag => Ok(i),
    }
}

impl Item for Export {
    type Model = ExportV;

    open spec fn model(&self) -> ExportV {
        self@
    }

    open spec fn encoded(x: ExportV, m: IndexMapV) -> BytesV {
        cat(
            cat(name_bytes(x.name), Ok(seq![kind_byte(x.kind)])),
            index_bytes(export_index(m, x.kind, x.index)),
        )
    }

    fn encode(&self, m: &IndexMap) -> Result<Vec<u8>, LinkError> {
        let (kind, index): (u8, Result<u32, LinkError>) = match self.kind {
            ExportKind::Func => (0, m.func(self.index)),
            ExportKind::FuncExact => (0, m.func(self.index)),
            ExportKind::Table => (1, m.table(self.index)),
            ExportKind::Memory => (2, m.memory(self.index)),
            ExportKind::Global => (3, m.global(self.index)),
            ExportKind::Tag => (4, Ok(self.index)),
        };
        join(join(encode_name(self.name.as_str()), one(kind)), encode_index(index))
    }
}

/// A constant expression on its own.
impl<'a> Item for ConstExpr<'a> {
    type Model = OpsV;

    open spec fn model(&self) -> OpsV {
        const_operators(*self)
    }

    open spec fn encoded(x: OpsV, m: IndexMapV) -> BytesV {
        moved_const(m, x)
    }

    fn encode(&self, m: &IndexMap) -> Result<Vec<u8>, LinkError> {
        rewrite_const(m, self)
    }
}

/// A function index in an element segment.
pub struct FuncRef(pub u32);

impl Item for FuncRef {
    type Model = u32;

    open spec fn model(&self) -> u32 {
        self.0
    }

    open spec fn encoded(x: u32, m: IndexMapV) -> BytesV {
        index_bytes(m.func(x))
    }

    fn encode(&self, m: &IndexMap) -> Result<Vec<u8>, LinkError> {
        encode_index(m.func(self.0))
    }
}

/// The table that an active segment names in the merged module. A user segment
/// without a table names the user module's first one.
pub open spec fn segment_table(m: IndexMapV, table: Option<u32>) -> Option<u32> {
    if m.side == Side::User && table is None {
        Some(0)
    } else {
        table
    }
}

/// The short form of an active segment: no table is named, and the items are
/// functions or expressions of the plain function reference type.
pub open spec fn is_short(table: Option<u32>, ty: Option<Seq<u8>>) -> bool {
    table is None && match ty {
        None => true,
        Some(b) => b == seq![0x70u8],
    }
}

/// The kind of the items: a byte for functions, a type for expressions.
pub open spec fn items_type(ty: Option<Seq<u8>>) -> Seq<u8> {
    match ty {
        None => seq![0x00u8],
        Some(b) => b,
    }
}

/// The part of an element segment in front of its items.
pub open spec fn segment_head(m: IndexMapV, kind: SegmentKindV, ty: Option<Seq<u8>>) -> BytesV {
    let bit = if ty is Some {
        4u8
    } else {
        0u8
    };
    match kind {
        SegmentKindV::Passive => cat(Ok(seq![(1 + bit) as u8]), Ok(items_type(ty))),
        SegmentKindV::Declared => cat(Ok(seq![(3 + bit) as u8]), Ok(items_type(ty))),
        SegmentKindV::Active(t, offset) => {
            let table = segment_table(m, t);
            if is_short(table, ty) {
                cat(Ok(seq![bit]), moved_const(m, offset))
            } else {
                cat(
                    cat(
                        cat(
                            Ok(seq![(2 + bit) as u8]),
                            index_bytes(
                                match table {
                                    Some(t) => m.table(t),
                                    None => Ok(0),
                                },
                            ),
                        ),
                        moved_const(m, offset),
                    ),
                    Ok(items_type(ty)),
                )
            }
        },
    }
}

fn copy_type(ty: &Option<Vec<u8>>) -> (r: Result<Vec<u8>, LinkError>)
    ensures
        seen_bytes(r) == Ok::<Seq<u8>, LinkErrorV>(
            items_type(
                match *ty {
                    Some(b) => Some(b@),
                    None => None,
                },
            ),
        ),
{
    match ty {
        None => one(0x00),
        Some(b) => copied(b.as_slice()),
    }
}

fn encode_segment_head(m: &IndexMap, kind: &SegmentKind<'_>, ty: &Option<Vec<u8>>) -> (r: Result<
    Vec<u8>,
    LinkError,
>)
    ensures
        seen_bytes(r) == segment_head(
            m@,
            kind@,
            match *ty {
                Some(b) => Some(b@),
                None => None,
            },
        ),
{
    let bit: u8 = if ty.is_some() {
        4
    } else {
        0
    };
    match kind {
        SegmentKind::Passive => join(one(1 + bit), copy_type(ty)),
        SegmentKind::Declared => join(one(3 + bit), copy_type(ty)),
        SegmentKind::Active(t, offset) => {
            let table: Option<u32> = match *t {
                None => {
                    if m.side == Side::User {
                        Some(0)
                    } else {
                        None
                    }
                },
                Some(t) => Some(t),
            };
            let plain: bool = match ty {
                None => true,
                Some(b) => {
                    let p = b.len() == 1 && b[0] == 0x70;
                    proof {
                        if p {
                            assert(b@ =~= seq![0x70u8]);
                        } else if b@ == seq![0x70u8] {
                            assert(b@[0] == 0x70);
                        }
                    }
                    p
                },
            };
            if table.is_none() && plain {
                join(one(bit), rewrite_const(m, offset))
            } else {
                let index = match table {
                    Some(t) => m.table(t),
                    None => Ok(0),
                };
                join(
                    join(join(one(2 + bit), encode_index(index)), rewrite_const(m, offset)),
                    copy_type(ty),
                )
            }
        },
    }
}

/// An element segment in the merged module.
pub open spec fn segment_bytes(m: IndexMapV, x: ElementV) -> BytesV {
    match x.items {
        Err(t) => Err(LinkErrorV::Malformed(m.side, t)),
        Ok(SegmentItemsV::Functions(fs)) => cat(
            segment_head(m, x.kind, None),
            counted::<FuncRef>(fs, m),
        ),
        Ok(SegmentItemsV::Expressions(ty, es)) => match typed(m, ref_type_bytes(ty)) {
            Err(e) => Err(e),
            Ok(b) => cat(segment_head(m, x.kind, Some(b)), counted::<ConstExpr<'_>>(es, m)),
        },
    }
}

fn func_refs(fs: &Vec<u32>) -> (r: Vec<FuncRef>)
    ensures
        models(r@) == fs@,
{
    let mut out: Vec<FuncRef> = Vec::new();
    let mut i: usize = 0;
    while i < fs.len()
        invariant
            i <= fs@.len(),
            out@.len() == i,
            forall|j: int| 0 <= j < i ==> (#[trigger] out@[j]).0 == fs@[j],
        decreases fs@.len() - i,
    {
        out.push(FuncRef(fs[i]));
        i += 1;
    }
    assert(models(out@) =~= fs@);
    out
}

impl<'a> Item for Element<'a> {
    type Model = ElementV;

    open spec fn model(&self) -> ElementV {
        element_model(*self)
    }

    open spec fn encoded(x: ElementV, m: IndexMapV) -> BytesV {
        segment_bytes(m, x)
    }

    fn encode(&self, m: &IndexMap) -> Result<Vec<u8>, LinkError> {
        let kind = element_kind(self);
        match element_items(self) {
            Err(t) => Err(LinkError::Malformed(m.side, t)),
            Ok(SegmentItems::Functions(fs)) => {
                let refs = func_refs(&fs);
                join(encode_segment_head(m, &kind, &None), encode_counted(&refs, m))
            },
            Ok(SegmentItems::Expressions(ty, es)) => match encode_typed(m, encode_ref_type(&ty)) {
                Err(e) => Err(e),
                Ok(b) => {
                    assert(models(es@) =~= es@.map_values(|x: ConstExpr<'a>| const_operators(x)));
                    join(encode_segment_head(m, &kind, &Some(b)), encode_counted(&es, m))
                },
            },
        }
    }
}

/// A function body in the merged module. A body of the shell is kept byte for
/// byte where no index of the shell moves.
pub open spec fn body_bytes(m: IndexMapV, body: Seq<u8>) -> BytesV {
    if m.side == Side::Shell && m.func_base == 0 && m.global_shift == 0 {
        sized(body)
    } else {
        match parsed_locals(body) {
            Err(t) => Err(LinkErrorV::Malformed(m.side, t)),
            Ok(locals) => match parsed_operators(body) {
                Err(t) => Err(LinkErrorV::Malformed(m.side, t)),
                Ok(ops) => match cat(
                    counted::<(u32, ValType)>(locals, m),
                    moved_ops(m, ops, ops.len() as int),
                ) {
                    Ok(b) => sized(b),
                    Err(e) => Err(e),
                },
            },
        }
    }
}

/// Rewrites a function body for the merged module.
pub fn rewrite_function_body(m: &IndexMap, body: &Vec<u8>) -> (r: Result<Vec<u8>, LinkError>)
    ensures
        seen_bytes(r) == body_bytes(m@, body@),
{
    if m.side == Side::Shell && m.func_base == 0 && m.global_shift == 0 {
        return encode_sized(body.as_slice());
    }
    let locals = match parse_locals(body.as_slice()) {
        Err(t) => return Err(LinkError::Malformed(m.side, t)),
        Ok(v) => v,
    };
    let ops = match parse_operators(body.as_slice()) {
        Err(t) => return Err(LinkError::Malformed(m.side, t)),
        Ok(v) => v,
    };
    assert(models(locals@) =~= locals@);
    let mut out = match encode_counted(&locals, m) {
        Err(e) => return Err(e),
        Ok(b) => b,
    };
    match rewrite_ops(m, &ops, &mut out) {
        Err(e) => return Err(e),
        Ok(_) => {},
    }
    encode_sized(out.as_slice())
}

impl Item for Vec<u8> {
    type Model = Seq<u8>;

    open spec fn model(&self) -> Seq<u8> {
        self@
    }

    open spec fn encoded(x: Seq<u8>, m: IndexMapV) -> BytesV {
        body_bytes(m, x)
    }

    fn encode(&self, m: &IndexMap) -> Result<Vec<u8>, LinkError> {
        rewrite_function_body(m, self)
    }
}

impl<'a> Item for Data<'a> {
    type Model = DataV;

    open spec fn model(&self) -> DataV {
        self@
    }

    open spec fn encoded(x: DataV, m: IndexMapV) -> BytesV {
        cat(
            match x.place {
                DataPlaceV::Passive => Ok(seq![0x01u8]),
                DataPlaceV::Active(mem, offset) => match m.memory(mem) {
                    Err(e) => Err(e),
                    Ok(i) => if i == 0 {
                        cat(Ok(seq![0x00u8]), moved_const(m, offset))
                    } else {
                        cat(cat(Ok(seq![0x02u8]), Ok(leb(i as nat))), moved_const(m, offset))
                    },
                },
            },
            sized(x.bytes),
        )
    }

    fn encode(&self, m: &IndexMap) -> Result<Vec<u8>, LinkError> {
        let head = match &self.place {
            DataPlace::Passive => one(0x01),
            DataPlace::Active(mem, offset) => match m.memory(*mem) {
                Err(e) => Err(e),
                Ok(i) => {
                    if i == 0 {
                        join(one(0x00), rewrite_const(m, offset))
                    } else {
                        join(join(one(0x02), Ok(encode_u32(i))), rewrite_const(m, offset))
                    }
                },
            },
        };
        join(head, encode_sized(self.bytes.as_slice()))
    }
}

} // verus!
