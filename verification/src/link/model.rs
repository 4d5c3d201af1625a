//! What the linker reads out of a module, and what can go wrong.
use vstd::prelude::*;
use wasmparser::{ConstExpr, GlobalType, RefType, TableType, ValType};
use super::outside::const_operators;

verus! {

/// An instruction that names a function, a global, or a type and a table.
#[derive(Clone, Copy, Debug, PartialEq, Eq, Structural)]
pub enum CallOp {
    Call(u32),
    ReturnCall(u32),
    RefFunc(u32),
    GlobalGet(u32),
    GlobalSet(u32),
    /// Type index, table index.
    CallIndirect(u32, u32),
    /// Type index, table index.
    ReturnCallIndirect(u32, u32),
}

/// An instruction that names tables or element segments.
#[derive(Clone, Copy, Debug, PartialEq, Eq, Structural)]
pub enum TableOp {
    Load(u32),
    Store(u32),
    Size(u32),
    Grow(u32),
    Fill(u32),
    /// Destination table, source table.
    Copy(u32, u32),
    /// Element segment, table.
    Init(u32, u32),
    ElemDrop(u32),
}

/// An instruction that names memories as a whole, or data segments.
#[derive(Clone, Copy, Debug, PartialEq, Eq, Structural)]
pub enum MemoryOp {
    /// Memory, data segment.
    Init(u32, u32),
    DataDrop(u32),
    /// Destination memory, source memory.
    Copy(u32, u32),
    Fill(u32),
    Size(u32),
    Grow(u32),
}

/// The start of a block whose type is a function type, by type index.
#[derive(Clone, Copy, Debug, PartialEq, Eq, Structural)]
pub enum BlockOp {
    Block(u32),
    Loop(u32),
    If(u32),
}

/// An instruction that names a memory as a whole, by the memories it names.
#[derive(Clone, Copy, Debug, PartialEq, Eq, Structural)]
pub enum MemoryUse {
    Init(u32),
    /// Destination memory, source memory.
    Copy(u32, u32),
    Fill(u32),
    Size(u32),
    Grow(u32),
}

/// What an instruction does: by the indices it names, or, where it names none
/// that the linker has to look at, by its encoding.
pub enum OpKindV {
    Call(CallOp),
    Table(TableOp),
    Memory(MemoryOp),
    Block(BlockOp),
    Plain(Result<Seq<u8>, Seq<char>>),
}

/// One instruction, with the text that names it in messages.
pub struct OpV {
    pub kind: OpKindV,
    pub text: Seq<char>,
}

/// The instructions of an expression, or why they cannot be read.
pub type OpsV = Result<Seq<OpV>, Seq<char>>;

/// A value read from outside, as the contracts see it.
pub open spec fn seen<T: View>(r: Result<Vec<T>, String>) -> Result<Seq<T::V>, Seq<char>> {
    match r {
        Ok(v) => Ok(v@.map_values(|x: T| x@)),
        Err(e) => Err(e@),
    }
}

/// A list of values without parts, as the contracts see it.
pub open spec fn seen_plain<T>(r: Result<Vec<T>, String>) -> Result<Seq<T>, Seq<char>> {
    match r {
        Ok(v) => Ok(v@),
        Err(e) => Err(e@),
    }
}

/// An entry of the type section: a function type, or a type of another kind by
/// its text.
pub enum TypeDef {
    Func(Vec<ValType>, Vec<ValType>),
    Other(String),
}

pub enum TypeDefV {
    Func(Seq<ValType>, Seq<ValType>),
    Other(Seq<char>),
}

impl View for TypeDef {
    type V = TypeDefV;

    open spec fn view(&self) -> TypeDefV {
        match self {
            TypeDef::Func(p, r) => TypeDefV::Func(p@, r@),
            TypeDef::Other(t) => TypeDefV::Other(t@),
        }
    }
}

/// What an import is.
pub enum ImportType {
    Func(u32),
    Global(GlobalType),
    Memory,
    Other,
}

pub struct Import {
    pub module: String,
    pub name: String,
    pub ty: ImportType,
}

pub struct ImportV {
    pub module: Seq<char>,
    pub name: Seq<char>,
    pub ty: ImportType,
}

impl View for Import {
    type V = ImportV;

    open spec fn view(&self) -> ImportV {
        ImportV { module: self.module@, name: self.name@, ty: self.ty }
    }
}

pub struct Table<'a> {
    pub ty: TableType,
    pub init: Option<ConstExpr<'a>>,
}

pub struct TableV {
    pub ty: TableType,
    pub init: Option<OpsV>,
}

impl<'a> View for Table<'a> {
    type V = TableV;

    open spec fn view(&self) -> TableV {
        TableV {
            ty: self.ty,
            init: match self.init {
                Some(e) => Some(const_operators(e)),
                None => None,
            },
        }
    }
}

pub struct Global<'a> {
    pub ty: GlobalType,
    pub init: ConstExpr<'a>,
}

pub struct GlobalV {
    pub ty: GlobalType,
    pub init: OpsV,
}

impl<'a> View for Global<'a> {
    type V = GlobalV;

    open spec fn view(&self) -> GlobalV {
        GlobalV { ty: self.ty, init: const_operators(self.init) }
    }
}

/// What an export names.
#[derive(Clone, Copy, Debug, PartialEq, Eq, Structural)]
pub enum ExportKind {
    Func,
    FuncExact,
    Table,
    Memory,
    Global,
    Tag,
}

pub struct Export {
    pub name: String,
    pub kind: ExportKind,
    pub index: u32,
}

pub struct ExportV {
    pub name: Seq<char>,
    pub kind: ExportKind,
    pub index: u32,
}

impl View for Export {
    type V = ExportV;

    open spec fn view(&self) -> ExportV {
        ExportV { name: self.name@, kind: self.kind, index: self.index }
    }
}

/// Where the items of an element segment go.
pub enum SegmentKind<'a> {
    Passive,
    Declared,
    Active(Option<u32>, ConstExpr<'a>),
}

pub enum SegmentKindV {
    Passive,
    Declared,
    Active(Option<u32>, OpsV),
}

impl<'a> View for SegmentKind<'a> {
    type V = SegmentKindV;

    open spec fn view(&self) -> SegmentKindV {
        match self {
            SegmentKind::Passive => SegmentKindV::Passive,
            SegmentKind::Declared => SegmentKindV::Declared,
            SegmentKind::Active(t, e) => SegmentKindV::Active(*t, const_operators(*e)),
        }
    }
}

/// The items of an element segment: function indices, or expressions of a type.
pub enum SegmentItems<'a> {
    Functions(Vec<u32>),
    Expressions(RefType, Vec<ConstExpr<'a>>),
}

pub enum SegmentItemsV {
    Functions(Seq<u32>),
    Expressions(RefType, Seq<OpsV>),
}

impl<'a> View for SegmentItems<'a> {
    type V = SegmentItemsV;

    open spec fn view(&self) -> SegmentItemsV {
        match self {
            SegmentItems::Functions(f) => SegmentItemsV::Functions(f@),
            SegmentItems::Expressions(t, e) => SegmentItemsV::Expressions(
                *t,
                e@.map_values(|x: ConstExpr<'a>| const_operators(x)),
            ),
        }
    }
}

/// An element segment.
pub struct ElementV {
    pub kind: SegmentKindV,
    pub items: Result<SegmentItemsV, Seq<char>>,
}

/// Where the bytes of a data segment go: a memory and an offset, or nowhere yet.
pub enum DataPlace<'a> {
    Passive,
    Active(u32, ConstExpr<'a>),
}

pub struct Data<'a> {
    pub place: DataPlace<'a>,
    pub bytes: Vec<u8>,
}

pub enum DataPlaceV {
    Passive,
    Active(u32, OpsV),
}

pub struct DataV {
    pub place: DataPlaceV,
    pub bytes: Seq<u8>,
}

impl<'a> View for Data<'a> {
    type V = DataV;

    open spec fn view(&self) -> DataV {
        DataV {
            place: match self.place {
                DataPlace::Passive => DataPlaceV::Passive,
                DataPlace::Active(m, e) => DataPlaceV::Active(m, const_operators(e)),
            },
            bytes: self.bytes@,
        }
    }
}

} // verus!
