//! The calls into `wasmparser`, `wasm-encoder` and `wat`: reading sections and
//! operators, and encoding types and instructions.
use vstd::prelude::*;
use wasm_encoder::{Encode, Instruction, Section};
use wasmparser::{BinaryReader, BlockType, CodeSectionReader, CompositeInnerType, ConstExpr, DataKind, DataSectionReader, Element, ElementItems, ElementKind, ElementSectionReader, ExportSectionReader, ExternalKind, FunctionBody, FunctionSectionReader, GlobalSectionReader, GlobalType, ImportSectionReader, MemorySectionReader, MemoryType, Operator, Parser, RefType, TableInit, TableSectionReader, TableType, TypeRef, TypeSectionReader, ValType};
use super::parse::is_component_header;
use super::model::{seen, seen_plain, BlockOp, CallOp, Data, DataPlace, DataV, ElementV, Export, ExportKind, ExportV, Global, GlobalV, Import, ImportType, ImportV, MemoryOp, OpKindV, OpV, OpsV, SegmentItems, SegmentItemsV, SegmentKind, Table, TableOp, TableV, TypeDef, TypeDefV};

verus! {

// ---------------------------------------------------------------------------
// Types of `wasmparser`
// ---------------------------------------------------------------------------

/// `wasmparser::ValType`: a value type, carried from reader to encoder.
#[verifier::external_type_specification]
#[verifier::external_body]
pub struct ExValType(ValType);

/// `wasmparser::RefType`: a reference type, carried from reader to encoder.
#[verifier::external_type_specification]
#[verifier::external_body]
pub struct ExRefType(RefType);

/// `wasmparser::GlobalType`: the type of a global, carried from reader to encoder.
#[verifier::external_type_specification]
#[verifier::external_body]
pub struct ExGlobalType(GlobalType);

/// `wasmparser::TableType`: the type of a table, carried from reader to encoder.
#[verifier::external_type_specification]
#[verifier::external_body]
pub struct ExTableType(TableType);

/// `wasmparser::MemoryType`: the type of a memory, carried from reader to encoder.
#[verifier::external_type_specification]
#[verifier::external_body]
pub struct ExMemoryType(MemoryType);

/// `wasmparser::ConstExpr`: a constant expression whose operators are not yet read.
#[verifier::external_type_specification]
#[verifier::external_body]
pub struct ExConstExpr<'a>(ConstExpr<'a>);

/// `wasmparser::Element`: an element segment whose items are not yet read.
#[verifier::external_type_specification]
#[verifier::external_body]
pub struct ExElement<'a>(Element<'a>);

/// `wasmparser::Operator`: one instruction of a function body.
#[verifier::external_type_specification]
#[verifier::external_body]
pub struct ExOperator<'a>(Operator<'a>);

// ---------------------------------------------------------------------------
// Sections
// ---------------------------------------------------------------------------

/// The sections that `wasmparser` finds in a module, in order: id, first byte and
/// end of the contents. Other events of the parser are `None`.
pub uninterp spec fn parsed_sections(bytes: Seq<u8>) -> Result<
    Seq<Option<(u8, usize, usize)>>,
    Seq<char>,
>;

/// `wasmparser::Parser::parse_all` with `Payload::as_section` on each payload: the
/// id and range of each section, or the text of the first error. The ranges of a
/// core module's sections, and those of custom sections, lie inside the input;
/// those of modules nested in a component are not checked by the parser.
#[verifier::external_body]
pub(crate) fn parse_sections(bytes: &[u8]) -> (r: Result<
    Vec<Option<(u8, usize, usize)>>,
    String,
>)
    ensures
        seen_plain(r) == parsed_sections(bytes@),
        r matches Ok(v) ==> (forall|i: int|
            0 <= i < v@.len() ==> match #[trigger] v@[i] {
                Some((id, start, end)) => id == 0 || !is_component_header(bytes@) ==> start <= end
                    <= bytes@.len(),
                None => true,
            }),
{
    let payloads = Parser::new(0).parse_all(bytes);
    let sections = payloads.map(|p| p.map(|p| p.as_section().map(|(id, r)| (id, r.start, r.end))));
    sections.collect::<Result<Vec<_>, _>>().map_err(|e| e.to_string())
}

// The readers of sections count positions from `base` on in one machine word, so
// that a section has to end inside it.

/// The entries of a type section that starts at byte `base` of its module.
pub uninterp spec fn parsed_types(section: Seq<u8>, base: usize) -> Result<
    Seq<TypeDefV>,
    Seq<char>,
>;

/// `wasmparser::TypeSectionReader`, with the recursion groups laid end to end: the
/// parameter and result types of each function type, the `Debug` text of each other
/// type, or the text of the first error. All depend on the section and on where it starts alone.
#[verifier::external_body]
pub(crate) fn parse_types(section: &[u8], base: usize) -> (r: Result<Vec<TypeDef>, String>)
    requires
        base + section@.len() <= usize::MAX,
    ensures
        seen(r) == parsed_types(section@, base),
{
    let reader = TypeSectionReader::new(BinaryReader::new(section, base));
    let mut out = Vec::new();
    for group in reader.map_err(|e| e.to_string())? {
        for ty in group.map_err(|e| e.to_string())?.into_types() {
            out.push(match ty.composite_type.inner {
                CompositeInnerType::Func(f) => TypeDef::Func(f.params().to_vec(), f.results().to_vec()),
                other => TypeDef::Other(format!("{:?}", other)),
            });
        }
    }
    Ok(out)
}

/// The entries of an import section.
pub uninterp spec fn parsed_imports(section: Seq<u8>, base: usize) -> Result<
    Seq<ImportV>,
    Seq<char>,
>;

/// `wasmparser::ImportSectionReader::into_imports`: the imports one by one, groups
/// taken apart, or the text of the first error. Both depend on the section and on
/// where it starts alone.
#[verifier::external_body]
pub(crate) fn parse_imports(section: &[u8], base: usize) -> (r: Result<Vec<Import>, String>)
    requires
        base + section@.len() <= usize::MAX,
    ensures
        seen(r) == parsed_imports(section@, base),
{
    let reader = ImportSectionReader::new(BinaryReader::new(section, base));
    let mut out = Vec::new();
    for import in reader.map_err(|e| e.to_string())?.into_imports() {
        let import = import.map_err(|e| e.to_string())?;
        let ty = match import.ty {
            TypeRef::Func(t) => ImportType::Func(t),
            TypeRef::Global(g) => ImportType::Global(g),
            TypeRef::Memory(_) => ImportType::Memory,
            _ => ImportType::Other,
        };
        out.push(Import { module: import.module.to_owned(), name: import.name.to_owned(), ty });
    }
    Ok(out)
}

/// The entries of a function section: type indices.
pub uninterp spec fn parsed_functions(section: Seq<u8>, base: usize) -> Result<Seq<u32>, Seq<char>>;

/// `wasmparser::FunctionSectionReader`: the type indices in order, or the text of the
/// first error. Both depend on the section and on where it starts alone.
#[verifier::external_body]
pub(crate) fn parse_functions(section: &[u8], base: usize) -> (r: Result<Vec<u32>, String>)
    requires
        base + section@.len() <= usize::MAX,
    ensures
        seen_plain(r) == parsed_functions(section@, base),
{
    let reader = FunctionSectionReader::new(BinaryReader::new(section, base));
    let items = reader.map_err(|e| e.to_string())?.into_iter().collect::<Result<Vec<u32>, _>>();
    items.map_err(|e| e.to_string())
}

/// The entries of a table section.
pub uninterp spec fn parsed_tables(section: Seq<u8>, base: usize) -> Result<Seq<TableV>, Seq<char>>;

/// `wasmparser::TableSectionReader`: type and initial value of each table, or the text
/// of the first error. Both depend on the section and on where it starts alone.
#[verifier::external_body]
pub(crate) fn parse_tables<'a>(section: &'a [u8], base: usize) -> (r: Result<
    Vec<Table<'a>>,
    String,
>)
    requires
        base + section@.len() <= usize::MAX,
    ensures
        seen(r) == parsed_tables(section@, base),
{
    let reader = TableSectionReader::new(BinaryReader::new(section, base));
    let mut out = Vec::new();
    for table in reader.map_err(|e| e.to_string())? {
        let table = table.map_err(|e| e.to_string())?;
        let init = match table.init {
            TableInit::RefNull => None,
            TableInit::Expr(e) => Some(e),
        };
        out.push(Table { ty: table.ty, init });
    }
    Ok(out)
}

/// The entries of a memory section.
pub uninterp spec fn parsed_memories(section: Seq<u8>, base: usize) -> Result<
    Seq<MemoryType>,
    Seq<char>,
>;

/// `wasmparser::MemorySectionReader`: the memory types in order, or the text of the
/// first error. Both depend on the section and on where it starts alone.
#[verifier::external_body]
pub(crate) fn parse_memories(section: &[u8], base: usize) -> (r: Result<Vec<MemoryType>, String>)
    requires
        base + section@.len() <= usize::MAX,
    ensures
        seen_plain(r) == parsed_memories(section@, base),
{
    let reader = MemorySectionReader::new(BinaryReader::new(section, base));
    let items = reader.map_err(|e| e.to_string())?.into_iter().collect::<Result<Vec<_>, _>>();
    items.map_err(|e| e.to_string())
}

/// The entries of a global section.
pub uninterp spec fn parsed_globals(section: Seq<u8>, base: usize) -> Result<
    Seq<GlobalV>,
    Seq<char>,
>;

/// `wasmparser::GlobalSectionReader`: type and initial value of each global, or the
/// text of the first error. Both depend on the section and on where it starts alone.
#[verifier::external_body]
pub(crate) fn parse_globals<'a>(section: &'a [u8], base: usize) -> (r: Result<
    Vec<Global<'a>>,
    String,
>)
    requires
        base + section@.len() <= usize::MAX,
    ensures
        seen(r) == parsed_globals(section@, base),
{
    let reader = GlobalSectionReader::new(BinaryReader::new(section, base));
    let mut out = Vec::new();
    for global in reader.map_err(|e| e.to_string())? {
        let global = global.map_err(|e| e.to_string())?;
        out.push(Global { ty: global.ty, init: global.init_expr });
    }
    Ok(out)
}

/// The entries of an export section.
pub uninterp spec fn parsed_exports(section: Seq<u8>, base: usize) -> Result<
    Seq<ExportV>,
    Seq<char>,
>;

/// `wasmparser::ExportSectionReader`: name, kind and index of each export, or the text
/// of the first error. Both depend on the section and on where it starts alone.
#[verifier::external_body]
pub(crate) fn parse_exports(section: &[u8], base: usize) -> (r: Result<Vec<Export>, String>)
    requires
        base + section@.len() <= usize::MAX,
    ensures
        seen(r) == parsed_exports(section@, base),
{
    let mut out = Vec::new();
    for export in ExportSectionReader::new(BinaryReader::new(section, base)).map_err(|e| e.to_string())? {
        let export = export.map_err(|e| e.to_string())?;
        let kind = match export.kind {
            ExternalKind::Func => ExportKind::Func,
            ExternalKind::FuncExact => ExportKind::FuncExact,
            ExternalKind::Table => ExportKind::Table,
            ExternalKind::Memory => ExportKind::Memory,
            ExternalKind::Global => ExportKind::Global,
            ExternalKind::Tag => ExportKind::Tag,
        };
        out.push(Export { name: export.name.to_owned(), kind, index: export.index });
    }
    Ok(out)
}

/// The function index that a start section holds.
pub uninterp spec fn parsed_start(section: Seq<u8>, base: usize) -> Result<u32, Seq<char>>;

/// `wasmparser::BinaryReader::read_var_u32` at the start of the section: the number
/// that stands there, or the text of the error.
#[verifier::external_body]
pub(crate) fn parse_start(section: &[u8], base: usize) -> (r: Result<u32, String>)
    requires
        base + section@.len() <= usize::MAX,
    ensures
        match r {
            Ok(i) => parsed_start(section@, base) == Ok::<u32, Seq<char>>(i),
            Err(e) => parsed_start(section@, base) == Err::<u32, Seq<char>>(e@),
        },
{
    BinaryReader::new(section, base).read_var_u32().map_err(|e| e.to_string())
}

/// What an element segment holds.
pub uninterp spec fn element_model(e: Element<'_>) -> ElementV;

/// The entries of an element section.
pub uninterp spec fn parsed_elements(section: Seq<u8>, base: usize) -> Result<
    Seq<ElementV>,
    Seq<char>,
>;

/// `wasmparser::ElementSectionReader`: the segments in order, or the text of the first
/// error. What the segments hold depends on the section and on where it starts alone.
#[verifier::external_body]
pub(crate) fn parse_elements<'a>(section: &'a [u8], base: usize) -> (r: Result<
    Vec<Element<'a>>,
    String,
>)
    requires
        base + section@.len() <= usize::MAX,
    ensures
        match r {
            Ok(v) => parsed_elements(section@, base) == Ok::<Seq<ElementV>, Seq<char>>(
                v@.map_values(|e: Element<'a>| element_model(e)),
            ),
            Err(e) => parsed_elements(section@, base) == Err::<Seq<ElementV>, Seq<char>>(e@),
        },
{
    let reader = ElementSectionReader::new(BinaryReader::new(section, base));
    let items = reader.map_err(|e| e.to_string())?.into_iter().collect::<Result<Vec<_>, _>>();
    items.map_err(|e| e.to_string())
}

/// The field `kind` of a `wasmparser::Element`: whether the segment is passive,
/// declared, or goes to an offset of a table.
#[verifier::external_body]
pub(crate) fn element_kind<'a>(e: &Element<'a>) -> (r: SegmentKind<'a>)
    ensures
        r@ == element_model(*e).kind,
{
    match &e.kind {
        ElementKind::Passive => SegmentKind::Passive,
        ElementKind::Declared => SegmentKind::Declared,
        ElementKind::Active { table_index, offset_expr } => {
            SegmentKind::Active(*table_index, offset_expr.clone())
        },
    }
}

/// The field `items` of a `wasmparser::Element`, read to the end: function indices or
/// expressions in order, or the text of the first error.
#[verifier::external_body]
pub(crate) fn element_items<'a>(e: &Element<'a>) -> (r: Result<SegmentItems<'a>, String>)
    ensures
        match r {
            Ok(items) => element_model(*e).items == Ok::<SegmentItemsV, Seq<char>>(items@),
            Err(e2) => element_model(*e).items == Err::<SegmentItemsV, Seq<char>>(e2@),
        },
{
    match e.items.clone() {
        ElementItems::Functions(reader) => {
            let items = reader.into_iter().collect::<Result<Vec<u32>, _>>();
            items.map(SegmentItems::Functions).map_err(|e| e.to_string())
        },
        ElementItems::Expressions(ty, reader) => {
            let items = reader.into_iter().collect::<Result<Vec<_>, _>>();
            items.map(|v| SegmentItems::Expressions(ty, v)).map_err(|e| e.to_string())
        },
    }
}

/// The function bodies of a code section, each from its locals on.
pub uninterp spec fn parsed_bodies(section: Seq<u8>, base: usize) -> Result<
    Seq<Seq<u8>>,
    Seq<char>,
>;

/// `wasmparser::CodeSectionReader` with `FunctionBody::as_bytes` on each body: the
/// bodies in order, or the text of the first error. Both depend on the section and on
/// where it starts alone.
#[verifier::external_body]
pub(crate) fn parse_bodies(section: &[u8], base: usize) -> (r: Result<Vec<Vec<u8>>, String>)
    requires
        base + section@.len() <= usize::MAX,
    ensures
        seen(r) == parsed_bodies(section@, base),
{
    let reader = CodeSectionReader::new(BinaryReader::new(section, base));
    let bodies = reader.map_err(|e| e.to_string())?.into_iter();
    let bytes = bodies.map(|b| b.map(|b| b.as_bytes().to_vec()));
    bytes.collect::<Result<Vec<_>, _>>().map_err(|e| e.to_string())
}

/// The entries of a data section.
pub uninterp spec fn parsed_data(section: Seq<u8>, base: usize) -> Result<Seq<DataV>, Seq<char>>;

/// `wasmparser::DataSectionReader`: place and bytes of each segment, or the text of the
/// first error. Both depend on the section and on where it starts alone.
#[verifier::external_body]
pub(crate) fn parse_data<'a>(section: &'a [u8], base: usize) -> (r: Result<Vec<Data<'a>>, String>)
    requires
        base + section@.len() <= usize::MAX,
    ensures
        seen(r) == parsed_data(section@, base),
{
    let reader = DataSectionReader::new(BinaryReader::new(section, base));
    let mut out = Vec::new();
    for data in reader.map_err(|e| e.to_string())? {
        let data = data.map_err(|e| e.to_string())?;
        let place = match data.kind {
            DataKind::Passive => DataPlace::Passive,
            DataKind::Active { memory_index, offset_expr } => DataPlace::Active(memory_index, offset_expr),
        };
        out.push(Data { place, bytes: data.data.to_vec() });
    }
    Ok(out)
}

// ---------------------------------------------------------------------------
// Function bodies and expressions
// ---------------------------------------------------------------------------

/// What an operator is.
pub uninterp spec fn operator_model(op: Operator<'_>) -> OpV;

/// The local declarations of a function body: count and type.
pub uninterp spec fn parsed_locals(body: Seq<u8>) -> Result<Seq<(u32, ValType)>, Seq<char>>;

/// `wasmparser::FunctionBody::get_locals_reader`, read to the end: the declarations in
/// order, or the text of the first error. Both depend on the body alone.
#[verifier::external_body]
pub(crate) fn parse_locals(body: &[u8]) -> (r: Result<Vec<(u32, ValType)>, String>)
    ensures
        seen_plain(r) == parsed_locals(body@),
{
    let reader = FunctionBody::new(BinaryReader::new(body, 0)).get_locals_reader();
    let items = reader.map_err(|e| e.to_string())?.into_iter().collect::<Result<Vec<_>, _>>();
    items.map_err(|e| e.to_string())
}

/// The operators of a function body.
pub uninterp spec fn parsed_operators(body: Seq<u8>) -> OpsV;

/// Operators as the contracts see them.
pub open spec fn seen_ops(r: Result<Vec<Operator<'_>>, String>) -> OpsV {
    match r {
        Ok(v) => Ok(v@.map_values(|op: Operator<'_>| operator_model(op))),
        Err(e) => Err(e@),
    }
}

/// `wasmparser::FunctionBody::get_operators_reader`, read to the end: the operators in
/// order, or the text of the first error. Both depend on the body alone.
#[verifier::external_body]
pub(crate) fn parse_operators<'a>(body: &'a [u8]) -> (r: Result<Vec<Operator<'a>>, String>)
    ensures
        seen_ops(r) == parsed_operators(body@),
{
    let reader = FunctionBody::new(BinaryReader::new(body, 0)).get_operators_reader();
    let items = reader.map_err(|e| e.to_string())?.into_iter().collect::<Result<Vec<_>, _>>();
    items.map_err(|e| e.to_string())
}

/// The operators of a constant expression.
pub uninterp spec fn const_operators(e: ConstExpr<'_>) -> OpsV;

/// `wasmparser::ConstExpr::get_operators_reader`, read to the end: the operators in
/// order, or the text of the first error. Both depend on the expression alone.
#[verifier::external_body]
pub(crate) fn parse_const<'a>(e: &ConstExpr<'a>) -> (r: Result<Vec<Operator<'a>>, String>)
    ensures
        seen_ops(r) == const_operators(*e),
{
    let items = e.get_operators_reader().into_iter().collect::<Result<Vec<_>, _>>();
    items.map_err(|e| e.to_string())
}

/// The `wasmparser::Operator` variants that name functions, globals, or a type and a
/// table, with the indices they name; of any other operator, nothing.
#[verifier::external_body]
pub(crate) fn as_call_op(op: &Operator<'_>) -> (r: Option<CallOp>)
    ensures
        r == (match operator_model(*op).kind {
            OpKindV::Call(c) => Some(c),
            _ => None,
        }),
{
    Some(match *op {
        Operator::Call { function_index } => CallOp::Call(function_index),
        Operator::ReturnCall { function_index } => CallOp::ReturnCall(function_index),
        Operator::RefFunc { function_index } => CallOp::RefFunc(function_index),
        Operator::GlobalGet { global_index } => CallOp::GlobalGet(global_index),
        Operator::GlobalSet { global_index } => CallOp::GlobalSet(global_index),
        Operator::CallIndirect { type_index, table_index } => CallOp::CallIndirect(type_index, table_index),
        Operator::ReturnCallIndirect { type_index, table_index } => CallOp::ReturnCallIndirect(type_index, table_index),
        _ => return None,
    })
}

/// The `wasmparser::Operator` variants that name tables or element segments, with the
/// indices they name; of any other operator, nothing.
#[verifier::external_body]
pub(crate) fn as_table_op(op: &Operator<'_>) -> (r: Option<TableOp>)
    ensures
        r == (match operator_model(*op).kind {
            OpKindV::Table(t) => Some(t),
            _ => None,
        }),
{
    Some(match *op {
        Operator::TableGet { table } => TableOp::Load(table),
        Operator::TableSet { table } => TableOp::Store(table),
        Operator::TableSize { table } => TableOp::Size(table),
        Operator::TableGrow { table } => TableOp::Grow(table),
        Operator::TableFill { table } => TableOp::Fill(table),
        Operator::TableCopy { dst_table, src_table } => TableOp::Copy(dst_table, src_table),
        Operator::TableInit { elem_index, table } => TableOp::Init(elem_index, table),
        Operator::ElemDrop { elem_index } => TableOp::ElemDrop(elem_index),
        _ => return None,
    })
}

/// The `wasmparser::Operator` variants that name whole memories or data segments, with
/// the indices they name; of any other operator, nothing.
#[verifier::external_body]
pub(crate) fn as_memory_op(op: &Operator<'_>) -> (r: Option<MemoryOp>)
    ensures
        r == (match operator_model(*op).kind {
            OpKindV::Memory(m) => Some(m),
            _ => None,
        }),
{
    Some(match *op {
        Operator::MemoryInit { mem, data_index } => MemoryOp::Init(mem, data_index),
        Operator::DataDrop { data_index } => MemoryOp::DataDrop(data_index),
        Operator::MemoryCopy { dst_mem, src_mem } => MemoryOp::Copy(dst_mem, src_mem),
        Operator::MemoryFill { mem } => MemoryOp::Fill(mem),
        Operator::MemorySize { mem } => MemoryOp::Size(mem),
        Operator::MemoryGrow { mem } => MemoryOp::Grow(mem),
        _ => return None,
    })
}

/// The `wasmparser::Operator` variants that open a block of a function type, with the
/// type index; of any other operator, nothing.
#[verifier::external_body]
pub(crate) fn as_block_op(op: &Operator<'_>) -> (r: Option<BlockOp>)
    ensures
        r == (match operator_model(*op).kind {
            OpKindV::Block(b) => Some(b),
            _ => None,
        }),
{
    Some(match *op {
        Operator::Block { blockty: BlockType::FuncType(t) } => BlockOp::Block(t),
        Operator::Loop { blockty: BlockType::FuncType(t) } => BlockOp::Loop(t),
        Operator::If { blockty: BlockType::FuncType(t) } => BlockOp::If(t),
        _ => return None,
    })
}

/// `wasm_encoder::Instruction::try_from` on an operator, with `Encode::encode`: the
/// encoding of the instruction, or the text of the error. Both depend on the operator
/// alone. Nothing is said of an operator that is seen through the indices it names.
#[verifier::external_body]
pub(crate) fn encode_operator(op: &Operator<'_>) -> (r: Result<Vec<u8>, String>)
    ensures
        operator_model(*op).kind matches OpKindV::Plain(p) ==> seen_plain(r) == p,
{
    let instruction = Instruction::try_from(op.clone()).map_err(|e| e.to_string())?;
    let mut out = Vec::new();
    instruction.encode(&mut out);
    Ok(out)
}

/// The `Debug` text of a `wasmparser::Operator`: the name of the instruction and what
/// stands behind it. It depends on the operator alone.
#[verifier::external_body]
pub(crate) fn operator_text(op: &Operator<'_>) -> (r: String)
    ensures
        r@ == operator_model(*op).text,
{
    format!("{:?}", op)
}

// ---------------------------------------------------------------------------
// Encoding
// ---------------------------------------------------------------------------

/// `n` in unsigned LEB128, shortest form.
pub open spec fn leb(n: nat) -> Seq<u8>
    decreases n,
{
    if n < 128 {
        seq![n as u8]
    } else {
        seq![(n % 128 + 128) as u8] + leb(n / 128)
    }
}

/// `n` in signed LEB128, shortest form, for a number that is not negative.
pub open spec fn signed_leb(n: nat) -> Seq<u8>
    decreases n,
{
    if n < 64 {
        seq![n as u8]
    } else {
        seq![(n % 128 + 128) as u8] + signed_leb(n / 128)
    }
}

/// `wasm_encoder::Encode` for `u32`: unsigned LEB128 in its shortest form.
#[verifier::external_body]
pub(crate) fn encode_u32(n: u32) -> (r: Vec<u8>)
    ensures
        r@ == leb(n as nat),
{
    let mut out = Vec::new();
    n.encode(&mut out);
    out
}

/// The encoding of a value type.
pub uninterp spec fn val_type_bytes(ty: ValType) -> Result<Seq<u8>, Seq<char>>;

/// `wasm_encoder::ValType::try_from` on a value type, with `Encode::encode`: the encoding,
/// or the text of the error. Both depend on the type alone.
#[verifier::external_body]
pub(crate) fn encode_val_type(ty: &ValType) -> (r: Result<Vec<u8>, String>)
    ensures
        seen_plain(r) == val_type_bytes(*ty),
{
    let ty = wasm_encoder::ValType::try_from(*ty).map_err(|e| e.to_string())?;
    let mut out = Vec::new();
    ty.encode(&mut out);
    Ok(out)
}

/// The encoding of a reference type.
pub uninterp spec fn ref_type_bytes(ty: RefType) -> Result<Seq<u8>, Seq<char>>;

/// `wasm_encoder::RefType::try_from` on a reference type, with `Encode::encode`: the encoding,
/// or the text of the error. Both depend on the type alone.
#[verifier::external_body]
pub(crate) fn encode_ref_type(ty: &RefType) -> (r: Result<Vec<u8>, String>)
    ensures
        seen_plain(r) == ref_type_bytes(*ty),
{
    let ty = wasm_encoder::RefType::try_from(*ty).map_err(|e| e.to_string())?;
    let mut out = Vec::new();
    ty.encode(&mut out);
    Ok(out)
}

/// The encoding of a global's type.
pub uninterp spec fn global_type_bytes(ty: GlobalType) -> Result<Seq<u8>, Seq<char>>;

/// `wasm_encoder::GlobalType::try_from` on a global's type, with `Encode::encode`: the encoding,
/// or the text of the error. Both depend on the type alone.
#[verifier::external_body]
pub(crate) fn encode_global_type(ty: &GlobalType) -> (r: Result<Vec<u8>, String>)
    ensures
        seen_plain(r) == global_type_bytes(*ty),
{
    let ty = wasm_encoder::GlobalType::try_from(*ty).map_err(|e| e.to_string())?;
    let mut out = Vec::new();
    ty.encode(&mut out);
    Ok(out)
}

/// The encoding of a table's type.
pub uninterp spec fn table_type_bytes(ty: TableType) -> Result<Seq<u8>, Seq<char>>;

/// `wasm_encoder::TableType::try_from` on a table's type, with `Encode::encode`: the encoding,
/// or the text of the error. Both depend on the type alone.
#[verifier::external_body]
pub(crate) fn encode_table_type(ty: &TableType) -> (r: Result<Vec<u8>, String>)
    ensures
        seen_plain(r) == table_type_bytes(*ty),
{
    let ty = wasm_encoder::TableType::try_from(*ty).map_err(|e| e.to_string())?;
    let mut out = Vec::new();
    ty.encode(&mut out);
    Ok(out)
}

/// The encoding of a memory's type.
pub uninterp spec fn memory_type_bytes(ty: MemoryType) -> Seq<u8>;

/// `wasm_encoder::MemoryType::from` on a memory's type, with `Encode::encode`: the
/// encoding, which depends on the type alone.
#[verifier::external_body]
pub(crate) fn encode_memory_type(ty: &MemoryType) -> (r: Vec<u8>)
    ensures
        r@ == memory_type_bytes(*ty),
{
    let mut out = Vec::new();
    wasm_encoder::MemoryType::from(*ty).encode(&mut out);
    out
}

/// The encoding of an instruction that names a function, a global, or a type and a table.
pub open spec fn call_op_bytes(op: CallOp) -> Seq<u8> {
    match op {
        CallOp::Call(f) => seq![0x10u8] + leb(f as nat),
        CallOp::ReturnCall(f) => seq![0x12u8] + leb(f as nat),
        CallOp::RefFunc(f) => seq![0xd2u8] + leb(f as nat),
        CallOp::GlobalGet(g) => seq![0x23u8] + leb(g as nat),
        CallOp::GlobalSet(g) => seq![0x24u8] + leb(g as nat),
        CallOp::CallIndirect(ty, t) => seq![0x11u8] + leb(ty as nat) + leb(t as nat),
        CallOp::ReturnCallIndirect(ty, t) => seq![0x13u8] + leb(ty as nat) + leb(t as nat),
    }
}

/// `wasm_encoder::Instruction::encode` for these instructions: the opcode of the binary
/// format, and the indices behind it in its order.
#[verifier::external_body]
pub(crate) fn encode_call_op(op: CallOp) -> (r: Vec<u8>)
    ensures
        r@ == call_op_bytes(op),
{
    let mut out = Vec::new();
    match op {
        CallOp::Call(f) => Instruction::Call(f),
        CallOp::ReturnCall(f) => Instruction::ReturnCall(f),
        CallOp::RefFunc(f) => Instruction::RefFunc(f),
        CallOp::GlobalGet(g) => Instruction::GlobalGet(g),
        CallOp::GlobalSet(g) => Instruction::GlobalSet(g),
        CallOp::CallIndirect(type_index, table_index) => Instruction::CallIndirect { type_index, table_index },
        CallOp::ReturnCallIndirect(type_index, table_index) => Instruction::ReturnCallIndirect { type_index, table_index },
    }.encode(&mut out);
    out
}

/// The encoding of an instruction that names tables or element segments.
pub open spec fn table_op_bytes(op: TableOp) -> Seq<u8> {
    match op {
        TableOp::Load(t) => seq![0x25u8] + leb(t as nat),
        TableOp::Store(t) => seq![0x26u8] + leb(t as nat),
        TableOp::Size(t) => seq![0xfcu8, 0x10u8] + leb(t as nat),
        TableOp::Grow(t) => seq![0xfcu8, 0x0fu8] + leb(t as nat),
        TableOp::Fill(t) => seq![0xfcu8, 0x11u8] + leb(t as nat),
        TableOp::Copy(dst, src) => seq![0xfcu8, 0x0eu8] + leb(dst as nat) + leb(src as nat),
        TableOp::Init(e, t) => seq![0xfcu8, 0x0cu8] + leb(e as nat) + leb(t as nat),
        TableOp::ElemDrop(e) => seq![0xfcu8, 0x0du8] + leb(e as nat),
    }
}

/// `wasm_encoder::Instruction::encode` for these instructions: the opcode of the binary
/// format, and the indices behind it in its order.
#[verifier::external_body]
pub(crate) fn encode_table_op(op: TableOp) -> (r: Vec<u8>)
    ensures
        r@ == table_op_bytes(op),
{
    let mut out = Vec::new();
    match op {
        TableOp::Load(t) => Instruction::TableGet(t),
        TableOp::Store(t) => Instruction::TableSet(t),
        TableOp::Size(t) => Instruction::TableSize(t),
        TableOp::Grow(t) => Instruction::TableGrow(t),
        TableOp::Fill(t) => Instruction::TableFill(t),
        TableOp::Copy(dst_table, src_table) => Instruction::TableCopy { src_table, dst_table },
        TableOp::Init(elem_index, table) => Instruction::TableInit { elem_index, table },
        TableOp::ElemDrop(e) => Instruction::ElemDrop(e),
    }.encode(&mut out);
    out
}

/// The encoding of an instruction that names whole memories or data segments.
pub open spec fn memory_op_bytes(op: MemoryOp) -> Seq<u8> {
    match op {
        MemoryOp::Init(m, d) => seq![0xfcu8, 0x08u8] + leb(d as nat) + leb(m as nat),
        MemoryOp::DataDrop(d) => seq![0xfcu8, 0x09u8] + leb(d as nat),
        MemoryOp::Copy(dst, src) => seq![0xfcu8, 0x0au8] + leb(dst as nat) + leb(src as nat),
        MemoryOp::Fill(m) => seq![0xfcu8, 0x0bu8] + leb(m as nat),
        MemoryOp::Size(m) => seq![0x3fu8] + leb(m as nat),
        MemoryOp::Grow(m) => seq![0x40u8] + leb(m as nat),
    }
}

/// `wasm_encoder::Instruction::encode` for these instructions: the opcode of the binary
/// format, and the indices behind it in its order.
#[verifier::external_body]
pub(crate) fn encode_memory_op(op: MemoryOp) -> (r: Vec<u8>)
    ensures
        r@ == memory_op_bytes(op),
{
    let mut out = Vec::new();
    match op {
        MemoryOp::Init(mem, data_index) => Instruction::MemoryInit { mem, data_index },
        MemoryOp::DataDrop(d) => Instruction::DataDrop(d),
        MemoryOp::Copy(dst_mem, src_mem) => Instruction::MemoryCopy { src_mem, dst_mem },
        MemoryOp::Fill(m) => Instruction::MemoryFill(m),
        MemoryOp::Size(m) => Instruction::MemorySize(m),
        MemoryOp::Grow(m) => Instruction::MemoryGrow(m),
    }.encode(&mut out);
    out
}

/// The encoding of the start of a block of a function type.
pub open spec fn block_op_bytes(op: BlockOp) -> Seq<u8> {
    match op {
        BlockOp::Block(t) => seq![0x02u8] + signed_leb(t as nat),
        BlockOp::Loop(t) => seq![0x03u8] + signed_leb(t as nat),
        BlockOp::If(t) => seq![0x04u8] + signed_leb(t as nat),
    }
}

/// `wasm_encoder::Instruction::encode` for these instructions: the opcode of the binary
/// format, and the indices behind it in its order.
#[verifier::external_body]
pub(crate) fn encode_block_op(op: BlockOp) -> (r: Vec<u8>)
    ensures
        r@ == block_op_bytes(op),
{
    let mut out = Vec::new();
    match op {
        BlockOp::Block(t) => Instruction::Block(wasm_encoder::BlockType::FunctionType(t)),
        BlockOp::Loop(t) => Instruction::Loop(wasm_encoder::BlockType::FunctionType(t)),
        BlockOp::If(t) => Instruction::If(wasm_encoder::BlockType::FunctionType(t)),
    }.encode(&mut out);
    out
}

/// A section: its id, the length of its contents, and its contents.
pub open spec fn section_bytes(id: u8, contents: Seq<u8>) -> Seq<u8> {
    seq![id] + leb(contents.len()) + contents
}

/// `wasm_encoder::Section::append_to` for a `wasm_encoder::RawSection`: puts the id, the
/// length and the contents behind what is there. The encoder panics on contents longer
/// than 32 bits can count.
#[verifier::external_body]
pub(crate) fn append_section(out: &mut Vec<u8>, id: u8, contents: &[u8])
    requires
        contents@.len() <= u32::MAX,
    ensures
        final(out)@ == old(out)@ + section_bytes(id, contents@),
{
    wasm_encoder::RawSection { id, data: contents }.append_to(out);
}

/// The magic number and version that a module starts with.
pub open spec fn module_header() -> Seq<u8> {
    seq![0x00u8, 0x61u8, 0x73u8, 0x6du8, 0x01u8, 0x00u8, 0x00u8, 0x00u8]
}

/// `wasm_encoder::Module::new` and `finish`: a module without sections.
#[verifier::external_body]
pub(crate) fn empty_module() -> (r: Vec<u8>)
    ensures
        r@ == module_header(),
{
    wasm_encoder::Module::new().finish()
}

/// The module that a text in the WebAssembly text format stands for.
pub uninterp spec fn compiled_wat(text: Seq<char>) -> Result<Seq<u8>, Seq<char>>;

/// `wat::parse_str`: the bytes of the module, or the text of the error. Both depend on
/// the text alone.
#[verifier::external_body]
pub(crate) fn compile_wat(text: &str) -> (r: Result<Vec<u8>, String>)
    ensures
        seen_plain(r) == compiled_wat(text@),
{
    wat::parse_str(text).map_err(|e| e.to_string())
}

} // verus!
