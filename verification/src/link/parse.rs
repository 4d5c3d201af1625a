//! Reading a module into its parts.
use vstd::prelude::*;
use wasmparser::{Element, MemoryType};
use super::error::{LinkError, LinkErrorV, Side};
use super::model::{Data, DataV, ElementV, Export, ExportV, Global, GlobalV, Import, ImportV, Table, TableV, TypeDef, TypeDefV};
use super::outside::{element_model, parse_bodies, parse_data, parse_elements, parse_exports, parse_functions, parse_globals, parse_imports, parse_memories, parse_sections, parse_start, parse_tables, parse_types, parsed_bodies, parsed_data, parsed_elements, parsed_exports, parsed_functions, parsed_globals, parsed_imports, parsed_memories, parsed_sections, parsed_start, parsed_tables, parsed_types};

verus! {

/// A custom section, and behind which kind of section it stands.
pub struct Custom {
    pub rank: u8,
    pub contents: Vec<u8>,
}

pub struct CustomV {
    pub rank: u8,
    pub contents: Seq<u8>,
}

impl View for Custom {
    type V = CustomV;

    open spec fn view(&self) -> CustomV {
        CustomV { rank: self.rank, contents: self.contents@ }
    }
}

/// The parts of a module.
pub struct ParsedModule<'a> {
    pub types: Vec<TypeDef>,
    pub imports: Vec<Import>,
    pub functions: Vec<u32>,
    pub tables: Vec<Table<'a>>,
    pub memories: Vec<MemoryType>,
    pub globals: Vec<Global<'a>>,
    pub exports: Vec<Export>,
    pub start: Option<u32>,
    pub elements: Vec<Element<'a>>,
    pub bodies: Vec<Vec<u8>>,
    pub data: Vec<Data<'a>>,
    pub customs: Vec<Custom>,
    /// The place of the last section that was not a custom one.
    pub rank: u8,
}

pub struct ModuleV {
    pub types: Seq<TypeDefV>,
    pub imports: Seq<ImportV>,
    pub functions: Seq<u32>,
    pub tables: Seq<TableV>,
    pub memories: Seq<MemoryType>,
    pub globals: Seq<GlobalV>,
    pub exports: Seq<ExportV>,
    pub start: Option<u32>,
    pub elements: Seq<ElementV>,
    pub bodies: Seq<Seq<u8>>,
    pub data: Seq<DataV>,
    pub customs: Seq<CustomV>,
    pub rank: u8,
}

/// The items of a list, as the contracts see them.
pub open spec fn views<T: View>(s: Seq<T>) -> Seq<T::V> {
    s.map_values(|x: T| x@)
}

impl<'a> View for ParsedModule<'a> {
    type V = ModuleV;

    open spec fn view(&self) -> ModuleV {
        ModuleV {
            types: views(self.types@),
            imports: views(self.imports@),
            functions: self.functions@,
            tables: views(self.tables@),
            memories: self.memories@,
            globals: views(self.globals@),
            exports: views(self.exports@),
            start: self.start,
            elements: self.elements@.map_values(|e: Element<'a>| element_model(e)),
            bodies: views(self.bodies@),
            data: views(self.data@),
            customs: views(self.customs@),
            rank: self.rank,
        }
    }
}

/// A module without any parts.
pub open spec fn empty_parts() -> ModuleV {
    ModuleV {
        types: Seq::empty(),
        imports: Seq::empty(),
        functions: Seq::empty(),
        tables: Seq::empty(),
        memories: Seq::empty(),
        globals: Seq::empty(),
        exports: Seq::empty(),
        start: None,
        elements: Seq::empty(),
        bodies: Seq::empty(),
        data: Seq::empty(),
        customs: Seq::empty(),
        rank: 0,
    }
}

/// The place of a section in the order that modules keep: the id, but the data
/// count comes before the code, and the code before the data.
pub open spec fn rank_of(id: u8) -> u8 {
    if id == 12 {
        10
    } else if id == 10 {
        11
    } else if id == 11 {
        12
    } else {
        id
    }
}

/// The input is a component, not a core module.
pub open spec fn is_component_header(bytes: Seq<u8>) -> bool {
    bytes.len() >= 8 && bytes.subrange(4, 8) == seq![0x0du8, 0x00u8, 0x01u8, 0x00u8]
}

fn is_component(bytes: &[u8]) -> (r: bool)
    ensures
        r == is_component_header(bytes@),
{
    if bytes.len() < 8 {
        return false;
    }
    let r = bytes[4] == 0x0d && bytes[5] == 0x00 && bytes[6] == 0x01 && bytes[7] == 0x00;
    proof {
        let s = bytes@.subrange(4, 8);
        let t = seq![0x0du8, 0x00u8, 0x01u8, 0x00u8];
        assert(s[0] == bytes@[4] && s[1] == bytes@[5] && s[2] == bytes@[6] && s[3] == bytes@[7]);
        if r {
            assert(s =~= t);
        } else if s == t {
            assert(s[0] == t[0] && s[1] == t[1] && s[2] == t[2] && s[3] == t[3]);
        }
    }
    r
}

/// The first entry from `from` on that is not a function type, by its text.
pub open spec fn first_other(types: Seq<TypeDefV>, from: int) -> Option<Seq<char>>
    decreases types.len() - from,
{
    if from < 0 || from >= types.len() {
        None
    } else {
        match types[from] {
            TypeDefV::Other(t) => Some(t),
            TypeDefV::Func(_, _) => first_other(types, from + 1),
        }
    }
}

/// What reading one list of entries comes to.
pub open spec fn or_malformed<T>(side: Side, r: Result<T, Seq<char>>) -> Result<T, LinkErrorV> {
    match r {
        Ok(v) => Ok(v),
        Err(t) => Err(LinkErrorV::Malformed(side, t)),
    }
}

/// The parts `m` with the section of this id and contents taken in.
pub open spec fn with_section(side: Side, m: ModuleV, id: u8, c: Seq<u8>, base: usize) -> Result<
    ModuleV,
    LinkErrorV,
> {
    let m = if id == 0 {
        m
    } else {
        ModuleV { rank: rank_of(id), ..m }
    };
    if id == 0 {
        Ok(ModuleV { customs: m.customs.push(CustomV { rank: m.rank, contents: c }), ..m })
    } else if id == 1 {
        match or_malformed(side, parsed_types(c, base)) {
            Ok(v) => match first_other(v, 0) {
                None => Ok(ModuleV { types: m.types + v, ..m }),
                Some(t) => Err(LinkErrorV::UnsupportedType(side, t)),
            },
            Err(e) => Err(e),
        }
    } else if id == 2 {
        match or_malformed(side, parsed_imports(c, base)) {
            Ok(v) => Ok(ModuleV { imports: m.imports + v, ..m }),
            Err(e) => Err(e),
        }
    } else if id == 3 {
        match or_malformed(side, parsed_functions(c, base)) {
            Ok(v) => Ok(ModuleV { functions: m.functions + v, ..m }),
            Err(e) => Err(e),
        }
    } else if id == 4 {
        match or_malformed(side, parsed_tables(c, base)) {
            Ok(v) => Ok(ModuleV { tables: m.tables + v, ..m }),
            Err(e) => Err(e),
        }
    } else if id == 5 {
        match or_malformed(side, parsed_memories(c, base)) {
            Ok(v) => Ok(ModuleV { memories: m.memories + v, ..m }),
            Err(e) => Err(e),
        }
    } else if id == 6 {
        match or_malformed(side, parsed_globals(c, base)) {
            Ok(v) => Ok(ModuleV { globals: m.globals + v, ..m }),
            Err(e) => Err(e),
        }
    } else if id == 7 {
        match or_malformed(side, parsed_exports(c, base)) {
            Ok(v) => Ok(ModuleV { exports: m.exports + v, ..m }),
            Err(e) => Err(e),
        }
    } else if id == 8 {
        match or_malformed(side, parsed_start(c, base)) {
            Ok(v) => Ok(ModuleV { start: Some(v), ..m }),
            Err(e) => Err(e),
        }
    } else if id == 9 {
        match or_malformed(side, parsed_elements(c, base)) {
            Ok(v) => Ok(ModuleV { elements: m.elements + v, ..m }),
            Err(e) => Err(e),
        }
    } else if id == 10 {
        match or_malformed(side, parsed_bodies(c, base)) {
            Ok(v) => Ok(ModuleV { bodies: m.bodies + v, ..m }),
            Err(e) => Err(e),
        }
    } else if id == 11 {
        match or_malformed(side, parsed_data(c, base)) {
            Ok(v) => Ok(ModuleV { data: m.data + v, ..m }),
            Err(e) => Err(e),
        }
    } else if id == 12 {
        Ok(m)
    } else {
        Err(LinkErrorV::UnexpectedSection(side, id))
    }
}

/// The parts that the first `n` sections hold.
pub open spec fn parts_of(
    side: Side,
    bytes: Seq<u8>,
    sections: Seq<Option<(u8, usize, usize)>>,
    n: int,
) -> Result<ModuleV, LinkErrorV>
    decreases n,
{
    if n <= 0 {
        Ok(empty_parts())
    } else {
        match parts_of(side, bytes, sections, n - 1) {
            Err(e) => Err(e),
            Ok(m) => match sections[n - 1] {
                None => Ok(m),
                Some((id, start, end)) => if is_component_header(bytes) && id != 0 {
                    Err(LinkErrorV::UnexpectedSection(side, id))
                } else {
                    with_section(side, m, id, bytes.subrange(start as int, end as int), start)
                },
            },
        }
    }
}

/// The parts of a module, or why they cannot be read.
pub open spec fn module_of(side: Side, bytes: Seq<u8>) -> Result<ModuleV, LinkErrorV> {
    match parsed_sections(bytes) {
        Err(t) => Err(LinkErrorV::Malformed(side, t)),
        Ok(sections) => parts_of(side, bytes, sections, sections.len() as int),
    }
}

proof fn lemma_views_append<T: View>(a: Seq<T>, b: Seq<T>)
    ensures
        views(a + b) == views(a) + views(b),
{
    assert(views(a + b) =~= views(a) + views(b));
}

fn check_types(side: Side, types: &Vec<TypeDef>) -> (r: Result<(), LinkError>)
    ensures
        match r {
            Ok(_) => first_other(views(types@), 0) is None,
            Err(e) => first_other(views(types@), 0) matches Some(t) && e@
                == LinkErrorV::UnsupportedType(side, t),
        },
{
    let mut i: usize = 0;
    while i < types.len()
        invariant
            i <= types@.len(),
            first_other(views(types@), 0) == first_other(views(types@), i as int),
        decreases types@.len() - i,
    {
        assert(views(types@)[i as int] == types@[i as int]@);
        if let TypeDef::Other(t) = &types[i] {
            return Err(LinkError::UnsupportedType(side, t.clone()));
        }
        i += 1;
    }
    Ok(())
}

impl<'a> ParsedModule<'a> {
    fn empty() -> (r: Self)
        ensures
            r@ == empty_parts(),
    {
        let r = ParsedModule {
            types: Vec::new(),
            imports: Vec::new(),
            functions: Vec::new(),
            tables: Vec::new(),
            memories: Vec::new(),
            globals: Vec::new(),
            exports: Vec::new(),
            start: None,
            elements: Vec::new(),
            bodies: Vec::new(),
            data: Vec::new(),
            customs: Vec::new(),
            rank: 0,
        };
        proof {
            let e = empty_parts();
            assert(r@.types =~= e.types);
            assert(r@.imports =~= e.imports);
            assert(r@.functions =~= e.functions);
            assert(r@.tables =~= e.tables);
            assert(r@.memories =~= e.memories);
            assert(r@.globals =~= e.globals);
            assert(r@.exports =~= e.exports);
            assert(r@.elements =~= e.elements);
            assert(r@.bodies =~= e.bodies);
            assert(r@.data =~= e.data);
            assert(r@.customs =~= e.customs);
        }
        r
    }

    /// Takes one section in.
    fn take(&mut self, side: Side, id: u8, contents: &'a [u8], base: usize) -> (r: Result<
        (),
        LinkError,
    >)
        requires
            base + contents@.len() <= usize::MAX,
        ensures
            match r {
                Ok(_) => with_section(side, old(self)@, id, contents@, base) == Ok::<
                    ModuleV,
                    LinkErrorV,
                >(final(self)@),
                Err(e) => with_section(side, old(self)@, id, contents@, base) == Err::<
                    ModuleV,
                    LinkErrorV,
                >(e@),
            },
    {
        let ghost before = self@;
        if id == 0 {
            let copy = vstd::slice::slice_to_vec(contents);
            assert(copy@ =~= contents@);
            self.customs.push(Custom { rank: self.rank, contents: copy });
            assert(self@.customs =~= before.customs.push(
                CustomV { rank: before.rank, contents: contents@ },
            ));
            return Ok(());
        }
        self.rank = if id == 12 {
            10
        } else if id == 10 {
            11
        } else if id == 11 {
            12
        } else {
            id
        };
        if id == 1 {
            match parse_types(contents, base) {
                Err(t) => return Err(LinkError::Malformed(side, t)),
                Ok(mut v) => {
                    match check_types(side, &v) {
                        Err(e) => return Err(e),
                        Ok(_) => {},
                    }
                    proof {
                        lemma_views_append(self.types@, v@);
                    }
                    self.types.append(&mut v);
                },
            }
        } else if id == 2 {
            match parse_imports(contents, base) {
                Err(t) => return Err(LinkError::Malformed(side, t)),
                Ok(mut v) => {
                    proof {
                        lemma_views_append(self.imports@, v@);
                    }
                    self.imports.append(&mut v);
                },
            }
        } else if id == 3 {
            match parse_functions(contents, base) {
                Err(t) => return Err(LinkError::Malformed(side, t)),
                Ok(mut v) => {
                    self.functions.append(&mut v);
                },
            }
        } else if id == 4 {
            match parse_tables(contents, base) {
                Err(t) => return Err(LinkError::Malformed(side, t)),
                Ok(mut v) => {
                    proof {
                        lemma_views_append(self.tables@, v@);
                    }
                    self.tables.append(&mut v);
                },
            }
        } else if id == 5 {
            match parse_memories(contents, base) {
                Err(t) => return Err(LinkError::Malformed(side, t)),
                Ok(mut v) => {
                    self.memories.append(&mut v);
                },
            }
        } else if id == 6 {
            match parse_globals(contents, base) {
                Err(t) => return Err(LinkError::Malformed(side, t)),
                Ok(mut v) => {
                    proof {
                        lemma_views_append(self.globals@, v@);
                    }
                    self.globals.append(&mut v);
                },
            }
        } else if id == 7 {
            match parse_exports(contents, base) {
                Err(t) => return Err(LinkError::Malformed(side, t)),
                Ok(mut v) => {
                    proof {
                        lemma_views_append(self.exports@, v@);
                    }
                    self.exports.append(&mut v);
                },
            }
        } else if id == 8 {
            match parse_start(contents, base) {
                Err(t) => return Err(LinkError::Malformed(side, t)),
                Ok(f) => {
                    self.start = Some(f);
                },
            }
        } else if id == 9 {
            match parse_elements(contents, base) {
                Err(t) => return Err(LinkError::Malformed(side, t)),
                Ok(mut v) => {
                    let ghost more = v@.map_values(|e: Element<'a>| element_model(e));
                    self.elements.append(&mut v);
                    assert(self@.elements =~= before.elements + more);
                },
            }
        } else if id == 10 {
            match parse_bodies(contents, base) {
                Err(t) => return Err(LinkError::Malformed(side, t)),
                Ok(mut v) => {
                    proof {
                        lemma_views_append(self.bodies@, v@);
                    }
                    self.bodies.append(&mut v);
                },
            }
        } else if id == 11 {
            match parse_data(contents, base) {
                Err(t) => return Err(LinkError::Malformed(side, t)),
                Ok(mut v) => {
                    proof {
                        lemma_views_append(self.data@, v@);
                    }
                    self.data.append(&mut v);
                },
            }
        } else if id != 12 {
            return Err(LinkError::UnexpectedSection(side, id));
        }
        Ok(())
    }
}

proof fn lemma_error_stays(
    side: Side,
    bytes: Seq<u8>,
    sections: Seq<Option<(u8, usize, usize)>>,
    k: int,
    n: int,
)
    requires
        0 <= k <= n,
        parts_of(side, bytes, sections, k) is Err,
    ensures
        parts_of(side, bytes, sections, n) == parts_of(side, bytes, sections, k),
    decreases n - k,
{
    if k < n {
        lemma_error_stays(side, bytes, sections, k, n - 1);
    }
}

/// Reads a module into its parts.
pub fn parse_module<'a>(side: Side, bytes: &'a [u8]) -> (r: Result<ParsedModule<'a>, LinkError>)
    ensures
        match r {
            Ok(m) => module_of(side, bytes@) == Ok::<ModuleV, LinkErrorV>(m@),
            Err(e) => module_of(side, bytes@) == Err::<ModuleV, LinkErrorV>(e@),
        },
{
    let sections = match parse_sections(bytes) {
        Err(t) => return Err(LinkError::Malformed(side, t)),
        Ok(v) => v,
    };
    let component = is_component(bytes);
    let mut m = ParsedModule::empty();
    let mut i: usize = 0;
    while i < sections.len()
        invariant
            i <= sections@.len(),
            parsed_sections(bytes@) == Ok::<Seq<Option<(u8, usize, usize)>>, Seq<char>>(sections@),
            component == is_component_header(bytes@),
            forall|i: int|
                0 <= i < sections@.len() ==> match #[trigger] sections@[i] {
                    Some((id, start, end)) => id == 0 || !is_component_header(bytes@) ==> start
                        <= end <= bytes@.len(),
                    None => true,
                },
            parts_of(side, bytes@, sections@, i as int) == Ok::<ModuleV, LinkErrorV>(m@),
        decreases sections@.len() - i,
    {
        if let Some((id, start, end)) = sections[i] {
            if component && id != 0 {
                let e = LinkError::UnexpectedSection(side, id);
                proof {
                    lemma_error_stays(side, bytes@, sections@, i + 1, sections@.len() as int);
                }
                return Err(e);
            }
            let contents = vstd::slice::slice_subrange(bytes, start, end);
            match m.take(side, id, contents, start) {
                Err(e) => {
                    proof {
                        lemma_error_stays(side, bytes@, sections@, i + 1, sections@.len() as int);
                    }
                    return Err(e);
                },
                Ok(_) => {},
            }
        }
        i += 1;
    }
    Ok(m)
}

} // verus!
