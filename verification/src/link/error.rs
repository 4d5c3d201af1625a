//! Why two modules cannot be linked.
use vstd::prelude::*;
use crate::text::{decimal, push_decimal};
use super::model::MemoryUse;

verus! {

/// Which of the two modules an error is about.
#[derive(Clone, Copy, Debug, PartialEq, Eq, Structural)]
pub enum Side {
    Shell,
    User,
}

/// Why linking failed.
#[derive(Debug)]
pub enum LinkError {
    /// The module cannot be read.
    Malformed(Side, String),
    /// The module has a section of a kind that is not handled.
    UnexpectedSection(Side, u8),
    /// The module declares a type that is not a function type; its text.
    UnsupportedType(Side, String),
    /// The shell has imports; their number.
    ShellImports(usize),
    /// The user module imports a helper that the shell does not export.
    MissingHelper(String),
    /// The user module imports a memory: module and name.
    MemoryImport(String, String),
    /// The user module imports something that cannot be forwarded: module and name.
    UnsupportedImport(String, String),
    /// The user module has a start function.
    UserStart,
    /// The user module places data in, or exports, a memory other than its first one.
    UserMemory(u32),
    /// The user code has an instruction on a memory other than its first one.
    MemoryUsed(MemoryUse),
    /// The user code has an instruction that is not handled; its text.
    UnsupportedOperator(String),
    /// The shell code has an instruction whose index cannot be moved; its text.
    FixedOperator(String),
    /// A constant expression starts with an instruction that is not handled; its text.
    UnsupportedConstOp(String),
    /// A constant expression has a second instruction; its text.
    ConstExprTail(String),
    /// A constant expression stops before its end.
    UnendedConstExpr(Side),
    /// A type or instruction has no encoding.
    Unencodable(String),
    /// An alias names a memory that does not exist: name, index, number of memories.
    AliasIndex(String, u32, usize),
    /// An alias collides with another export.
    AliasCollision(String),
    /// A part of the merged module is too large to be encoded.
    TooLarge,
    /// An index of the merged module does not fit.
    IndexOverflow,
    /// The text of a shell that was given cannot be compiled.
    ShellWat(String),
    /// The text of a shell that was generated cannot be compiled.
    Wat(String),
}

/// A link error as the contracts see it.
pub enum LinkErrorV {
    Malformed(Side, Seq<char>),
    UnexpectedSection(Side, u8),
    UnsupportedType(Side, Seq<char>),
    ShellImports(nat),
    MissingHelper(Seq<char>),
    MemoryImport(Seq<char>, Seq<char>),
    UnsupportedImport(Seq<char>, Seq<char>),
    UserStart,
    UserMemory(u32),
    MemoryUsed(MemoryUse),
    UnsupportedOperator(Seq<char>),
    FixedOperator(Seq<char>),
    UnsupportedConstOp(Seq<char>),
    ConstExprTail(Seq<char>),
    UnendedConstExpr(Side),
    Unencodable(Seq<char>),
    AliasIndex(Seq<char>, u32, nat),
    AliasCollision(Seq<char>),
    TooLarge,
    IndexOverflow,
    ShellWat(Seq<char>),
    Wat(Seq<char>),
}

impl View for LinkError {
    type V = LinkErrorV;

    open spec fn view(&self) -> LinkErrorV {
        match self {
            LinkError::Malformed(s, t) => LinkErrorV::Malformed(*s, t@),
            LinkError::UnexpectedSection(s, id) => LinkErrorV::UnexpectedSection(*s, *id),
            LinkError::UnsupportedType(s, t) => LinkErrorV::UnsupportedType(*s, t@),
            LinkError::ShellImports(n) => LinkErrorV::ShellImports(*n as nat),
            LinkError::MissingHelper(n) => LinkErrorV::MissingHelper(n@),
            LinkError::MemoryImport(m, n) => LinkErrorV::MemoryImport(m@, n@),
            LinkError::UnsupportedImport(m, n) => LinkErrorV::UnsupportedImport(m@, n@),
            LinkError::UserStart => LinkErrorV::UserStart,
            LinkError::UserMemory(i) => LinkErrorV::UserMemory(*i),
            LinkError::MemoryUsed(u) => LinkErrorV::MemoryUsed(*u),
            LinkError::UnsupportedOperator(t) => LinkErrorV::UnsupportedOperator(t@),
            LinkError::FixedOperator(t) => LinkErrorV::FixedOperator(t@),
            LinkError::UnsupportedConstOp(t) => LinkErrorV::UnsupportedConstOp(t@),
            LinkError::ConstExprTail(t) => LinkErrorV::ConstExprTail(t@),
            LinkError::UnendedConstExpr(s) => LinkErrorV::UnendedConstExpr(*s),
            LinkError::Unencodable(t) => LinkErrorV::Unencodable(t@),
            LinkError::AliasIndex(n, i, c) => LinkErrorV::AliasIndex(n@, *i, *c as nat),
            LinkError::AliasCollision(n) => LinkErrorV::AliasCollision(n@),
            LinkError::TooLarge => LinkErrorV::TooLarge,
            LinkError::IndexOverflow => LinkErrorV::IndexOverflow,
            LinkError::ShellWat(t) => LinkErrorV::ShellWat(t@),
            LinkError::Wat(t) => LinkErrorV::Wat(t@),
        }
    }
}

/// A result of bytes as the contracts see it.
pub open spec fn seen_bytes(r: Result<Vec<u8>, LinkError>) -> Result<Seq<u8>, LinkErrorV> {
    match r {
        Ok(v) => Ok(v@),
        Err(e) => Err(e@),
    }
}

/// How a side is named in messages.
pub open spec fn side_text(s: Side) -> Seq<char> {
    match s {
        Side::Shell => "shell"@,
        Side::User => "user"@,
    }
}

/// The message shown for an instruction on a memory that user code does not have.
pub open spec fn use_message(u: MemoryUse) -> Seq<char> {
    match u {
        MemoryUse::Init(m) => "memory.init references memory "@ + decimal(m as nat)
            + " but only memory 0 is supported"@,
        MemoryUse::Copy(dst, src) => "memory.copy uses non-default memory ("@ + decimal(src as nat)
            + " → "@ + decimal(dst as nat) + "); not supported in user code"@,
        MemoryUse::Fill(m) => "memory.fill references memory "@ + decimal(m as nat)
            + "; only 0 is supported"@,
        MemoryUse::Size(m) => "memory.size references memory "@ + decimal(m as nat)
            + "; only 0 is supported"@,
        MemoryUse::Grow(m) => "memory.grow references memory "@ + decimal(m as nat)
            + "; only 0 is supported"@,
    }
}

/// The message shown for a link error.
pub open spec fn link_message(e: LinkErrorV) -> Seq<char> {
    match e {
        LinkErrorV::Malformed(s, t) => "parsing "@ + side_text(s) + " module: "@ + t,
        LinkErrorV::UnexpectedSection(s, id) => "parsing "@ + side_text(s)
            + " module: unexpected section in input wasm: id "@ + decimal(id as nat),
        LinkErrorV::UnsupportedType(s, t) => "parsing "@ + side_text(s)
            + " module: non-func composite type encountered (only function types are supported): "@ + t,
        LinkErrorV::ShellImports(n) => "shell module must not have imports; found "@ + decimal(n)
            + " (the shell template generates a self-contained module — was it post-processed?)"@,
        LinkErrorV::MissingHelper(n) => "user imports `tvm_mm."@ + n
            + "` but the shell does not export a function with that name"@,
        LinkErrorV::MemoryImport(m, n) => "user module imports memory `"@ + m + "."@ + n
            + "`; memory imports are not supported"@,
        LinkErrorV::UnsupportedImport(m, n) => "user module imports `"@ + m + "."@ + n
            + "`; only functions and globals can be forwarded"@,
        LinkErrorV::UserStart => "user module declares a start function; not supported"@,
        LinkErrorV::UserMemory(i) => "user module references memory index "@ + decimal(i as nat)
            + " but only one (default) memory is supported"@,
        LinkErrorV::MemoryUsed(u) => use_message(u),
        LinkErrorV::UnsupportedOperator(t) => "unsupported operator in user code body: "@ + t
            + "\nThe linker handles the subset rustc emits for typical no_std cdylibs; extend `map_simple_op` for other operators."@,
        LinkErrorV::FixedOperator(t) => "operator in shell code body names a global that moves: "@
            + t,
        LinkErrorV::UnsupportedConstOp(t) => "unsupported const-expr opcode: "@ + t,
        LinkErrorV::ConstExprTail(t) => "const-expr ended with non-End op: "@ + t,
        LinkErrorV::UnendedConstExpr(s) => "parsing "@ + side_text(s)
            + " module: const-expr without an end"@,
        LinkErrorV::Unencodable(t) => "no encoding: "@ + t,
        LinkErrorV::AliasIndex(n, i, c) => "alias `"@ + n + "` refers to memory index "@ + decimal(
            i as nat,
        ) + " but the shell has "@ + decimal(c) + " memories"@,
        LinkErrorV::AliasCollision(n) => "alias `"@ + n + "` collides with an existing export"@,
        LinkErrorV::TooLarge => "merged module is too large"@,
        LinkErrorV::IndexOverflow => "index of the merged module does not fit"@,
        LinkErrorV::ShellWat(t) => "parsing shell WAT: "@ + t,
        LinkErrorV::Wat(t) => "compiling shell WAT to bytes: "@ + t,
    }
}

fn side_name(s: Side) -> (r: &'static str)
    ensures
        r@ == side_text(s),
{
    match s {
        Side::Shell => "shell",
        Side::User => "user",
    }
}

fn used_text(u: MemoryUse) -> (r: String)
    ensures
        r@ == use_message(u),
{
    let mut out = String::new();
    match u {
        MemoryUse::Init(m) => {
            out = "memory.init references memory ".to_owned();
            push_decimal(&mut out, m as u64);
            out.append(" but only memory 0 is supported");
        },
        MemoryUse::Copy(dst, src) => {
            out = "memory.copy uses non-default memory (".to_owned();
            push_decimal(&mut out, src as u64);
            out.append(" → ");
            push_decimal(&mut out, dst as u64);
            out.append("); not supported in user code");
        },
        MemoryUse::Fill(m) => {
            out = "memory.fill references memory ".to_owned();
            push_decimal(&mut out, m as u64);
            out.append("; only 0 is supported");
        },
        MemoryUse::Size(m) => {
            out = "memory.size references memory ".to_owned();
            push_decimal(&mut out, m as u64);
            out.append("; only 0 is supported");
        },
        MemoryUse::Grow(m) => {
            out = "memory.grow references memory ".to_owned();
            push_decimal(&mut out, m as u64);
            out.append("; only 0 is supported");
        },
    }
    out
}

impl LinkError {
    /// The message shown for this error.
    pub fn message(&self) -> (r: String)
        ensures
            r@ == link_message(self@),
    {
        let mut out = String::new();
        match self {
            LinkError::Malformed(s, t) => {
                out = "parsing ".to_owned();
                out.append(side_name(*s));
                out.append(" module: ");
                out.append(t.as_str());
            },
            LinkError::UnexpectedSection(s, id) => {
                out = "parsing ".to_owned();
                out.append(side_name(*s));
                out.append(" module: unexpected section in input wasm: id ");
                push_decimal(&mut out, *id as u64);
            },
            LinkError::UnsupportedType(s, t) => {
                out = "parsing ".to_owned();
                out.append(side_name(*s));
                out.append(" module: non-func composite type encountered (only function types are supported): ");
                out.append(t.as_str());
            },
            LinkError::ShellImports(n) => {
                out = "shell module must not have imports; found ".to_owned();
                push_decimal(&mut out, *n as u64);
                out.append(
                    " (the shell template generates a self-contained module — was it post-processed?)",
                );
            },
            LinkError::MissingHelper(n) => {
                out = "user imports `tvm_mm.".to_owned();
                out.append(n.as_str());
                out.append("` but the shell does not export a function with that name");
            },
            LinkError::MemoryImport(m, n) => {
                out = "user module imports memory `".to_owned();
                out.append(m.as_str());
                out.append(".");
                out.append(n.as_str());
                out.append("`; memory imports are not supported");
            },
            LinkError::UnsupportedImport(m, n) => {
                out = "user module imports `".to_owned();
                out.append(m.as_str());
                out.append(".");
                out.append(n.as_str());
                out.append("`; only functions and globals can be forwarded");
            },
            LinkError::UserStart => {
                out = "user module declares a start function; not supported".to_owned();
            },
            LinkError::UserMemory(i) => {
                out = "user module references memory index ".to_owned();
                push_decimal(&mut out, *i as u64);
                out.append(" but only one (default) memory is supported");
            },
            LinkError::MemoryUsed(u) => {
                out = used_text(*u);
            },
            LinkError::UnsupportedOperator(t) => {
                out = "unsupported operator in user code body: ".to_owned();
                out.append(t.as_str());
                out.append(
                    "\nThe linker handles the subset rustc emits for typical no_std cdylibs; extend `map_simple_op` for other operators.",
                );
            },
            LinkError::FixedOperator(t) => {
                out = "operator in shell code body names a global that moves: ".to_owned();
                out.append(t.as_str());
            },
            LinkError::UnsupportedConstOp(t) => {
                out = "unsupported const-expr opcode: ".to_owned();
                out.append(t.as_str());
            },
            LinkError::ConstExprTail(t) => {
                out = "const-expr ended with non-End op: ".to_owned();
                out.append(t.as_str());
            },
            LinkError::UnendedConstExpr(s) => {
                out = "parsing ".to_owned();
                out.append(side_name(*s));
                out.append(" module: const-expr without an end");
            },
            LinkError::Unencodable(t) => {
                out = "no encoding: ".to_owned();
                out.append(t.as_str());
            },
            LinkError::AliasIndex(n, i, c) => {
                out = "alias `".to_owned();
                out.append(n.as_str());
                out.append("` refers to memory index ");
                push_decimal(&mut out, *i as u64);
                out.append(" but the shell has ");
                push_decimal(&mut out, *c as u64);
                out.append(" memories");
            },
            LinkError::AliasCollision(n) => {
                out = "alias `".to_owned();
                out.append(n.as_str());
                out.append("` collides with an existing export");
            },
            LinkError::TooLarge => {
                out = "merged module is too large".to_owned();
            },
            LinkError::IndexOverflow => {
                out = "index of the merged module does not fit".to_owned();
            },
            LinkError::ShellWat(t) => {
                out = "parsing shell WAT: ".to_owned();
                out.append(t.as_str());
            },
            LinkError::Wat(t) => {
                out = "compiling shell WAT to bytes: ".to_owned();
                out.append(t.as_str());
            },
        }
        out
    }
}

} // verus!
