//! Linking a user module against the shell that holds the memory pools.
//!
//! The merged module keeps the shell's memories and drops the user module's;
//! calls to imported helpers become calls of the shell's functions; other
//! function and global imports are forwarded and come first in their index
//! spaces, the shell's definitions follow, then those of the user module.
use vstd::prelude::*;
use crate::guest::module::{module_text, tvm_guest_mm_module_template, ModuleParams};
use self::error::{seen_bytes, LinkError, LinkErrorV, Side};
use self::merge::{merge, merged, LinkOptions};
use self::outside::{compile_wat, compiled_wat};
use self::parse::{module_of, parse_module};

pub mod emit;
pub mod error;
pub mod code_laws;
pub mod format_laws;
pub mod laws;
pub mod merge;
pub mod model;
pub mod outside;
pub mod parse;
pub mod rewrite;

verus! {

/// Imports under this module name are wired to exports of the shell.
pub const TVM_MM_IMPORT_MODULE: &'static str = "tvm_mm";

/// What linking two modules comes to.
pub open spec fn linked(shell: Seq<u8>, user: Seq<u8>, aliases: Seq<(Seq<char>, u32)>) -> Result<
    Seq<u8>,
    LinkErrorV,
> {
    match module_of(Side::Shell, shell) {
        Err(e) => Err(e),
        Ok(s) => match module_of(Side::User, user) {
            Err(e) => Err(e),
            Ok(u) => merged(s, u, aliases),
        },
    }
}

/// Links a user module against a shell.
pub fn link(shell_bytes: &[u8], user_bytes: &[u8]) -> (r: Result<Vec<u8>, LinkError>)
    ensures
        seen_bytes(r) == linked(shell_bytes@, user_bytes@, Seq::empty()),
{
    link_with_options(shell_bytes, user_bytes, &LinkOptions::default())
}

/// Links a user module against a shell, with additional memory exports.
pub fn link_with_options(shell_bytes: &[u8], user_bytes: &[u8], options: &LinkOptions) -> (r: Result<
    Vec<u8>,
    LinkError,
>)
    ensures
        seen_bytes(r) == linked(shell_bytes@, user_bytes@, options@),
{
    let shell = match parse_module(Side::Shell, shell_bytes) {
        Err(e) => return Err(e),
        Ok(m) => m,
    };
    let user = match parse_module(Side::User, user_bytes) {
        Err(e) => return Err(e),
        Ok(m) => m,
    };
    merge(&shell, &user, options)
}

/// What linking against a generated shell text comes to.
pub open spec fn linked_text(text: Seq<char>, user: Seq<u8>, aliases: Seq<(Seq<char>, u32)>) -> Result<
    Seq<u8>,
    LinkErrorV,
> {
    match compiled_wat(text) {
        Err(t) => Err(LinkErrorV::Wat(t)),
        Ok(shell) => linked(shell, user, aliases),
    }
}

/// Links a user module against a shell in text form.
pub fn link_from_wat(shell_wat: &str, user_bytes: &[u8]) -> (r: Result<Vec<u8>, LinkError>)
    ensures
        seen_bytes(r) == (match compiled_wat(shell_wat@) {
            Err(t) => Err(LinkErrorV::ShellWat(t)),
            Ok(shell) => linked(shell, user_bytes@, Seq::empty()),
        }),
{
    match compile_wat(shell_wat) {
        Err(t) => Err(LinkError::ShellWat(t)),
        Ok(shell) => link(shell.as_slice(), user_bytes),
    }
}

/// Links a user module against the shell that the parameters describe.
pub fn link_with_params(params: &ModuleParams, user_bytes: &[u8]) -> (r: Result<Vec<u8>, LinkError>)
    requires
        params.n_pools > 0,
    ensures
        seen_bytes(r) == linked_text(module_text(*params), user_bytes@, Seq::empty()),
{
    link_with_params_and_options(params, user_bytes, &LinkOptions::default())
}

/// Links a user module against the shell that the parameters describe, with
/// additional memory exports.
pub fn link_with_params_and_options(
    params: &ModuleParams,
    user_bytes: &[u8],
    options: &LinkOptions,
) -> (r: Result<Vec<u8>, LinkError>)
    requires
        params.n_pools > 0,
    ensures
        seen_bytes(r) == linked_text(module_text(*params), user_bytes@, options@),
{
    let shell_wat = tvm_guest_mm_module_template(params);
    link_generated(shell_wat.as_str(), user_bytes, options)
}

fn link_generated(shell_wat: &str, user_bytes: &[u8], options: &LinkOptions) -> (r: Result<
    Vec<u8>,
    LinkError,
>)
    ensures
        seen_bytes(r) == linked_text(shell_wat@, user_bytes@, options@),
{
    match compile_wat(shell_wat) {
        Err(t) => Err(LinkError::Wat(t)),
        Ok(shell) => link_with_options(shell.as_slice(), user_bytes, options),
    }
}

} // verus!
