//! The command line of the module generator.
use vstd::prelude::*;
use vstd::slice::slice_to_vec;
use vstd::utf8::encode_utf8;
use crate::guest::module::{module_text, tvm_guest_mm_module_template, ModuleParams, DEFAULT_POOL_COUNT};
use crate::link::model::seen_plain;
use crate::link::outside::{compile_wat, compiled_wat};
use super::link::words_in;
use super::words::{chars_of, is_text, numeral, parse_number};

verus! {

/// Why a command line is refused.
#[derive(Debug)]
pub enum GenerateError {
    PoolsMissing,
    PoolsNotANumber,
    MaxPagesMissing,
    MaxPagesZero,
    MaxPagesTooLarge,
    MaxPagesNotANumber,
    UnknownFlag(String),
    OutputMissing,
}

/// A refusal with its text as a sequence.
pub enum GenerateErrorV {
    PoolsMissing,
    PoolsNotANumber,
    MaxPagesMissing,
    MaxPagesZero,
    MaxPagesTooLarge,
    MaxPagesNotANumber,
    UnknownFlag(Seq<char>),
    OutputMissing,
}

impl View for GenerateError {
    type V = GenerateErrorV;

    open spec fn view(&self) -> GenerateErrorV {
        match self {
            GenerateError::PoolsMissing => GenerateErrorV::PoolsMissing,
            GenerateError::PoolsNotANumber => GenerateErrorV::PoolsNotANumber,
            GenerateError::MaxPagesMissing => GenerateErrorV::MaxPagesMissing,
            GenerateError::MaxPagesZero => GenerateErrorV::MaxPagesZero,
            GenerateError::MaxPagesTooLarge => GenerateErrorV::MaxPagesTooLarge,
            GenerateError::MaxPagesNotANumber => GenerateErrorV::MaxPagesNotANumber,
            GenerateError::UnknownFlag(t) => GenerateErrorV::UnknownFlag(t@),
            GenerateError::OutputMissing => GenerateErrorV::OutputMissing,
        }
    }
}

impl GenerateErrorV {
    /// What the user is told.
    pub open spec fn text(self) -> Seq<char> {
        match self {
            GenerateErrorV::PoolsMissing => "--pools needs a value"@,
            GenerateErrorV::PoolsNotANumber => "--pools value must be an integer"@,
            GenerateErrorV::MaxPagesMissing => "--max-pages-per-pool needs a value"@,
            GenerateErrorV::MaxPagesZero => "--max-pages-per-pool must be >= 1"@,
            GenerateErrorV::MaxPagesTooLarge =>
                "--max-pages-per-pool exceeds wasm32 cap (65536)"@,
            GenerateErrorV::MaxPagesNotANumber =>
                "--max-pages-per-pool value must be an integer"@,
            GenerateErrorV::UnknownFlag(t) => "unknown flag: "@ + t,
            GenerateErrorV::OutputMissing => "missing <out_path>"@,
        }
    }
}

impl GenerateError {
    /// What the user is told.
    pub fn message(&self) -> (r: String)
        ensures
            r@ == self@.text(),
    {
        match self {
            GenerateError::PoolsMissing => "--pools needs a value".to_owned(),
            GenerateError::PoolsNotANumber => "--pools value must be an integer".to_owned(),
            GenerateError::MaxPagesMissing => "--max-pages-per-pool needs a value".to_owned(),
            GenerateError::MaxPagesZero => "--max-pages-per-pool must be >= 1".to_owned(),
            GenerateError::MaxPagesTooLarge =>
                "--max-pages-per-pool exceeds wasm32 cap (65536)".to_owned(),
            GenerateError::MaxPagesNotANumber =>
                "--max-pages-per-pool value must be an integer".to_owned(),
            GenerateError::UnknownFlag(t) => {
                let mut out = "unknown flag: ".to_owned();
                out.append(t.as_str());
                out
            },
            GenerateError::OutputMissing => "missing <out_path>".to_owned(),
        }
    }
}

/// What the words so far have settled.
pub struct ChoiceV {
    pub pools: nat,
    pub max_pages: nat,
    pub emit_wat: bool,
    pub output: Option<Seq<char>>,
}

impl ChoiceV {
    /// Before any word is read.
    pub open spec fn initial() -> Self {
        ChoiceV {
            pools: DEFAULT_POOL_COUNT as nat,
            max_pages: 65536,
            emit_wat: false,
            output: None,
        }
    }
}

/// What a command line asks for.
pub enum GenerateV {
    Help,
    Generate { pools: nat, max_pages: nat, emit_wat: bool, output: Seq<char> },
}

/// What the words from `i` on come to, given what is settled before them.
pub open spec fn generate_from(c: ChoiceV, words: Seq<Seq<char>>, i: int) -> Result<
    GenerateV,
    GenerateErrorV,
>
    decreases words.len() - i,
{
    if i >= words.len() {
        match c.output {
            None => Err(GenerateErrorV::OutputMissing),
            Some(output) => Ok(
                GenerateV::Generate {
                    pools: c.pools,
                    max_pages: c.max_pages,
                    emit_wat: c.emit_wat,
                    output,
                },
            ),
        }
    } else if words[i] == "--pools"@ {
        if i + 1 >= words.len() {
            Err(GenerateErrorV::PoolsMissing)
        } else {
            match numeral(words[i + 1]) {
                Err(_) => Err(GenerateErrorV::PoolsNotANumber),
                Ok(v) => generate_from(ChoiceV { pools: v, ..c }, words, i + 2),
            }
        }
    } else if words[i] == "--max-pages-per-pool"@ {
        if i + 1 >= words.len() {
            Err(GenerateErrorV::MaxPagesMissing)
        } else {
            match numeral(words[i + 1]) {
                Err(_) => Err(GenerateErrorV::MaxPagesNotANumber),
                Ok(v) => if v == 0 {
                    Err(GenerateErrorV::MaxPagesZero)
                } else if v > 65536 {
                    Err(GenerateErrorV::MaxPagesTooLarge)
                } else {
                    generate_from(ChoiceV { max_pages: v, ..c }, words, i + 2)
                },
            }
        }
    } else if words[i] == "--wat"@ {
        generate_from(ChoiceV { emit_wat: true, ..c }, words, i + 1)
    } else if words[i] == "-h"@ || words[i] == "--help"@ {
        Ok(GenerateV::Help)
    } else if words[i].len() == 0 || words[i][0] != '-' {
        generate_from(ChoiceV { output: Some(words[i]), ..c }, words, i + 1)
    } else {
        Err(GenerateErrorV::UnknownFlag(words[i]))
    }
}

/// What a command line asks for.
pub open spec fn generate_request(words: Seq<Seq<char>>) -> Result<GenerateV, GenerateErrorV> {
    generate_from(ChoiceV::initial(), words, 0)
}

/// A module to be generated.
#[derive(Debug)]
pub struct GenerateCommand {
    pub pools: u32,
    pub max_pages: u32,
    pub emit_wat: bool,
    pub output: String,
}

/// What a command line asks for.
#[derive(Debug)]
pub enum GenerateRequest {
    Help,
    Generate(GenerateCommand),
}

/// A command line was read as `want` says.
pub open spec fn generates_as(
    r: Result<GenerateRequest, GenerateError>,
    want: Result<GenerateV, GenerateErrorV>,
) -> bool {
    match (r, want) {
        (Ok(GenerateRequest::Help), Ok(GenerateV::Help)) => true,
        (
            Ok(GenerateRequest::Generate(c)),
            Ok(GenerateV::Generate { pools, max_pages, emit_wat, output }),
        ) => {
            &&& c.pools as nat == pools
            &&& c.max_pages as nat == max_pages
            &&& c.emit_wat == emit_wat
            &&& c.output@ == output
        },
        (Err(e), Err(v)) => e@ == v,
        _ => false,
    }
}

/// Reads the words of a command line, without the name of the program.
pub fn parse_generate_args(args: &Vec<String>) -> (r: Result<GenerateRequest, GenerateError>)
    ensures
        generates_as(r, generate_request(words_in(args@))),
        r matches Ok(GenerateRequest::Generate(c)) ==> 1 <= c.max_pages <= 65536,
{
    let ghost words = words_in(args@);
    let count: usize = args.len();
    let mut pools: u32 = DEFAULT_POOL_COUNT;
    let mut max_pages: u32 = 65536;
    let mut emit_wat = false;
    let mut output: Option<String> = None;
    let mut i: usize = 0;
    while i < count
        invariant
            i <= count,
            count == args@.len(),
            words == words_in(args@),
            1 <= max_pages <= 65536,
            generate_request(words) == generate_from(
                ChoiceV {
                    pools: pools as nat,
                    max_pages: max_pages as nat,
                    emit_wat,
                    output: super::link::text_in(output),
                },
                words,
                i as int,
            ),
        decreases count - i,
    {
        let word = chars_of(args[i].as_str());
        assert(word@ == words[i as int]);
        if is_text(&word, "--pools") {
            if i + 1 >= count {
                return Err(GenerateError::PoolsMissing);
            }
            let value = chars_of(args[i + 1].as_str());
            assert(value@ == words[i + 1]);
            match parse_number(&value) {
                Err(_) => return Err(GenerateError::PoolsNotANumber),
                Ok(v) => {
                    pools = v;
                },
            }
            i += 2;
        } else if is_text(&word, "--max-pages-per-pool") {
            if i + 1 >= count {
                return Err(GenerateError::MaxPagesMissing);
            }
            let value = chars_of(args[i + 1].as_str());
            assert(value@ == words[i + 1]);
            match parse_number(&value) {
                Err(_) => return Err(GenerateError::MaxPagesNotANumber),
                Ok(v) => {
                    if v == 0 {
                        return Err(GenerateError::MaxPagesZero);
                    }
                    if v > 65536 {
                        return Err(GenerateError::MaxPagesTooLarge);
                    }
                    max_pages = v;
                },
            }
            i += 2;
        } else if is_text(&word, "--wat") {
            emit_wat = true;
            i += 1;
        } else if is_text(&word, "-h") || is_text(&word, "--help") {
            return Ok(GenerateRequest::Help);
        } else if word.len() == 0 || word[0] != '-' {
            output = Some(args[i].clone());
            i += 1;
        } else {
            return Err(GenerateError::UnknownFlag(args[i].clone()));
        }
    }
    match output {
        None => Err(GenerateError::OutputMissing),
        Some(output) => Ok(
            GenerateRequest::Generate(GenerateCommand { pools, max_pages, emit_wat, output }),
        ),
    }
}

impl GenerateCommand {
    /// `p` is the module that the command asks for.
    pub open spec fn describes(&self, p: ModuleParams) -> bool {
        &&& p.n_pools == self.pools
        &&& p.initial_pages_per_pool == 1
        &&& p.max_pages_per_pool == self.max_pages
        &&& p.user_body@ == Seq::<char>::empty()
    }

    /// The text of the module that the command asks for.
    pub fn module(&self) -> (r: String)
        requires
            self.pools > 0,
        ensures
            forall|p: ModuleParams| #[trigger] self.describes(p) ==> r@ == module_text(p),
    {
        let params = ModuleParams {
            n_pools: self.pools,
            initial_pages_per_pool: 1,
            max_pages_per_pool: self.max_pages,
            user_body: String::new(),
        };
        let r = tvm_guest_mm_module_template(&params);
        assert forall|p: ModuleParams| #[trigger] self.describes(p) implies r@ == module_text(
            p,
        ) by {
            assert(module_text(p) == module_text(params));
        }
        r
    }

    /// What is written for a module text: the text itself, or the module it stands for.
    pub open spec fn output_bytes(&self, text: Seq<char>) -> Result<Seq<u8>, Seq<char>> {
        if self.emit_wat {
            Ok(encode_utf8(text))
        } else {
            compiled_wat(text)
        }
    }

    /// The bytes to be written for a module text, or why the text does not compile.
    pub fn produce(&self, text: &str) -> (r: Result<Vec<u8>, String>)
        ensures
            seen_plain(r) == self.output_bytes(text@),
    {
        if self.emit_wat {
            Ok(slice_to_vec(text.as_bytes()))
        } else {
            compile_wat(text)
        }
    }
}

} // verus!
