use tvm::cli::generate::{parse_generate_args, GenerateCommand, GenerateRequest};
use tvm::cli::link::{parse_args, LinkCommand, Request};
use tvm::cli::words::{chars_of, parse_number, NumberError};

fn words(line: &[&str]) -> Vec<String> {
    line.iter().map(|w| w.to_string()).collect()
}

fn link(line: &[&str]) -> LinkCommand {
    match parse_args(&words(line)) {
        Ok(Request::Link(c)) => c,
        Ok(Request::Help) => panic!("help was not asked for"),
        Err(e) => panic!("refused: {}", e.message()),
    }
}

fn refused(line: &[&str]) -> String {
    match parse_args(&words(line)) {
        Ok(_) => panic!("must be refused"),
        Err(e) => e.message(),
    }
}

fn generate(line: &[&str]) -> GenerateCommand {
    match parse_generate_args(&words(line)) {
        Ok(GenerateRequest::Generate(c)) => c,
        Ok(GenerateRequest::Help) => panic!("help was not asked for"),
        Err(e) => panic!("refused: {}", e.message()),
    }
}

fn generate_refused(line: &[&str]) -> String {
    match parse_generate_args(&words(line)) {
        Ok(_) => panic!("must be refused"),
        Err(e) => e.message(),
    }
}

fn number(text: &str) -> Result<u32, NumberError> {
    parse_number(&chars_of(text))
}

#[test]
fn numbers_are_read_as_decimal() {
    assert_eq!(number("0"), Ok(0));
    assert_eq!(number("0064"), Ok(64));
    assert_eq!(number("+7"), Ok(7));
    assert_eq!(number("4294967295"), Ok(u32::MAX));
    assert_eq!(number("4294967296"), Err(NumberError::TooLarge));
    assert_eq!(number("99999999999x"), Err(NumberError::TooLarge));
    assert_eq!(number(""), Err(NumberError::Empty));
    assert_eq!(number("+"), Err(NumberError::InvalidDigit));
    assert_eq!(number("-1"), Err(NumberError::InvalidDigit));
    assert_eq!(number("1 "), Err(NumberError::InvalidDigit));
}

#[test]
fn numbers_are_read_as_the_standard_library_reads_them() {
    for text in ["", "+", "-", "++1", "+0", "007", "12a", "4294967295", "4294967296", "é", "99999999999x", "1_0"] {
        match text.parse::<u32>() {
            Ok(v) => assert_eq!(number(text), Ok(v)),
            Err(e) => assert_eq!(number(text).unwrap_err().message(), e.to_string()),
        }
    }
}

#[test]
fn link_defaults() {
    let c = link(&["--user", "a.wasm", "-o", "b.wasm"]);
    assert_eq!((c.pools, c.initial_pages, c.max_pages), (64, 1, 65536));
    assert_eq!(c.user, "a.wasm");
    assert_eq!(c.output, "b.wasm");
    assert!(c.options.aliases.is_empty());
}

#[test]
fn link_options_are_read() {
    let c = link(&[
        "--pools",
        "4",
        "--initial-pages",
        "2",
        "--max-pages",
        "16",
        "--alias-memory0=memory",
        "--alias-memory0",
        "main",
        "--alias-memory=3=cold",
        "--alias-memory",
        "1=a=b",
        "--output",
        "out",
        "--user",
        "in",
        "--pools",
        "8",
    ]);
    assert_eq!((c.pools, c.initial_pages, c.max_pages), (8, 2, 16));
    assert_eq!(
        c.options.aliases,
        vec![
            ("memory".to_string(), 0),
            ("main".to_string(), 0),
            ("cold".to_string(), 3),
            ("a=b".to_string(), 1),
        ]
    );
    let p = c.params();
    assert_eq!((p.n_pools, p.initial_pages_per_pool, p.max_pages_per_pool), (8, 2, 16));
    assert_eq!(p.user_body, "");
}

#[test]
fn link_help_stops_reading() {
    assert!(matches!(parse_args(&words(&["--help", "--nonsense"])), Ok(Request::Help)));
    assert!(matches!(parse_args(&words(&["-h"])), Ok(Request::Help)));
}

#[test]
fn link_refusals() {
    assert_eq!(refused(&[]), "--user is required");
    assert_eq!(refused(&["--user", "a"]), "-o/--output is required");
    assert_eq!(refused(&["--user"]), "--user needs a value");
    assert_eq!(refused(&["-o"]), "-o needs a value");
    assert_eq!(refused(&["--output"]), "-o needs a value");
    assert_eq!(refused(&["--pools"]), "--pools needs a value");
    assert_eq!(refused(&["--initial-pages"]), "--initial-pages needs a value");
    assert_eq!(refused(&["--max-pages"]), "--max-pages needs a value");
    assert_eq!(
        refused(&["--pools", "x"]),
        "--pools value must be an integer: invalid digit found in string"
    );
    assert_eq!(
        refused(&["--initial-pages", ""]),
        "--initial-pages value must be an integer: cannot parse integer from empty string"
    );
    assert_eq!(
        refused(&["--max-pages", "4294967296"]),
        "--max-pages value must be an integer: number too large to fit in target type"
    );
    assert_eq!(refused(&["--alias-memory0"]), "--alias-memory0 needs a value");
    assert_eq!(refused(&["--alias-memory0="]), "--alias-memory0 needs a non-empty name");
    assert_eq!(refused(&["--alias-memory"]), "--alias-memory needs <idx>=<name>");
    assert_eq!(
        refused(&["--alias-memory", "memory"]),
        "--alias-memory expects <idx>=<name>, got `memory`"
    );
    assert_eq!(
        refused(&["--alias-memory=x=memory"]),
        "--alias-memory index must be u32, got `x`: invalid digit found in string"
    );
    assert_eq!(refused(&["--alias-memory=1="]), "--alias-memory expects a non-empty name");
    assert_eq!(refused(&["--alias-memory1=x"]), "unknown arg: --alias-memory1=x");
    assert_eq!(refused(&["extra"]), "unknown arg: extra");
}

#[test]
fn a_link_command_links() {
    let user = wat::parse_str(
        r#"(module
             (import "tvm_mm" "tvm_load_u8" (func $load (param i32 i32) (result i32)))
             (func (export "go") (param i32 i32) (result i32)
               local.get 0
               local.get 1
               call $load))"#,
    )
    .unwrap();
    let c = link(&["--pools", "2", "--max-pages", "4", "--alias-memory0=memory", "--user", "u", "-o", "o"]);
    let merged = match c.execute(&user) {
        Ok(bytes) => bytes,
        Err(e) => panic!("{}", e.message()),
    };
    let mut names = Vec::new();
    for payload in wasmparser::Parser::new(0).parse_all(&merged) {
        if let wasmparser::Payload::ExportSection(reader) = payload.unwrap() {
            for e in reader {
                names.push(e.unwrap().name.to_string());
            }
        }
    }
    for want in ["mem0", "mem1", "memory", "go"] {
        assert!(names.iter().any(|n| n == want), "{want} is missing in {names:?}");
    }
}

#[test]
fn generator_options_are_read() {
    let c = generate(&["out.wasm"]);
    assert_eq!((c.pools, c.max_pages, c.emit_wat), (64, 65536, false));
    assert_eq!(c.output, "out.wasm");
    let c = generate(&["first", "--wat", "--pools", "3", "--max-pages-per-pool", "256", "second"]);
    assert_eq!((c.pools, c.max_pages, c.emit_wat), (3, 256, true));
    assert_eq!(c.output, "second");
    assert!(matches!(
        parse_generate_args(&words(&["-h"])),
        Ok(GenerateRequest::Help)
    ));
}

#[test]
fn generator_refusals() {
    assert_eq!(generate_refused(&[]), "missing <out_path>");
    assert_eq!(generate_refused(&["--pools"]), "--pools needs a value");
    assert_eq!(generate_refused(&["--pools", "x"]), "--pools value must be an integer");
    assert_eq!(
        generate_refused(&["--max-pages-per-pool"]),
        "--max-pages-per-pool needs a value"
    );
    assert_eq!(
        generate_refused(&["--max-pages-per-pool", "0"]),
        "--max-pages-per-pool must be >= 1"
    );
    assert_eq!(
        generate_refused(&["--max-pages-per-pool", "65537"]),
        "--max-pages-per-pool exceeds wasm32 cap (65536)"
    );
    assert_eq!(
        generate_refused(&["--max-pages-per-pool", "many"]),
        "--max-pages-per-pool value must be an integer"
    );
    assert_eq!(generate_refused(&["--fast", "out"]), "unknown flag: --fast");
}

#[test]
fn generator_produces_text_or_a_module() {
    let text_command = generate(&["--pools", "2", "--max-pages-per-pool", "4", "--wat", "out"]);
    let text = text_command.module();
    assert!(text.starts_with("(module\n  (memory (export \"mem0\") 1 4)\n  (memory (export \"mem1\") 1 4)\n"));
    assert_eq!(text_command.produce(&text).unwrap(), text.as_bytes());
    let binary_command = generate(&["--pools", "2", "--max-pages-per-pool", "4", "out"]);
    let bytes = binary_command.produce(&text).unwrap();
    assert_eq!(&bytes[..8], b"\0asm\x01\0\0\0");
    assert!(binary_command.produce("(module").is_err());
}
