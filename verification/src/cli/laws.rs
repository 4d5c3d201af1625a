//! What the options of the two command lines do, whatever stands around them.
use vstd::prelude::*;
use crate::text::{decimal, digit_char};
use super::generate::{generate_from, ChoiceV, GenerateErrorV, GenerateV};
use super::link::{
    plain_flag, request_from, settled, step, Flag, RequestV, SettingsV, Step, UsageErrorV,
};
use super::words::{
    begins_with, first_place, law_numeral_reads_decimal, lemma_first_place, numeral,
};

verus! {

proof fn lemma_link_shift(s: SettingsV, front: Seq<Seq<char>>, rest: Seq<Seq<char>>, i: int)
    requires
        0 <= i,
    ensures
        request_from(s, front + rest, front.len() + i) == request_from(s, rest, i),
    decreases rest.len() - i,
{
    let all = front + rest;
    let k = front.len() as int;
    if i < rest.len() {
        assert(all[k + i] == rest[i]);
        if i + 1 < rest.len() {
            assert(all[k + i + 1] == rest[i + 1]);
        }
        match step(s, rest, i) {
            Step::Next(t, j) => {
                assert(j == i + 1 || j == i + 2);
                assert(step(s, all, k + i) == Step::Next(t, k + j));
                lemma_link_shift(t, front, rest, j);
            },
            _ => {
                assert(step(s, all, k + i) == step(s, rest, i));
            },
        }
    }
}

proof fn lemma_flag_words()
    ensures
        plain_flag("--pools"@) == Some(Flag::Pools),
        plain_flag("--initial-pages"@) == Some(Flag::InitialPages),
        plain_flag("--max-pages"@) == Some(Flag::MaxPages),
        plain_flag("--user"@) == Some(Flag::User),
        plain_flag("-o"@) == Some(Flag::Output),
        plain_flag("--output"@) == Some(Flag::Output),
        plain_flag("--alias-memory0"@) == Some(Flag::AliasMemory0),
        plain_flag("--alias-memory"@) == Some(Flag::AliasMemory),
        plain_flag("-h"@) == None::<Flag>,
        plain_flag("--help"@) == None::<Flag>,
        !begins_with("-h"@, "--alias-memory0="@),
        !begins_with("-h"@, "--alias-memory="@),
        !begins_with("--help"@, "--alias-memory0="@),
        !begins_with("--help"@, "--alias-memory="@),
{
    reveal_strlit("--pools");
    reveal_strlit("--initial-pages");
    reveal_strlit("--max-pages");
    reveal_strlit("--user");
    reveal_strlit("-o");
    reveal_strlit("--output");
    reveal_strlit("--alias-memory0");
    reveal_strlit("--alias-memory");
    reveal_strlit("--alias-memory0=");
    reveal_strlit("--alias-memory=");
    reveal_strlit("-h");
    reveal_strlit("--help");
    assert("--pools"@.len() == 7);
    assert("--initial-pages"@.len() == 15);
    assert("--max-pages"@.len() == 11);
    assert("--user"@.len() == 6);
    assert("-o"@.len() == 2);
    assert("--output"@.len() == 8);
    assert("--alias-memory0"@.len() == 15);
    assert("--alias-memory"@.len() == 14);
    assert("--initial-pages"@[2] == 'i');
    assert("--alias-memory0"@[2] == 'a');
    assert("--user"@[2] == 'u');
    assert("--help"@[2] == 'h');
    assert("-o"@[1] == 'o');
    assert("-h"@[1] == 'h');
}

proof fn lemma_flag_step(s: SettingsV, word: Seq<char>, value: Seq<char>, rest: Seq<Seq<char>>)
    requires
        plain_flag(word) is Some,
    ensures
        request_from(s, seq![word, value] + rest, 0) == match settled(
            s,
            plain_flag(word)->0,
            value,
        ) {
            Ok(t) => request_from(t, rest, 0),
            Err(e) => Err(e),
        },
        request_from(s, seq![word], 0) == Err::<RequestV, UsageErrorV>(
            UsageErrorV::MissingValue(plain_flag(word)->0),
        ),
{
    let front = seq![word, value];
    let all = front + rest;
    assert(all[0] == word && all[1] == value);
    match settled(s, plain_flag(word)->0, value) {
        Ok(t) => {
            assert(step(s, all, 0) == Step::Next(t, 2));
            lemma_link_shift(t, front, rest, 0);
        },
        Err(e) => {
            assert(step(s, all, 0) == Step::Refused(e));
        },
    }
    assert(seq![word][0] == word);
}

/// Each counting option of the linker sets its own count to the number behind it,
/// and nothing else; a later one replaces an earlier one.
pub proof fn law_link_counts(s: SettingsV, n: u32, rest: Seq<Seq<char>>)
    ensures
        request_from(s, seq!["--pools"@, decimal(n as nat)] + rest, 0) == request_from(
            SettingsV { pools: n as nat, ..s },
            rest,
            0,
        ),
        request_from(s, seq!["--initial-pages"@, decimal(n as nat)] + rest, 0) == request_from(
            SettingsV { initial_pages: n as nat, ..s },
            rest,
            0,
        ),
        request_from(s, seq!["--max-pages"@, decimal(n as nat)] + rest, 0) == request_from(
            SettingsV { max_pages: n as nat, ..s },
            rest,
            0,
        ),
{
    law_numeral_reads_decimal(n);
    lemma_flag_words();
    lemma_flag_step(s, "--pools"@, decimal(n as nat), rest);
    lemma_flag_step(s, "--initial-pages"@, decimal(n as nat), rest);
    lemma_flag_step(s, "--max-pages"@, decimal(n as nat), rest);
}

/// The two paths of the linker are taken from the words behind their options, as
/// they stand.
pub proof fn law_link_paths(s: SettingsV, path: Seq<char>, rest: Seq<Seq<char>>)
    ensures
        request_from(s, seq!["--user"@, path] + rest, 0) == request_from(
            SettingsV { user: Some(path), ..s },
            rest,
            0,
        ),
        request_from(s, seq!["-o"@, path] + rest, 0) == request_from(
            SettingsV { output: Some(path), ..s },
            rest,
            0,
        ),
        request_from(s, seq!["--output"@, path] + rest, 0) == request_from(
            s,
            seq!["-o"@, path] + rest,
            0,
        ),
{
    lemma_flag_words();
    lemma_flag_step(s, "--user"@, path, rest);
    lemma_flag_step(s, "-o"@, path, rest);
    lemma_flag_step(s, "--output"@, path, rest);
}

proof fn lemma_decimal_is_digits(n: nat, i: int)
    requires
        0 <= i < decimal(n).len(),
    ensures
        decimal(n)[i] != '=',
    decreases n,
{
    if n >= 10 {
        let head = decimal(n / 10);
        if i < head.len() {
            lemma_decimal_is_digits(n / 10, i);
        } else {
            assert(decimal(n)[i] == digit_char(n % 10));
        }
    } else {
        assert(decimal(n)[i] == digit_char(n));
    }
}

proof fn lemma_pair(index: u32, name: Seq<char>)
    ensures
        ({
            let value = decimal(index as nat) + "="@ + name;
            let at = first_place(value, '=') as int;
            &&& at < value.len()
            &&& value.take(at) == decimal(index as nat)
            &&& value.skip(at + 1) == name
        }),
{
    let d = decimal(index as nat);
    let value = d + "="@ + name;
    reveal_strlit("=");
    assert forall|k: int| 0 <= k < d.len() implies value[k] != '=' by {
        lemma_decimal_is_digits(index as nat, k);
        assert(value[k] == d[k]);
    }
    assert(value[d.len() as int] == '=');
    lemma_first_place(value, '=', d.len() as int);
    assert(value.take(d.len() as int) =~= d);
    assert(value.skip(d.len() as int + 1) =~= name);
}

proof fn lemma_joined_words(name: Seq<char>)
    ensures
        ({
            let word = "--alias-memory0="@ + name;
            &&& plain_flag(word) is None
            &&& begins_with(word, "--alias-memory0="@)
            &&& word.skip("--alias-memory0="@.len() as int) == name
        }),
        ({
            let word = "--alias-memory="@ + name;
            &&& plain_flag(word) is None
            &&& !begins_with(word, "--alias-memory0="@)
            &&& begins_with(word, "--alias-memory="@)
            &&& word.skip("--alias-memory="@.len() as int) == name
        }),
{
    reveal_strlit("--pools");
    reveal_strlit("--initial-pages");
    reveal_strlit("--max-pages");
    reveal_strlit("--user");
    reveal_strlit("-o");
    reveal_strlit("--output");
    reveal_strlit("--alias-memory0");
    reveal_strlit("--alias-memory");
    reveal_strlit("--alias-memory0=");
    reveal_strlit("--alias-memory=");
    let a = "--alias-memory0="@ + name;
    let b = "--alias-memory="@ + name;
    assert(a.take(16) =~= "--alias-memory0="@);
    assert(b.take(15) =~= "--alias-memory="@);
    assert(a.skip(16) =~= name);
    assert(b.skip(15) =~= name);
    assert("--initial-pages"@[2] == 'i' && b[2] == 'a');
    assert("--alias-memory0"@[14] == '0' && b[14] == '=');
    if b.len() >= 16 {
        assert(b.take(16)[14] == '=');
        assert("--alias-memory0="@[14] == '0');
    }
}

proof fn lemma_pair_settled(s: SettingsV, index: u32, name: Seq<char>)
    requires
        name.len() > 0,
    ensures
        settled(s, Flag::AliasMemory, decimal(index as nat) + "="@ + name) == Ok::<
            SettingsV,
            UsageErrorV,
        >(SettingsV { aliases: s.aliases.push((name, index as nat)), ..s }),
{
    law_numeral_reads_decimal(index);
    lemma_pair(index, name);
}

proof fn lemma_joined_step(
    s: SettingsV,
    f: Flag,
    word: Seq<char>,
    rest: Seq<Seq<char>>,
    t: SettingsV,
)
    requires
        plain_flag(word) is None,
        f == Flag::AliasMemory0 || f == Flag::AliasMemory,
        f == Flag::AliasMemory0 <==> begins_with(word, "--alias-memory0="@),
        f == Flag::AliasMemory ==> begins_with(word, "--alias-memory="@),
        settled(
            s,
            f,
            word.skip(
                if f == Flag::AliasMemory0 {
                    "--alias-memory0="@.len() as int
                } else {
                    "--alias-memory="@.len() as int
                },
            ),
        ) == Ok::<SettingsV, UsageErrorV>(t),
    ensures
        request_from(s, seq![word] + rest, 0) == request_from(t, rest, 0),
{
    assert((seq![word] + rest)[0] == word);
    assert(step(s, seq![word] + rest, 0) == Step::Next(t, 1));
    lemma_link_shift(t, seq![word], rest, 0);
}

/// An alias gives a memory one more name: the index stands in front of the first
/// equals sign, and the name behind it. The value may stand in the word of the
/// option or in the next one.
pub proof fn law_link_aliases(s: SettingsV, index: u32, name: Seq<char>, rest: Seq<Seq<char>>)
    requires
        name.len() > 0,
    ensures
        ({
            let pair = decimal(index as nat) + "="@ + name;
            let t = SettingsV { aliases: s.aliases.push((name, index as nat)), ..s };
            &&& request_from(s, seq!["--alias-memory"@, pair] + rest, 0) == request_from(t, rest, 0)
            &&& request_from(s, seq!["--alias-memory="@ + pair] + rest, 0) == request_from(
                t,
                rest,
                0,
            )
        }),
{
    let pair = decimal(index as nat) + "="@ + name;
    let t = SettingsV { aliases: s.aliases.push((name, index as nat)), ..s };
    lemma_pair_settled(s, index, name);
    lemma_flag_words();
    lemma_flag_step(s, "--alias-memory"@, pair, rest);
    lemma_joined_words(pair);
    lemma_joined_step(s, Flag::AliasMemory, "--alias-memory="@ + pair, rest, t);
}

/// Memory 0 has an option of its own for one more name, which is the whole value.
pub proof fn law_link_default_aliases(s: SettingsV, name: Seq<char>, rest: Seq<Seq<char>>)
    requires
        name.len() > 0,
    ensures
        ({
            let t = SettingsV { aliases: s.aliases.push((name, 0nat)), ..s };
            &&& request_from(s, seq!["--alias-memory0"@, name] + rest, 0) == request_from(
                t,
                rest,
                0,
            )
            &&& request_from(s, seq!["--alias-memory0="@ + name] + rest, 0) == request_from(
                t,
                rest,
                0,
            )
        }),
{
    let t = SettingsV { aliases: s.aliases.push((name, 0nat)), ..s };
    lemma_flag_words();
    lemma_flag_step(s, "--alias-memory0"@, name, rest);
    lemma_joined_words(name);
    lemma_joined_step(s, Flag::AliasMemory0, "--alias-memory0="@ + name, rest, t);
}

/// A value that is no number is refused under the name of its option, and an
/// option at the end of the line has no value.
pub proof fn law_link_refusals(s: SettingsV, value: Seq<char>, rest: Seq<Seq<char>>)
    ensures
        numeral(value) is Err ==> {
            let e = numeral(value)->Err_0;
            &&& request_from(s, seq!["--pools"@, value] + rest, 0) == Err::<RequestV, UsageErrorV>(
                UsageErrorV::NotANumber(Flag::Pools, e),
            )
            &&& request_from(s, seq!["--initial-pages"@, value] + rest, 0) == Err::<
                RequestV,
                UsageErrorV,
            >(UsageErrorV::NotANumber(Flag::InitialPages, e))
            &&& request_from(s, seq!["--max-pages"@, value] + rest, 0) == Err::<
                RequestV,
                UsageErrorV,
            >(UsageErrorV::NotANumber(Flag::MaxPages, e))
        },
        request_from(s, seq!["--pools"@], 0) == Err::<RequestV, UsageErrorV>(
            UsageErrorV::MissingValue(Flag::Pools),
        ),
        request_from(s, seq!["--user"@], 0) == Err::<RequestV, UsageErrorV>(
            UsageErrorV::MissingValue(Flag::User),
        ),
        request_from(s, seq!["-o"@], 0) == Err::<RequestV, UsageErrorV>(
            UsageErrorV::MissingValue(Flag::Output),
        ),
{
    lemma_flag_words();
    lemma_flag_step(s, "--pools"@, value, rest);
    lemma_flag_step(s, "--initial-pages"@, value, rest);
    lemma_flag_step(s, "--max-pages"@, value, rest);
    lemma_flag_step(s, "--user"@, value, rest);
    lemma_flag_step(s, "-o"@, value, rest);
}

/// At the end of the line both paths must have been given, the user module first;
/// what was settled is what is asked for. A word for help ends the line at once.
pub proof fn law_link_end(s: SettingsV, rest: Seq<Seq<char>>)
    ensures
        ({
            let end = request_from(s, Seq::empty(), 0);
            &&& s.user is None ==> end == Err::<RequestV, UsageErrorV>(UsageErrorV::UserRequired)
            &&& s.user is Some && s.output is None ==> end == Err::<RequestV, UsageErrorV>(
                UsageErrorV::OutputRequired,
            )
            &&& s.user is Some && s.output is Some ==> end == Ok::<RequestV, UsageErrorV>(
                RequestV::Link { settings: s, user: s.user->0, output: s.output->0 },
            )
        }),
        request_from(s, seq!["-h"@] + rest, 0) == Ok::<RequestV, UsageErrorV>(RequestV::Help),
        request_from(s, seq!["--help"@] + rest, 0) == Ok::<RequestV, UsageErrorV>(RequestV::Help),
{
    lemma_flag_words();
    assert((seq!["-h"@] + rest)[0] == "-h"@);
    assert((seq!["--help"@] + rest)[0] == "--help"@);
    assert(step(s, seq!["-h"@] + rest, 0) == Step::Help);
    assert(step(s, seq!["--help"@] + rest, 0) == Step::Help);
}

proof fn lemma_generate_shift(c: ChoiceV, front: Seq<Seq<char>>, rest: Seq<Seq<char>>, i: int)
    requires
        0 <= i,
    ensures
        generate_from(c, front + rest, front.len() + i) == generate_from(c, rest, i),
    decreases rest.len() - i,
{
    let all = front + rest;
    let k = front.len() as int;
    if i < rest.len() {
        assert(all[k + i] == rest[i]);
        if i + 1 < rest.len() {
            assert(all[k + i + 1] == rest[i + 1]);
        }
        if rest[i] == "--pools"@ {
            if i + 1 < rest.len() && numeral(rest[i + 1]) is Ok {
                let v = numeral(rest[i + 1])->Ok_0;
                lemma_generate_shift(ChoiceV { pools: v, ..c }, front, rest, i + 2);
            }
        } else if rest[i] == "--max-pages-per-pool"@ {
            if i + 1 < rest.len() && numeral(rest[i + 1]) is Ok {
                let v = numeral(rest[i + 1])->Ok_0;
                lemma_generate_shift(ChoiceV { max_pages: v, ..c }, front, rest, i + 2);
            }
        } else if rest[i] == "--wat"@ {
            lemma_generate_shift(ChoiceV { emit_wat: true, ..c }, front, rest, i + 1);
        } else if rest[i] == "-h"@ || rest[i] == "--help"@ {
        } else if rest[i].len() == 0 || rest[i][0] != '-' {
            lemma_generate_shift(ChoiceV { output: Some(rest[i]), ..c }, front, rest, i + 1);
        }
    }
}

proof fn lemma_generate_words()
    ensures
        "--pools"@ != "--max-pages-per-pool"@,
        "--wat"@ != "--pools"@,
        "--wat"@ != "--max-pages-per-pool"@,
        "--pools"@[0] == '-',
        "--max-pages-per-pool"@[0] == '-',
        "--wat"@[0] == '-',
        "-h"@[0] == '-',
        "--help"@[0] == '-',
        "--help"@ != "--pools"@,
        "--help"@ != "--wat"@,
        "--help"@ != "--max-pages-per-pool"@,
        "-h"@ != "--pools"@,
        "-h"@ != "--wat"@,
        "-h"@ != "--max-pages-per-pool"@,
        "--pools"@.len() > 0,
        "--wat"@.len() > 0,
        "-h"@.len() > 0,
        "--help"@.len() > 0,
        "--max-pages-per-pool"@.len() > 0,
{
    reveal_strlit("--pools");
    reveal_strlit("--max-pages-per-pool");
    reveal_strlit("--wat");
    reveal_strlit("-h");
    reveal_strlit("--help");
    assert("--pools"@.len() == 7);
    assert("--max-pages-per-pool"@.len() == 20);
    assert("--wat"@.len() == 5);
    assert("-h"@.len() == 2);
    assert("--help"@.len() == 6);
}

/// Each option of the generator sets its own choice and nothing else. The limit of
/// a pool is at least one page and at most 65536. A word that does not begin with a
/// dash is the output path.
pub proof fn law_generate_options(c: ChoiceV, n: u32, path: Seq<char>, rest: Seq<Seq<char>>)
    requires
        path.len() > 0 ==> path[0] != '-',
    ensures
        generate_from(c, seq!["--pools"@, decimal(n as nat)] + rest, 0) == generate_from(
            ChoiceV { pools: n as nat, ..c },
            rest,
            0,
        ),
        generate_from(c, seq!["--max-pages-per-pool"@, decimal(n as nat)] + rest, 0) == (if n == 0 {
            Err(GenerateErrorV::MaxPagesZero)
        } else if n > 65536 {
            Err(GenerateErrorV::MaxPagesTooLarge)
        } else {
            generate_from(ChoiceV { max_pages: n as nat, ..c }, rest, 0)
        }),
        generate_from(c, seq!["--wat"@] + rest, 0) == generate_from(
            ChoiceV { emit_wat: true, ..c },
            rest,
            0,
        ),
        generate_from(c, seq![path] + rest, 0) == generate_from(
            ChoiceV { output: Some(path), ..c },
            rest,
            0,
        ),
        generate_from(c, seq!["-h"@] + rest, 0) == Ok::<GenerateV, GenerateErrorV>(GenerateV::Help),
        generate_from(c, seq!["--help"@] + rest, 0) == Ok::<GenerateV, GenerateErrorV>(
            GenerateV::Help,
        ),
{
    law_numeral_reads_decimal(n);
    lemma_generate_words();
    let d = decimal(n as nat);
    let a = seq!["--pools"@, d];
    assert((a + rest)[0] == "--pools"@ && (a + rest)[1] == d);
    lemma_generate_shift(ChoiceV { pools: n as nat, ..c }, a, rest, 0);
    let b = seq!["--max-pages-per-pool"@, d];
    assert((b + rest)[0] == "--max-pages-per-pool"@ && (b + rest)[1] == d);
    lemma_generate_shift(ChoiceV { max_pages: n as nat, ..c }, b, rest, 0);
    assert((seq!["--wat"@] + rest)[0] == "--wat"@);
    lemma_generate_shift(ChoiceV { emit_wat: true, ..c }, seq!["--wat"@], rest, 0);
    assert((seq![path] + rest)[0] == path);
    lemma_generate_shift(ChoiceV { output: Some(path), ..c }, seq![path], rest, 0);
    assert((seq!["-h"@] + rest)[0] == "-h"@);
    assert((seq!["--help"@] + rest)[0] == "--help"@);
}

/// At the end of the line the output path must have been given; what was chosen is
/// what is asked for.
pub proof fn law_generate_end(c: ChoiceV)
    ensures
        ({
            let end = generate_from(c, Seq::empty(), 0);
            match c.output {
                None => end == Err::<GenerateV, GenerateErrorV>(GenerateErrorV::OutputMissing),
                Some(output) => end == Ok::<GenerateV, GenerateErrorV>(
                    GenerateV::Generate {
                        pools: c.pools,
                        max_pages: c.max_pages,
                        emit_wat: c.emit_wat,
                        output,
                    },
                ),
            }
        }),
{
}

} // verus!
