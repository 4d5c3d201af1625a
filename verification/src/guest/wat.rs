//! Building text: templates with a place for a number, and indentation.
use vstd::prelude::*;
use crate::text::{decimal, push_decimal};

verus! {

/// `String::push`: appends one character.
pub assume_specification[ String::push ](s: &mut String, c: char)
    ensures
        final(s)@ == old(s)@.push(c),
;

/// The first `n` characters of a template, with the number `k` at every `@`.
pub open spec fn filled(template: Seq<char>, k: nat, n: int) -> Seq<char>
    decreases n,
{
    if n <= 0 {
        Seq::empty()
    } else if template[n - 1] == '@' {
        filled(template, k, n - 1) + decimal(k)
    } else {
        filled(template, k, n - 1).push(template[n - 1])
    }
}

/// A template with the number `k` at every `@`.
pub open spec fn fill(template: Seq<char>, k: nat) -> Seq<char> {
    filled(template, k, template.len() as int)
}

/// Appends a template with the number `k` at every `@`.
pub fn push_filled(out: &mut String, template: &str, k: u32)
    ensures
        final(out)@ == old(out)@ + fill(template@, k as nat),
{
    let ghost before = out@;
    assert(out@ =~= before + filled(template@, k as nat, 0));
    for c in it: template.chars()
        invariant
            it.seq() == template@,
            out@ == before + filled(template@, k as nat, it.index() as int),
    {
        if c == '@' {
            push_decimal(out, k as u64);
        } else {
            out.push(c);
        }
        assert(out@ =~= before + filled(template@, k as nat, it.index() + 1));
    }
}

/// `cols` spaces.
pub open spec fn spaces(cols: nat) -> Seq<char> {
    Seq::new(cols, |i: int| ' ')
}

/// The first `n` characters of `body`, with every line but the first moved in
/// by `cols` spaces.
pub open spec fn indented_prefix(body: Seq<char>, cols: nat, n: int) -> Seq<char>
    decreases n,
{
    if n <= 0 {
        Seq::empty()
    } else if n > 1 && body[n - 2] == '\n' {
        (indented_prefix(body, cols, n - 1) + spaces(cols)).push(body[n - 1])
    } else {
        indented_prefix(body, cols, n - 1).push(body[n - 1])
    }
}

/// `body` with every line but the first moved in by `cols` spaces, and its
/// last line ended.
pub open spec fn indented(body: Seq<char>, cols: nat) -> Seq<char> {
    let text = indented_prefix(body, cols, body.len() as int);
    if body.len() > 0 && body.last() != '\n' {
        text.push('\n')
    } else {
        text
    }
}

/// Appends `body` with every line but the first moved in. The first line
/// continues whatever stands before it.
pub fn indent_into(out: &mut String, body: &str, cols: usize)
    ensures
        final(out)@ == old(out)@ + indented(body@, cols as nat),
{
    let ghost before = out@;
    assert(out@ =~= before + indented_prefix(body@, cols as nat, 0));
    let mut last: char = '\n';
    let mut first: bool = true;
    for c in it: body.chars()
        invariant
            it.seq() == body@,
            first == (it.index() == 0),
            it.index() > 0 ==> last == body@[it.index() - 1],
            it.index() == 0 ==> last == '\n',
            out@ == before + indented_prefix(body@, cols as nat, it.index() as int),
    {
        let ghost start = out@;
        if !first && last == '\n' {
            let mut i: usize = 0;
            assert(out@ =~= start + spaces(0));
            while i < cols
                invariant
                    i <= cols,
                    out@ == start + spaces(i as nat),
                decreases cols - i,
            {
                out.push(' ');
                i += 1;
                assert(out@ =~= start + spaces(i as nat));
            }
        }
        out.push(c);
        last = c;
        first = false;
        assert(out@ =~= before + indented_prefix(body@, cols as nat, it.index() + 1));
    }
    if last != '\n' {
        out.push('\n');
    }
    assert(out@ =~= before + indented(body@, cols as nat));
}

} // verus!
