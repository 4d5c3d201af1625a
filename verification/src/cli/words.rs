//! Words of a command line: comparing, splitting, and reading numbers.
use vstd::prelude::*;
use crate::text::decimal;

verus! {

/// The characters of a text.
pub fn chars_of(text: &str) -> (r: Vec<char>)
    ensures
        r@ == text@,
{
    let mut out: Vec<char> = Vec::new();
    for c in it: text.chars()
        invariant
            it.seq() == text@,
            out@ == text@.take(it.index() as int),
    {
        out.push(c);
        assert(out@ =~= text@.take(it.index() + 1));
    }
    assert(text@.take(text@.len() as int) =~= text@);
    out
}

/// The text of some of the characters.
pub fn text_of(chars: &Vec<char>, from: usize, to: usize) -> (r: String)
    requires
        from <= to <= chars@.len(),
    ensures
        r@ == chars@.subrange(from as int, to as int),
{
    let mut out = String::new();
    let mut i: usize = from;
    assert(out@ =~= chars@.subrange(from as int, from as int));
    while i < to
        invariant
            from <= i <= to <= chars@.len(),
            out@ == chars@.subrange(from as int, i as int),
        decreases to - i,
    {
        out.push(chars[i]);
        i += 1;
        assert(out@ =~= chars@.subrange(from as int, i as int));
    }
    out
}

/// Whether a text begins with another.
pub open spec fn begins_with(text: Seq<char>, prefix: Seq<char>) -> bool {
    prefix.len() <= text.len() && text.take(prefix.len() as int) == prefix
}

/// Whether `chars` begins with `prefix`.
pub fn starts_with(chars: &Vec<char>, prefix: &str) -> (r: bool)
    ensures
        r == begins_with(chars@, prefix@),
{
    let want = chars_of(prefix);
    let n: usize = want.len();
    if chars.len() < n {
        return false;
    }
    let mut i: usize = 0;
    while i < n
        invariant
            i <= n,
            n == want@.len(),
            n <= chars@.len(),
            want@ == prefix@,
            forall|k: int| 0 <= k < i ==> chars@[k] == prefix@[k],
        decreases n - i,
    {
        if chars[i] != want[i] {
            assert(chars@.take(n as int)[i as int] != prefix@[i as int]);
            return false;
        }
        i += 1;
    }
    assert(chars@.take(n as int) =~= prefix@);
    true
}

/// Whether `chars` is exactly `text`.
pub fn is_text(chars: &Vec<char>, text: &str) -> (r: bool)
    ensures
        r == (chars@ == text@),
{
    let same = starts_with(chars, text);
    let n: usize = text.unicode_len();
    assert(chars@.take(chars@.len() as int) =~= chars@);
    same && chars.len() == n
}

/// The first place of `c`, or the length where there is none.
pub open spec fn first_place(text: Seq<char>, c: char) -> nat
    decreases text.len(),
{
    if text.len() == 0 || text[0] == c {
        0
    } else {
        1 + first_place(text.skip(1), c)
    }
}

/// Up to its first place, a character does not occur.
pub proof fn lemma_first_place(text: Seq<char>, c: char, p: int)
    requires
        0 <= p <= text.len(),
        forall|k: int| 0 <= k < p ==> text[k] != c,
        p < text.len() ==> text[p] == c,
    ensures
        first_place(text, c) == p,
    decreases text.len(),
{
    if text.len() > 0 && text[0] != c {
        assert(p > 0);
        let rest = text.skip(1);
        assert(forall|k: int| 0 <= k < p - 1 ==> rest[k] == text[k + 1]);
        lemma_first_place(rest, c, p - 1);
    }
}

/// Where `c` stands first, or the length where it does not occur.
pub fn place_of(chars: &Vec<char>, c: char) -> (r: usize)
    ensures
        r == first_place(chars@, c),
        r <= chars@.len(),
        r < chars@.len() ==> chars@[r as int] == c,
{
    let n: usize = chars.len();
    let mut i: usize = 0;
    while i < n
        invariant
            i <= n,
            n == chars@.len(),
            forall|k: int| 0 <= k < i ==> chars@[k] != c,
        decreases n - i,
    {
        if chars[i] == c {
            proof {
                lemma_first_place(chars@, c, i as int);
            }
            return i;
        }
        i += 1;
    }
    proof {
        lemma_first_place(chars@, c, n as int);
    }
    n
}

/// Why a text is not a number.
#[derive(Clone, Copy, Debug, PartialEq, Eq, Structural)]
pub enum NumberError {
    Empty,
    InvalidDigit,
    TooLarge,
}

impl NumberError {
    pub open spec fn text(self) -> Seq<char> {
        match self {
            NumberError::Empty => "cannot parse integer from empty string"@,
            NumberError::InvalidDigit => "invalid digit found in string"@,
            NumberError::TooLarge => "number too large to fit in target type"@,
        }
    }

    pub fn message(self) -> (r: &'static str)
        ensures
            r@ == self.text(),
    {
        match self {
            NumberError::Empty => "cannot parse integer from empty string",
            NumberError::InvalidDigit => "invalid digit found in string",
            NumberError::TooLarge => "number too large to fit in target type",
        }
    }
}

/// The value of the first `n` digits, or what is wrong with them.
pub open spec fn digits_value(digits: Seq<char>, n: int) -> Result<nat, NumberError>
    decreases n,
{
    if n <= 0 {
        Ok(0)
    } else {
        match digits_value(digits, n - 1) {
            Err(e) => Err(e),
            Ok(v) => {
                let c = digits[n - 1];
                if !('0' <= c && c <= '9') {
                    Err(NumberError::InvalidDigit)
                } else if v * 10 + (c as nat - 48) > u32::MAX {
                    Err(NumberError::TooLarge)
                } else {
                    Ok((v * 10 + (c as nat - 48)) as nat)
                }
            },
        }
    }
}

/// The number that a text writes: decimal digits behind an optional plus sign.
pub open spec fn numeral(text: Seq<char>) -> Result<nat, NumberError> {
    if text.len() == 0 {
        Err(NumberError::Empty)
    } else if text[0] == '+' {
        if text.len() == 1 {
            Err(NumberError::InvalidDigit)
        } else {
            digits_value(text.skip(1), text.len() - 1)
        }
    } else {
        digits_value(text, text.len() as int)
    }
}

/// Once the digits are wrong they stay wrong.
pub proof fn lemma_digits_stay_wrong(digits: Seq<char>, n: int, m: int)
    requires
        n <= m,
        digits_value(digits, n) is Err,
    ensures
        digits_value(digits, m) == digits_value(digits, n),
    decreases m - n,
{
    if n < m {
        lemma_digits_stay_wrong(digits, n, m - 1);
    }
}

/// What reading a number comes to.
pub open spec fn seen_number(r: Result<u32, NumberError>) -> Result<nat, NumberError> {
    match r {
        Ok(v) => Ok(v as nat),
        Err(e) => Err(e),
    }
}

/// Reads a decimal number.
pub fn parse_number(chars: &Vec<char>) -> (r: Result<u32, NumberError>)
    ensures
        seen_number(r) == numeral(chars@),
{
    let len: usize = chars.len();
    if len == 0 {
        return Err(NumberError::Empty);
    }
    let signed = chars[0] == '+';
    if signed && len == 1 {
        return Err(NumberError::InvalidDigit);
    }
    let from: usize = if signed {
        1
    } else {
        0
    };
    let ghost digits = if signed {
        chars@.skip(1)
    } else {
        chars@
    };
    let mut v: u32 = 0;
    let mut i: usize = from;
    while i < len
        invariant
            from <= 1,
            from <= i <= len,
            len == chars@.len(),
            digits.len() == len - from,
            forall|k: int| 0 <= k < digits.len() ==> digits[k] == chars@[k + from],
            digits_value(digits, i - from) == Ok::<nat, NumberError>(v as nat),
            numeral(chars@) == digits_value(digits, digits.len() as int),
        decreases len - i,
    {
        let c = chars[i];
        assert(c == digits[i - from]);
        if c < '0' || c > '9' {
            proof {
                lemma_digits_stay_wrong(digits, i - from + 1, digits.len() as int);
            }
            return Err(NumberError::InvalidDigit);
        }
        let d: u32 = c as u32 - 48;
        let next: u64 = v as u64 * 10 + d as u64;
        if next > 0xffff_ffff {
            proof {
                lemma_digits_stay_wrong(digits, i - from + 1, digits.len() as int);
            }
            return Err(NumberError::TooLarge);
        }
        v = next as u32;
        i += 1;
    }
    Ok(v)
}

proof fn lemma_decimal_digits(n: nat)
    requires
        n <= u32::MAX,
    ensures
        decimal(n).len() > 0,
        decimal(n)[0] != '+',
        digits_value(decimal(n), decimal(n).len() as int) == Ok::<nat, NumberError>(n),
    decreases n,
{
    if n >= 10 {
        lemma_decimal_digits(n / 10);
        let head = decimal(n / 10);
        let all = decimal(n);
        assert(all.drop_last() =~= head);
        lemma_same_digits(head, all, head.len() as int);
        assert(all[all.len() - 1] == crate::text::digit_char(n % 10));
        assert(all[0] == head[0]);
    } else {
        assert(digits_value(decimal(n), 0) == Ok::<nat, NumberError>(0));
    }
}

proof fn lemma_same_digits(a: Seq<char>, b: Seq<char>, n: int)
    requires
        n <= a.len(),
        n <= b.len(),
        forall|k: int| 0 <= k < n ==> a[k] == b[k],
    ensures
        digits_value(a, n) == digits_value(b, n),
    decreases n,
{
    if n > 0 {
        lemma_same_digits(a, b, n - 1);
    }
}

/// A number written in decimal is read back.
pub proof fn law_numeral_reads_decimal(n: u32)
    ensures
        numeral(decimal(n as nat)) == Ok::<nat, NumberError>(n as nat),
{
    lemma_decimal_digits(n as nat);
}

/// A plus sign in front of a number changes nothing.
pub proof fn law_numeral_ignores_plus(text: Seq<char>)
    requires
        text.len() > 0,
        text[0] != '+',
    ensures
        numeral(seq!['+'] + text) == numeral(text),
{
    assert((seq!['+'] + text).skip(1) =~= text);
}

} // verus!
