use vstd::prelude::*;
use vstd::slice::{slice_subrange, slice_to_vec};

verus! {

/// ASCII whitespace, as this assembler's grammar understands it.
pub open spec fn is_space(b: u8) -> bool {
    b == 32 || b == 9 || b == 10 || b == 11 || b == 12 || b == 13
}

/// Exec mirror of `is_space`.
pub fn is_space_byte(b: u8) -> (r: bool)
    ensures
        r == is_space(b),
{
    b == 32 || b == 9 || b == 10 || b == 11 || b == 12 || b == 13
}

/// Whether two byte slices hold the same bytes.
pub fn bytes_eq(a: &[u8], b: &[u8]) -> (r: bool)
    ensures
        r == (a@ == b@),
{
    if a.len() != b.len() {
        return false;
    }
    let mut i: usize = 0;
    while i < a.len()
        invariant
            i <= a@.len(),
            a@.len() == b@.len(),
            forall|k: int| 0 <= k < i ==> a@[k] == b@[k],
        decreases a@.len() - i,
    {
        if a[i] != b[i] {
            return false;
        }
        i += 1;
    }
    proof {
        assert(a@ =~= b@);
    }
    true
}

/// The views of a vector of byte vectors.
pub open spec fn views_of(toks: Seq<Vec<u8>>) -> Seq<Seq<u8>> {
    toks.map_values(|t: Vec<u8>| t@)
}

/// `s` without its leading whitespace.
pub open spec fn trim_start(s: Seq<u8>) -> Seq<u8>
    decreases s.len(),
{
    if s.len() > 0 && is_space(s[0]) {
        trim_start(s.drop_first())
    } else {
        s
    }
}

/// `s` without its trailing whitespace.
pub open spec fn trim_end(s: Seq<u8>) -> Seq<u8>
    decreases s.len(),
{
    if s.len() > 0 && is_space(s.last()) {
        trim_end(s.drop_last())
    } else {
        s
    }
}

/// `s` without leading and trailing whitespace.
pub open spec fn spec_trim(s: Seq<u8>) -> Seq<u8> {
    trim_end(trim_start(s))
}

/// Remove leading and trailing whitespace.
pub fn trim_bytes<'a>(s: &'a [u8]) -> (r: &'a [u8])
    ensures
        r@ == spec_trim(s@),
{
    let mut lo: usize = 0;
    proof {
        assert(s@.skip(0) =~= s@);
    }
    while lo < s.len() && is_space_byte(s[lo])
        invariant
            lo <= s@.len(),
            trim_start(s@) == trim_start(s@.skip(lo as int)),
        decreases s@.len() - lo,
    {
        proof {
            assert(s@.skip(lo as int).drop_first() =~= s@.skip(lo as int + 1));
        }
        lo += 1;
    }
    proof {
        if lo < s@.len() {
            assert(s@.skip(lo as int)[0] == s@[lo as int]);
        }
        assert(trim_start(s@) == s@.skip(lo as int));
        assert(s@.skip(lo as int) =~= s@.subrange(lo as int, s@.len() as int));
    }
    let mut hi: usize = s.len();
    while hi > lo && is_space_byte(s[hi - 1])
        invariant
            lo <= hi <= s@.len(),
            trim_start(s@) == s@.skip(lo as int),
            trim_end(s@.skip(lo as int)) == trim_end(s@.subrange(lo as int, hi as int)),
        decreases hi,
    {
        proof {
            assert(s@.subrange(lo as int, hi as int).last() == s@[hi - 1]);
            assert(s@.subrange(lo as int, hi as int).drop_last() =~= s@.subrange(
                lo as int,
                hi as int - 1,
            ));
        }
        hi -= 1;
    }
    proof {
        if hi > lo {
            assert(s@.subrange(lo as int, hi as int).last() == s@[hi - 1]);
        }
        assert(trim_end(s@.subrange(lo as int, hi as int)) == s@.subrange(lo as int, hi as int));
        assert(spec_trim(s@) == s@.subrange(lo as int, hi as int));
    }
    slice_subrange(s, lo, hi)
}

/// Index of the first occurrence of `b` in `s`, or the length of `s`.
pub open spec fn find_byte(s: Seq<u8>, b: u8) -> int
    decreases s.len(),
{
    if s.len() == 0 {
        0
    } else if s[0] == b {
        0
    } else {
        1 + find_byte(s.drop_first(), b)
    }
}

pub proof fn lemma_find_byte_bounds(s: Seq<u8>, b: u8)
    ensures
        0 <= find_byte(s, b) <= s.len(),
        find_byte(s, b) < s.len() ==> s[find_byte(s, b)] == b,
        forall|k: int| 0 <= k < find_byte(s, b) ==> s[k] != b,
    decreases s.len(),
{
    if s.len() > 0 && s[0] != b {
        lemma_find_byte_bounds(s.drop_first(), b);
        assert forall|k: int| 0 <= k < find_byte(s, b) implies s[k] != b by {
            if k > 0 {
                assert(s[k] == s.drop_first()[k - 1]);
            }
        }
    }
}

/// Index of the first occurrence of `b`, or the length of `s`.
pub fn find_byte_pos(s: &[u8], b: u8) -> (r: usize)
    ensures
        r == find_byte(s@, b),
{
    let mut i: usize = 0;
    proof {
        assert(s@.skip(0) =~= s@);
    }
    while i < s.len()
        invariant
            i <= s@.len(),
            find_byte(s@, b) == i + find_byte(s@.skip(i as int), b),
        decreases s@.len() - i,
    {
        if s[i] == b {
            proof {
                assert(s@.skip(i as int)[0] == s@[i as int]);
            }
            return i;
        }
        proof {
            assert(s@.skip(i as int)[0] == s@[i as int]);
            assert(s@.skip(i as int).drop_first() =~= s@.skip(i as int + 1));
        }
        i += 1;
    }
    proof {
        assert(s@.skip(i as int).len() == 0);
    }
    i
}

/// Index at which the comment marker `//` begins, or the length of `s`.
pub open spec fn comment_start(s: Seq<u8>) -> int
    decreases s.len(),
{
    if s.len() < 2 {
        s.len() as int
    } else if s[0] == 47 && s[1] == 47 {
        0
    } else {
        1 + comment_start(s.drop_first())
    }
}

pub proof fn lemma_comment_start_bounds(s: Seq<u8>)
    ensures
        0 <= comment_start(s) <= s.len(),
    decreases s.len(),
{
    if s.len() >= 2 && !(s[0] == 47 && s[1] == 47) {
        lemma_comment_start_bounds(s.drop_first());
    }
}

/// The line up to its comment marker: everything from the first `//` on is
/// discarded.
pub open spec fn strip_comment(s: Seq<u8>) -> Seq<u8> {
    s.take(comment_start(s))
}

/// Remove the comment, if any: the slice up to the first `//`.
pub fn strip_comment_bytes<'a>(s: &'a [u8]) -> (r: &'a [u8])
    ensures
        r@ == strip_comment(s@),
{
    let mut i: usize = 0;
    proof {
        assert(s@.skip(0) =~= s@);
        lemma_comment_start_bounds(s@);
    }
    while i < s.len() && i + 1 < s.len()
        invariant
            i <= s@.len(),
            comment_start(s@) == i + comment_start(s@.skip(i as int)),
        decreases s@.len() - i,
    {
        proof {
            assert(s@.skip(i as int)[0] == s@[i as int]);
            assert(s@.skip(i as int)[1] == s@[i as int + 1]);
        }
        if s[i] == 47 && s[i + 1] == 47 {
            proof {
                lemma_comment_start_bounds(s@);
            }
            return slice_subrange(s, 0, i);
        }
        proof {
            assert(s@.skip(i as int).drop_first() =~= s@.skip(i as int + 1));
        }
        i += 1;
    }
    proof {
        assert(s@.skip(i as int).len() == s@.len() - i < 2);
        assert(comment_start(s@) == s@.len());
        assert(s@.take(s@.len() as int) =~= s@);
    }
    s
}

/// Length of the maximal run of non-whitespace bytes at the head of `s`.
pub open spec fn token_len(s: Seq<u8>) -> int
    decreases s.len(),
{
    if s.len() == 0 || is_space(s[0]) {
        0
    } else {
        1 + token_len(s.drop_first())
    }
}

pub proof fn lemma_token_len_bounds(s: Seq<u8>)
    ensures
        0 <= token_len(s) <= s.len(),
        s.len() > 0 && !is_space(s[0]) ==> token_len(s) >= 1,
    decreases s.len(),
{
    if s.len() > 0 && !is_space(s[0]) {
        lemma_token_len_bounds(s.drop_first());
    }
}

pub proof fn lemma_token_len_run(s: Seq<u8>, j: int)
    requires
        0 <= j <= s.len(),
        forall|k: int| 0 <= k < j ==> !is_space(s[k]),
        j == s.len() || is_space(s[j]),
    ensures
        token_len(s) == j,
    decreases j,
{
    if j > 0 {
        lemma_token_len_run(s.drop_first(), j - 1);
    }
}

/// The whitespace-separated tokens of `s`, in order.
pub open spec fn spec_tokens(s: Seq<u8>) -> Seq<Seq<u8>>
    decreases s.len(),
    via spec_tokens_decreases
{
    if s.len() == 0 {
        seq![]
    } else if is_space(s[0]) {
        spec_tokens(s.drop_first())
    } else {
        seq![s.take(token_len(s))] + spec_tokens(s.skip(token_len(s)))
    }
}

#[via_fn]
proof fn spec_tokens_decreases(s: Seq<u8>) {
    lemma_token_len_bounds(s);
}

/// Split into whitespace-separated tokens.
pub fn tokenize(s: &[u8]) -> (toks: Vec<Vec<u8>>)
    ensures
        views_of(toks@) == spec_tokens(s@),
{
    let mut toks: Vec<Vec<u8>> = Vec::new();
    let mut i: usize = 0;
    proof {
        assert(s@.skip(0) =~= s@);
        assert(views_of(toks@) =~= Seq::<Seq<u8>>::empty());
    }
    while i < s.len()
        invariant
            i <= s@.len(),
            spec_tokens(s@) == views_of(toks@) + spec_tokens(s@.skip(i as int)),
        decreases s@.len() - i,
    {
        if is_space_byte(s[i]) {
            proof {
                assert(s@.skip(i as int)[0] == s@[i as int]);
                assert(s@.skip(i as int).drop_first() =~= s@.skip(i as int + 1));
            }
            i += 1;
        } else {
            let start = i;
            let mut j = i;
            while j < s.len() && !is_space_byte(s[j])
                invariant
                    start <= j <= s@.len(),
                    forall|k: int| start <= k < j ==> !is_space(s@[k]),
                decreases s@.len() - j,
            {
                j += 1;
            }
            let tok = slice_to_vec(slice_subrange(s, start, j));
            proof {
                let rest = s@.skip(start as int);
                assert(forall|k: int| 0 <= k < j - start ==> rest[k] == s@[start + k]);
                if (j as int) < s@.len() {
                    assert(rest[j - start] == s@[j as int]);
                }
                lemma_token_len_run(rest, j - start);
                assert(rest[0] == s@[start as int]);
                assert(spec_tokens(rest) == seq![rest.take(j - start)] + spec_tokens(
                    rest.skip(j - start),
                ));
                assert(rest.take(j - start) =~= s@.subrange(start as int, j as int));
                assert(rest.skip(j - start) =~= s@.skip(j as int));
                assert(views_of(toks@.push(tok)) =~= views_of(toks@) + seq![tok@]);
            }
            toks.push(tok);
            i = j;
        }
    }
    proof {
        assert(s@.skip(i as int) =~= Seq::<u8>::empty());
        assert(views_of(toks@) + spec_tokens(Seq::<u8>::empty()) =~= views_of(toks@));
    }
    toks
}

/// The lines of the source text, split at newline bytes. A trailing newline
/// yields a final empty line, which the driver skips as blank.
pub open spec fn spec_lines(s: Seq<u8>) -> Seq<Seq<u8>>
    decreases s.len(),
    via spec_lines_decreases
{
    let p = find_byte(s, 10);
    if p >= s.len() {
        seq![s]
    } else {
        seq![s.take(p)] + spec_lines(s.skip(p + 1))
    }
}

#[via_fn]
proof fn spec_lines_decreases(s: Seq<u8>) {
    lemma_find_byte_bounds(s, 10);
}

/// Split the source text at newline bytes.
pub fn split_lines(s: &[u8]) -> (lines: Vec<Vec<u8>>)
    ensures
        views_of(lines@) == spec_lines(s@),
{
    let mut lines: Vec<Vec<u8>> = Vec::new();
    let mut i: usize = 0;
    let mut done = false;
    proof {
        assert(s@.skip(0) =~= s@);
        assert(views_of(lines@) =~= Seq::<Seq<u8>>::empty());
    }
    while !done
        invariant
            i <= s@.len(),
            !done ==> spec_lines(s@) == views_of(lines@) + spec_lines(s@.skip(i as int)),
            done ==> spec_lines(s@) == views_of(lines@),
        decreases s@.len() - i + (if done { 0int } else { 1int }),
    {
        let rest = slice_subrange(s, i, s.len());
        let p = find_byte_pos(rest, 10);
        proof {
            lemma_find_byte_bounds(rest@, 10);
        }
        if p == rest.len() {
            let line = slice_to_vec(rest);
            proof {
                assert(spec_lines(rest@) == seq![rest@]);
                assert(views_of(lines@.push(line)) =~= views_of(lines@) + seq![line@]);
                assert(views_of(lines@) + spec_lines(rest@) =~= views_of(lines@.push(line)));
            }
            lines.push(line);
            done = true;
        } else {
            let line = slice_to_vec(slice_subrange(rest, 0, p));
            proof {
                assert(spec_lines(rest@) == seq![rest@.take(p as int)] + spec_lines(
                    rest@.skip(p as int + 1),
                ));
                assert(rest@.skip(p as int + 1) =~= s@.skip(i as int + p as int + 1));
                assert(views_of(lines@.push(line)) =~= views_of(lines@) + seq![line@]);
            }
            lines.push(line);
            i = i + p + 1;
        }
    }
    lines
}

/// The numeric value of one ASCII digit byte in the given base, if it is one.
pub open spec fn spec_digit(b: u8, base: u16) -> Option<u16> {
    let v: int = if 48 <= b && b <= 57 {
        b - 48
    } else if 65 <= b && b <= 70 {
        b - 55
    } else if 97 <= b && b <= 102 {
        b - 87
    } else {
        99
    };
    if v < base {
        Some(v as u16)
    } else {
        None
    }
}

/// Exec mirror of `spec_digit`.
pub fn digit_of(b: u8, base: u16) -> (r: Option<u16>)
    ensures
        r == spec_digit(b, base),
{
    let v: u16 = if 48 <= b && b <= 57 {
        (b - 48) as u16
    } else if 65 <= b && b <= 70 {
        (b - 55) as u16
    } else if 97 <= b && b <= 102 {
        (b - 87) as u16
    } else {
        99
    };
    if v < base {
        Some(v)
    } else {
        None
    }
}

/// Whether `s` is a non-empty string of digits of the base.
pub open spec fn is_numeral(s: Seq<u8>, base: u16) -> bool {
    s.len() > 0 && forall|k: int| 0 <= k < s.len() ==> spec_digit(s[k], base) is Some
}

/// The value of a digit string, capped at 65536 so that it is well defined
/// for digit strings of any length; every representable operand is below the
/// cap.
pub open spec fn numeral_val(s: Seq<u8>, base: u16) -> int
    decreases s.len(),
{
    if s.len() == 0 {
        0
    } else {
        let p = numeral_val(s.drop_last(), base);
        let d: int = match spec_digit(s.last(), base) {
            Some(v) => v as int,
            None => 0,
        };
        if p * base + d < 65536 {
            p * base + d
        } else {
            65536
        }
    }
}

pub proof fn lemma_numeral_val_bounds(s: Seq<u8>, base: u16)
    ensures
        0 <= numeral_val(s, base) <= 65536,
    decreases s.len(),
{
    if s.len() > 0 {
        lemma_numeral_val_bounds(s.drop_last(), base);
        let p = numeral_val(s.drop_last(), base);
        assert(p * base >= 0) by (nonlinear_arith)
            requires
                p >= 0,
                base >= 0,
        {
        }
    }
}

/// A literal operand: a non-empty digit string in the base whose value is
/// below `limit`.
pub open spec fn spec_parse_literal(s: Seq<u8>, base: u16, limit: int) -> Option<u16> {
    if is_numeral(s, base) && numeral_val(s, base) < limit {
        Some(numeral_val(s, base) as u16)
    } else {
        None
    }
}

/// Parse a literal operand in the given base, accepting only values below
/// `limit`.
pub fn parse_literal(s: &[u8], base: u16, limit: u32) -> (r: Option<u16>)
    requires
        base == 10 || base == 16,
        limit <= 0x10000,
    ensures
        r == spec_parse_literal(s@, base, limit as int),
{
    if s.len() == 0 {
        return None;
    }
    let mut acc: u32 = 0;
    let mut i: usize = 0;
    proof {
        assert(s@.take(0) =~= Seq::<u8>::empty());
    }
    while i < s.len()
        invariant
            base == 10 || base == 16,
            i <= s@.len(),
            acc == numeral_val(s@.take(i as int), base),
            acc <= 65536,
            forall|k: int| 0 <= k < i ==> spec_digit(s@[k], base) is Some,
        decreases s@.len() - i,
    {
        match digit_of(s[i], base) {
            None => {
                return None;
            },
            Some(d) => {
                proof {
                    assert(s@.take(i as int + 1).drop_last() =~= s@.take(i as int));
                    assert(s@.take(i as int + 1).last() == s@[i as int]);
                }
                let next = if base == 16 {
                    acc * 16 + (d as u32)
                } else {
                    acc * 10 + (d as u32)
                };
                acc = if next < 65536 {
                    next
                } else {
                    65536
                };
                i += 1;
            },
        }
    }
    proof {
        assert(s@.take(s@.len() as int) =~= s@);
    }
    if acc < limit {
        Some(acc as u16)
    } else {
        None
    }
}

} // verus!
