//! Which block map texts can be handed to the block map parser: those whose
//! numbers are unsigned decimal numbers and whose ranges and sizes fit, so that
//! reading them neither fails a number parse nor overflows.

use vstd::prelude::*;
use crate::text::chars_of;
use crate::xml::{Token, TokenKind, lex, tokenize};

verus! {

/// The value of a decimal digit character.
pub open spec fn digit_value(c: char) -> int {
    c as int - '0' as int
}

/// A decimal digit.
pub open spec fn is_digit(c: char) -> bool {
    '0' as int <= c as int <= '9' as int
}

/// The first index from `k` on, below `to`, that is not white space.
pub open spec fn lead(s: Seq<char>, k: int, to: int) -> int
    decreases to - k,
{
    if k < to && crate::xml::is_space(s[k]) {
        lead(s, k + 1, to)
    } else {
        k
    }
}

/// The end of `lo..k` once trailing white space is dropped.
pub open spec fn tail(s: Seq<char>, k: int, lo: int) -> int
    decreases k - lo,
{
    if k > lo && crate::xml::is_space(s[k - 1]) {
        tail(s, k - 1, lo)
    } else {
        k
    }
}

/// `a..b` is a non-empty run of decimal digits.
pub open spec fn all_digits(s: Seq<char>, a: int, b: int) -> bool {
    a < b && forall|k: int| a <= k < b ==> is_digit(s[k])
}

/// The number that the digits `a..b` write.
pub open spec fn value_in(s: Seq<char>, a: int, b: int) -> nat
    decreases b - a,
{
    if b <= a {
        0
    } else {
        (value_in(s, a, b - 1) * 10 + digit_value(s[b - 1])) as nat
    }
}

/// The first `-` in `a..b`, or `b`.
pub open spec fn first_dash(s: Seq<char>, a: int, b: int) -> int
    decreases b - a,
{
    if a >= b {
        b
    } else if s[a] == '-' {
        a
    } else {
        first_dash(s, a + 1, b)
    }
}

/// The number written by `a..b`, when it is digits only and fits in 64 bits.
pub open spec fn number_in(s: Seq<char>, a: int, b: int) -> Option<nat> {
    if all_digits(s, a, b) && value_in(s, a, b) <= u64::MAX {
        Some(value_in(s, a, b))
    } else {
        None
    }
}

/// The number that `a..b` writes as an unsigned decimal number reads: digits
/// only, a `+` before them allowed, and fitting in 64 bits.
pub open spec fn unsigned_in(s: Seq<char>, a: int, b: int) -> Option<nat> {
    if a < b && s[a] == '+' {
        number_in(s, a + 1, b)
    } else {
        number_in(s, a, b)
    }
}

/// The number that a text `from..to` holds, white space around it allowed.
pub open spec fn scalar_text(s: Seq<char>, from: int, to: int) -> Option<nat> {
    let a = lead(s, from, to);
    unsigned_in(s, a, tail(s, to, a))
}

/// The block range that a text `from..to` holds: `n` or `first-last`, white
/// space around it allowed; a single block is the range from it to itself.
pub open spec fn range_text(s: Seq<char>, from: int, to: int) -> Option<(nat, nat)> {
    let a = lead(s, from, to);
    let b = tail(s, to, a);
    let d = first_dash(s, a, b);
    if d == b {
        match unsigned_in(s, a, b) {
            Some(v) => Some((v, v)),
            None => None,
        }
    } else {
        match (unsigned_in(s, a, d), unsigned_in(s, d + 1, b)) {
            (Some(x), Some(y)) => Some((x, y)),
            _ => None,
        }
    }
}

/// `"ImageSize"`
pub open spec fn image_size_name() -> Seq<char> {
    seq!['I', 'm', 'a', 'g', 'e', 'S', 'i', 'z', 'e']
}

/// `"BlockSize"`
pub open spec fn block_size_name() -> Seq<char> {
    seq!['B', 'l', 'o', 'c', 'k', 'S', 'i', 'z', 'e']
}

/// `"MappedBlocksCount"`
pub open spec fn mapped_blocks_name() -> Seq<char> {
    seq!['M', 'a', 'p', 'p', 'e', 'd', 'B', 'l', 'o', 'c', 'k', 's', 'C', 'o', 'u', 'n', 't']
}

/// `"Range"`
pub open spec fn range_name() -> Seq<char> {
    seq!['R', 'a', 'n', 'g', 'e']
}

/// The name or characters of a token.
pub open spec fn span(s: Seq<char>, t: Token) -> Seq<char> {
    s.subrange(t.from as int, t.to as int)
}

/// A start tag named `name`.
pub open spec fn starts(s: Seq<char>, t: Token, name: Seq<char>) -> bool {
    t.kind == TokenKind::Start && span(s, t) == name
}

/// An element `<name>text</name>` starting at token `j`: the span of its text.
pub open spec fn simple_element(s: Seq<char>, toks: Seq<Token>, j: int, name: Seq<char>) -> bool {
    &&& starts(s, toks[j], name)
    &&& !toks[j].empty
    &&& j + 2 < toks.len()
    &&& toks[j + 1].kind == TokenKind::Text
    &&& toks[j + 2].kind == TokenKind::End
    &&& span(s, toks[j + 2]) == name
}

/// The number held by the element `name` that starts at token `j`.
pub open spec fn scalar_element(s: Seq<char>, toks: Seq<Token>, j: int, name: Seq<char>) -> Option<nat> {
    if simple_element(s, toks, j, name) {
        scalar_text(s, toks[j + 1].from as int, toks[j + 1].to as int)
    } else {
        None
    }
}

/// The block range held by the `Range` element that starts at token `j`.
pub open spec fn range_element(s: Seq<char>, toks: Seq<Token>, j: int) -> Option<(nat, nat)> {
    if simple_element(s, toks, j, range_name()) {
        range_text(s, toks[j + 1].from as int, toks[j + 1].to as int)
    } else {
        None
    }
}

/// Token `j` lies within the text, names no namespace, and if it starts one
/// of the elements that the parser reads numbers from, that element holds
/// just such a number or block range.
pub open spec fn token_ok(s: Seq<char>, toks: Seq<Token>, j: int) -> bool {
    let t = toks[j];
    &&& t.from <= t.to <= s.len()
    &&& t.kind != TokenKind::Text ==> forall|k: int| t.from <= k < t.to ==> s[k] != ':'
    &&& starts(s, t, image_size_name()) ==> scalar_element(s, toks, j, image_size_name()) is Some
    &&& starts(s, t, block_size_name()) ==> scalar_element(s, toks, j, block_size_name()) is Some
    &&& starts(s, t, mapped_blocks_name()) ==> scalar_element(s, toks, j, mapped_blocks_name())
        is Some
    &&& starts(s, t, range_name()) ==> range_element(s, toks, j) is Some
}

/// The numbers of the `name` elements among the first `k` tokens.
pub open spec fn values_upto(s: Seq<char>, toks: Seq<Token>, name: Seq<char>, k: int) -> Seq<nat>
    decreases k,
{
    if k <= 0 {
        Seq::empty()
    } else {
        let before = values_upto(s, toks, name, k - 1);
        match scalar_element(s, toks, k - 1, name) {
            Some(v) => before.push(v),
            None => before,
        }
    }
}

/// The block ranges among the first `k` tokens.
pub open spec fn ranges_upto(s: Seq<char>, toks: Seq<Token>, k: int) -> Seq<(nat, nat)>
    decreases k,
{
    if k <= 0 {
        Seq::empty()
    } else {
        let before = ranges_upto(s, toks, k - 1);
        match range_element(s, toks, k - 1) {
            Some(r) => before.push(r),
            None => before,
        }
    }
}

/// A block range that the parser turns into bytes without overflow: its
/// first byte lies within the image, and its length in blocks and in bytes
/// fits in 64 bits.
pub open spec fn range_fits(r: (nat, nat), block_size: nat, image_size: nat) -> bool {
    &&& r.0 * block_size <= u64::MAX
    &&& r.0 * block_size <= image_size
    &&& r.0 <= r.1
    &&& r.1 - r.0 + 1 <= u64::MAX
    &&& (r.1 - r.0 + 1) * block_size <= u64::MAX
}

/// Every token of `toks` is fine.
pub open spec fn tokens_ok(s: Seq<char>, toks: Seq<Token>) -> bool {
    forall|j: int| 0 <= j < toks.len() ==> #[trigger] token_ok(s, toks, j)
}

/// Every block range fits with every image size and every block size.
pub open spec fn ranges_fit(ranges: Seq<(nat, nat)>, sizes: Seq<nat>, blocks: Seq<nat>) -> bool {
    forall|i: int, a: int, b: int|
        0 <= i < ranges.len() && 0 <= a < sizes.len() && 0 <= b < blocks.len() ==> range_fits(
            #[trigger] ranges[i],
            #[trigger] blocks[b],
            #[trigger] sizes[a],
        )
}

/// Every block size times every mapped block count fits in 64 bits.
pub open spec fn products_fit(blocks: Seq<nat>, mapped: Seq<nat>) -> bool {
    forall|b: int, m: int|
        0 <= b < blocks.len() && 0 <= m < mapped.len() ==> #[trigger] blocks[b] * #[trigger] mapped[m]
            <= u64::MAX
}

/// The tokens of a block map text are fine, and the numbers they hold fit
/// together.
pub open spec fn tokens_safe(s: Seq<char>, toks: Seq<Token>) -> bool {
    let n = toks.len() as int;
    &&& tokens_ok(s, toks)
    &&& ranges_fit(
        ranges_upto(s, toks, n),
        values_upto(s, toks, image_size_name(), n),
        values_upto(s, toks, block_size_name(), n),
    )
    &&& products_fit(
        values_upto(s, toks, block_size_name(), n),
        values_upto(s, toks, mapped_blocks_name(), n),
    )
}

/// A block map text that the parser reads without a failed number parse or
/// an overflow: the text lexes, every token is fine, every block range fits
/// with every image size and block size given, and every block size times
/// every mapped block count fits in 64 bits.
pub open spec fn block_map_text_safe(xml: Seq<char>) -> bool {
    match lex(xml) {
        None => false,
        Some(toks) => tokens_safe(xml, toks),
    }
}

proof fn lemma_lead_bounds(s: Seq<char>, k: int, to: int)
    requires
        k <= to,
    ensures
        k <= lead(s, k, to) <= to,
    decreases to - k,
{
    if k < to && crate::xml::is_space(s[k]) {
        lemma_lead_bounds(s, k + 1, to);
    }
}

proof fn lemma_tail_bounds(s: Seq<char>, k: int, lo: int)
    requires
        lo <= k,
    ensures
        lo <= tail(s, k, lo) <= k,
    decreases k - lo,
{
    if k > lo && crate::xml::is_space(s[k - 1]) {
        lemma_tail_bounds(s, k - 1, lo);
    }
}

fn is_space_char(c: char) -> (r: bool)
    ensures
        r == crate::xml::is_space(c),
{
    c == ' ' || c == '\t' || c == '\n' || c == '\r'
}

/// The span `from..to` without surrounding white space.
fn trim_span(s: &Vec<char>, from: usize, to: usize) -> (r: (usize, usize))
    requires
        from <= to <= s@.len(),
    ensures
        r.0 == lead(s@, from as int, to as int),
        r.1 == tail(s@, to as int, r.0 as int),
        from <= r.0 <= r.1 <= to,
{
    let mut a = from;
    while a < to
        invariant
            from <= a <= to <= s@.len(),
            lead(s@, from as int, to as int) == lead(s@, a as int, to as int),
        ensures
            from <= a <= to,
            lead(s@, from as int, to as int) == a,
        decreases to - a,
    {
        if !is_space_char(s[a]) {
            break;
        }
        a += 1;
    }
    let mut b = to;
    while b > a
        invariant
            a <= b <= to <= s@.len(),
            tail(s@, to as int, a as int) == tail(s@, b as int, a as int),
        ensures
            a <= b <= to,
            tail(s@, to as int, a as int) == b,
        decreases b - a,
    {
        if !is_space_char(s[b - 1]) {
            break;
        }
        b -= 1;
    }
    (a, b)
}

proof fn lemma_value_grows(s: Seq<char>, a: int, k: int, b: int)
    requires
        a <= k <= b,
        forall|i: int| a <= i < b ==> is_digit(s[i]),
    ensures
        value_in(s, a, k) <= value_in(s, a, b),
    decreases b - k,
{
    if k < b {
        lemma_value_grows(s, a, k + 1, b);
        assert(value_in(s, a, k + 1) == value_in(s, a, k) * 10 + digit_value(s[k]));
    }
}

/// The number written by `a..b`, when it is digits only and fits in 64 bits.
fn parse_number(s: &Vec<char>, a: usize, b: usize) -> (r: Option<u64>)
    requires
        a <= b <= s@.len(),
    ensures
        match r {
            Some(v) => number_in(s@, a as int, b as int) == Some(v as nat),
            None => number_in(s@, a as int, b as int) is None,
        },
{
    if a == b {
        return None;
    }
    let mut acc: u64 = 0;
    let mut k = a;
    while k < b
        invariant
            a <= k <= b <= s@.len(),
            a < b,
            forall|i: int| a <= i < k ==> is_digit(s@[i]),
            acc as nat == value_in(s@, a as int, k as int),
        decreases b - k,
    {
        let c = s[k];
        if !('0' <= c && c <= '9') {
            assert(!all_digits(s@, a as int, b as int));
            return None;
        }
        let d = (c as u32 - '0' as u32) as u64;
        let next = match acc.checked_mul(10) {
            Some(m) => m.checked_add(d),
            None => None,
        };
        match next {
            Some(v) => {
                acc = v;
                k += 1;
            },
            None => {
                proof {
                    assert forall|i: int| a <= i < k + 1 implies is_digit(s@[i]) by {}
                    if all_digits(s@, a as int, b as int) {
                        lemma_value_grows(s@, a as int, k + 1, b as int);
                    }
                }
                return None;
            },
        }
    }
    Some(acc)
}

/// The number written by `a..b`, a `+` before the digits allowed.
fn parse_unsigned(s: &Vec<char>, a: usize, b: usize) -> (r: Option<u64>)
    requires
        a <= b <= s@.len(),
    ensures
        match r {
            Some(v) => unsigned_in(s@, a as int, b as int) == Some(v as nat),
            None => unsigned_in(s@, a as int, b as int) is None,
        },
{
    if a < b && s[a] == '+' {
        parse_number(s, a + 1, b)
    } else {
        parse_number(s, a, b)
    }
}

/// The first `-` in `a..b`, or `b`.
fn find_dash(s: &Vec<char>, a: usize, b: usize) -> (r: usize)
    requires
        a <= b <= s@.len(),
    ensures
        r == first_dash(s@, a as int, b as int),
        a <= r <= b,
{
    let mut k = a;
    while k < b
        invariant
            a <= k <= b <= s@.len(),
            first_dash(s@, a as int, b as int) == first_dash(s@, k as int, b as int),
        decreases b - k,
    {
        if s[k] == '-' {
            return k;
        }
        k += 1;
    }
    k
}

/// The block range that the text `from..to` holds.
fn parse_range(s: &Vec<char>, from: usize, to: usize) -> (r: Option<(u64, u64)>)
    requires
        from <= to <= s@.len(),
    ensures
        match r {
            Some((x, y)) => range_text(s@, from as int, to as int) == Some((x as nat, y as nat)),
            None => range_text(s@, from as int, to as int) is None,
        },
{
    let (a, b) = trim_span(s, from, to);
    let d = find_dash(s, a, b);
    if d == b {
        match parse_unsigned(s, a, b) {
            Some(v) => Some((v, v)),
            None => None,
        }
    } else {
        match (parse_unsigned(s, a, d), parse_unsigned(s, d + 1, b)) {
            (Some(x), Some(y)) => Some((x, y)),
            _ => None,
        }
    }
}

/// The number that the text `from..to` holds.
fn parse_scalar(s: &Vec<char>, from: usize, to: usize) -> (r: Option<u64>)
    requires
        from <= to <= s@.len(),
    ensures
        match r {
            Some(v) => scalar_text(s@, from as int, to as int) == Some(v as nat),
            None => scalar_text(s@, from as int, to as int) is None,
        },
{
    let (a, b) = trim_span(s, from, to);
    parse_unsigned(s, a, b)
}

/// The numbers of a vector, as plain values.
pub open spec fn nats(v: Seq<u64>) -> Seq<nat> {
    v.map_values(|x: u64| x as nat)
}

/// The block ranges of a vector, as plain values.
pub open spec fn nat_pairs(v: Seq<(u64, u64)>) -> Seq<(nat, nat)> {
    v.map_values(|x: (u64, u64)| (x.0 as nat, x.1 as nat))
}

/// Every token lies within the text.
pub open spec fn spans_in(s: Seq<char>, toks: Seq<Token>) -> bool {
    forall|j: int| 0 <= j < toks.len() ==> (#[trigger] toks[j]).from <= toks[j].to <= s.len()
}

/// Whether the characters `from..to` are `lit`.
fn span_is(s: &Vec<char>, from: usize, to: usize, lit: &Vec<char>) -> (r: bool)
    requires
        from <= to <= s@.len(),
    ensures
        r == (s@.subrange(from as int, to as int) == lit@),
{
    if to - from != lit.len() {
        return false;
    }
    let mut k: usize = 0;
    while k < lit.len()
        invariant
            from + lit@.len() == to <= s@.len(),
            k <= lit@.len(),
            forall|i: int| 0 <= i < k ==> s@[from + i] == lit@[i],
        decreases lit@.len() - k,
    {
        if s[from + k] != lit[k] {
            assert(s@.subrange(from as int, to as int)[k as int] == s@[from + k]);
            return false;
        }
        k += 1;
    }
    assert(s@.subrange(from as int, to as int) =~= lit@);
    true
}

/// Whether the element `lit` starts at token `j` in the form `<lit>text</lit>`.
fn is_simple_element(s: &Vec<char>, toks: &Vec<Token>, j: usize, lit: &Vec<char>) -> (r: bool)
    requires
        j < toks@.len(),
        spans_in(s@, toks@),
    ensures
        r == simple_element(s@, toks@, j as int, lit@),
{
    let t = toks[j];
    if !(t.kind == TokenKind::Start && span_is(s, t.from, t.to, lit)) || t.empty {
        return false;
    }
    if toks.len() < 3 || j > toks.len() - 3 {
        return false;
    }
    toks[j + 1].kind == TokenKind::Text && toks[j + 2].kind == TokenKind::End && span_is(
        s,
        toks[j + 2].from,
        toks[j + 2].to,
        lit,
    )
}

/// The number held by the element `lit` starting at token `j`.
fn scalar_at(s: &Vec<char>, toks: &Vec<Token>, j: usize, lit: &Vec<char>) -> (r: Option<u64>)
    requires
        j < toks@.len(),
        spans_in(s@, toks@),
    ensures
        match r {
            Some(v) => scalar_element(s@, toks@, j as int, lit@) == Some(v as nat),
            None => scalar_element(s@, toks@, j as int, lit@) is None,
        },
{
    if !is_simple_element(s, toks, j, lit) {
        return None;
    }
    let count = toks.len();
    assert(j + 2 < count);
    parse_scalar(s, toks[j + 1].from, toks[j + 1].to)
}

/// The block range held by the `Range` element starting at token `j`.
fn range_at(s: &Vec<char>, toks: &Vec<Token>, j: usize, lit: &Vec<char>) -> (r: Option<(u64, u64)>)
    requires
        j < toks@.len(),
        spans_in(s@, toks@),
        lit@ == range_name(),
    ensures
        match r {
            Some((x, y)) => range_element(s@, toks@, j as int) == Some((x as nat, y as nat)),
            None => range_element(s@, toks@, j as int) is None,
        },
{
    if !is_simple_element(s, toks, j, lit) {
        return None;
    }
    let count = toks.len();
    assert(j + 2 < count);
    parse_range(s, toks[j + 1].from, toks[j + 1].to)
}

/// Whether a block range fits with a block size and an image size.
fn fits(r: (u64, u64), block_size: u64, image_size: u64) -> (ok: bool)
    ensures
        ok == range_fits((r.0 as nat, r.1 as nat), block_size as nat, image_size as nat),
{
    let (x, y) = r;
    let offset = match x.checked_mul(block_size) {
        Some(o) => o,
        None => return false,
    };
    if offset > image_size || x > y {
        return false;
    }
    let blocks = y - x;
    if blocks == u64::MAX {
        return false;
    }
    (blocks + 1).checked_mul(block_size).is_some()
}

/// The characters of a tag name.
fn name_chars(name: &str) -> (r: Vec<char>)
    ensures
        r@ == name@,
{
    chars_of(name)
}

/// The numbers the tokens hold (image sizes, block sizes, mapped block
/// counts, block ranges), or nothing when a token is not fine.
fn collect_numbers(s: &Vec<char>, toks: &Vec<Token>) -> (r: Option<
    (Vec<u64>, Vec<u64>, Vec<u64>, Vec<(u64, u64)>),
>)
    ensures
        r is Some == tokens_ok(s@, toks@),
        r matches Some((sizes, blocks, mapped, ranges)) ==> {
            let n = toks@.len() as int;
            &&& nats(sizes@) == values_upto(s@, toks@, image_size_name(), n)
            &&& nats(blocks@) == values_upto(s@, toks@, block_size_name(), n)
            &&& nats(mapped@) == values_upto(s@, toks@, mapped_blocks_name(), n)
            &&& nat_pairs(ranges@) == ranges_upto(s@, toks@, n)
        },
{
    proof {
        reveal_strlit("ImageSize");
        reveal_strlit("BlockSize");
        reveal_strlit("MappedBlocksCount");
        reveal_strlit("Range");
    }
    let image_lit = name_chars("ImageSize");
    let block_lit = name_chars("BlockSize");
    let mapped_lit = name_chars("MappedBlocksCount");
    let range_lit = name_chars("Range");
    assert(image_lit@ =~= image_size_name());
    assert(block_lit@ =~= block_size_name());
    assert(mapped_lit@ =~= mapped_blocks_name());
    assert(range_lit@ =~= range_name());
    let n = toks.len();
    for j in 0..n
        invariant
            n == toks@.len(),
            forall|k: int| 0 <= k < j ==> (#[trigger] toks@[k]).from <= toks@[k].to <= s@.len(),
    {
        if !(toks[j].from <= toks[j].to && toks[j].to <= s.len()) {
            assert(!token_ok(s@, toks@, j as int));
            return None;
        }
    }
    let mut sizes: Vec<u64> = Vec::new();
    let mut blocks: Vec<u64> = Vec::new();
    let mut mapped: Vec<u64> = Vec::new();
    let mut ranges: Vec<(u64, u64)> = Vec::new();
    for j in 0..n
        invariant
            n == toks@.len(),
            spans_in(s@, toks@),
            image_lit@ == image_size_name(),
            block_lit@ == block_size_name(),
            mapped_lit@ == mapped_blocks_name(),
            range_lit@ == range_name(),
            forall|k: int| 0 <= k < j ==> #[trigger] token_ok(s@, toks@, k),
            nats(sizes@) == values_upto(s@, toks@, image_size_name(), j as int),
            nats(blocks@) == values_upto(s@, toks@, block_size_name(), j as int),
            nats(mapped@) == values_upto(s@, toks@, mapped_blocks_name(), j as int),
            nat_pairs(ranges@) == ranges_upto(s@, toks@, j as int),
    {
        let t = toks[j];
        if t.kind != TokenKind::Text {
            let mut k = t.from;
            while k < t.to
                invariant
                    t == toks@[j as int],
                    t.kind != TokenKind::Text,
                    j < toks@.len(),
                    t.from <= k <= t.to <= s@.len(),
                    forall|i: int| t.from <= i < k ==> s@[i] != ':',
                decreases t.to - k,
            {
                if s[k] == ':' {
                    assert(!token_ok(s@, toks@, j as int));
                    return None;
                }
                k += 1;
            }
        }
        let image = scalar_at(s, toks, j, &image_lit);
        let block = scalar_at(s, toks, j, &block_lit);
        let mapped_count = scalar_at(s, toks, j, &mapped_lit);
        let range = range_at(s, toks, j, &range_lit);
        let is_image = t.kind == TokenKind::Start && span_is(s, t.from, t.to, &image_lit);
        let is_block = t.kind == TokenKind::Start && span_is(s, t.from, t.to, &block_lit);
        let is_mapped = t.kind == TokenKind::Start && span_is(s, t.from, t.to, &mapped_lit);
        let is_range = t.kind == TokenKind::Start && span_is(s, t.from, t.to, &range_lit);
        if (is_image && image.is_none()) || (is_block && block.is_none()) || (is_mapped
            && mapped_count.is_none()) || (is_range && range.is_none()) {
            assert(!token_ok(s@, toks@, j as int));
            return None;
        }
        assert(token_ok(s@, toks@, j as int));
        match image {
            Some(v) => sizes.push(v),
            None => {},
        }
        match block {
            Some(v) => blocks.push(v),
            None => {},
        }
        match mapped_count {
            Some(v) => mapped.push(v),
            None => {},
        }
        match range {
            Some(r) => ranges.push(r),
            None => {},
        }
        proof {
            assert(nats(sizes@) =~= values_upto(s@, toks@, image_size_name(), j + 1));
            assert(nats(blocks@) =~= values_upto(s@, toks@, block_size_name(), j + 1));
            assert(nats(mapped@) =~= values_upto(s@, toks@, mapped_blocks_name(), j + 1));
            assert(nat_pairs(ranges@) =~= ranges_upto(s@, toks@, j + 1));
        }
    }
    Some((sizes, blocks, mapped, ranges))
}

/// Whether every block range fits with every image size and block size.
fn ranges_fit_exec(ranges: &Vec<(u64, u64)>, sizes: &Vec<u64>, blocks: &Vec<u64>) -> (r: bool)
    ensures
        r == ranges_fit(nat_pairs(ranges@), nats(sizes@), nats(blocks@)),
{
    let ghost rv = nat_pairs(ranges@);
    let ghost sv = nats(sizes@);
    let ghost bv = nats(blocks@);
    for i in 0..ranges.len()
        invariant
            rv == nat_pairs(ranges@),
            sv == nats(sizes@),
            bv == nats(blocks@),
            forall|i2: int, a: int, b: int|
                0 <= i2 < i && 0 <= a < sv.len() && 0 <= b < bv.len() ==> range_fits(
                    #[trigger] rv[i2],
                    #[trigger] bv[b],
                    #[trigger] sv[a],
                ),
    {
        for a in 0..sizes.len()
            invariant
                rv == nat_pairs(ranges@),
                sv == nats(sizes@),
                bv == nats(blocks@),
                0 <= i < ranges@.len(),
                forall|i2: int, a: int, b: int|
                    0 <= i2 < i && 0 <= a < sv.len() && 0 <= b < bv.len() ==> range_fits(
                        #[trigger] rv[i2],
                        #[trigger] bv[b],
                        #[trigger] sv[a],
                    ),
                forall|a2: int, b: int|
                    0 <= a2 < a && 0 <= b < bv.len() ==> range_fits(
                        rv[i as int],
                        #[trigger] bv[b],
                        #[trigger] sv[a2],
                    ),
        {
            for b in 0..blocks.len()
                invariant
                    rv == nat_pairs(ranges@),
                    sv == nats(sizes@),
                    bv == nats(blocks@),
                    0 <= i < ranges@.len(),
                    0 <= a < sizes@.len(),
                    forall|i2: int, a: int, b: int|
                        0 <= i2 < i && 0 <= a < sv.len() && 0 <= b < bv.len() ==> range_fits(
                            #[trigger] rv[i2],
                            #[trigger] bv[b],
                            #[trigger] sv[a],
                        ),
                    forall|a2: int, b: int|
                        0 <= a2 < a && 0 <= b < bv.len() ==> range_fits(
                            rv[i as int],
                            #[trigger] bv[b],
                            #[trigger] sv[a2],
                        ),
                    forall|b2: int|
                        0 <= b2 < b ==> range_fits(rv[i as int], #[trigger] bv[b2], sv[a as int]),
            {
                if !fits(ranges[i], blocks[b], sizes[a]) {
                    assert(!range_fits(rv[i as int], bv[b as int], sv[a as int]));
                    return false;
                }
            }
        }
    }
    true
}

/// Whether every block size times every mapped block count fits in 64 bits.
fn products_fit_exec(blocks: &Vec<u64>, mapped: &Vec<u64>) -> (r: bool)
    ensures
        r == products_fit(nats(blocks@), nats(mapped@)),
{
    let ghost bv = nats(blocks@);
    let ghost mv = nats(mapped@);
    for b in 0..blocks.len()
        invariant
            bv == nats(blocks@),
            mv == nats(mapped@),
            forall|b2: int, m: int|
                0 <= b2 < b && 0 <= m < mv.len() ==> #[trigger] bv[b2] * #[trigger] mv[m]
                    <= u64::MAX,
    {
        for m in 0..mapped.len()
            invariant
                bv == nats(blocks@),
                mv == nats(mapped@),
                0 <= b < blocks@.len(),
                forall|b2: int, m: int|
                    0 <= b2 < b && 0 <= m < mv.len() ==> #[trigger] bv[b2] * #[trigger] mv[m]
                        <= u64::MAX,
                forall|m2: int| 0 <= m2 < m ==> bv[b as int] * #[trigger] mv[m2] <= u64::MAX,
        {
            if blocks[b].checked_mul(mapped[m]).is_none() {
                assert(bv[b as int] * mv[m as int] > u64::MAX);
                return false;
            }
        }
    }
    true
}

/// Whether the block map text `xml` can be handed to the parser: whether
/// `block_map_text_safe` holds of it.
pub fn is_block_map_text_safe(xml: &str) -> (r: bool)
    ensures
        r == block_map_text_safe(xml@),
{
    let s = chars_of(xml);
    let toks = match tokenize(&s) {
        None => return false,
        Some(t) => t,
    };
    match collect_numbers(&s, &toks) {
        None => false,
        Some((sizes, blocks, mapped, ranges)) => ranges_fit_exec(&ranges, &sizes, &blocks)
            && products_fit_exec(&blocks, &mapped),
    }
}

} // verus!
