//! The textual forms of IPv4 and IPv6 addresses.
//!
//! An IPv4 address is four decimal octets joined by `.`. An IPv6 address is
//! eight 16-bit groups joined by `:`, each group one to four hexadecimal
//! digits; one run of zero groups may be cut out and written `::`, and the
//! last two groups may be written as an IPv4 address.

use crate::text::{chars_of, joined};
use vstd::prelude::*;

verus! {

/// The pieces of `text` between the occurrences of `separator`. A text
/// without the separator is one piece; a separator at either end, or two in
/// a row, give an empty piece.
pub open spec fn split(text: Seq<char>, separator: char) -> Seq<Seq<char>>
    decreases text.len(),
{
    if text.len() == 0 {
        seq![Seq::<char>::empty()]
    } else {
        let before = split(text.drop_last(), separator);
        if text.last() == separator {
            before.push(Seq::<char>::empty())
        } else {
            before.drop_last().push(before.last().push(text.last()))
        }
    }
}

/// The pieces hold no separator, and put together again with the
/// separator between neighbours they are the text: they are the pieces
/// between its separators, and those alone.
pub proof fn law_split_is_undone_by_join(text: Seq<char>, separator: char)
    ensures
        split(text, separator).len() >= 1,
        joined(split(text, separator), seq![separator]) == text,
        forall|i: int, j: int|
            0 <= i < split(text, separator).len() && 0 <= j < split(text, separator)[i].len()
                ==> #[trigger] split(text, separator)[i][j] != separator,
    decreases text.len(),
{
    let pieces = split(text, separator);
    if text.len() > 0 {
        let shorter = text.drop_last();
        let before = split(shorter, separator);
        law_split_is_undone_by_join(shorter, separator);
        if text.last() == separator {
            assert(pieces.drop_last() =~= before);
        } else if before.len() > 1 {
            assert(pieces.drop_last() =~= before.drop_last());
            assert(joined(pieces, seq![separator]) =~= joined(before, seq![separator]).push(
                text.last(),
            ));
        }
    }
}

pub open spec fn is_decimal_digit(c: char) -> bool {
    '0' <= c <= '9'
}

pub open spec fn is_hex_digit(c: char) -> bool {
    ('0' <= c <= '9') || ('a' <= c <= 'f') || ('A' <= c <= 'F')
}

/// The number that the decimal digits of `digits` write.
pub open spec fn decimal_value(digits: Seq<char>) -> int
    decreases digits.len(),
{
    if digits.len() == 0 {
        0
    } else {
        decimal_value(digits.drop_last()) * 10 + (digits.last() as int - '0' as int)
    }
}

/// One to three decimal digits that write a number up to 255, without a
/// leading zero before another digit.
pub open spec fn is_octet(piece: Seq<char>) -> bool {
    &&& 1 <= piece.len() <= 3
    &&& forall|i: int| 0 <= i < piece.len() ==> is_decimal_digit(#[trigger] piece[i])
    &&& piece.len() > 1 ==> piece[0] != '0'
    &&& decimal_value(piece) <= 255
}

/// One to four hexadecimal digits.
pub open spec fn is_hextet(piece: Seq<char>) -> bool {
    &&& 1 <= piece.len() <= 4
    &&& forall|i: int| 0 <= i < piece.len() ==> is_hex_digit(#[trigger] piece[i])
}

/// Whether `text` is an IPv4 address: four octets joined by `.`.
pub open spec fn is_ipv4(text: Seq<char>) -> bool {
    let pieces = split(text, '.');
    &&& pieces.len() == 4
    &&& forall|i: int| 0 <= i < 4 ==> is_octet(#[trigger] pieces[i])
}

/// The number of groups that `text` writes as hextets joined by `:`;
/// `None` where it is not such a list. The empty text writes no group.
pub open spec fn hextet_groups(text: Seq<char>) -> Option<nat> {
    let pieces = split(text, ':');
    if text.len() == 0 {
        Some(0)
    } else if forall|i: int| 0 <= i < pieces.len() ==> is_hextet(#[trigger] pieces[i]) {
        Some(pieces.len())
    } else {
        None
    }
}

/// The number of groups that `text` writes as pieces joined by `:`, where
/// every piece is a hextet but the last, which may be an IPv4 address and
/// then counts for two; `None` where it is not such a list. The empty text
/// writes no group.
pub open spec fn address_groups(text: Seq<char>) -> Option<nat> {
    let pieces = split(text, ':');
    if text.len() == 0 {
        Some(0)
    } else if forall|i: int| 0 <= i < pieces.len() - 1 ==> is_hextet(#[trigger] pieces[i]) {
        if is_hextet(pieces.last()) {
            Some(pieces.len())
        } else if is_ipv4(pieces.last()) {
            Some((pieces.len() + 1) as nat)
        } else {
            None
        }
    } else {
        None
    }
}

/// The first position at or after `from` where `text` holds `::`, or the
/// length of the text where it holds none there.
pub open spec fn first_gap(text: Seq<char>, from: int) -> int
    decreases text.len() - from,
{
    if from < 0 || from + 1 >= text.len() {
        text.len() as int
    } else if text[from] == ':' && text[from + 1] == ':' {
        from
    } else {
        first_gap(text, from + 1)
    }
}

/// The position that is found is the first of `::`: the text holds `::`
/// there and at no earlier position from `from` on. Where none is found,
/// the text holds none from `from` on.
pub proof fn law_first_gap_is_first(text: Seq<char>, from: int)
    requires
        0 <= from,
    ensures
        from <= first_gap(text, from) || first_gap(text, from) == text.len(),
        first_gap(text, from) < text.len() ==> {
            let gap = first_gap(text, from);
            gap + 1 < text.len() && text[gap] == ':' && text[gap + 1] == ':'
        },
        forall|k: int|
            from <= k < first_gap(text, from) && k + 1 < text.len() ==> !(#[trigger] text[k] == ':'
                && text[k + 1] == ':'),
    decreases text.len() - from,
{
    if from + 1 < text.len() && !(text[from] == ':' && text[from + 1] == ':') {
        law_first_gap_is_first(text, from + 1);
    }
}

/// Whether `text` is an IPv6 address. Without `::` it writes all eight
/// groups. With `::`, the text is cut at the first one: before it stand
/// hextets, behind it groups, and together they are seven groups at most.
pub open spec fn is_ipv6(text: Seq<char>) -> bool {
    let gap = first_gap(text, 0);
    if gap >= text.len() {
        address_groups(text) == Some(8nat)
    } else {
        match (hextet_groups(text.take(gap)), address_groups(text.skip(gap + 2))) {
            (Some(head), Some(tail)) => head + tail <= 7,
            _ => false,
        }
    }
}

/// The content of each piece of `pieces`.
pub open spec fn pieces_view(pieces: Seq<Vec<char>>) -> Seq<Seq<char>> {
    Seq::new(pieces.len(), |i: int| pieces[i]@)
}

/// Splits `text[from..to]` at `separator`.
pub fn split_at(text: &Vec<char>, from: usize, to: usize, separator: char) -> (pieces: Vec<
    Vec<char>,
>)
    requires
        from <= to <= text.len(),
    ensures
        pieces_view(pieces@) == split(text@.subrange(from as int, to as int), separator),
        pieces.len() >= 1,
{
    let ghost part = text@.subrange(from as int, to as int);
    let mut done: Vec<Vec<char>> = Vec::new();
    let mut current: Vec<char> = Vec::new();
    let mut i: usize = from;
    while i < to
        invariant
            from <= i <= to <= text.len(),
            part == text@.subrange(from as int, to as int),
            pieces_view(done@).push(current@) == split(part.take(i - from), separator),
        decreases to - i,
    {
        let c: char = text[i];
        proof {
            assert(part.take(i - from + 1).drop_last() =~= part.take(i - from));
        }
        if c == separator {
            done.push(current);
            current = Vec::new();
        } else {
            current.push(c);
        }
        i += 1;
    }
    proof {
        assert(part.take(to - from) =~= part);
    }
    done.push(current);
    done
}

/// Whether `piece` is an octet.
fn octet(piece: &Vec<char>) -> (holds: bool)
    ensures
        holds == is_octet(piece@),
{
    let n: usize = piece.len();
    if n < 1 || n > 3 {
        return false;
    }
    let mut value: u32 = 0;
    let mut i: usize = 0;
    while i < n
        invariant
            i <= n == piece.len(),
            n <= 3,
            forall|j: int| 0 <= j < i ==> is_decimal_digit(#[trigger] piece@[j]),
            value == decimal_value(piece@.take(i as int)),
            value <= 999,
        decreases n - i,
    {
        let c: char = piece[i];
        if !('0' <= c && c <= '9') {
            return false;
        }
        proof {
            assert(piece@.take(i + 1).drop_last() =~= piece@.take(i as int));
            lemma_decimal_value_bound(piece@.take(i as int));
        }
        value = value * 10 + (c as u32 - '0' as u32);
        i += 1;
        proof {
            lemma_decimal_value_bound(piece@.take(i as int));
        }
    }
    proof {
        assert(piece@.take(n as int) =~= piece@);
    }
    if n > 1 && piece[0] == '0' {
        return false;
    }
    value <= 255
}

/// Up to three decimal digits write a number below a thousand.
proof fn lemma_decimal_value_bound(digits: Seq<char>)
    requires
        forall|j: int| 0 <= j < digits.len() ==> is_decimal_digit(#[trigger] digits[j]),
    ensures
        0 <= decimal_value(digits),
        digits.len() <= 0 ==> decimal_value(digits) <= 0,
        digits.len() <= 1 ==> decimal_value(digits) <= 9,
        digits.len() <= 2 ==> decimal_value(digits) <= 99,
        digits.len() <= 3 ==> decimal_value(digits) <= 999,
    decreases digits.len(),
{
    if digits.len() > 0 {
        lemma_decimal_value_bound(digits.drop_last());
    }
}

/// Whether `piece` is a hextet.
fn hextet(piece: &Vec<char>) -> (holds: bool)
    ensures
        holds == is_hextet(piece@),
{
    let n: usize = piece.len();
    if n < 1 || n > 4 {
        return false;
    }
    let mut i: usize = 0;
    while i < n
        invariant
            i <= n == piece.len(),
            forall|j: int| 0 <= j < i ==> is_hex_digit(#[trigger] piece@[j]),
        decreases n - i,
    {
        let c: char = piece[i];
        let hex: bool = ('0' <= c && c <= '9') || ('a' <= c && c <= 'f') || ('A' <= c && c <= 'F');
        if !hex {
            return false;
        }
        i += 1;
    }
    true
}

/// Whether `text` is an IPv4 address.
fn ipv4(text: &Vec<char>) -> (holds: bool)
    ensures
        holds == is_ipv4(text@),
{
    proof {
        assert(text@.subrange(0, text.len() as int) =~= text@);
    }
    let pieces: Vec<Vec<char>> = split_at(text, 0, text.len(), '.');
    if pieces.len() != 4 {
        return false;
    }
    let mut i: usize = 0;
    while i < 4
        invariant
            i <= 4 == pieces.len(),
            pieces_view(pieces@) == split(text@, '.'),
            forall|j: int| 0 <= j < i ==> is_octet(#[trigger] split(text@, '.')[j]),
        decreases 4 - i,
    {
        proof {
            assert(pieces_view(pieces@)[i as int] == pieces@[i as int]@);
        }
        if !octet(&pieces[i]) {
            return false;
        }
        i += 1;
    }
    true
}

/// The groups that `text[from..to]` writes: as hextets alone, or, where
/// `mixed` is set, with an IPv4 address allowed as the last piece.
fn groups(text: &Vec<char>, from: usize, to: usize, mixed: bool) -> (count: Option<usize>)
    requires
        from <= to <= text.len(),
    ensures
        mixed ==> option_nat(count) == address_groups(text@.subrange(from as int, to as int)),
        !mixed ==> option_nat(count) == hextet_groups(text@.subrange(from as int, to as int)),
{
    let ghost part = text@.subrange(from as int, to as int);
    if from == to {
        return Some(0);
    }
    let pieces: Vec<Vec<char>> = split_at(text, from, to, ':');
    let n: usize = pieces.len();
    proof {
        lemma_split_length(part, ':');
    }
    let mut i: usize = 0;
    while i < n - 1
        invariant
            i + 1 <= n == pieces.len(),
            from < to <= text.len(),
            part == text@.subrange(from as int, to as int),
            pieces_view(pieces@) == split(part, ':'),
            forall|j: int| 0 <= j < i ==> is_hextet(#[trigger] split(part, ':')[j]),
        decreases n - i,
    {
        proof {
            assert(pieces_view(pieces@)[i as int] == pieces@[i as int]@);
        }
        if !hextet(&pieces[i]) {
            return None;
        }
        i += 1;
    }
    if hextet(&pieces[n - 1]) {
        Some(n)
    } else if mixed && ipv4(&pieces[n - 1]) {
        proof {
            lemma_split_length(pieces@[n - 1]@, '.');
        }
        Some(n + 1)
    } else {
        None
    }
}

/// A count as a natural number.
pub open spec fn option_nat(count: Option<usize>) -> Option<nat> {
    match count {
        Some(n) => Some(n as nat),
        None => None,
    }
}

/// Every separator and every character of the last piece is a character
/// of the text: the pieces are one more than the separators.
pub proof fn lemma_split_length(text: Seq<char>, separator: char)
    ensures
        1 <= split(text, separator).len(),
        split(text, separator).len() + split(text, separator).last().len() <= text.len() + 1,
    decreases text.len(),
{
    if text.len() > 0 {
        lemma_split_length(text.drop_last(), separator);
    }
}

/// The first position where `text` holds `::`, or the length of the text
/// where it holds none.
fn find_gap(text: &Vec<char>) -> (gap: usize)
    ensures
        gap == first_gap(text@, 0),
        gap <= text.len(),
        gap < text.len() ==> gap + 2 <= text.len(),
{
    let n: usize = text.len();
    if n < 2 {
        return n;
    }
    let mut i: usize = 0;
    while i < n - 1
        invariant
            n == text.len(),
            i < n,
            first_gap(text@, 0) == first_gap(text@, i as int),
        decreases n - i,
    {
        if text[i] == ':' && text[i + 1] == ':' {
            return i;
        }
        i += 1;
    }
    n
}

/// Whether `text` is an IPv6 address.
fn ipv6(text: &Vec<char>) -> (holds: bool)
    ensures
        holds == is_ipv6(text@),
{
    let n: usize = text.len();
    let gap: usize = find_gap(text);
    if gap >= n {
        proof {
            assert(text@.subrange(0, n as int) =~= text@);
        }
        match groups(text, 0, n, true) {
            Some(count) => count == 8,
            None => false,
        }
    } else {
        let head: Option<usize> = groups(text, 0, gap, false);
        let tail: Option<usize> = groups(text, gap + 2, n, true);
        match (head, tail) {
            (Some(h), Some(t)) => h <= 7 && t <= 7 - h,
            _ => false,
        }
    }
}

/// Whether `text` is an IPv4 address.
pub fn is_ipv4_address(text: &str) -> (holds: bool)
    ensures
        holds == is_ipv4(text@),
{
    let chars: Vec<char> = chars_of(text);
    ipv4(&chars)
}

/// Whether `text` is an IPv6 address.
pub fn is_ipv6_address(text: &str) -> (holds: bool)
    ensures
        holds == is_ipv6(text@),
{
    let chars: Vec<char> = chars_of(text);
    ipv6(&chars)
}

} // verus!
