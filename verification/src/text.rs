//! Rendering of numbers, byte lists and joined names as text.

use vstd::prelude::*;
use vstd::string::*;

verus! {

/// The character of a decimal digit.
pub open spec fn digit_char(d: nat) -> char {
    (48 + d) as char
}

/// The decimal rendering of a natural number, without leading zeros.
pub open spec fn decimal(n: nat) -> Seq<char>
    decreases n,
{
    if n < 10 {
        seq![digit_char(n)]
    } else {
        decimal(n / 10).push(digit_char(n % 10))
    }
}

/// The decimal rendering of an integer: a minus sign in front where it is negative.
pub open spec fn signed_decimal(i: int) -> Seq<char> {
    if i < 0 {
        seq!['-'] + decimal((-i) as nat)
    } else {
        decimal(i as nat)
    }
}

/// The pieces one after the other, with `sep` between neighbours.
pub open spec fn joined(pieces: Seq<Seq<char>>, sep: Seq<char>) -> Seq<char>
    decreases pieces.len(),
{
    if pieces.len() == 0 {
        Seq::empty()
    } else if pieces.len() == 1 {
        pieces[0]
    } else {
        joined(pieces.drop_last(), sep) + sep + pieces.last()
    }
}

/// The texts of a sequence of strings.
pub open spec fn texts(strings: Seq<String>) -> Seq<Seq<char>> {
    strings.map_values(|s: String| s@)
}

/// The list rendering of bytes: `[1, 2, 3]`.
pub open spec fn byte_list(bytes: Seq<u8>) -> Seq<char> {
    seq!['['] + joined(bytes.map_values(|b: u8| decimal(b as nat)), seq![',', ' ']) + seq![']']
}

fn digit(d: u64) -> (r: &'static str)
    requires
        d < 10,
    ensures
        r@ == seq![digit_char(d as nat)],
{
    proof {
        reveal_strlit("0");
        reveal_strlit("1");
        reveal_strlit("2");
        reveal_strlit("3");
        reveal_strlit("4");
        reveal_strlit("5");
        reveal_strlit("6");
        reveal_strlit("7");
        reveal_strlit("8");
        reveal_strlit("9");
    }
    if d == 0 {
        "0"
    } else if d == 1 {
        "1"
    } else if d == 2 {
        "2"
    } else if d == 3 {
        "3"
    } else if d == 4 {
        "4"
    } else if d == 5 {
        "5"
    } else if d == 6 {
        "6"
    } else if d == 7 {
        "7"
    } else if d == 8 {
        "8"
    } else {
        "9"
    }
}

/// Appends the decimal rendering of `n`.
pub fn append_decimal(out: &mut String, n: u64)
    ensures
        final(out)@ == old(out)@ + decimal(n as nat),
    decreases n,
{
    if n >= 10 {
        append_decimal(out, n / 10);
    }
    out.append(digit(n % 10));
    assert(out@ =~= old(out)@ + decimal(n as nat));
}

/// Appends the decimal rendering of `i`, with its sign.
pub fn append_signed_decimal(out: &mut String, i: i32)
    ensures
        final(out)@ == old(out)@ + signed_decimal(i as int),
{
    if i < 0 {
        proof {
            reveal_strlit("-");
        }
        out.append("-");
        append_decimal(out, (-(i as i64)) as u64);
        assert(out@ =~= old(out)@ + signed_decimal(i as int));
    } else {
        append_decimal(out, i as u64);
    }
}

/// Appends the list rendering of the first `len` bytes of `bytes`.
pub fn append_byte_list(out: &mut String, bytes: &Vec<u8>, len: usize)
    requires
        len <= bytes@.len(),
    ensures
        final(out)@ == old(out)@ + byte_list(bytes@.take(len as int)),
{
    proof {
        reveal_strlit("[");
        reveal_strlit(", ");
        reveal_strlit("]");
    }
    let ghost start = out@;
    let ghost pieces = bytes@.map_values(|b: u8| decimal(b as nat));
    let ghost sep: Seq<char> = seq![',', ' '];
    out.append("[");
    let mut i: usize = 0;
    while i < len
        invariant
            i <= len <= bytes@.len(),
            pieces == bytes@.map_values(|b: u8| decimal(b as nat)),
            sep == seq![',', ' '],
            ", "@ =~= sep,
            out@ == start + seq!['['] + joined(pieces.take(i as int), sep),
        decreases len - i,
    {
        let ghost before = out@;
        if i > 0 {
            out.append(", ");
        }
        append_decimal(out, bytes[i] as u64);
        proof {
            let next = pieces.take(i + 1);
            assert(next.drop_last() =~= pieces.take(i as int));
            assert(next.last() == decimal(bytes@[i as int] as nat));
            if i == 0 {
                assert(joined(pieces.take(0), sep) =~= Seq::<char>::empty());
                assert(joined(next, sep) == next[0]);
                assert(out@ =~= start + seq!['['] + joined(next, sep));
            } else {
                assert(out@ =~= before + sep + next.last());
                assert(out@ =~= start + seq!['['] + joined(next, sep));
            }
        }
        i += 1;
    }
    out.append("]");
    proof {
        let shown = bytes@.take(len as int);
        assert(shown.map_values(|b: u8| decimal(b as nat)) =~= pieces.take(len as int));
        assert(out@ =~= start + byte_list(shown));
    }
}

/// `itertools::Itertools::join` over the strings: each string as it is, in order,
/// with `sep` between neighbours. The separator is kept to three characters, so
/// that the capacity the call reserves up front stays below the largest allocation.
#[verifier::external_body]
pub(crate) fn join(pieces: &Vec<String>, sep: &str) -> (r: String)
    requires
        sep@.len() <= 3,
    ensures
        r@ == joined(texts(pieces@), sep@),
{
    itertools::Itertools::join(&mut pieces.iter(), sep)
}

/// What `str::to_uppercase` returns for the given text.
pub uninterp spec fn uppercase(text: Seq<char>) -> Seq<char>;

/// The upper-case form of an ASCII letter; every other character is kept.
pub open spec fn ascii_upper(c: char) -> char {
    if 'a' <= c && c <= 'z' {
        (c as u32 - 32) as char
    } else {
        c
    }
}

/// `str::to_uppercase`, the Unicode upper-casing of std. On text that is all ASCII
/// it maps `a` to `z` onto `A` to `Z` and keeps every other character.
#[verifier::external_body]
pub(crate) fn to_uppercase(text: &str) -> (r: String)
    ensures
        r@ == uppercase(text@),
        vstd::utf8::is_ascii_chars(text@) ==> r@ == text@.map_values(|c: char| ascii_upper(c)),
{
    text.to_uppercase()
}

/// The number that a sequence of decimal digits stands for.
pub open spec fn value_of(digits: Seq<char>) -> int
    decreases digits.len(),
{
    if digits.len() == 0 {
        0
    } else {
        10 * value_of(digits.drop_last()) + (digits.last() as int - '0' as int)
    }
}

/// A number is rendered in decimal digits that stand for it, the first of which is not zero
/// unless the number is.
pub proof fn law_decimal_is_read_back(n: nat)
    ensures
        value_of(decimal(n)) == n,
        decimal(n).len() > 0,
        forall|i: int| 0 <= i < decimal(n).len() ==> '0' <= #[trigger] decimal(n)[i] <= '9',
        n > 0 ==> decimal(n)[0] != '0',
        n == 0 ==> decimal(n) == seq!['0'],
    decreases n,
{
    if n < 10 {
        assert(decimal(n).drop_last() =~= Seq::<char>::empty());
        assert(value_of(decimal(n).drop_last()) == 0);
    } else {
        law_decimal_is_read_back(n / 10);
        assert(decimal(n).drop_last() =~= decimal(n / 10));
        assert(decimal(n)[0] == decimal(n / 10)[0]);
    }
}

/// A negative number is rendered as its opposite behind a minus sign, and any other as it is.
pub proof fn law_signed_decimal_is_read_back(i: int)
    ensures
        i >= 0 ==> value_of(signed_decimal(i)) == i && signed_decimal(i)[0] != '-',
        i < 0 ==> signed_decimal(i)[0] == '-' && value_of(signed_decimal(i).drop_first()) == -i,
{
    if i >= 0 {
        law_decimal_is_read_back(i as nat);
        assert('0' <= decimal(i as nat)[0]);
    } else {
        law_decimal_is_read_back((-i) as nat);
        assert(signed_decimal(i).drop_first() =~= decimal((-i) as nat));
    }
}

/// Pieces are joined in order, with one separator between neighbours and none elsewhere.
pub proof fn law_joined_grows_by_one_piece(
    pieces: Seq<Seq<char>>,
    piece: Seq<char>,
    sep: Seq<char>,
)
    ensures
        joined(Seq::empty(), sep) == Seq::<char>::empty(),
        joined(seq![piece], sep) == piece,
        pieces.len() > 0 ==> joined(pieces.push(piece), sep) == joined(pieces, sep) + sep + piece,
{
    assert(pieces.push(piece).drop_last() =~= pieces);
}

/// A list of bytes is rendered in brackets, each byte as its number, with a comma and a
/// space between neighbours.
pub proof fn law_byte_list_shows_every_byte(bytes: Seq<u8>, byte: u8)
    ensures
        byte_list(Seq::empty()) == seq!['[', ']'],
        byte_list(seq![byte]) == seq!['['] + decimal(byte as nat) + seq![']'],
        bytes.len() > 0 ==> byte_list(bytes.push(byte)) == byte_list(bytes).drop_last() + seq![
            ',',
            ' ',
        ] + decimal(byte as nat) + seq![']'],
{
    let sep: Seq<char> = seq![',', ' '];
    let none = Seq::<u8>::empty().map_values(|b: u8| decimal(b as nat));
    assert(none =~= Seq::<Seq<char>>::empty());
    assert(byte_list(Seq::empty()) =~= seq!['[', ']']);
    assert(seq![byte].map_values(|b: u8| decimal(b as nat)) =~= seq![decimal(byte as nat)]);
    if bytes.len() > 0 {
        let pieces = bytes.map_values(|b: u8| decimal(b as nat));
        assert(bytes.push(byte).map_values(|b: u8| decimal(b as nat)) =~= pieces.push(
            decimal(byte as nat),
        ));
        law_joined_grows_by_one_piece(pieces, decimal(byte as nat), sep);
        assert(byte_list(bytes).drop_last() =~= seq!['['] + joined(pieces, sep));
        assert(byte_list(bytes.push(byte)) =~= byte_list(bytes).drop_last() + sep + decimal(
            byte as nat,
        ) + seq![']']);
    }
}

/// The texts of strings are those of each, in order.
pub proof fn law_texts_are_those_of_each(strings: Seq<String>)
    ensures
        texts(strings).len() == strings.len(),
        forall|i: int| 0 <= i < strings.len() ==> #[trigger] texts(strings)[i] == strings[i]@,
{
}

/// A number, a signed number or a list of bytes is added behind what was there.
pub proof fn law_rendering_appends(
    out: &mut String,
    n: u64,
    i: i32,
    bytes: &Vec<u8>,
    len: usize,
    r: (),
)
    requires
        len <= bytes@.len(),
    ensures
        call_ensures(append_decimal, (out, n), r) ==> final(out)@ == old(out)@ + decimal(n as nat),
        call_ensures(append_signed_decimal, (out, i), r) ==> final(out)@ == old(out)@
            + signed_decimal(i as int),
        call_ensures(append_byte_list, (out, bytes, len), r) ==> final(out)@ == old(out)@
            + byte_list(bytes@.take(len as int)),
{
}

} // verus!
