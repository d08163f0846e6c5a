//! Network and hardware addresses, read from the text in which a controller
//! reports them.

use crate::error::WledControllerError;
use crate::numeral::{
    decimal_digit_of, decimal_digits, decimal_value, hex_digit_of, hex_digit_value,
    is_decimal_digit, is_decimal_numeral, is_hex_digit, lemma_decimal_digits_denote,
    lemma_decimal_value_grows,
};
use vstd::prelude::*;
use vstd::string::{is_ascii_spec_bytes, StrSliceExecFns};

verus! {

/// A hardware (MAC) address: six bytes, in the order in which they are written.
pub type RawMacAddress = [u8; 6];

/// An IPv4 address: four bytes, in the order in which they are written.
pub type RawIpAddress = [u8; 4];

/// The pieces into which the occurrences of `sep` cut a text, in order.
/// A text without `sep` is one piece; two adjacent occurrences enclose an empty
/// piece, and so do an occurrence and an end of the text.
pub open spec fn split_at_char(text: Seq<char>, sep: char) -> Seq<Seq<char>>
    decreases text.len(),
{
    if text.len() == 0 {
        seq![Seq::<char>::empty()]
    } else {
        let before = split_at_char(text.drop_last(), sep);
        if text.last() == sep {
            before.push(Seq::<char>::empty())
        } else {
            before.drop_last().push(before.last().push(text.last()))
        }
    }
}

/// A decimal numeral of a value that fits in a byte: digits only, at least one,
/// with no sign and no space.  Zeros in front are allowed.
pub open spec fn is_octet_numeral(s: Seq<char>) -> bool {
    &&& is_decimal_numeral(s)
    &&& decimal_value(s) <= 255
}

/// An IPv4 address in dotted-decimal form: four numerals of a byte each, with a
/// dot between one and the next, and nothing else.
pub open spec fn is_ipv4_text(text: Seq<char>) -> bool {
    let parts = split_at_char(text, '.');
    &&& parts.len() == 4
    &&& forall|k: int| 0 <= k < 4 ==> is_octet_numeral(#[trigger] parts[k])
}

/// The four bytes that a dotted-decimal text denotes.
pub open spec fn ipv4_octets(text: Seq<char>) -> Seq<u8>
    recommends
        is_ipv4_text(text),
{
    let parts = split_at_char(text, '.');
    Seq::new(4, |k: int| decimal_value(parts[k]) as u8)
}

/// A hardware address in text: twelve hexadecimal digits and nothing else.
pub open spec fn is_mac_text(text: Seq<char>) -> bool {
    &&& text.len() == 12
    &&& forall|i: int| 0 <= i < 12 ==> is_hex_digit(#[trigger] text[i])
}

/// The byte that the `k`-th pair of hexadecimal digits denotes.
pub open spec fn mac_octet(text: Seq<char>, k: int) -> u8
    recommends
        is_mac_text(text),
        0 <= k < 6,
{
    (16 * hex_digit_value(text[2 * k]) + hex_digit_value(text[2 * k + 1])) as u8
}

/// The six bytes that a hardware address in text denotes.
pub open spec fn mac_octets(text: Seq<char>) -> Seq<u8>
    recommends
        is_mac_text(text),
{
    Seq::new(6, |k: int| mac_octet(text, k))
}

/// The error that reading `text` as a hardware address ends in: a text of
/// another length than twelve characters is refused for its length, one of
/// twelve characters for the pair that is no numeral.
pub open spec fn mac_error(text: String) -> WledControllerError
    recommends
        !is_mac_text(text@),
{
    if text@.len() != 12 {
        WledControllerError::BadMac(text)
    } else {
        WledControllerError::ParseIntError(text)
    }
}

/// What the pieces of the beginning of a text look like as long as the text
/// can still be continued to an IPv4 address.
spec fn can_become_ipv4(parts: Seq<Seq<char>>) -> bool {
    &&& 1 <= parts.len() <= 4
    &&& forall|k: int| 0 <= k < parts.len() - 1 ==> is_octet_numeral(#[trigger] parts[k])
    &&& forall|j: int|
        0 <= j < parts.last().len() ==> is_decimal_digit(#[trigger] parts.last()[j])
    &&& decimal_value(parts.last()) <= 255
}

/// A text that can become an address could do so before its last character
/// was written: what cannot become one stays so however it is continued.
proof fn lemma_can_become_ipv4_shorter(text: Seq<char>)
    requires
        text.len() > 0,
        can_become_ipv4(split_at_char(text, '.')),
    ensures
        can_become_ipv4(split_at_char(text.drop_last(), '.')),
{
    let before = split_at_char(text.drop_last(), '.');
    let parts = split_at_char(text, '.');
    lemma_split_len(text.drop_last(), '.');
    if text.last() == '.' {
        assert(parts == before.push(Seq::<char>::empty()));
        assert(parts[before.len() - 1] == before.last());
        assert forall|k: int| 0 <= k < before.len() - 1 implies is_octet_numeral(
            #[trigger] before[k],
        ) by {
            assert(parts[k] == before[k]);
        }
    } else {
        let last = before.last().push(text.last());
        assert(parts == before.drop_last().push(last));
        assert(parts.last() == last);
        assert forall|k: int| 0 <= k < before.len() - 1 implies is_octet_numeral(
            #[trigger] before[k],
        ) by {
            assert(parts[k] == before[k]);
        }
        assert forall|j: int| 0 <= j < before.last().len() implies is_decimal_digit(
            #[trigger] before.last()[j],
        ) by {
            assert(last[j] == before.last()[j]);
        }
        assert(is_decimal_digit(last[before.last().len() as int]));
        lemma_decimal_value_grows(before.last(), text.last());
    }
}

/// A text that can become an address holds digits and dots only.
proof fn lemma_can_become_ipv4_chars(text: Seq<char>)
    requires
        can_become_ipv4(split_at_char(text, '.')),
    ensures
        forall|i: int| 0 <= i < text.len() ==> text[i] == '.' || is_decimal_digit(#[trigger] text[i]),
    decreases text.len(),
{
    if text.len() > 0 {
        lemma_can_become_ipv4_shorter(text);
        lemma_can_become_ipv4_chars(text.drop_last());
        lemma_split_len(text.drop_last(), '.');
        let before = split_at_char(text.drop_last(), '.');
        if text.last() != '.' {
            let last = before.last().push(text.last());
            assert(split_at_char(text, '.').last() == last);
            assert(last[before.last().len() as int] == text.last());
        }
        assert forall|i: int| 0 <= i < text.len() implies text[i] == '.' || is_decimal_digit(
            #[trigger] text[i],
        ) by {
            if i < text.len() - 1 {
                assert(text.drop_last()[i] == text[i]);
            }
        }
    }
}

/// A text is cut into at least one piece.
pub proof fn lemma_split_len(text: Seq<char>, sep: char)
    ensures
        split_at_char(text, sep).len() >= 1,
    decreases text.len(),
{
    if text.len() > 0 {
        lemma_split_len(text.drop_last(), sep);
    }
}

/// The pieces put together again, with `sep` between one and the next.
pub open spec fn join_with_char(parts: Seq<Seq<char>>, sep: char) -> Seq<char>
    recommends
        parts.len() >= 1,
    decreases parts.len(),
{
    if parts.len() <= 1 {
        if parts.len() == 1 {
            parts[0]
        } else {
            Seq::<char>::empty()
        }
    } else {
        join_with_char(parts.drop_last(), sep).push(sep) + parts.last()
    }
}

/// Four pieces of text with a dot between one and the next.
pub open spec fn dotted_text(a: Seq<char>, b: Seq<char>, c: Seq<char>, d: Seq<char>) -> Seq<char> {
    a + seq!['.'] + b + seq!['.'] + c + seq!['.'] + d
}

/// Cutting a text and joining the pieces gives the text back.
pub proof fn lemma_join_of_split(text: Seq<char>, sep: char)
    ensures
        join_with_char(split_at_char(text, sep), sep) == text,
    decreases text.len(),
{
    if text.len() == 0 {
        assert(join_with_char(split_at_char(text, sep), sep) =~= text);
    } else {
        let shorter = text.drop_last();
        let before = split_at_char(shorter, sep);
        let parts = split_at_char(text, sep);
        lemma_split_len(shorter, sep);
        lemma_join_of_split(shorter, sep);
        if text.last() == sep {
            assert(parts.drop_last() =~= before);
            assert(join_with_char(parts, sep) =~= shorter.push(sep));
            assert(shorter.push(sep) =~= text);
        } else {
            let last = before.last().push(text.last());
            assert(parts.last() == last);
            if before.len() == 1 {
                assert(parts =~= seq![last]);
                assert(join_with_char(parts, sep) =~= shorter.push(text.last()));
            } else {
                assert(parts.drop_last() =~= before.drop_last());
                assert(join_with_char(parts, sep) =~= (join_with_char(before.drop_last(), sep).push(
                    sep,
                ) + before.last()).push(text.last()));
            }
            assert(shorter.push(text.last()) =~= text);
        }
    }
}

/// A text that ends in a piece without `sep`, after an occurrence of `sep`, is
/// cut into the pieces of what stands before that occurrence, and that piece.
pub proof fn lemma_split_of_join(head: Seq<char>, piece: Seq<char>, sep: char)
    requires
        forall|i: int| 0 <= i < piece.len() ==> piece[i] != sep,
    ensures
        split_at_char(head.push(sep) + piece, sep) == split_at_char(head, sep).push(piece),
    decreases piece.len(),
{
    let text = head.push(sep) + piece;
    let pieces = split_at_char(head, sep);
    if piece.len() == 0 {
        assert(piece =~= Seq::<char>::empty());
        assert(text =~= head.push(sep));
        assert(text.drop_last() =~= head);
        assert(text.last() == sep);
    } else {
        let shorter = piece.drop_last();
        assert forall|i: int| 0 <= i < shorter.len() implies shorter[i] != sep by {
            assert(shorter[i] == piece[i]);
        }
        lemma_split_of_join(head, shorter, sep);
        assert(text.drop_last() =~= head.push(sep) + shorter);
        assert(text.last() == piece[piece.len() - 1]);
        assert(text.last() != sep);
        let before = split_at_char(text.drop_last(), sep);
        assert(before == pieces.push(shorter));
        assert(before.drop_last() =~= pieces);
        assert(before.last() == shorter);
        assert(shorter.push(piece.last()) =~= piece);
        assert(split_at_char(text, sep) == before.drop_last().push(before.last().push(text.last())));
    }
}

/// A text without `sep` is one piece.
pub proof fn lemma_split_of_piece(piece: Seq<char>, sep: char)
    requires
        forall|i: int| 0 <= i < piece.len() ==> piece[i] != sep,
    ensures
        split_at_char(piece, sep) == seq![piece],
    decreases piece.len(),
{
    if piece.len() == 0 {
        assert(piece =~= Seq::<char>::empty());
    } else {
        let shorter = piece.drop_last();
        assert forall|i: int| 0 <= i < shorter.len() implies shorter[i] != sep by {
            assert(shorter[i] == piece[i]);
        }
        lemma_split_of_piece(shorter, sep);
        assert(piece.last() == piece[piece.len() - 1]);
        assert(piece.last() != sep);
        let before = split_at_char(shorter, sep);
        assert(before.drop_last() =~= Seq::<Seq<char>>::empty());
        assert(before.last() == shorter);
        assert(shorter.push(piece.last()) =~= piece);
        assert(before.drop_last().push(before.last().push(piece.last())) =~= seq![piece]);
    }
}

/// Four numerals of a byte each, with dots between them, are an IPv4 address,
/// and it denotes the values of the four numerals in their order.
pub proof fn lemma_dotted_numerals_are_ipv4(
    a: Seq<char>,
    b: Seq<char>,
    c: Seq<char>,
    d: Seq<char>,
)
    requires
        is_octet_numeral(a),
        is_octet_numeral(b),
        is_octet_numeral(c),
        is_octet_numeral(d),
    ensures
        split_at_char(dotted_text(a, b, c, d), '.') == seq![a, b, c, d],
        is_ipv4_text(dotted_text(a, b, c, d)),
        ipv4_octets(dotted_text(a, b, c, d)) == seq![
            decimal_value(a) as u8,
            decimal_value(b) as u8,
            decimal_value(c) as u8,
            decimal_value(d) as u8,
        ],
{
    let text = dotted_text(a, b, c, d);
    lemma_split_of_piece(a, '.');
    lemma_split_of_join(a, b, '.');
    lemma_split_of_join(a.push('.') + b, c, '.');
    lemma_split_of_join((a.push('.') + b).push('.') + c, d, '.');
    assert(text =~= ((a.push('.') + b).push('.') + c).push('.') + d);
    let parts = split_at_char(text, '.');
    assert(parts =~= seq![a, b, c, d]);
    assert(ipv4_octets(text) =~= seq![
        decimal_value(a) as u8,
        decimal_value(b) as u8,
        decimal_value(c) as u8,
        decimal_value(d) as u8,
    ]);
}

/// An IPv4 address in text is nothing but its four numerals with dots between
/// them: no other shape of text is one.
pub proof fn lemma_ipv4_is_dotted_numerals(text: Seq<char>)
    requires
        is_ipv4_text(text),
    ensures
        ({
            let parts = split_at_char(text, '.');
            text == dotted_text(parts[0], parts[1], parts[2], parts[3])
        }),
{
    let parts = split_at_char(text, '.');
    lemma_join_of_split(text, '.');
    let three = parts.drop_last();
    let two = three.drop_last();
    let one = two.drop_last();
    assert(join_with_char(one, '.') == parts[0]);
    assert(join_with_char(two, '.') == join_with_char(one, '.').push('.') + two.last());
    assert(join_with_char(three, '.') == join_with_char(two, '.').push('.') + three.last());
    assert(join_with_char(parts, '.') == join_with_char(three, '.').push('.') + parts.last());
    assert(text =~= dotted_text(parts[0], parts[1], parts[2], parts[3]));
}

/// Four bytes written in decimal with dots between them are read back as the
/// same four bytes.
pub proof fn lemma_ipv4_round_trip(a: u8, b: u8, c: u8, d: u8)
    ensures
        ({
            let text = dotted_text(
                decimal_digits(a as nat),
                decimal_digits(b as nat),
                decimal_digits(c as nat),
                decimal_digits(d as nat),
            );
            &&& is_ipv4_text(text)
            &&& ipv4_octets(text) == seq![a, b, c, d]
        }),
{
    lemma_decimal_digits_denote(a as nat);
    lemma_decimal_digits_denote(b as nat);
    lemma_decimal_digits_denote(c as nat);
    lemma_decimal_digits_denote(d as nat);
    lemma_dotted_numerals_are_ipv4(
        decimal_digits(a as nat),
        decimal_digits(b as nat),
        decimal_digits(c as nat),
        decimal_digits(d as nat),
    );
}

/// Reads an IPv4 address in dotted-decimal form.
///
/// The text is accepted exactly if it is such an address, and the result is
/// then the four bytes it denotes.  Any other text is refused, and the error
/// holds the text.
pub fn try_string_to_ipv4(string_in: String) -> (r: Result<RawIpAddress, WledControllerError>)
    ensures
        match r {
            Ok(ip) => is_ipv4_text(string_in@) && ip@ == ipv4_octets(string_in@),
            Err(e) => !is_ipv4_text(string_in@) && e == WledControllerError::BadIp(string_in),
        },
{
    let ghost text = string_in@;
    if !string_in.as_str().is_ascii() {
        proof {
            if is_ipv4_text(text) {
                lemma_can_become_ipv4_chars(text);
            }
        }
        return Err(WledControllerError::BadIp(string_in));
    }
    let slice = string_in.as_str();
    let bytes = slice.as_bytes();
    proof {
        is_ascii_spec_bytes(slice);
    }
    let n = bytes.len();
    let mut octets: [u8; 4] = [0u8; 4];
    let mut dots: usize = 0;
    let mut acc: u16 = 0;
    let mut seen: bool = false;
    let mut viable: bool = true;
    let mut i: usize = 0;
    while i < n
        invariant
            i <= n,
            n == text.len(),
            bytes@.len() == n,
            forall|j: int| 0 <= j < n ==> '\0' <= #[trigger] text[j] <= '\u{7f}',
            forall|j: int| 0 <= j < n ==> #[trigger] bytes@[j] == text[j] as u8,
            viable == can_become_ipv4(split_at_char(text.take(i as int), '.')),
            viable ==> ({
                let parts = split_at_char(text.take(i as int), '.');
                &&& dots == parts.len() - 1
                &&& acc == decimal_value(parts.last())
                &&& seen == (parts.last().len() > 0)
                &&& forall|k: int| 0 <= k < dots ==> #[trigger] octets@[k] == decimal_value(parts[k])
            }),
        decreases n - i,
    {
        let b = bytes[i];
        let ghost shorter = text.take(i as int);
        let ghost longer = text.take(i as int + 1);
        let ghost before = split_at_char(shorter, '.');
        let ghost c = text[i as int];
        proof {
            assert(longer.drop_last() =~= shorter);
            assert(longer.last() == c);
            assert(b == c as u8);
            assert(b as char == c);
            lemma_split_len(shorter, '.');
            if !viable && can_become_ipv4(split_at_char(longer, '.')) {
                lemma_can_become_ipv4_shorter(longer);
            }
        }
        if viable {
            if b == 0x2e {
                assert(c == '.');
                assert(split_at_char(longer, '.') == before.push(Seq::<char>::empty()));
                if seen && dots < 3 {
                    octets[dots] = acc as u8;
                    dots = dots + 1;
                    acc = 0;
                    seen = false;
                    proof {
                        let parts = split_at_char(longer, '.');
                        assert(parts[dots - 1] == before.last());
                        assert forall|k: int| 0 <= k < parts.len() - 1 implies is_octet_numeral(
                            #[trigger] parts[k],
                        ) by {
                            assert(parts[k] == before[k]);
                        }
                        assert forall|k: int| 0 <= k < dots implies #[trigger] octets@[k]
                            == decimal_value(parts[k]) by {
                            assert(parts[k] == before[k]);
                        }
                    }
                } else {
                    viable = false;
                    proof {
                        let parts = split_at_char(longer, '.');
                        assert(parts[before.len() - 1] == before.last());
                    }
                }
            } else {
                assert(c != '.');
                let ghost last = before.last().push(c);
                assert(split_at_char(longer, '.') == before.drop_last().push(last));
                assert(last[before.last().len() as int] == c);
                match decimal_digit_of(b) {
                    Some(d) => {
                        proof {
                            lemma_decimal_value_grows(before.last(), c);
                        }
                        let v: u16 = acc * 10 + d as u16;
                        if v <= 255 {
                            acc = v;
                            seen = true;
                            proof {
                                let parts = split_at_char(longer, '.');
                                assert forall|k: int| 0 <= k < parts.len() - 1 implies is_octet_numeral(
                                #[trigger] parts[k]) by {
                                    assert(parts[k] == before[k]);
                                }
                                assert forall|j: int| 0 <= j < parts.last().len() implies is_decimal_digit(
                                #[trigger] parts.last()[j]) by {
                                    if j < before.last().len() {
                                        assert(last[j] == before.last()[j]);
                                    }
                                }
                                assert forall|k: int| 0 <= k < dots implies #[trigger] octets@[k]
                                    == decimal_value(parts[k]) by {
                                    assert(parts[k] == before[k]);
                                }
                            }
                        } else {
                            viable = false;
                            proof {
                                assert(split_at_char(longer, '.').last() == last);
                            }
                        }
                    },
                    None => {
                        viable = false;
                        proof {
                            assert(split_at_char(longer, '.').last() == last);
                        }
                    },
                }
            }
        }
        i = i + 1;
    }
    proof {
        assert(text.take(n as int) =~= text);
    }
    if viable && dots == 3 && seen {
        octets[3] = acc as u8;
        proof {
            let parts = split_at_char(text, '.');
            assert forall|k: int| 0 <= k < 4 implies is_octet_numeral(#[trigger] parts[k]) by {
                if k == 3 {
                    assert(parts[3] == parts.last());
                }
            }
            assert(octets@ =~= ipv4_octets(text));
        }
        Ok(octets)
    } else {
        proof {
            let parts = split_at_char(text, '.');
            if is_ipv4_text(text) {
                assert(parts.last() == parts[3]);
                assert(can_become_ipv4(parts));
            }
        }
        Err(WledControllerError::BadIp(string_in))
    }
}

/// Reads a hardware address written as twelve hexadecimal digits.
///
/// The text is accepted exactly if it is such an address, and the result is
/// then the six bytes that its pairs of digits denote.  A text of another
/// length than twelve characters is refused for its length; a text of twelve
/// characters of which one is no hexadecimal digit is refused as a malformed
/// numeral.  Either error holds the text.
pub fn try_string_to_mac(string_in: String) -> (r: Result<RawMacAddress, WledControllerError>)
    ensures
        match r {
            Ok(mac) => is_mac_text(string_in@) && mac@ == mac_octets(string_in@),
            Err(e) => !is_mac_text(string_in@) && e == mac_error(string_in),
        },
{
    let ghost text = string_in@;
    if string_in.as_str().unicode_len() != 12 {
        return Err(WledControllerError::BadMac(string_in));
    }
    if !string_in.as_str().is_ascii() {
        return Err(WledControllerError::ParseIntError(string_in));
    }
    let slice = string_in.as_str();
    let bytes = slice.as_bytes();
    proof {
        is_ascii_spec_bytes(slice);
    }
    let mut mac: [u8; 6] = [0u8; 6];
    let mut k: usize = 0;
    while k < 6
        invariant
            k <= 6,
            text == string_in@,
            text.len() == 12,
            bytes@.len() == 12,
            forall|j: int| 0 <= j < 12 ==> '\0' <= #[trigger] text[j] <= '\u{7f}',
            forall|j: int| 0 <= j < 12 ==> #[trigger] bytes@[j] == text[j] as u8,
            forall|j: int| 0 <= j < 2 * k ==> is_hex_digit(#[trigger] text[j]),
            forall|j: int| 0 <= j < k ==> #[trigger] mac@[j] == mac_octet(text, j),
        decreases 6 - k,
    {
        let high = bytes[2 * k];
        let low = bytes[2 * k + 1];
        proof {
            assert(high == text[2 * k as int] as u8);
            assert(low == text[2 * k as int + 1] as u8);
            assert(high as char == text[2 * k as int]);
            assert(low as char == text[2 * k as int + 1]);
        }
        match (hex_digit_of(high), hex_digit_of(low)) {
            (Some(h), Some(l)) => {
                mac[k] = h * 16 + l;
            },
            _ => {
                assert(!is_hex_digit(text[2 * k as int]) || !is_hex_digit(text[2 * k as int + 1]));
                return Err(WledControllerError::ParseIntError(string_in));
            },
        }
        k = k + 1;
    }
    proof {
        assert(mac@ =~= mac_octets(text));
    }
    Ok(mac)
}

} // verus!
