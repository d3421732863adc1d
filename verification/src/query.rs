//! Percent-encoding of what goes into a query, and its reversal.
use vstd::prelude::*;
use vstd::utf8::{encode_utf8, is_ascii_chars};

verus! {

broadcast use vstd::string::group_string_axioms;

/// The bytes that stand in a query as they are: letters, digits and `-`, `_`, `.`, `~`.
pub open spec fn is_unreserved(b: u8) -> bool {
    ||| 0x41 <= b <= 0x5a
    ||| 0x61 <= b <= 0x7a
    ||| 0x30 <= b <= 0x39
    ||| b == 0x2d
    ||| b == 0x5f
    ||| b == 0x2e
    ||| b == 0x7e
}

/// The upper-case hexadecimal digit of a number below 16.
pub open spec fn hex_char(d: int) -> char {
    if d < 10 {
        ((0x30 + d) as u8) as char
    } else {
        ((0x41 + d - 10) as u8) as char
    }
}

/// What stands for a byte in a query.
pub open spec fn encoded_byte(b: u8) -> Seq<char> {
    if is_unreserved(b) {
        seq![b as char]
    } else {
        seq!['%', hex_char(b as int / 16), hex_char(b as int % 16)]
    }
}

/// What stands for a sequence of bytes in a query.
pub open spec fn encoded(bytes: Seq<u8>) -> Seq<char>
    decreases bytes.len(),
{
    if bytes.len() == 0 {
        Seq::empty()
    } else {
        encoded_byte(bytes[0]) + encoded(bytes.drop_first())
    }
}

/// What stands for a text in a query.
pub open spec fn query_component(text: Seq<char>) -> Seq<char> {
    encoded(encode_utf8(text))
}

fn hex_digit_char(d: u8) -> (c: char)
    requires
        d < 16,
    ensures
        c == hex_char(d as int),
{
    if d < 10 {
        (0x30 + d) as char
    } else {
        (0x41 + (d - 10)) as char
    }
}

/// The text as it stands in a query: every byte but the unreserved ones as `%` and two
/// hexadecimal digits.
pub fn encode_query_component(value: &str) -> (r: String)
    ensures
        r@ == query_component(value@),
{
    let bytes = value.as_bytes();
    let n: usize = bytes.len();
    let mut r = String::new();
    let mut i: usize = 0;
    assert(bytes@.skip(0) =~= bytes@);
    assert(r@ + encoded(bytes@) =~= encoded(bytes@));
    while i < n
        invariant
            i <= n,
            n == bytes@.len(),
            r@ + encoded(bytes@.skip(i as int)) == encoded(bytes@),
        decreases n - i,
    {
        let b: u8 = bytes[i];
        let ghost before = r@;
        let ghost rest = encoded(bytes@.skip(i + 1));
        assert(bytes@.skip(i as int).drop_first() =~= bytes@.skip(i + 1));
        if (0x41 <= b && b <= 0x5a) || (0x61 <= b && b <= 0x7a) || (0x30 <= b && b <= 0x39) || b
            == 0x2d || b == 0x5f || b == 0x2e || b == 0x7e {
            r.push(b as char);
        } else {
            r.push('%');
            r.push(hex_digit_char(b / 16));
            r.push(hex_digit_char(b % 16));
        }
        assert(r@ =~= before + encoded_byte(b));
        assert(r@ + rest =~= before + (encoded_byte(b) + rest));
        i += 1;
    }
    assert(bytes@.skip(n as int) =~= Seq::<u8>::empty());
    assert(r@ + encoded(bytes@.skip(n as int)) =~= r@);
    r
}

/// The value of a hexadecimal digit.
pub open spec fn hex_value(b: u8) -> Option<u8> {
    if 0x30 <= b <= 0x39 {
        Some((b - 0x30) as u8)
    } else if 0x41 <= b <= 0x46 {
        Some((b - 0x41 + 10) as u8)
    } else if 0x61 <= b <= 0x66 {
        Some((b - 0x61 + 10) as u8)
    } else {
        None
    }
}

/// The value of two characters as a hexadecimal number; the first may be a plus sign.
pub open spec fn hex_pair(a: u8, b: u8) -> Option<u8> {
    if a == 0x2b {
        hex_value(b)
    } else {
        match (hex_value(a), hex_value(b)) {
            (Some(x), Some(y)) => Some((x * 16 + y) as u8),
            _ => None,
        }
    }
}

/// Whether an escape that can be decoded stands at the start.
pub open spec fn escape_at_start(src: Seq<u8>) -> bool {
    src.len() > 2 && src[0] == 0x25 && hex_pair(src[1], src[2]) is Some
}

/// The bytes with every escape decoded; what is no escape stands as it is.
pub open spec fn percent_decoded(src: Seq<u8>) -> Seq<u8>
    decreases src.len(),
{
    if src.len() == 0 {
        Seq::empty()
    } else if escape_at_start(src) {
        seq![hex_pair(src[1], src[2])->0] + percent_decoded(src.skip(3))
    } else {
        seq![src[0]] + percent_decoded(src.skip(1))
    }
}

fn hex_digit_value(b: u8) -> (r: Option<u8>)
    ensures
        r == hex_value(b),
{
    if 0x30 <= b && b <= 0x39 {
        Some(b - 0x30)
    } else if 0x41 <= b && b <= 0x46 {
        Some(b - 0x41 + 10)
    } else if 0x61 <= b && b <= 0x66 {
        Some(b - 0x61 + 10)
    } else {
        None
    }
}

fn hex_pair_value(a: u8, b: u8) -> (r: Option<u8>)
    ensures
        r == hex_pair(a, b),
{
    if a == 0x2b {
        return hex_digit_value(b);
    }
    match (hex_digit_value(a), hex_digit_value(b)) {
        (Some(x), Some(y)) => Some(x * 16 + y),
        _ => None,
    }
}

/// The bytes with every escape decoded.
pub fn percent_decode(src: &[u8]) -> (r: Vec<u8>)
    ensures
        r@ == percent_decoded(src@),
{
    let n: usize = src.len();
    let mut r: Vec<u8> = Vec::new();
    let mut i: usize = 0;
    assert(src@.skip(0) =~= src@);
    assert(r@ + percent_decoded(src@) =~= percent_decoded(src@));
    while i < n
        invariant
            i <= n,
            n == src@.len(),
            r@ + percent_decoded(src@.skip(i as int)) == percent_decoded(src@),
        decreases n - i,
    {
        let ghost here = src@.skip(i as int);
        let ghost before = r@;
        let pair: Option<u8> = if src[i] == 0x25 && n - i > 2 {
            hex_pair_value(src[i + 1], src[i + 2])
        } else {
            None
        };
        match pair {
            Some(b) => {
                assert(escape_at_start(here));
                assert(here.skip(3) =~= src@.skip(i + 3));
                r.push(b);
                assert(r@ + percent_decoded(src@.skip(i + 3)) =~= before + (seq![b]
                    + percent_decoded(src@.skip(i + 3))));
                i += 3;
            },
            None => {
                assert(!escape_at_start(here));
                assert(here.skip(1) =~= src@.skip(i + 1));
                r.push(src[i]);
                assert(r@ + percent_decoded(src@.skip(i + 1)) =~= before + (seq![here[0]]
                    + percent_decoded(src@.skip(i + 1))));
                i += 1;
            },
        }
    }
    assert(src@.skip(n as int) =~= Seq::<u8>::empty());
    assert(r@ + percent_decoded(src@.skip(n as int)) =~= r@);
    r
}

/// The characters of the encoded form of bytes, each as a byte.
pub open spec fn char_bytes(chars: Seq<char>) -> Seq<u8> {
    Seq::new(chars.len(), |i: int| chars[i] as u8)
}

proof fn lemma_decode_encoded(bytes: Seq<u8>)
    ensures
        is_ascii_chars(encoded(bytes)),
        percent_decoded(char_bytes(encoded(bytes))) == bytes,
    decreases bytes.len(),
{
    if bytes.len() > 0 {
        let b = bytes[0];
        let rest = encoded(bytes.drop_first());
        lemma_decode_encoded(bytes.drop_first());
        let all = char_bytes(encoded(bytes));
        if is_unreserved(b) {
            assert(all[0] == b);
            assert(all.skip(1) =~= char_bytes(rest));
            assert(percent_decoded(all) =~= seq![b] + bytes.drop_first());
        } else {
            assert(all[0] == 0x25);
            assert(all[1] == hex_char(b as int / 16) as u8);
            assert(all[2] == hex_char(b as int % 16) as u8);
            assert(hex_pair(all[1], all[2]) == Some(b));
            assert(all.skip(3) =~= char_bytes(rest));
            assert(percent_decoded(all) =~= seq![b] + bytes.drop_first());
        }
        assert(seq![b] + bytes.drop_first() =~= bytes);
    } else {
        assert(char_bytes(encoded(bytes)) =~= Seq::<u8>::empty());
        assert(bytes =~= Seq::<u8>::empty());
    }
}

/// Decoding the escapes in what stands for a text in a query gives back the bytes of the text.
pub proof fn law_query_component_decodes(text: Seq<char>)
    ensures
        percent_decoded(encode_utf8(query_component(text))) == encode_utf8(text),
{
    let bytes = encode_utf8(text);
    lemma_decode_encoded(bytes);
    vstd::utf8::is_ascii_chars_encode_utf8(encoded(bytes));
    assert(encode_utf8(encoded(bytes)) =~= char_bytes(encoded(bytes)));
}

/// What stands for a text in a query holds only unreserved characters and percent signs.
pub proof fn law_query_component_is_safe(text: Seq<char>)
    ensures
        forall|i: int|
            0 <= i < query_component(text).len() ==> {
                let c = #[trigger] query_component(text)[i];
                c == '%' || (c as u32 <= 0x7f && is_unreserved(c as u8))
            },
{
    lemma_encoded_is_safe(encode_utf8(text));
}

proof fn lemma_encoded_is_safe(bytes: Seq<u8>)
    ensures
        forall|i: int|
            0 <= i < encoded(bytes).len() ==> {
                let c = #[trigger] encoded(bytes)[i];
                c == '%' || (c as u32 <= 0x7f && is_unreserved(c as u8))
            },
    decreases bytes.len(),
{
    if bytes.len() > 0 {
        let first = encoded_byte(bytes[0]);
        let rest = encoded(bytes.drop_first());
        lemma_encoded_is_safe(bytes.drop_first());
        assert forall|i: int| 0 <= i < encoded(bytes).len() implies {
            let c = #[trigger] encoded(bytes)[i];
            c == '%' || (c as u32 <= 0x7f && is_unreserved(c as u8))
        } by {
            if i >= first.len() {
                assert(encoded(bytes)[i] == rest[i - first.len()]);
            }
        }
    }
}

} // verus!
