use vstd::prelude::*;
use crate::text::str_chars;

verus! {

/// Whether `c` is an ASCII hexadecimal digit.
pub open spec fn is_hex_digit(c: char) -> bool {
    ('0' <= c && c <= '9') || ('a' <= c && c <= 'f') || ('A' <= c && c <= 'F')
}

/// The value of an ASCII hexadecimal digit.
pub open spec fn hex_value(c: char) -> int {
    if '0' <= c && c <= '9' {
        c as int - '0' as int
    } else if 'a' <= c && c <= 'f' {
        c as int - 'a' as int + 10
    } else {
        c as int - 'A' as int + 10
    }
}

/// The lower-case hexadecimal digit for a value below 16.
pub open spec fn hex_char(d: int) -> char {
    if d == 0 {
        '0'
    } else if d == 1 {
        '1'
    } else if d == 2 {
        '2'
    } else if d == 3 {
        '3'
    } else if d == 4 {
        '4'
    } else if d == 5 {
        '5'
    } else if d == 6 {
        '6'
    } else if d == 7 {
        '7'
    } else if d == 8 {
        '8'
    } else if d == 9 {
        '9'
    } else if d == 10 {
        'a'
    } else if d == 11 {
        'b'
    } else if d == 12 {
        'c'
    } else if d == 13 {
        'd'
    } else if d == 14 {
        'e'
    } else {
        'f'
    }
}

/// The lower-case hexadecimal notation of `bytes`, two digits per byte.
pub open spec fn hex_text(bytes: Seq<u8>) -> Seq<char>
    decreases bytes.len(),
{
    if bytes.len() == 0 {
        Seq::empty()
    } else {
        hex_text(bytes.drop_last()) + seq![
            hex_char(bytes.last() as int / 16),
            hex_char(bytes.last() as int % 16),
        ]
    }
}

/// The characters of `s` that are not hexadecimal digits, in order.
pub open spec fn non_hex_chars(s: Seq<char>) -> Seq<char>
    decreases s.len(),
{
    if s.len() == 0 {
        Seq::empty()
    } else if is_hex_digit(s.last()) {
        non_hex_chars(s.drop_last())
    } else {
        non_hex_chars(s.drop_last()).push(s.last())
    }
}

/// The bytes denoted by consecutive pairs of hexadecimal digits.
pub open spec fn hex_decoded(s: Seq<char>) -> Seq<u8> {
    Seq::new(
        s.len() / 2,
        |k: int| (hex_value(s[2 * k]) * 16 + hex_value(s[2 * k + 1])) as u8,
    )
}

/// `c` with the upper-case hexadecimal letters made lower-case.
pub open spec fn hex_lower(c: char) -> char {
    if 'A' <= c && c <= 'F' {
        (c as int - 'A' as int + 'a' as int) as char
    } else {
        c
    }
}

/// What `format!("{:?}", v)` gives for a vector of characters `v`.
pub uninterp spec fn debug_text_of_chars(chars: Seq<char>) -> Seq<char>;

/// Formats `chars` with the standard `Debug` implementation of `Vec<char>`; the
/// result is taken to be `debug_text_of_chars` of the characters, a function of
/// them alone. How each character is escaped is not stated.
#[verifier::external_body]
fn debug_chars(chars: &Vec<char>) -> (r: String)
    ensures
        r@ == debug_text_of_chars(chars@),
{
    format!("{:?}", chars)
}

fn hex_digit_str(d: u8) -> (r: &'static str)
    requires
        d < 16,
    ensures
        r@ == seq![hex_char(d as int)],
{
    if d == 0 {
        proof { reveal_strlit("0"); }
        "0"
    } else if d == 1 {
        proof { reveal_strlit("1"); }
        "1"
    } else if d == 2 {
        proof { reveal_strlit("2"); }
        "2"
    } else if d == 3 {
        proof { reveal_strlit("3"); }
        "3"
    } else if d == 4 {
        proof { reveal_strlit("4"); }
        "4"
    } else if d == 5 {
        proof { reveal_strlit("5"); }
        "5"
    } else if d == 6 {
        proof { reveal_strlit("6"); }
        "6"
    } else if d == 7 {
        proof { reveal_strlit("7"); }
        "7"
    } else if d == 8 {
        proof { reveal_strlit("8"); }
        "8"
    } else if d == 9 {
        proof { reveal_strlit("9"); }
        "9"
    } else if d == 10 {
        proof { reveal_strlit("a"); }
        "a"
    } else if d == 11 {
        proof { reveal_strlit("b"); }
        "b"
    } else if d == 12 {
        proof { reveal_strlit("c"); }
        "c"
    } else if d == 13 {
        proof { reveal_strlit("d"); }
        "d"
    } else if d == 14 {
        proof { reveal_strlit("e"); }
        "e"
    } else {
        proof { reveal_strlit("f"); }
        "f"
    }
}

/// Encodes `bytes` as lower-case hexadecimal text, two digits per byte.
pub fn encode_hex(bytes: &[u8]) -> (r: String)
    ensures
        r@ == hex_text(bytes@),
{
    let mut s = String::new();
    let mut i: usize = 0;
    while i < bytes.len()
        invariant
            i <= bytes@.len(),
            s@ == hex_text(bytes@.subrange(0, i as int)),
        decreases bytes@.len() - i,
    {
        let b = bytes[i];
        s.append(hex_digit_str(b / 16));
        s.append(hex_digit_str(b % 16));
        assert(bytes@.subrange(0, i + 1).drop_last() =~= bytes@.subrange(0, i as int));
        i = i + 1;
    }
    assert(bytes@.subrange(0, bytes@.len() as int) =~= bytes@);
    s
}

fn is_ascii_hexdigit(c: char) -> (r: bool)
    ensures
        r == is_hex_digit(c),
{
    ('0' <= c && c <= '9') || ('a' <= c && c <= 'f') || ('A' <= c && c <= 'F')
}

fn hex_digit_value(c: char) -> (r: u8)
    requires
        is_hex_digit(c),
    ensures
        r == hex_value(c),
        r < 16,
{
    if '0' <= c && c <= '9' {
        (c as u32 - '0' as u32) as u8
    } else if 'a' <= c && c <= 'f' {
        (c as u32 - 'a' as u32 + 10) as u8
    } else {
        (c as u32 - 'A' as u32 + 10) as u8
    }
}

fn list_non_ascii_hexdigit_chars(s: &Vec<char>) -> (r: Vec<char>)
    ensures
        r@ == non_hex_chars(s@),
{
    let mut r: Vec<char> = Vec::new();
    let mut i: usize = 0;
    while i < s.len()
        invariant
            i <= s@.len(),
            r@ == non_hex_chars(s@.subrange(0, i as int)),
        decreases s@.len() - i,
    {
        let c = s[i];
        proof {
            let pre = s@.subrange(0, i as int);
            assert(s@.subrange(0, i + 1).drop_last() =~= pre);
        }
        if !is_ascii_hexdigit(c) {
            r.push(c);
        }
        i = i + 1;
    }
    assert(s@.subrange(0, s@.len() as int) =~= s@);
    r
}

fn decode_hex_unsafe(s: &Vec<char>) -> (r: Vec<u8>)
    requires
        forall|i: int| 0 <= i < s@.len() ==> is_hex_digit(#[trigger] s@[i]),
        s@.len() % 2 == 0,
    ensures
        r@ == hex_decoded(s@),
{
    let mut r: Vec<u8> = Vec::new();
    let mut i: usize = 0;
    while i < s.len()
        invariant
            i <= s@.len(),
            i % 2 == 0,
            s@.len() % 2 == 0,
            forall|j: int| 0 <= j < s@.len() ==> is_hex_digit(#[trigger] s@[j]),
            r@.len() == i / 2,
            forall|k: int| 0 <= k < r@.len() ==> #[trigger] r@[k] == hex_decoded(s@)[k],
        decreases s@.len() - i,
    {
        let hi = hex_digit_value(s[i]);
        let lo = hex_digit_value(s[i + 1]);
        r.push(hi * 16 + lo);
        i = i + 2;
    }
    assert(r@ =~= hex_decoded(s@));
    r
}

/// Decodes hexadecimal text into bytes. Text that holds characters other than
/// hexadecimal digits is refused with a message that lists them.
pub fn decode_hex(s: &str) -> (r: Result<Vec<u8>, String>)
    requires
        non_hex_chars(s@).len() == 0 ==> s@.len() % 2 == 0,
    ensures
        non_hex_chars(s@).len() == 0 ==> r is Ok && r->Ok_0@ == hex_decoded(s@),
        non_hex_chars(s@).len() != 0 ==> r is Err && r->Err_0@ == debug_text_of_chars(
            non_hex_chars(s@),
        ) + " is not hexdigit(s)!"@,
{
    let chars = str_chars(s);
    let offending_chars = list_non_ascii_hexdigit_chars(&chars);
    if offending_chars.len() == 0 {
        proof {
            assert forall|i: int| 0 <= i < chars@.len() implies is_hex_digit(#[trigger] chars@[i]) by {
                if !is_hex_digit(chars@[i]) {
                    lemma_non_hex_member(chars@, i);
                }
            }
        }
        Ok(decode_hex_unsafe(&chars))
    } else {
        let mut message = debug_chars(&offending_chars);
        message.append(" is not hexdigit(s)!");
        Err(message)
    }
}

proof fn lemma_non_hex_member(s: Seq<char>, i: int)
    requires
        0 <= i < s.len(),
        !is_hex_digit(s[i]),
    ensures
        non_hex_chars(s).len() > 0,
    decreases s.len(),
{
    if i < s.len() - 1 {
        lemma_non_hex_member(s.drop_last(), i);
    }
}

/// The notation of `bytes` holds two digits per byte: the high and the low half.
proof fn lemma_hex_text_digits(bytes: Seq<u8>)
    ensures
        hex_text(bytes).len() == 2 * bytes.len(),
        forall|k: int| 0 <= k < bytes.len() ==> {
            &&& #[trigger] hex_text(bytes)[2 * k] == hex_char(bytes[k] as int / 16)
            &&& hex_text(bytes)[2 * k + 1] == hex_char(bytes[k] as int % 16)
        },
    decreases bytes.len(),
{
    if bytes.len() > 0 {
        let pre = bytes.drop_last();
        lemma_hex_text_digits(pre);
        assert forall|k: int| 0 <= k < bytes.len() implies {
            &&& #[trigger] hex_text(bytes)[2 * k] == hex_char(bytes[k] as int / 16)
            &&& hex_text(bytes)[2 * k + 1] == hex_char(bytes[k] as int % 16)
        } by {
            if k < pre.len() {
                assert(hex_text(pre)[2 * k] == hex_char(pre[k] as int / 16));
                assert(pre[k] == bytes[k]);
            }
        }
    }
}

/// A text made of hexadecimal digits only has no characters that are not.
proof fn lemma_all_hex_no_others(s: Seq<char>)
    requires
        forall|i: int| 0 <= i < s.len() ==> is_hex_digit(#[trigger] s[i]),
    ensures
        non_hex_chars(s).len() == 0,
    decreases s.len(),
{
    if s.len() > 0 {
        assert(is_hex_digit(s[s.len() - 1]));
        lemma_all_hex_no_others(s.drop_last());
    }
}

/// Decoding the hexadecimal notation of any bytes gives back the same bytes:
/// the notation holds hexadecimal digits only, in an even number, so
/// `decode_hex` of what `encode_hex` gives for `bytes` is `Ok` of `bytes`.
pub proof fn lemma_hex_roundtrip(bytes: Seq<u8>)
    ensures
        non_hex_chars(hex_text(bytes)).len() == 0,
        hex_text(bytes).len() % 2 == 0,
        hex_decoded(hex_text(bytes)) == bytes,
{
    let t = hex_text(bytes);
    lemma_hex_text_digits(bytes);
    assert forall|i: int| 0 <= i < t.len() implies is_hex_digit(#[trigger] t[i]) by {
        let k = i / 2;
        assert(i == 2 * k || i == 2 * k + 1);
        assert(t[2 * k] == hex_char(bytes[k] as int / 16));
    }
    lemma_all_hex_no_others(t);
    assert forall|k: int| 0 <= k < bytes.len() implies #[trigger] hex_decoded(t)[k] == bytes[k] by {
        assert(t[2 * k] == hex_char(bytes[k] as int / 16));
        let b = bytes[k] as int;
        assert(b == (b / 16) * 16 + b % 16);
    }
    assert(hex_decoded(t) =~= bytes);
}

/// A text without characters other than hexadecimal digits holds only them.
proof fn lemma_no_others_all_hex(s: Seq<char>)
    requires
        non_hex_chars(s).len() == 0,
    ensures
        forall|i: int| 0 <= i < s.len() ==> is_hex_digit(#[trigger] s[i]),
    decreases s.len(),
{
    if s.len() > 0 {
        lemma_no_others_all_hex(s.drop_last());
        assert(is_hex_digit(s.last()));
        assert forall|i: int| 0 <= i < s.len() implies is_hex_digit(#[trigger] s[i]) by {
            if i < s.len() - 1 {
                assert(s[i] == s.drop_last()[i]);
            }
        }
    }
}

/// The lower-case digit of a hexadecimal digit's value is the digit made lower-case.
proof fn lemma_hex_char_value(c: char)
    requires
        is_hex_digit(c),
    ensures
        0 <= hex_value(c) < 16,
        hex_char(hex_value(c)) == hex_lower(c),
{
}

/// Encoding what `decode_hex` gives for a text of hexadecimal digits, in an even
/// number, gives back the text with its letters made lower-case.
pub proof fn lemma_hex_reencode(s: Seq<char>)
    requires
        non_hex_chars(s).len() == 0,
        s.len() % 2 == 0,
    ensures
        hex_text(hex_decoded(s)) == s.map_values(|c: char| hex_lower(c)),
{
    let bytes = hex_decoded(s);
    lemma_no_others_all_hex(s);
    lemma_hex_text_digits(bytes);
    let t = hex_text(bytes);
    assert forall|i: int| 0 <= i < s.len() implies #[trigger] t[i] == hex_lower(s[i]) by {
        let k = i / 2;
        assert(i == 2 * k || i == 2 * k + 1);
        assert(0 <= k < bytes.len());
        lemma_hex_char_value(s[2 * k]);
        lemma_hex_char_value(s[2 * k + 1]);
        let hi = hex_value(s[2 * k]);
        let lo = hex_value(s[2 * k + 1]);
        let b = hi * 16 + lo;
        assert(0 <= b < 256);
        assert(bytes[k] as int == b);
        assert(b / 16 == hi && b % 16 == lo);
        assert(t[2 * k] == hex_char(hi));
        assert(t[2 * k + 1] == hex_char(lo));
    }
    assert(t =~= s.map_values(|c: char| hex_lower(c)));
}

} // verus!
