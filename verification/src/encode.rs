//! Numbers and bytes written out as text.

use vstd::prelude::*;
use vstd::string::*;
use vstd::utf8::*;

verus! {

/// The digits of `n` in base ten.
pub open spec fn digits(n: nat) -> Seq<char>
    decreases n,
{
    let last = "0123456789"@[(n % 10) as int];
    if n < 10 {
        seq![last]
    } else {
        digits(n / 10).push(last)
    }
}

/// `n` in base ten, with a minus sign where it is negative.
pub open spec fn decimal(n: int) -> Seq<char> {
    if n < 0 {
        seq!['-'] + digits((-n) as nat)
    } else {
        digits(n as nat)
    }
}

/// Two lower-case hexadecimal digits for each byte, high half first.
pub open spec fn lower_hex(bytes: Seq<u8>) -> Seq<char> {
    Seq::new(
        2 * bytes.len(),
        |i: int|
            "0123456789abcdef"@[if i % 2 == 0 {
                bytes[i / 2] as int / 16
            } else {
                bytes[i / 2] as int % 16
            }],
    )
}

/// `String::push` appends one character.
pub assume_specification[ String::push ](text: &mut String, c: char)
    ensures
        final(text)@ == old(text)@.push(c),
;

fn hex_digit(value: u8) -> (c: char)
    requires
        value < 16,
    ensures
        c == "0123456789abcdef"@[value as int],
        value < 10 ==> c == "0123456789"@[value as int],
{
    proof {
        reveal_strlit("0123456789abcdef");
        reveal_strlit("0123456789");
    }
    match value {
        0 => '0',
        1 => '1',
        2 => '2',
        3 => '3',
        4 => '4',
        5 => '5',
        6 => '6',
        7 => '7',
        8 => '8',
        9 => '9',
        10 => 'a',
        11 => 'b',
        12 => 'c',
        13 => 'd',
        14 => 'e',
        _ => 'f',
    }
}

fn push_digits(text: &mut String, n: u64)
    ensures
        final(text)@ == old(text)@ + digits(n as nat),
    decreases n,
{
    let ghost before = text@;
    if n >= 10 {
        push_digits(text, n / 10);
    }
    text.push(hex_digit((n % 10) as u8));
    assert(text@ =~= before + digits(n as nat));
}

/// `n` in base ten.
pub fn decimal_text(n: i64) -> (text: String)
    ensures
        text@ == decimal(n as int),
{
    let mut text = String::new();
    if n < 0 {
        text.push('-');
        let size: u64 = if n == i64::MIN {
            0x8000_0000_0000_0000
        } else {
            (-n) as u64
        };
        push_digits(&mut text, size);
    } else {
        push_digits(&mut text, n as u64);
    }
    assert(text@ =~= decimal(n as int));
    text
}

/// `bytes` in lower-case hexadecimal.
pub fn lower_hex_text(bytes: &Vec<u8>) -> (text: String)
    ensures
        text@ == lower_hex(bytes@),
{
    let mut text = String::new();
    let mut i: usize = 0;
    while i < bytes.len()
        invariant
            i <= bytes@.len(),
            text@ == lower_hex(bytes@.take(i as int)),
        decreases bytes@.len() - i,
    {
        let byte: u8 = bytes[i];
        text.push(hex_digit(byte / 16));
        text.push(hex_digit(byte % 16));
        i += 1;
        assert(text@ =~= lower_hex(bytes@.take(i as int)));
    }
    assert(bytes@.take(i as int) =~= bytes@);
    text
}

proof fn lemma_digit_value(d: int)
    requires
        0 <= d < 10,
    ensures
        "0123456789"@[d] as int == 0x30 + d,
{
    reveal_strlit("0123456789");
    let all = "0123456789"@;
    assert(all[0] == '0' && all[1] == '1' && all[2] == '2' && all[3] == '3' && all[4] == '4'
        && all[5] == '5' && all[6] == '6' && all[7] == '7' && all[8] == '8' && all[9] == '9');
}

proof fn lemma_digits(n: nat)
    ensures
        digits(n).len() > 0,
        forall|i: int| 0 <= i < digits(n).len() ==> '0' <= #[trigger] digits(n)[i] <= '9',
        n >= 10 ==> digits(n).len() > 1,
    decreases n,
{
    lemma_digit_value((n % 10) as int);
    if n >= 10 {
        lemma_digits(n / 10);
    }
}

proof fn lemma_digits_injective(a: nat, b: nat)
    requires
        digits(a) == digits(b),
    ensures
        a == b,
    decreases a,
{
    lemma_digit_value((a % 10) as int);
    lemma_digit_value((b % 10) as int);
    lemma_digits(a);
    lemma_digits(b);
    assert(digits(a).last() == "0123456789"@[(a % 10) as int]);
    assert(digits(b).last() == "0123456789"@[(b % 10) as int]);
    assert(a % 10 == b % 10);
    if a >= 10 {
        lemma_digits(a / 10);
        lemma_digits(b / 10);
        assert(b >= 10);
        assert(digits(a / 10) =~= digits(a).drop_last());
        assert(digits(b / 10) =~= digits(b).drop_last());
        lemma_digits_injective(a / 10, b / 10);
    }
}

/// A number in base ten holds digits and a minus sign only, and tells which
/// number it is.
pub proof fn law_decimal_is_injective(a: int, b: int)
    ensures
        forall|i: int|
            0 <= i < decimal(a).len() ==> (#[trigger] decimal(a)[i] == '-' || '0' <= decimal(a)[i]
                <= '9'),
        decimal(a) == decimal(b) ==> a == b,
{
    let x: nat = if a < 0 {
        (-a) as nat
    } else {
        a as nat
    };
    let y: nat = if b < 0 {
        (-b) as nat
    } else {
        b as nat
    };
    lemma_digits(x);
    lemma_digits(y);
    if decimal(a) == decimal(b) {
        let first = decimal(a)[0];
        if a < 0 {
            assert(first == '-');
            assert(b < 0) by {
                assert(decimal(b)[0] == '-');
            }
            assert(decimal(a).skip(1) =~= digits(x));
            assert(decimal(b).skip(1) =~= digits(y));
        } else {
            assert('0' <= first <= '9');
            assert(decimal(b)[0] == first);
        }
        lemma_digits_injective(x, y);
    }
}

/// A percent sign and two upper-case hexadecimal digits.
pub open spec fn percent_escape(byte: u8) -> Seq<char> {
    seq!['%', "0123456789ABCDEF"@[byte as int / 16], "0123456789ABCDEF"@[byte as int % 16]]
}

/// The characters that stand for a byte of a git ref inside a URL path: an
/// escape for control characters, bytes beyond ASCII and the characters that
/// a URL gives a meaning; any other byte stands for itself, `/` too.
pub open spec fn ref_piece(byte: u8) -> Seq<char> {
    if escaped_in_ref(byte) {
        percent_escape(byte)
    } else {
        seq![byte as char]
    }
}

/// The bytes that do not stand for themselves in a git ref inside a URL path.
pub open spec fn escaped_in_ref(byte: u8) -> bool {
    ||| byte < 0x20
    ||| byte >= 0x7f
    ||| " #?%\"<>`{}^\\|"@.contains(byte as char)
}

/// A git ref, given by its bytes, as it is written inside a URL path.
pub open spec fn ref_in_path(bytes: Seq<u8>) -> Seq<char>
    decreases bytes.len(),
{
    if bytes.len() == 0 {
        Seq::empty()
    } else {
        ref_piece(bytes[0]) + ref_in_path(bytes.drop_first())
    }
}

/// `percent_encoding::percent_encode_byte`: the escape of a byte.
#[verifier::external_body]
fn percent_encode_byte(byte: u8) -> (escape: &'static str)
    ensures
        escape@ == percent_escape(byte),
{
    percent_encoding::percent_encode_byte(byte)
}

fn is_escaped_in_ref(byte: u8) -> (escaped: bool)
    ensures
        escaped == escaped_in_ref(byte),
{
    let escaped = byte < 0x20 || byte >= 0x7f || match byte as char {
        ' ' | '#' | '?' | '%' | '"' | '<' | '>' | '`' | '{' | '}' | '^' | '\\' | '|' => true,
        _ => false,
    };
    proof {
        reveal_strlit(" #?%\"<>`{}^\\|");
        let marks = " #?%\"<>`{}^\\|"@;
        assert(marks =~= seq![' ', '#', '?', '%', '"', '<', '>', '`', '{', '}', '^', '\\', '|']);
        assert(marks[0] == ' ' && marks[1] == '#' && marks[2] == '?' && marks[3] == '%' && marks[4]
            == '"' && marks[5] == '<' && marks[6] == '>' && marks[7] == '`' && marks[8] == '{'
            && marks[9] == '}' && marks[10] == '^' && marks[11] == '\\' && marks[12] == '|');
    }
    escaped
}

proof fn lemma_ref_in_path_push(bytes: Seq<u8>, byte: u8)
    ensures
        ref_in_path(bytes.push(byte)) == ref_in_path(bytes) + ref_piece(byte),
    decreases bytes.len(),
{
    if bytes.len() == 0 {
        assert(bytes.push(byte).drop_first() =~= Seq::empty());
        reveal_with_fuel(ref_in_path, 2);
        assert(ref_in_path(bytes.push(byte)) =~= ref_piece(byte));
        assert(ref_in_path(bytes) + ref_piece(byte) =~= ref_piece(byte));
    } else {
        lemma_ref_in_path_push(bytes.drop_first(), byte);
        assert(bytes.push(byte).drop_first() =~= bytes.drop_first().push(byte));
        assert(ref_in_path(bytes.push(byte)) =~= ref_in_path(bytes) + ref_piece(byte));
    }
}

/// Writes a git ref so that it can stand inside a URL path.
pub fn encode_ref(name: &str) -> (text: String)
    ensures
        text@ == ref_in_path(encode_utf8(name@)),
{
    let bytes = name.as_bytes();
    let mut text = String::new();
    let mut i: usize = 0;
    assert(bytes@.take(0) =~= Seq::empty());
    while i < bytes.len()
        invariant
            i <= bytes@.len(),
            text@ == ref_in_path(bytes@.take(i as int)),
        decreases bytes@.len() - i,
    {
        let byte: u8 = bytes[i];
        proof {
            assert(bytes@.take(i + 1) =~= bytes@.take(i as int).push(byte));
            lemma_ref_in_path_push(bytes@.take(i as int), byte);
        }
        if is_escaped_in_ref(byte) {
            text.append(percent_encode_byte(byte));
        } else {
            text.push(byte as char);
        }
        i += 1;
        assert(text@ =~= ref_in_path(bytes@.take(i as int)));
    }
    assert(bytes@.take(i as int) =~= bytes@);
    text
}

/// What a git ref becomes holds printable ASCII only, and of the characters
/// that a URL gives a meaning only the percent signs of the escapes: it
/// cannot end the path it stands in.
pub proof fn law_ref_in_path_is_url_safe(bytes: Seq<u8>)
    ensures
        forall|i: int|
            0 <= i < ref_in_path(bytes).len() ==> {
                let c = #[trigger] ref_in_path(bytes)[i];
                &&& '!' <= c <= '~'
                &&& !" #?\"<>`{}^\\|"@.contains(c)
            },
    decreases bytes.len(),
{
    if bytes.len() > 0 {
        law_ref_in_path_is_url_safe(bytes.drop_first());
        let byte = bytes[0];
        let piece = ref_piece(byte);
        reveal_strlit("0123456789ABCDEF");
        reveal_strlit(" #?%\"<>`{}^\\|");
        reveal_strlit(" #?\"<>`{}^\\|");
        let marks = " #?%\"<>`{}^\\|"@;
        assert(marks[0] == ' ' && marks[1] == '#' && marks[2] == '?' && marks[4] == '"' && marks[5]
            == '<' && marks[6] == '>' && marks[7] == '`' && marks[8] == '{' && marks[9] == '}'
            && marks[10] == '^' && marks[11] == '\\' && marks[12] == '|');
        assert forall|i: int| 0 <= i < piece.len() implies {
            let c = #[trigger] piece[i];
            &&& '!' <= c <= '~'
            &&& !" #?\"<>`{}^\\|"@.contains(c)
        } by {
            if !escaped_in_ref(byte) {
                assert(piece[i] == byte as char);
            }
        }
        assert forall|i: int| 0 <= i < ref_in_path(bytes).len() implies {
            let c = #[trigger] ref_in_path(bytes)[i];
            &&& '!' <= c <= '~'
            &&& !" #?\"<>`{}^\\|"@.contains(c)
        } by {
            if i < piece.len() {
                assert(ref_in_path(bytes)[i] == piece[i]);
            } else {
                assert(ref_in_path(bytes)[i] == ref_in_path(bytes.drop_first())[i - piece.len()]);
            }
        }
    }
}

/// A git ref of characters that need no escape is written as it is.
pub proof fn law_plain_ref_is_unchanged(bytes: Seq<u8>)
    requires
        forall|i: int| 0 <= i < bytes.len() ==> !escaped_in_ref(#[trigger] bytes[i]),
    ensures
        ref_in_path(bytes) == bytes.map_values(|byte: u8| byte as char),
    decreases bytes.len(),
{
    if bytes.len() > 0 {
        assert(!escaped_in_ref(bytes[0]));
        assert forall|i: int| 0 <= i < bytes.len() - 1 implies !escaped_in_ref(
            #[trigger] bytes.drop_first()[i],
        ) by {
            assert(!escaped_in_ref(bytes[i + 1]));
        }
        law_plain_ref_is_unchanged(bytes.drop_first());
    }
    assert(ref_in_path(bytes) =~= bytes.map_values(|byte: u8| byte as char));
}

/// Two git refs are never written alike.
pub proof fn law_ref_in_path_is_injective(a: Seq<u8>, b: Seq<u8>)
    requires
        ref_in_path(a) == ref_in_path(b),
    ensures
        a == b,
    decreases a.len(),
{
    if a.len() == 0 || b.len() == 0 {
        assert(a =~= b);
    } else {
        let x = ref_piece(a[0]);
        let y = ref_piece(b[0]);
        reveal_strlit("0123456789ABCDEF");
        reveal_strlit(" #?%\"<>`{}^\\|");
        assert(escaped_in_ref('%' as u8)) by {
            assert(" #?%\"<>`{}^\\|"@[3] == '%');
        }
        let text = ref_in_path(a);
        assert(text[0] == x[0] && text[0] == y[0]);
        if escaped_in_ref(a[0]) {
            assert(text[1] == x[1] && text[1] == y[1]);
            assert(text[2] == x[2] && text[2] == y[2]);
        }
        assert(a[0] == b[0]);
        assert(text.skip(x.len() as int) =~= ref_in_path(a.drop_first()));
        assert(text.skip(x.len() as int) =~= ref_in_path(b.drop_first()));
        law_ref_in_path_is_injective(a.drop_first(), b.drop_first());
        assert(a =~= seq![a[0]] + a.drop_first());
        assert(b =~= seq![b[0]] + b.drop_first());
    }
}

/// The number that a row of digits stands for.
pub open spec fn numeral_value(numeral: Seq<char>) -> int
    decreases numeral.len(),
{
    if numeral.len() == 0 {
        0
    } else {
        10 * numeral_value(numeral.drop_last()) + (numeral.last() as int - '0' as int)
    }
}

/// The number that a hexadecimal digit of either case stands for.
pub open spec fn hex_value(digit: char) -> int {
    if '0' <= digit <= '9' {
        digit as int - '0' as int
    } else if 'a' <= digit <= 'f' {
        digit as int - 'a' as int + 10
    } else {
        digit as int - 'A' as int + 10
    }
}

proof fn lemma_digits_value(n: nat)
    ensures
        numeral_value(digits(n)) == n,
        n > 0 ==> digits(n)[0] != '0',
    decreases n,
{
    lemma_digit_value((n % 10) as int);
    lemma_digits(n);
    if n < 10 {
        assert(digits(n).drop_last() =~= Seq::empty());
        reveal_with_fuel(numeral_value, 2);
    } else {
        lemma_digits_value(n / 10);
        lemma_digits(n / 10);
        assert(digits(n).drop_last() =~= digits(n / 10));
        assert(digits(n)[0] == digits(n / 10)[0]);
    }
}

/// A number is written so that reading it digit by digit gives it back, with no
/// zero in front, and with a minus sign only where it is negative.
pub proof fn law_decimal_reads_back(n: int)
    ensures
        n >= 0 ==> numeral_value(decimal(n)) == n && decimal(n)[0] != '-',
        n < 0 ==> decimal(n)[0] == '-' && numeral_value(decimal(n).skip(1)) == -n,
        n > 0 ==> decimal(n)[0] != '0',
        n < 0 ==> decimal(n)[1] != '0',
        decimal(0) == seq!['0'],
{
    if n >= 0 {
        lemma_digits_value(n as nat);
        lemma_digits(n as nat);
    } else {
        lemma_digits_value((-n) as nat);
        lemma_digits((-n) as nat);
        assert(decimal(n).skip(1) =~= digits((-n) as nat));
        assert(decimal(n)[1] == digits((-n) as nat)[0]);
    }
    lemma_digit_value(0);
    assert(decimal(0) =~= seq!['0']);
}

proof fn lemma_hex_digits()
    ensures
        forall|d: int|
            0 <= d < 16 ==> {
                let c = #[trigger] "0123456789abcdef"@[d];
                hex_value(c) == d && ('0' <= c <= '9' || 'a' <= c <= 'f')
            },
        forall|d: int|
            0 <= d < 16 ==> {
                let c = #[trigger] "0123456789ABCDEF"@[d];
                hex_value(c) == d && ('0' <= c <= '9' || 'A' <= c <= 'F')
            },
{
    reveal_strlit("0123456789abcdef");
    reveal_strlit("0123456789ABCDEF");
    let l = "0123456789abcdef"@;
    let u = "0123456789ABCDEF"@;
    assert(l[0] == '0' && l[1] == '1' && l[2] == '2' && l[3] == '3' && l[4] == '4' && l[5] == '5'
        && l[6] == '6' && l[7] == '7' && l[8] == '8' && l[9] == '9' && l[10] == 'a' && l[11] == 'b'
        && l[12] == 'c' && l[13] == 'd' && l[14] == 'e' && l[15] == 'f');
    assert(u[0] == '0' && u[1] == '1' && u[2] == '2' && u[3] == '3' && u[4] == '4' && u[5] == '5'
        && u[6] == '6' && u[7] == '7' && u[8] == '8' && u[9] == '9' && u[10] == 'A' && u[11] == 'B'
        && u[12] == 'C' && u[13] == 'D' && u[14] == 'E' && u[15] == 'F');
}

/// The hexadecimal form of bytes has two lower-case digits for each, from which
/// the byte can be read, whatever the other bytes are.
pub proof fn law_hex_reads_back(bytes: Seq<u8>, i: int)
    requires
        0 <= i < bytes.len(),
    ensures
        lower_hex(bytes).len() == 2 * bytes.len(),
        16 * hex_value(lower_hex(bytes)[2 * i]) + hex_value(lower_hex(bytes)[2 * i + 1])
            == bytes[i],
        forall|k: int|
            0 <= k < lower_hex(bytes).len() ==> ('0' <= #[trigger] lower_hex(bytes)[k] <= '9'
                || 'a' <= lower_hex(bytes)[k] <= 'f'),
{
    lemma_hex_digits();
    assert forall|k: int| 0 <= k < lower_hex(bytes).len() implies ('0'
        <= #[trigger] lower_hex(bytes)[k] <= '9' || 'a' <= lower_hex(bytes)[k] <= 'f') by {
        let byte = bytes[k / 2];
        let d: int = if k % 2 == 0 {
            byte as int / 16
        } else {
            byte as int % 16
        };
        assert(lower_hex(bytes)[k] == "0123456789abcdef"@[d]);
    }
    assert((2 * i) / 2 == i && (2 * i + 1) / 2 == i && (2 * i) % 2 == 0 && (2 * i + 1) % 2 == 1);
    assert(lower_hex(bytes)[2 * i] == "0123456789abcdef"@[bytes[i] as int / 16]);
    assert(lower_hex(bytes)[2 * i + 1] == "0123456789abcdef"@[bytes[i] as int % 16]);
}

/// An escape is a percent sign and two digits, from which its byte can be read;
/// none of the digits is a lower-case letter.
pub proof fn law_escape_reads_back(byte: u8)
    ensures
        percent_escape(byte).len() == 3,
        percent_escape(byte)[0] == '%',
        16 * hex_value(percent_escape(byte)[1]) + hex_value(percent_escape(byte)[2]) == byte,
        percent_escape(byte)[1] <= 'F',
        percent_escape(byte)[2] <= 'F',
{
    lemma_hex_digits();
    assert(percent_escape(byte)[1] == "0123456789ABCDEF"@[byte as int / 16]);
    assert(percent_escape(byte)[2] == "0123456789ABCDEF"@[byte as int % 16]);
}

/// A git ref is written piece by piece: what stands before or after a part of
/// it does not change how the part is written.
pub proof fn law_refs_are_written_piece_by_piece(a: Seq<u8>, b: Seq<u8>)
    ensures
        ref_in_path(a + b) == ref_in_path(a) + ref_in_path(b),
        ref_in_path(Seq::empty()) == Seq::<char>::empty(),
    decreases a.len(),
{
    if a.len() == 0 {
        assert(a + b =~= b);
        assert(ref_in_path(a) + ref_in_path(b) =~= ref_in_path(b));
    } else {
        law_refs_are_written_piece_by_piece(a.drop_first(), b);
        assert((a + b).drop_first() =~= a.drop_first() + b);
        assert(ref_in_path(a + b) =~= ref_in_path(a) + ref_in_path(b));
    }
}

/// One byte of a git ref: control characters, bytes beyond ASCII, the space and
/// twelve marks are written as the percent sign and the two digits of the byte;
/// every other byte, the slash among them, is written as itself.
pub proof fn law_each_byte_of_a_ref(byte: u8)
    ensures
        ({
            let text = ref_in_path(seq![byte]);
            let mark = byte == 0x20 || byte == 0x22 || byte == 0x23 || byte == 0x25 || byte == 0x3c
                || byte == 0x3e || byte == 0x3f || byte == 0x5c || byte == 0x5e || byte == 0x60
                || byte == 0x7b || byte == 0x7c || byte == 0x7d;
            if byte < 0x20 || byte >= 0x7f || mark {
                &&& text.len() == 3
                &&& text[0] == '%'
                &&& 16 * hex_value(text[1]) + hex_value(text[2]) == byte
                &&& text[1] <= 'F' && text[2] <= 'F'
            } else {
                text == seq![byte as char]
            }
        }),
{
    law_escape_reads_back(byte);
    assert(seq![byte].drop_first() =~= Seq::empty());
    reveal_with_fuel(ref_in_path, 2);
    assert(ref_in_path(seq![byte]) =~= ref_piece(byte));
    reveal_strlit(" #?%\"<>`{}^\\|");
    let marks = " #?%\"<>`{}^\\|"@;
    assert(marks[0] == ' ' && marks[1] == '#' && marks[2] == '?' && marks[3] == '%' && marks[4]
        == '"' && marks[5] == '<' && marks[6] == '>' && marks[7] == '`' && marks[8] == '{'
        && marks[9] == '}' && marks[10] == '^' && marks[11] == '\\' && marks[12] == '|');
}

} // verus!
