//! Text encodings shared by the vault and the messaging session: Base64,
//! hexadecimal, decimal numbers, JSON strings and joined lists.
use vstd::prelude::*;
use vstd::string::*;
use vstd::std_specs::iter::IteratorSpec;
use vstd::utf8::encode_utf8;

verus! {

/// The standard Base64 text of a byte string, padded to whole groups.
pub uninterp spec fn base64_text(bytes: Seq<u8>) -> Seq<char>;

/// The bytes that a text in the standard Base64 alphabet stands for, if
/// the decoder accepts it. It accepts text with or without padding.
pub uninterp spec fn base64_bytes(text: Seq<char>) -> Option<Seq<u8>>;

/// The symbols of standard Base64 text: the alphabet and the padding sign.
pub open spec fn is_base64_symbol(c: char) -> bool {
    ||| 'A' <= c <= 'Z'
    ||| 'a' <= c <= 'z'
    ||| '0' <= c <= '9'
    ||| c == '+'
    ||| c == '/'
    ||| c == '='
}

/// Every position of `text` holds a Base64 symbol.
pub open spec fn is_base64_symbols(text: Seq<char>) -> bool {
    forall|i: int| 0 <= i < text.len() ==> is_base64_symbol(#[trigger] text[i])
}

#[verifier::external_type_specification]
#[verifier::external_body]
pub struct ExDecodeError(base64::DecodeError);

/// `base64::encode`: the result is the standard Base64 text of `bytes`. It
/// is made of Base64 symbols only, and decoding it gives `bytes` back.
#[verifier::external_body]
pub(crate) fn base64_encode(bytes: &[u8]) -> (r: String)
    ensures
        r@ == base64_text(bytes@),
        is_base64_symbols(r@),
        base64_bytes(r@) == Some(bytes@),
{
    base64::encode(bytes)
}

/// `base64::decode`: whether it accepts the text, and the bytes it then
/// returns, depend on the text alone.
#[verifier::external_body]
pub(crate) fn base64_decode(text: &str) -> (r: Result<Vec<u8>, base64::DecodeError>)
    ensures
        match r {
            Ok(bytes) => base64_bytes(text@) == Some(bytes@),
            Err(_) => base64_bytes(text@) is None,
        },
{
    base64::decode(text)
}

/// The lower-case hexadecimal digit of a value below 16.
pub open spec fn hex_digit(v: int) -> char {
    if v == 0 {
        '0'
    } else if v == 1 {
        '1'
    } else if v == 2 {
        '2'
    } else if v == 3 {
        '3'
    } else if v == 4 {
        '4'
    } else if v == 5 {
        '5'
    } else if v == 6 {
        '6'
    } else if v == 7 {
        '7'
    } else if v == 8 {
        '8'
    } else if v == 9 {
        '9'
    } else if v == 10 {
        'a'
    } else if v == 11 {
        'b'
    } else if v == 12 {
        'c'
    } else if v == 13 {
        'd'
    } else if v == 14 {
        'e'
    } else {
        'f'
    }
}

/// Lower-case hexadecimal text: two digits per byte, high nibble first.
pub open spec fn hex_text(bytes: Seq<u8>) -> Seq<char> {
    Seq::new(
        2 * bytes.len(),
        |i: int| if i % 2 == 0 {
            hex_digit(bytes[i / 2] as int / 16)
        } else {
            hex_digit(bytes[i / 2] as int % 16)
        },
    )
}

/// The character of a decimal digit.
pub open spec fn decimal_digit(d: nat) -> char {
    hex_digit((d % 10) as int)
}

/// A number in decimal, without leading zeros.
pub open spec fn decimal_text(n: nat) -> Seq<char>
    decreases n,
{
    if n < 10 {
        seq![decimal_digit(n)]
    } else {
        decimal_text(n / 10).push(decimal_digit(n % 10))
    }
}

fn digit_str(d: u32) -> (r: &'static str)
    requires
        d < 10,
    ensures
        r@ == seq![decimal_digit(d as nat)],
{
    proof {
        reveal_strlit("0");
        reveal_strlit("1");
        reveal_strlit("2");
        reveal_strlit("3");
        reveal_strlit("4");
        reveal_strlit("5");
        reveal_strlit("6");
        reveal_strlit("7");
        reveal_strlit("8");
        reveal_strlit("9");
    }
    let r = if d == 0 {
        "0"
    } else if d == 1 {
        "1"
    } else if d == 2 {
        "2"
    } else if d == 3 {
        "3"
    } else if d == 4 {
        "4"
    } else if d == 5 {
        "5"
    } else if d == 6 {
        "6"
    } else if d == 7 {
        "7"
    } else if d == 8 {
        "8"
    } else {
        "9"
    };
    assert(r@ =~= seq![decimal_digit(d as nat)]);
    r
}

/// Renders `n` in decimal.
pub fn decimal(n: u32) -> (r: String)
    ensures
        r@ == decimal_text(n as nat),
    decreases n,
{
    if n < 10 {
        String::from_str(digit_str(n))
    } else {
        let mut s = decimal(n / 10);
        s.append(digit_str(n % 10));
        assert(s@ =~= decimal_text(n as nat / 10).push(decimal_digit(n as nat % 10)));
        s
    }
}

/// The items of a list written one after another, with `sep` between
/// neighbours.
pub open spec fn joined(items: Seq<Seq<char>>, sep: Seq<char>) -> Seq<char>
    decreases items.len(),
{
    if items.len() == 0 {
        Seq::empty()
    } else if items.len() == 1 {
        items[0]
    } else {
        joined(items.drop_last(), sep) + sep + items.last()
    }
}

/// Joining one item more appends the separator, unless the item is the
/// first, and the item.
pub proof fn lemma_joined_step(items: Seq<Seq<char>>, sep: Seq<char>, n: int)
    requires
        0 <= n < items.len(),
    ensures
        joined(items.take(n + 1), sep) == if n == 0 {
            items[0]
        } else {
            joined(items.take(n), sep) + sep + items[n]
        },
{
    assert(items.take(n + 1).drop_last() =~= items.take(n));
    assert(items.take(n + 1).last() == items[n]);
}

/// Adds one item to a list that is being joined in `out`.
pub fn join_push(out: &mut String, first: bool, sep: &str, item: &str)
    ensures
        final(out)@ == if first {
            old(out)@ + item@
        } else {
            old(out)@ + sep@ + item@
        },
{
    if !first {
        out.append(sep);
    }
    out.append(item);
}

/// Five texts written one after another.
pub fn concat5(a: &str, b: &str, c: &str, d: &str, e: &str) -> (r: String)
    ensures
        r@ == a@ + b@ + c@ + d@ + e@,
{
    let mut r = String::from_str(a);
    r.append(b);
    r.append(c);
    r.append(d);
    r.append(e);
    r
}


/// `String::push`: the character is appended.
#[verifier::external_body]
fn push_char(out: &mut String, c: char)
    ensures
        final(out)@ == old(out)@.push(c),
{
    out.push(c)
}

/// How one character stands inside a JSON string: the quotation mark and
/// the backslash after a backslash, a control character as `\u00` and two
/// hexadecimal digits, every other character as itself.
pub open spec fn json_escaped_char(c: char) -> Seq<char> {
    if c == '"' || c == '\\' {
        seq!['\\', c]
    } else if (c as u32) < 0x20 {
        seq!['\\', 'u', '0', '0', hex_digit(c as u32 as int / 16), hex_digit(c as u32 as int % 16)]
    } else {
        seq![c]
    }
}

/// A text with each character as it stands inside a JSON string.
pub open spec fn json_escaped(text: Seq<char>) -> Seq<char>
    decreases text.len(),
{
    if text.len() == 0 {
        Seq::empty()
    } else {
        json_escaped_char(text[0]) + json_escaped(text.drop_first())
    }
}

/// A text as a JSON string: escaped, between quotation marks.
pub open spec fn json_string(text: Seq<char>) -> Seq<char> {
    seq!['"'] + json_escaped(text) + seq!['"']
}

fn hex_digit_char(v: u32) -> (r: char)
    requires
        v < 16,
    ensures
        r == hex_digit(v as int),
{
    if v == 0 {
        '0'
    } else if v == 1 {
        '1'
    } else if v == 2 {
        '2'
    } else if v == 3 {
        '3'
    } else if v == 4 {
        '4'
    } else if v == 5 {
        '5'
    } else if v == 6 {
        '6'
    } else if v == 7 {
        '7'
    } else if v == 8 {
        '8'
    } else if v == 9 {
        '9'
    } else if v == 10 {
        'a'
    } else if v == 11 {
        'b'
    } else if v == 12 {
        'c'
    } else if v == 13 {
        'd'
    } else if v == 14 {
        'e'
    } else {
        'f'
    }
}

/// Writes bytes in lower-case hexadecimal.
pub(crate) fn hex_encode(bytes: &[u8]) -> (r: String)
    ensures
        r@ == hex_text(bytes@),
{
    let mut out = String::new();
    let mut i: usize = 0;
    while i < bytes.len()
        invariant
            i <= bytes.len(),
            out@.len() == 2 * i,
            forall|k: int| 0 <= k < 2 * i ==> out@[k] == #[trigger] hex_text(bytes@)[k],
        decreases bytes.len() - i,
    {
        let byte: u8 = bytes[i];
        let hi: u32 = (byte / 16) as u32;
        let lo: u32 = (byte % 16) as u32;
        push_char(&mut out, hex_digit_char(hi));
        push_char(&mut out, hex_digit_char(lo));
        i = i + 1;
    }
    assert(out@ =~= hex_text(bytes@));
    out
}

fn push_escaped(out: &mut String, c: char)
    ensures
        final(out)@ == old(out)@ + json_escaped_char(c),
{
    let code: u32 = c as u32;
    if c == '"' || c == '\\' {
        push_char(out, '\\');
        push_char(out, c);
        assert(out@ =~= old(out)@ + json_escaped_char(c));
    } else if code < 0x20 {
        out.append("\\u00");
        push_char(out, hex_digit_char(code / 16));
        push_char(out, hex_digit_char(code % 16));
        proof {
            reveal_strlit("\\u00");
            assert("\\u00"@ =~= seq!['\\', 'u', '0', '0']);
            assert(out@ =~= old(out)@ + json_escaped_char(c));
        }
    } else {
        push_char(out, c);
        assert(out@ =~= old(out)@ + json_escaped_char(c));
    }
}

/// Writes a text as a JSON string.
pub fn json_quote(text: &str) -> (r: String)
    ensures
        r@ == json_string(text@),
{
    broadcast use group_string_axioms;

    let mut out = String::from_str("\"");
    proof {
        reveal_strlit("\"");
        assert(out@ =~= seq!['"']);
    }
    let mut it = text.chars();
    loop
        invariant
            it.obeys_prophetic_iter_laws(),
            it.decrease() is Some,
            out@ + json_escaped(it.remaining()) == seq!['"'] + json_escaped(text@),
        ensures
            out@ == seq!['"'] + json_escaped(text@),
        decreases it.decrease()->0,
    {
        let ghost before = it.remaining();
        match it.next() {
            None => {
                assert(json_escaped(before) =~= Seq::<char>::empty());
                assert(out@ =~= out@ + json_escaped(before));
                break ;
            },
            Some(c) => {
                let ghost head = out@;
                push_escaped(&mut out, c);
                assert(out@ + json_escaped(before.drop_first()) =~= head + json_escaped(before));
            },
        }
    }
    out.append("\"");
    assert(out@ =~= json_string(text@));
    out
}


/// The value of a lower-case hexadecimal digit.
pub open spec fn hex_value(c: char) -> int {
    if '0' <= c <= '9' {
        c as u32 - '0' as u32
    } else {
        c as u32 - 'a' as u32 + 10
    }
}

/// The number that four hexadecimal digits stand for.
pub open spec fn hex_code(a: char, b: char, c: char, d: char) -> int {
    hex_value(a) * 4096 + hex_value(b) * 256 + hex_value(c) * 16 + hex_value(d)
}

/// Reads the inside of a JSON string up to the mark that closes it: the
/// text it stands for, and what follows the mark. After a backslash, `u`
/// and four lower-case hexadecimal digits give the character with that
/// code, any other character gives itself.
pub open spec fn json_scan(s: Seq<char>) -> Option<(Seq<char>, Seq<char>)>
    decreases s.len(),
{
    if s.len() == 0 {
        None
    } else if s[0] == '"' {
        Some((Seq::empty(), s.skip(1)))
    } else if s[0] == '\\' && s.len() >= 2 {
        if s[1] == 'u' && s.len() >= 6 {
            match json_scan(s.skip(6)) {
                Some((text, rest)) => Some(
                    (seq![hex_code(s[2], s[3], s[4], s[5]) as char] + text, rest),
                ),
                None => None,
            }
        } else {
            match json_scan(s.skip(2)) {
                Some((text, rest)) => Some((seq![s[1]] + text, rest)),
                None => None,
            }
        }
    } else {
        match json_scan(s.skip(1)) {
            Some((text, rest)) => Some((seq![s[0]] + text, rest)),
            None => None,
        }
    }
}

/// Reads a JSON string at the start of `s`: its text, and what follows it.
pub open spec fn json_read_string(s: Seq<char>) -> Option<(Seq<char>, Seq<char>)> {
    if s.len() > 0 && s[0] == '"' {
        json_scan(s.skip(1))
    } else {
        None
    }
}

/// Escaped text is read back up to the mark that closes it, whatever
/// follows.
pub proof fn lemma_json_scan(text: Seq<char>, rest: Seq<char>)
    ensures
        json_scan(json_escaped(text) + seq!['"'] + rest) == Some((text, rest)),
    decreases text.len(),
{
    let all = json_escaped(text) + seq!['"'] + rest;
    if text.len() == 0 {
        assert(all[0] == '"');
        assert(all.skip(1) =~= rest);
    } else {
        let c = text[0];
        let tail = text.drop_first();
        let head = json_escaped_char(c);
        let after = json_escaped(tail) + seq!['"'] + rest;
        lemma_json_scan(tail, rest);
        assert(all =~= head + after);
        assert(all.skip(head.len() as int) =~= after);
        if c == '"' || c == '\\' {
            assert(all[0] == '\\' && all[1] == c);
        } else if (c as u32) < 0x20 {
            let code = c as u32 as int;
            let hi = code / 16;
            let lo = code % 16;
            assert(all[0] == '\\' && all[1] == 'u');
            assert(all[2] == '0' && all[3] == '0');
            assert(all[4] == hex_digit(hi) && all[5] == hex_digit(lo));
            assert(hex_value('0') == 0);
            assert(hex_value(hex_digit(hi)) == hi);
            assert(hex_value(hex_digit(lo)) == lo);
            assert(hex_code(all[2], all[3], all[4], all[5]) == code);
            vstd::utf8::char_u32_cast(c, c as u32);
            assert(code as char == c);
        } else {
            assert(all[0] == c);
        }
        assert(seq![c] + tail =~= text);
    }
}

/// A JSON string reads back to the text it was written from, and the
/// reader stops where the string ends.
pub proof fn lemma_json_string_reads_back(text: Seq<char>, rest: Seq<char>)
    ensures
        json_read_string(json_string(text) + rest) == Some((text, rest)),
{
    let all = json_string(text) + rest;
    lemma_json_scan(text, rest);
    assert(all[0] == '"');
    assert(all.skip(1) =~= json_escaped(text) + seq!['"'] + rest);
}

/// Different texts are different JSON strings.
pub proof fn lemma_json_string_distinct(a: Seq<char>, b: Seq<char>)
    requires
        a != b,
    ensures
        json_string(a) != json_string(b),
{
    lemma_json_string_reads_back(a, Seq::empty());
    lemma_json_string_reads_back(b, Seq::empty());
}

/// A list of two or more items, joined, is its first item, the separator,
/// and the other items joined.
pub proof fn lemma_joined_first(items: Seq<Seq<char>>, sep: Seq<char>)
    requires
        items.len() >= 2,
    ensures
        joined(items, sep) == items[0] + sep + joined(items.drop_first(), sep),
    decreases items.len(),
{
    if items.len() == 2 {
        assert(items.drop_last() =~= seq![items[0]]);
        assert(items.drop_first() =~= seq![items[1]]);
        assert(joined(items.drop_last(), sep) == items[0]);
        assert(joined(items.drop_first(), sep) == items[1]);
    } else {
        let front = items.drop_last();
        lemma_joined_first(front, sep);
        assert(front.drop_first() =~= items.drop_first().drop_last());
        assert(items.drop_first().last() == items.last());
        assert(front[0] == items[0]);
        assert(joined(items, sep) =~= items[0] + sep + joined(items.drop_first(), sep));
    }
}

/// What follows `prefix` at the start of `s`, if `s` starts with it.
pub open spec fn after_prefix(s: Seq<char>, prefix: Seq<char>) -> Option<Seq<char>> {
    if prefix.is_prefix_of(s) {
        Some(s.skip(prefix.len() as int))
    } else {
        None
    }
}

/// A text that starts with a prefix is that prefix and what follows.
pub proof fn lemma_after_prefix(prefix: Seq<char>, rest: Seq<char>)
    ensures
        after_prefix(prefix + rest, prefix) == Some(rest),
{
    let s = prefix + rest;
    assert(s.subrange(0, prefix.len() as int) =~= prefix);
    assert(s.skip(prefix.len() as int) =~= rest);
}


/// The bytes that may stand in a segment of a path as they are: letters,
/// digits, and the marks that separate nothing there.
pub open spec fn is_segment_byte(b: u8) -> bool {
    ||| 0x41 <= b <= 0x5a
    ||| 0x61 <= b <= 0x7a
    ||| 0x30 <= b <= 0x39
    ||| b == 0x2d
    ||| b == 0x2e
    ||| b == 0x5f
    ||| b == 0x7e
    ||| b == 0x40
    ||| b == 0x3a
}

/// The upper-case hexadecimal digit of a value below 16.
pub open spec fn upper_hex_digit(v: int) -> char {
    if v == 10 {
        'A'
    } else if v == 11 {
        'B'
    } else if v == 12 {
        'C'
    } else if v == 13 {
        'D'
    } else if v == 14 {
        'E'
    } else if v == 15 {
        'F'
    } else {
        hex_digit(v)
    }
}

/// The value of an upper-case hexadecimal digit.
pub open spec fn upper_hex_value(c: char) -> int {
    if '0' <= c <= '9' {
        c as u32 - '0' as u32
    } else {
        c as u32 - 'A' as u32 + 10
    }
}

/// How one byte stands in a segment of a path: as itself where it may,
/// else as a percent sign and two hexadecimal digits.
pub open spec fn url_escaped_byte(b: u8) -> Seq<char> {
    if is_segment_byte(b) {
        seq![b as char]
    } else {
        seq!['%', upper_hex_digit(b as int / 16), upper_hex_digit(b as int % 16)]
    }
}

/// Bytes as they stand in a segment of a path.
pub open spec fn url_escaped(bytes: Seq<u8>) -> Seq<char>
    decreases bytes.len(),
{
    if bytes.len() == 0 {
        Seq::empty()
    } else {
        url_escaped_byte(bytes[0]) + url_escaped(bytes.drop_first())
    }
}

/// A text as one segment of a path: its UTF-8 bytes, escaped.
pub open spec fn url_segment(text: Seq<char>) -> Seq<char> {
    url_escaped(encode_utf8(text))
}

/// The bytes that a segment of a path stands for.
pub open spec fn url_unescaped(s: Seq<char>) -> Seq<u8>
    decreases s.len(),
{
    if s.len() == 0 {
        Seq::empty()
    } else if s[0] == '%' && s.len() >= 3 {
        seq![(upper_hex_value(s[1]) * 16 + upper_hex_value(s[2])) as u8] + url_unescaped(
            s.skip(3),
        )
    } else {
        seq![s[0] as u8] + url_unescaped(s.skip(1))
    }
}

/// A segment holds none of the marks that end it or split it, and reads
/// back to the bytes it was written from.
pub proof fn lemma_url_segment_reads_back(bytes: Seq<u8>)
    ensures
        url_unescaped(url_escaped(bytes)) == bytes,
        forall|i: int|
            0 <= i < url_escaped(bytes).len() ==> {
                let c = #[trigger] url_escaped(bytes)[i];
                c != '/' && c != '?' && c != '#'
            },
    decreases bytes.len(),
{
    if bytes.len() > 0 {
        let b = bytes[0];
        let tail = bytes.drop_first();
        let head = url_escaped_byte(b);
        let all = url_escaped(bytes);
        lemma_url_segment_reads_back(tail);
        assert(all == head + url_escaped(tail));
        assert(all.skip(head.len() as int) =~= url_escaped(tail));
        if is_segment_byte(b) {
            assert(all[0] == b as char);
            assert((b as char) as u8 == b);
            assert(b as char != '%');
        } else {
            let hi = b as int / 16;
            let lo = b as int % 16;
            assert(all[0] == '%');
            assert(all[1] == upper_hex_digit(hi) && all[2] == upper_hex_digit(lo));
            assert(upper_hex_value(upper_hex_digit(hi)) == hi);
            assert(upper_hex_value(upper_hex_digit(lo)) == lo);
        }
        assert(url_unescaped(all) =~= seq![b] + tail);
        assert(seq![b] + tail =~= bytes);
        assert forall|i: int| 0 <= i < all.len() implies {
            let c = #[trigger] all[i];
            c != '/' && c != '?' && c != '#'
        } by {
            if i >= head.len() {
                assert(all[i] == url_escaped(tail)[i - head.len()]);
            } else {
                assert(all[i] == head[i]);
            }
        }
    }
}

fn upper_hex_char(v: u8) -> (r: char)
    requires
        v < 16,
    ensures
        r == upper_hex_digit(v as int),
{
    if v < 10 {
        hex_digit_char(v as u32)
    } else if v == 10 {
        'A'
    } else if v == 11 {
        'B'
    } else if v == 12 {
        'C'
    } else if v == 13 {
        'D'
    } else if v == 14 {
        'E'
    } else {
        'F'
    }
}

fn may_stand(b: u8) -> (r: bool)
    ensures
        r == is_segment_byte(b),
{
    (0x41 <= b && b <= 0x5a) || (0x61 <= b && b <= 0x7a) || (0x30 <= b && b <= 0x39) || b == 0x2d
        || b == 0x2e || b == 0x5f || b == 0x7e || b == 0x40 || b == 0x3a
}

/// Writes a text as one segment of a path.
pub fn url_quote(text: &str) -> (r: String)
    ensures
        r@ == url_segment(text@),
{
    let bytes = text.as_bytes();
    let mut out = String::new();
    let mut i: usize = 0;
    proof {
        assert(bytes@.skip(0) =~= bytes@);
        assert(out@ + url_escaped(bytes@) =~= url_escaped(bytes@));
    }
    while i < bytes.len()
        invariant
            i <= bytes.len(),
            bytes@ == encode_utf8(text@),
            out@ + url_escaped(bytes@.skip(i as int)) == url_escaped(bytes@),
        decreases bytes.len() - i,
    {
        let b: u8 = bytes[i];
        let ghost before = out@;
        proof {
            assert(bytes@.skip(i as int).drop_first() =~= bytes@.skip(i + 1));
            assert(bytes@.skip(i as int)[0] == b);
        }
        if may_stand(b) {
            push_char(&mut out, b as char);
        } else {
            push_char(&mut out, '%');
            push_char(&mut out, upper_hex_char(b / 16));
            push_char(&mut out, upper_hex_char(b % 16));
        }
        assert(out@ =~= before + url_escaped_byte(b));
        assert(out@ + url_escaped(bytes@.skip(i + 1)) =~= before + url_escaped(
            bytes@.skip(i as int),
        ));
        i = i + 1;
    }
    assert(bytes@.skip(bytes.len() as int) =~= Seq::<u8>::empty());
    assert(out@ =~= out@ + Seq::<char>::empty());
    out
}


/// Reads a list: items with commas between them, at most `limit` of them,
/// up to `close`, which ends the text.
pub open spec fn read_list<T>(
    read_item: spec_fn(Seq<char>) -> Option<(T, Seq<char>)>,
    close: Seq<char>,
    s: Seq<char>,
    limit: nat,
) -> Option<Seq<T>>
    decreases limit,
{
    if limit == 0 {
        None
    } else {
        match read_item(s) {
            Some((item, rest)) => if rest == close {
                Some(seq![item])
            } else if rest.len() > 0 && rest[0] == ',' {
                match read_list(read_item, close, rest.skip(1), (limit - 1) as nat) {
                    Some(more) => Some(seq![item] + more),
                    None => None,
                }
            } else {
                None
            },
            None => None,
        }
    }
}

/// The written forms of a list of items.
pub open spec fn written<T>(write_item: spec_fn(T) -> Seq<char>, items: Seq<T>) -> Seq<Seq<char>> {
    Seq::new(items.len(), |i: int| write_item(items[i]))
}

/// Every item reads back from its written form, whatever follows, and no
/// written form is empty.
pub open spec fn reads_back<T>(
    write_item: spec_fn(T) -> Seq<char>,
    read_item: spec_fn(Seq<char>) -> Option<(T, Seq<char>)>,
) -> bool {
    &&& forall|item: T| (#[trigger] write_item(item)).len() >= 1
    &&& forall|item: T, rest: Seq<char>|
        read_item(#[trigger] (write_item(item) + rest)) == Some((item, rest))
}

/// Joined items are at least as many characters as there are items.
pub proof fn lemma_joined_len<T>(write_item: spec_fn(T) -> Seq<char>, items: Seq<T>)
    requires
        forall|item: T| (#[trigger] write_item(item)).len() >= 1,
    ensures
        joined(written(write_item, items), ","@).len() >= items.len(),
    decreases items.len(),
{
    let forms = written(write_item, items);
    if items.len() == 1 {
        assert(forms[0] == write_item(items[0]));
    } else if items.len() >= 2 {
        lemma_joined_first(forms, ","@);
        lemma_joined_len(write_item, items.drop_first());
        assert(forms.drop_first() =~= written(write_item, items.drop_first()));
        assert(forms[0] == write_item(items[0]));
    }
}

/// A list of items that read back one by one reads back as a whole.
pub proof fn lemma_list_reads_back<T>(
    write_item: spec_fn(T) -> Seq<char>,
    read_item: spec_fn(Seq<char>) -> Option<(T, Seq<char>)>,
    close: Seq<char>,
    items: Seq<T>,
    limit: nat,
)
    requires
        reads_back(write_item, read_item),
        items.len() >= 1,
        limit >= items.len(),
    ensures
        read_list(read_item, close, joined(written(write_item, items), ","@) + close, limit)
            == Some(items),
    decreases items.len(),
{
    reveal_strlit(",");
    let forms = written(write_item, items);
    let list = joined(forms, ","@) + close;
    let first = write_item(items[0]);
    assert(forms[0] == first);
    if items.len() == 1 {
        assert(list =~= first + close);
        assert(read_item(first + close) == Some((items[0], close)));
        assert(seq![items[0]] =~= items);
    } else {
        let others = items.drop_first();
        let rest = ","@ + joined(written(write_item, others), ","@) + close;
        lemma_joined_first(forms, ","@);
        assert(forms.drop_first() =~= written(write_item, others));
        assert(list =~= first + rest);
        assert(read_item(first + rest) == Some((items[0], rest)));
        lemma_joined_len(write_item, others);
        assert(rest.len() > close.len());
        assert(rest[0] == ',');
        assert(rest.skip(1) =~= joined(written(write_item, others), ","@) + close);
        lemma_list_reads_back(write_item, read_item, close, others, (limit - 1) as nat);
        assert(seq![items[0]] + others =~= items);
    }
}


} // verus!
