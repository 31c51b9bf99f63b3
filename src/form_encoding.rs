use vstd::prelude::*;
use vstd::utf8::encode_utf8;

verus! {

/// Bytes that the `application/x-www-form-urlencoded` serializer leaves as
/// they are: ASCII letters and digits and `*`, `-`, `.`, `_`.
pub open spec fn byte_kept(b: u8) -> bool {
    b == 0x2a || b == 0x2d || b == 0x2e || (0x30 <= b <= 0x39) || (0x41 <= b <= 0x5a) || b == 0x5f
        || (0x61 <= b <= 0x7a)
}

/// The upper-case hexadecimal digit for `n`, which is below sixteen.
pub open spec fn hex_digit_upper(n: u8) -> char {
    if n < 10 {
        ((0x30 + n) as u8) as char
    } else {
        ((0x37 + n) as u8) as char
    }
}

/// One byte in form encoding: kept, a space as `+`, else `%` and two
/// upper-case hexadecimal digits.
pub open spec fn form_encode_byte(b: u8) -> Seq<char> {
    if byte_kept(b) {
        seq![b as char]
    } else if b == 0x20 {
        seq!['+']
    } else {
        seq!['%', hex_digit_upper(b / 16), hex_digit_upper(b % 16)]
    }
}

pub open spec fn form_encode_bytes(bs: Seq<u8>) -> Seq<char>
    decreases bs.len(),
{
    if bs.len() == 0 {
        Seq::empty()
    } else {
        form_encode_byte(bs[0]) + form_encode_bytes(bs.drop_first())
    }
}

/// The form encoding of the UTF-8 bytes of `s`.
pub open spec fn form_encode(s: Seq<char>) -> Seq<char> {
    form_encode_bytes(encode_utf8(s))
}

pub open spec fn form_pair(p: (Seq<char>, Seq<char>)) -> Seq<char> {
    form_encode(p.0) + "="@ + form_encode(p.1)
}

/// A form-encoded query: each pair as `name=value`, the pairs joined by `&`.
pub open spec fn form_query(ps: Seq<(Seq<char>, Seq<char>)>) -> Seq<char>
    decreases ps.len(),
{
    if ps.len() == 0 {
        Seq::empty()
    } else if ps.len() == 1 {
        form_pair(ps[0])
    } else {
        form_pair(ps[0]) + "&"@ + form_query(ps.drop_first())
    }
}

/// Characters that can stand in form-encoded text: ASCII letters and digits
/// and `*`, `-`, `.`, `_`, `%`, `+`.
pub open spec fn form_safe_char(c: char) -> bool {
    let u = c as u32;
    u == 0x2a || u == 0x2d || u == 0x2e || (0x30 <= u <= 0x39) || (0x41 <= u <= 0x5a) || u
        == 0x5f || (0x61 <= u <= 0x7a) || u == 0x25 || u == 0x2b
}

proof fn lemma_form_encode_bytes_safe(bs: Seq<u8>)
    ensures
        forall|i: int|
            0 <= i < form_encode_bytes(bs).len() ==> form_safe_char(
                #[trigger] form_encode_bytes(bs)[i],
            ),
    decreases bs.len(),
{
    if bs.len() > 0 {
        lemma_form_encode_bytes_safe(bs.drop_first());
        let head = form_encode_byte(bs[0]);
        let tail = form_encode_bytes(bs.drop_first());
        assert forall|i: int| 0 <= i < head.len() implies form_safe_char(#[trigger] head[i]) by {
            let b = bs[0];
            if !byte_kept(b) && b != 0x20 && i > 0 {
                assert(b / 16 < 16 && b % 16 < 16);
            }
        }
        assert forall|i: int| 0 <= i < (head + tail).len() implies form_safe_char(
            #[trigger] (head + tail)[i],
        ) by {
            if i >= head.len() {
                assert((head + tail)[i] == tail[i - head.len()]);
            }
        }
    }
}

/// Form encoding escapes every character that separates or ends the parts of
/// a query: what it yields holds no `&`, `=`, `#`, `?`, `/` and no space.
pub proof fn lemma_form_encode_escapes_reserved(s: Seq<char>)
    ensures
        forall|i: int|
            0 <= i < form_encode(s).len() ==> {
                let c = #[trigger] form_encode(s)[i];
                &&& form_safe_char(c)
                &&& c != '&'
                &&& c != '='
                &&& c != '#'
                &&& c != '?'
                &&& c != '/'
                &&& c != ' '
            },
{
    lemma_form_encode_bytes_safe(encode_utf8(s));
}

/// Relies on url_encoded_data::stringify: it yields each pair as the form
/// encoding of its name, `=` and the form encoding of its value, and joins
/// the pairs with `&`.
#[verifier::external_body]
pub(crate) fn form_urlencoded_query(pairs: &Vec<(String, String)>) -> (r: String)
    ensures
        r@ == form_query(pairs@.map_values(|p: (String, String)| (p.0@, p.1@))),
{
    let refs: Vec<(&str, &str)> = pairs.iter().map(|p| (p.0.as_str(), p.1.as_str())).collect();
    url_encoded_data::stringify(&refs)
}

} // verus!
