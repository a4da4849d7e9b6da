//! Bytes as text: hexadecimal and base64.
use base64::engine::general_purpose::{STANDARD, URL_SAFE_NO_PAD};
use base64::Engine;
use vstd::prelude::*;

verus! {

/// The bytes that a base64 text in the standard alphabet with padding writes, or
/// the message that says why it writes none.
pub uninterp spec fn standard_decoded(text: Seq<char>) -> Result<Seq<u8>, Seq<char>>;

/// The base64 text of bytes, in the standard alphabet with padding.
pub uninterp spec fn standard_encoded(bytes: Seq<u8>) -> Seq<char>;

/// The bytes that a base64 text in the URL-safe alphabet without padding writes.
pub uninterp spec fn url_decoded(text: Seq<char>) -> Option<Seq<u8>>;

/// Whether a base64 text in the standard alphabet writes the given bytes.
pub open spec fn decodes_to(text: Seq<char>, bytes: Seq<u8>) -> bool {
    standard_decoded(text) == Ok::<Seq<u8>, Seq<char>>(bytes)
}

/// The view of decoded bytes.
pub open spec fn decoded_view(r: Result<Vec<u8>, String>) -> Result<Seq<u8>, Seq<char>> {
    match r {
        Ok(b) => Ok(b@),
        Err(e) => Err(e@),
    }
}

/// The engine `STANDARD` of `base64` decodes a text; what comes out depends on
/// the text alone.
#[verifier::external_body]
pub(crate) fn standard_decode(text: &str) -> (r: Result<Vec<u8>, String>)
    ensures
        decoded_view(r) == standard_decoded(text@),
{
    STANDARD.decode(text).map_err(|e| e.to_string())
}

/// The engine `STANDARD` of `base64` encodes bytes; what comes out depends on
/// them alone, and decoding it with the same engine gives the bytes back.
#[verifier::external_body]
pub(crate) fn standard_encode(bytes: &[u8]) -> (r: String)
    ensures
        r@ == standard_encoded(bytes@),
        decodes_to(r@, bytes@),
{
    STANDARD.encode(bytes)
}

/// The engine `URL_SAFE_NO_PAD` of `base64` decodes a text; what comes out
/// depends on the text alone.
#[verifier::external_body]
pub(crate) fn url_decode(text: &str) -> (r: Option<Vec<u8>>)
    ensures
        match r {
            Some(b) => url_decoded(text@) == Some(b@),
            None => url_decoded(text@) is None,
        },
{
    URL_SAFE_NO_PAD.decode(text).ok()
}

/// The lower-case hexadecimal digit for a value below sixteen.
pub open spec fn hex_digit(n: int) -> char {
    if n < 10 {
        (('0' as u32 + n) as u32) as char
    } else {
        (('a' as u32 + n - 10) as u32) as char
    }
}

/// Bytes in lower-case hexadecimal, two digits each.
pub open spec fn hex(bytes: Seq<u8>) -> Seq<char>
    decreases bytes.len(),
{
    if bytes.len() == 0 {
        Seq::empty()
    } else {
        let b = bytes.last() as int;
        hex(bytes.drop_last()).push(hex_digit(b / 16)).push(hex_digit(b % 16))
    }
}

fn hex_char(n: u8) -> (r: char)
    requires
        n < 16,
    ensures
        r == hex_digit(n as int),
{
    if n < 10 {
        (48u8 + n) as char
    } else {
        (87u8 + n) as char
    }
}

/// Bytes in lower-case hexadecimal, two digits each.
pub fn to_hex(bytes: &[u8]) -> (r: String)
    ensures
        r@ == hex(bytes@),
{
    let mut out: String = String::new();
    let mut i: usize = 0;
    assert(bytes@.take(0) =~= Seq::empty());
    while i < bytes.len()
        invariant
            i <= bytes@.len(),
            out@ == hex(bytes@.take(i as int)),
        decreases bytes.len() - i,
    {
        let b: u8 = bytes[i];
        assert(bytes@.take(i + 1).drop_last() =~= bytes@.take(i as int));
        out.push(hex_char(b / 16));
        out.push(hex_char(b % 16));
        i = i + 1;
    }
    assert(bytes@.take(bytes@.len() as int) =~= bytes@);
    out
}

/// Hexadecimal has two characters per byte, and no capitals among them.
pub proof fn lemma_hex(bytes: Seq<u8>)
    ensures
        hex(bytes).len() == 2 * bytes.len(),
        crate::text::lower(hex(bytes)) == hex(bytes),
        forall|i: int|
            0 <= i < hex(bytes).len() ==> ('0' <= #[trigger] hex(bytes)[i] <= '9' || 'a' <= hex(
                bytes,
            )[i] <= 'f'),
    decreases bytes.len(),
{
    if bytes.len() > 0 {
        lemma_hex(bytes.drop_last());
        let h = hex(bytes);
        let p = hex(bytes.drop_last());
        assert forall|i: int| 0 <= i < h.len() implies ('0' <= #[trigger] h[i] <= '9' || 'a' <= h[i]
            <= 'f') by {
            if i < p.len() {
                assert(h[i] == p[i]);
            }
        }
    }
    assert(crate::text::lower(hex(bytes)) =~= hex(bytes));
}

/// Different bytes have different hexadecimal forms.
pub proof fn law_hex_is_injective(a: Seq<u8>, b: Seq<u8>)
    requires
        hex(a) == hex(b),
    ensures
        a == b,
    decreases a.len(),
{
    lemma_hex(a);
    lemma_hex(b);
    if a.len() > 0 {
        let (x, y) = (hex(a), hex(b));
        let (p, q) = (hex(a.drop_last()), hex(b.drop_last()));
        lemma_hex(a.drop_last());
        lemma_hex(b.drop_last());
        assert(x[x.len() - 1] == y[y.len() - 1]);
        assert(x[x.len() - 2] == y[y.len() - 2]);
        assert(p =~= x.take(x.len() - 2));
        assert(q =~= y.take(y.len() - 2));
        law_hex_is_injective(a.drop_last(), b.drop_last());
        assert(a.last() == b.last());
        assert(a =~= a.drop_last().push(a.last()));
        assert(b =~= b.drop_last().push(b.last()));
    } else {
        assert(a =~= b);
    }
}

/// Each byte is written as two digits in its place, the sixteens first.
pub proof fn law_hex_writes_bytes_in_order(bytes: Seq<u8>, i: int)
    requires
        0 <= i < bytes.len(),
    ensures
        hex(bytes).len() == 2 * bytes.len(),
        hex_value(hex(bytes)[2 * i]) * 16 + hex_value(hex(bytes)[2 * i + 1]) == bytes[i],
    decreases bytes.len(),
{
    lemma_hex(bytes);
    lemma_hex(bytes.drop_last());
    if i < bytes.len() - 1 {
        law_hex_writes_bytes_in_order(bytes.drop_last(), i);
        assert(hex(bytes)[2 * i] == hex(bytes.drop_last())[2 * i]);
        assert(hex(bytes)[2 * i + 1] == hex(bytes.drop_last())[2 * i + 1]);
    } else {
        let b = bytes.last() as int;
        assert(hex(bytes)[2 * i] == hex_digit(b / 16));
        assert(hex(bytes)[2 * i + 1] == hex_digit(b % 16));
    }
}

/// The value of a lower-case hexadecimal digit.
pub open spec fn hex_value(c: char) -> int {
    if '0' <= c <= '9' {
        c as int - '0' as int
    } else {
        c as int - 'a' as int + 10
    }
}

} // verus!
