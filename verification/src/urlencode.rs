//! The `application/x-www-form-urlencoded` serialization of query pairs.
use vstd::prelude::*;
use vstd::string::StringSliceAdditionalSpecFns;
use vstd::utf8::encode_utf8;

verus! {

/// Uppercase hexadecimal digits, as used in percent-encoding.
pub const HEX_UPPER: [char; 16] = [
    '0', '1', '2', '3', '4', '5', '6', '7', '8', '9', 'A', 'B', 'C', 'D', 'E', 'F',
];

/// Bytes that the byte serializer copies unchanged: `*`, `-`, `.`, `_` and
/// ASCII letters and digits.
pub open spec fn byte_unchanged(b: u8) -> bool {
    b == 42 || b == 45 || b == 46 || (48 <= b <= 57) || (65 <= b <= 90) || b == 95 || (97
        <= b <= 122)
}

/// The form byte serializer: unchanged bytes as themselves, a space as `+`,
/// every other byte as `%` and two uppercase hexadecimal digits.
pub open spec fn byte_serialize_spec(bytes: Seq<u8>) -> Seq<char>
    decreases bytes.len(),
{
    if bytes.len() == 0 {
        Seq::empty()
    } else {
        let b = bytes[0];
        let head = if byte_unchanged(b) {
            seq![(b as u32) as char]
        } else if b == 32 {
            seq!['+']
        } else {
            seq!['%', HEX_UPPER@[(b / 16) as int], HEX_UPPER@[(b % 16) as int]]
        };
        head + byte_serialize_spec(bytes.drop_first())
    }
}

/// The value of an uppercase hexadecimal digit.
pub open spec fn hex_upper_value(c: char) -> int {
    if '0' <= c <= '9' {
        c as int - '0' as int
    } else {
        c as int - 'A' as int + 10
    }
}

/// Reading serialized text back into bytes: `%` and two uppercase
/// hexadecimal digits give the byte they write, `+` gives a space, and any
/// other character gives its own code.
pub open spec fn form_decode_spec(s: Seq<char>) -> Seq<u8>
    decreases s.len(),
{
    if s.len() == 0 {
        Seq::empty()
    } else if s[0] == '%' && s.len() >= 3 {
        seq![(16 * hex_upper_value(s[1]) + hex_upper_value(s[2])) as u8] + form_decode_spec(
            s.skip(3),
        )
    } else if s[0] == '+' {
        seq![32u8] + form_decode_spec(s.skip(1))
    } else {
        seq![s[0] as u8] + form_decode_spec(s.skip(1))
    }
}

/// A character that serialized text may hold: an unchanged byte, `+`, `%`,
/// or an uppercase hexadecimal digit.
pub open spec fn serialized_char(c: char) -> bool {
    ('0' <= c <= '9') || ('A' <= c <= 'Z') || ('a' <= c <= 'z') || c == '*' || c == '-' || c == '.'
        || c == '_' || c == '+' || c == '%'
}

proof fn lemma_hex_upper(d: int)
    requires
        0 <= d < 16,
    ensures
        hex_upper_value(HEX_UPPER@[d]) == d,
        '0' <= HEX_UPPER@[d] <= '9' || 'A' <= HEX_UPPER@[d] <= 'F',
{
    assert(HEX_UPPER@[0] == '0' && HEX_UPPER@[1] == '1' && HEX_UPPER@[2] == '2');
    assert(HEX_UPPER@[3] == '3' && HEX_UPPER@[4] == '4' && HEX_UPPER@[5] == '5');
    assert(HEX_UPPER@[6] == '6' && HEX_UPPER@[7] == '7' && HEX_UPPER@[8] == '8');
    assert(HEX_UPPER@[9] == '9' && HEX_UPPER@[10] == 'A' && HEX_UPPER@[11] == 'B');
    assert(HEX_UPPER@[12] == 'C' && HEX_UPPER@[13] == 'D' && HEX_UPPER@[14] == 'E');
    assert(HEX_UPPER@[15] == 'F');
}

/// The byte serializer can be read back: decoding its output gives the
/// bytes, and the output holds only unchanged bytes, `+`, `%` and uppercase
/// hexadecimal digits, so never a `&` or `=` that would split a pair.
pub proof fn byte_serialize_roundtrip(bytes: Seq<u8>)
    ensures
        form_decode_spec(byte_serialize_spec(bytes)) == bytes,
        forall|k: int|
            0 <= k < byte_serialize_spec(bytes).len() ==> serialized_char(
                #[trigger] byte_serialize_spec(bytes)[k],
            ),
    decreases bytes.len(),
{
    if bytes.len() > 0 {
        let b = bytes[0];
        let rest = bytes.drop_first();
        byte_serialize_roundtrip(rest);
        let tail = byte_serialize_spec(rest);
        let out = byte_serialize_spec(bytes);
        if byte_unchanged(b) {
            let c = (b as u32) as char;
            assert(c as int == b as int);
            assert(out == seq![c] + tail);
            assert(out.skip(1) =~= tail);
            assert(c as u8 == b);
            assert(form_decode_spec(out) =~= seq![b] + form_decode_spec(tail));
            assert forall|k: int| 0 <= k < out.len() implies serialized_char(#[trigger] out[k]) by {
                if k > 0 {
                    assert(out[k] == tail[k - 1]);
                }
            }
        } else if b == 32 {
            assert(out == seq!['+'] + tail);
            assert(out.skip(1) =~= tail);
            assert(form_decode_spec(out) =~= seq![b] + form_decode_spec(tail));
            assert forall|k: int| 0 <= k < out.len() implies serialized_char(#[trigger] out[k]) by {
                if k > 0 {
                    assert(out[k] == tail[k - 1]);
                }
            }
        } else {
            lemma_hex_upper((b / 16) as int);
            lemma_hex_upper((b % 16) as int);
            let hi = HEX_UPPER@[(b / 16) as int];
            let lo = HEX_UPPER@[(b % 16) as int];
            assert(out == seq!['%', hi, lo] + tail);
            assert(out.skip(3) =~= tail);
            assert(out[1] == hi && out[2] == lo);
            assert((16 * hex_upper_value(hi) + hex_upper_value(lo)) as u8 == b);
            assert(form_decode_spec(out) =~= seq![b] + form_decode_spec(tail));
            assert forall|k: int| 0 <= k < out.len() implies serialized_char(#[trigger] out[k]) by {
                if k >= 3 {
                    assert(out[k] == tail[k - 3]);
                }
            }
        }
        assert(bytes =~= seq![b] + rest);
    }
}

/// One serialized `name=value` pair; names and values are taken as UTF-8.
pub open spec fn form_pair(name: Seq<char>, value: Seq<char>) -> Seq<char> {
    byte_serialize_spec(encode_utf8(name)) + seq!['='] + byte_serialize_spec(encode_utf8(value))
}

/// Serialized pairs joined by `&`.
pub open spec fn form_urlencoded_spec(pairs: Seq<(Seq<char>, Seq<char>)>) -> Seq<char>
    decreases pairs.len(),
{
    if pairs.len() == 0 {
        Seq::empty()
    } else if pairs.len() == 1 {
        form_pair(pairs[0].0, pairs[0].1)
    } else {
        form_urlencoded_spec(pairs.drop_last()) + seq!['&'] + form_pair(
            pairs.last().0,
            pairs.last().1,
        )
    }
}

/// The characters of query pairs whose names are string slices.
pub open spec fn query_view<'a>(q: Seq<(&'a str, String)>) -> Seq<(Seq<char>, Seq<char>)> {
    q.map_values(|p: (&'a str, String)| (p.0@, p.1@))
}

/// `form_urlencoded::Serializer::new(String::new()).extend_pairs(pairs).finish()`.
/// The serializer appends, for each pair in order, a `&` unless the output is
/// still empty, the byte-serialized UTF-8 name, `=`, and the byte-serialized
/// UTF-8 value; the byte serializer keeps `*-._` and ASCII alphanumerics,
/// writes a space as `+` and every other byte as `%XX` with uppercase digits.
#[verifier::external_body]
pub(crate) fn urlencode_pairs<'a>(pairs: &[(&'a str, String)]) -> (res: String)
    ensures
        res@ == form_urlencoded_spec(query_view(pairs@)),
{
    form_urlencoded::Serializer::new(String::new()).extend_pairs(pairs.iter()).finish()
}

} // verus!
