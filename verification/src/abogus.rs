//! Request signatures for the short-video web API: the `a_bogus` and
//! `x-secsdk-web-signature` query parameters.
use vstd::prelude::*;
use vstd::string::StringSliceAdditionalSpecFns;
use vstd::utf8::encode_utf8;

use crate::clock::{now_millis, now_seconds, random_inclusive};
use crate::digest::{md5_digest, md5_hex, sm3, sm3_digest};
use crate::text::{dec, dec_signed, hex_lower_spec, i64_to_string, push_char, push_str, u64_to_string};
use crate::urlencode::{form_urlencoded_spec, query_view, urlencode_pairs};

verus! {

/// Default user agent when the caller gives none.
pub const USER_AGENT: &'static str = "Mozilla/5.0 (Windows NT 10.0; Win64; x64) AppleWebKit/537.36 (KHTML, like Gecko) Chrome/130.0.0.0 Safari/537.36 Edg/130.0.0.0";

/// Browser identifier sent as `uifid`.
pub const UIFID: &'static str = "4b5df8f2f1e37245005fd22980d950d15862f006c9917e4d56af34274e9d091069d16eb83533042983a5affc457fe8f67a16d2fcfc0989a420ac1cddee10b3d302489db181a6aba66248d26970a0dcbb8b9a1d4c610eed0a10c334f5dc1c9df4042146f15c0b93f43e06f172128eb12c5b9428e9462de86b3bd4ef8bdf22baeab16471327145507e7abc28f2a0b277845df7be865f67092c4187af60e4635c06";

/// Salt of the web signature.
pub const UIFID_SALT: &'static str = "A96D855A08C0A9707F8BEF0D9A527E4E";

/// The RC4 state after key scheduling with the key `[0, 1, 14]`.
pub const UA_KEY: [u8; 256] = [
    0, 218, 17, 20, 25, 23, 95, 116, 236, 14, 146, 5, 3, 151, 128, 186, 32, 114, 244, 80, 4, 46,
    36, 85, 213, 108, 174, 201, 63, 129, 47, 99, 38, 81, 150, 242, 69, 60, 72, 55, 192, 52, 10, 77,
    96, 141, 59, 62, 165, 204, 67, 120, 90, 240, 200, 94, 164, 221, 229, 98, 37, 145, 57, 230, 8,
    232, 169, 212, 132, 115, 209, 54, 110, 170, 39, 91, 167, 225, 207, 31, 210, 182, 152, 83, 144,
    195, 211, 161, 65, 29, 147, 183, 42, 97, 153, 50, 223, 43, 188, 79, 158, 187, 166, 179, 68,
    121, 44, 155, 75, 173, 252, 249, 11, 159, 27, 133, 58, 124, 243, 198, 239, 45, 241, 217, 1, 74,
    162, 103, 136, 226, 112, 199, 191, 21, 180, 163, 196, 157, 71, 56, 143, 234, 33, 205, 233, 34,
    181, 139, 119, 64, 193, 102, 76, 61, 15, 109, 160, 222, 111, 247, 202, 104, 70, 84, 178, 171,
    86, 140, 53, 238, 88, 255, 228, 175, 22, 118, 177, 197, 105, 82, 7, 154, 92, 190, 248, 246,
    214, 203, 135, 126, 123, 78, 18, 30, 35, 245, 12, 168, 51, 100, 227, 251, 235, 93, 49, 122,
    208, 206, 219, 142, 101, 176, 215, 130, 66, 117, 40, 134, 2, 253, 216, 189, 156, 125, 24, 16,
    26, 41, 220, 137, 106, 250, 172, 138, 237, 127, 19, 107, 148, 194, 89, 48, 254, 113, 231, 185,
    28, 224, 87, 73, 184, 9, 6, 13, 131, 149,
];

/// Initial permutation of the byte-scrambling stream.
pub const BIG_ARRAY: [u8; 256] = [
    121, 243, 55, 234, 103, 36, 47, 228, 30, 231, 106, 6, 115, 95, 78, 101, 250, 207, 198, 50, 139,
    227, 220, 105, 97, 143, 34, 28, 194, 215, 18, 100, 159, 160, 43, 8, 169, 217, 180, 120, 247,
    45, 90, 11, 27, 197, 46, 3, 84, 72, 5, 68, 62, 56, 221, 75, 144, 79, 73, 161, 178, 81, 64, 187,
    134, 117, 186, 118, 16, 241, 130, 71, 89, 147, 122, 129, 65, 40, 88, 150, 110, 219, 199, 255,
    181, 254, 48, 4, 195, 248, 208, 32, 116, 167, 69, 201, 17, 124, 125, 104, 96, 83, 80, 127, 236,
    108, 154, 126, 204, 15, 20, 135, 112, 158, 13, 1, 188, 164, 210, 237, 222, 98, 212, 77, 253,
    42, 170, 202, 26, 22, 29, 182, 251, 10, 173, 152, 58, 138, 54, 141, 185, 33, 157, 31, 252, 132,
    233, 235, 102, 196, 191, 223, 240, 148, 39, 123, 92, 82, 128, 109, 57, 24, 38, 113, 209, 245,
    2, 119, 153, 229, 189, 214, 230, 174, 232, 63, 52, 205, 86, 140, 66, 175, 111, 171, 246, 133,
    238, 193, 99, 60, 74, 91, 225, 51, 76, 37, 145, 211, 166, 151, 213, 206, 0, 200, 244, 176, 218,
    44, 184, 172, 49, 216, 93, 168, 53, 21, 183, 41, 67, 85, 224, 155, 226, 242, 87, 177, 146, 70,
    190, 12, 162, 19, 137, 114, 25, 165, 163, 192, 23, 59, 9, 94, 179, 107, 35, 7, 142, 131, 239,
    203, 149, 136, 61, 249, 14, 156,
];

/// Positions of the 72-byte parameter block that enter the payload, in order.
pub const SORT_INDEX: [u8; 44] = [
    18, 20, 52, 26, 30, 34, 58, 38, 40, 53, 42, 21, 27, 54, 55, 31, 35, 57, 39, 41, 43, 22, 28, 32,
    60, 36, 23, 29, 33, 37, 44, 45, 59, 46, 47, 48, 49, 50, 24, 25, 65, 66, 70, 71,
];

/// A second ordering of the same positions; only its first entry is used.
pub const SORT_INDEX_2: [u8; 44] = [
    18, 20, 26, 30, 34, 38, 40, 42, 21, 27, 31, 35, 39, 41, 43, 22, 28, 32, 36, 23, 29, 33, 37, 44,
    45, 46, 47, 48, 49, 50, 24, 25, 52, 53, 54, 55, 57, 58, 59, 60, 65, 66, 70, 71,
];

/// Alphabet of the final `a_bogus` encoding.
pub const CHARS1: [char; 64] = [
    'D', 'k', 'd', 'p', 'g', 'h', '2', 'Z', 'm', 's', 'Q', 'B', '8', '0', '/', 'M', 'f', 'v', 'V',
    '3', '6', 'X', 'I', '1', 'R', '4', '5', '-', 'W', 'U', 'A', 'l', 'E', 'i', 'x', 'N', 'L', 'w',
    'o', 'q', 'Y', 'T', 'O', 'P', 'u', 'z', 'K', 'F', 'j', 'J', 'n', 'r', 'y', '7', '9', 'H', 'b',
    'G', 'c', 'a', 'S', 't', 'C', 'e',
];

/// Alphabet of the base64 variant applied to the RC4-encrypted user agent.
pub const CHARS2: [char; 64] = [
    'c', 'k', 'd', 'p', '1', 'h', '4', 'Z', 'K', 's', 'U', 'B', '8', '0', '/', 'M', 'f', 'v', 'w',
    '3', '6', 'X', 'I', 'g', 'R', '2', '5', '+', 'W', 'Q', 'A', 'l', 'E', 'i', '7', 'N', 'L', 'b',
    'o', 'q', 'Y', 'T', 'O', 'P', 'u', 'z', 'm', 'F', 'j', 'J', 'n', 'r', 'y', 'x', '9', 'H', 'V',
    'G', 'D', 'a', 'S', 't', 'C', 'e',
];

// ---------------------------------------------------------------------------
// RC4 keystream over the user agent
// ---------------------------------------------------------------------------

/// The RC4 state (permutation, `i`, `j`) after `n` output steps.
pub open spec fn rc4_state(n: nat) -> (Seq<u8>, int, int)
    decreases n,
{
    if n == 0 {
        (UA_KEY@, 0, 0)
    } else {
        let (a, i, j) = rc4_state((n - 1) as nat);
        let i2 = (i + 1) % 256;
        let j2 = (j + a[i2]) % 256;
        (a.update(i2, a[j2]).update(j2, a[i2]), i2, j2)
    }
}

/// The keystream byte used for the `n`-th input byte.
pub open spec fn rc4_key(n: nat) -> u8 {
    let (a, i, j) = rc4_state(n + 1);
    a[(a[i] + a[j]) % 256]
}

/// RC4 applied to `data`: each byte xored with its keystream byte.
pub open spec fn rc4_spec(data: Seq<u8>) -> Seq<u8> {
    Seq::new(data.len(), |k: int| data[k] ^ rc4_key(k as nat))
}

proof fn lemma_rc4_state_wf(n: nat)
    ensures
        rc4_state(n).0.len() == 256,
        0 <= rc4_state(n).1 < 256,
        0 <= rc4_state(n).2 < 256,
    decreases n,
{
    if n > 0 {
        lemma_rc4_state_wf((n - 1) as nat);
    }
}

/// RC4 keeps the length and undoes itself: applied twice it gives the data
/// back.
pub proof fn rc4_involution(data: Seq<u8>)
    ensures
        rc4_spec(data).len() == data.len(),
        rc4_spec(rc4_spec(data)) == data,
{
    let once = rc4_spec(data);
    assert forall|k: int| 0 <= k < data.len() implies #[trigger] rc4_spec(once)[k] == data[k] by {
        let x = data[k];
        let key = rc4_key(k as nat);
        assert((x ^ key) ^ key == x) by (bit_vector);
    }
    assert(rc4_spec(once) =~= data);
}

/// Encrypts the UTF-8 bytes of `s` with RC4 under the fixed key.
pub fn rc4(s: &str) -> (res: Vec<u8>)
    ensures
        res@ == rc4_spec(s.spec_bytes()),
{
    let mut a: [u8; 256] = UA_KEY;
    let mut i: usize = 0;
    let mut j: usize = 0;
    let bytes = s.as_bytes();
    let mut res: Vec<u8> = Vec::new();
    let mut n: usize = 0;
    while n < bytes.len()
        invariant
            n <= bytes@.len(),
            bytes@ == s.spec_bytes(),
            rc4_state(n as nat) == (a@, i as int, j as int),
            res@.len() == n,
            forall|k: int| 0 <= k < n ==> res@[k] == bytes@[k] ^ rc4_key(k as nat),
        decreases bytes@.len() - n,
    {
        proof { lemma_rc4_state_wf(n as nat); }
        i = (i + 1) % 256;
        j = (j + a[i] as usize) % 256;
        let ai = a[i];
        let aj = a[j];
        a[i] = aj;
        a[j] = ai;
        let k = a[((a[i] as usize + a[j] as usize) % 256)];
        res.push(bytes[n] ^ k);
        n = n + 1;
        assert(rc4_state(n as nat) == (a@, i as int, j as int));
    }
    assert(res@ =~= rc4_spec(s.spec_bytes()));
    res
}

// ---------------------------------------------------------------------------
// Six-bit groups and the two base64-like encodings
// ---------------------------------------------------------------------------

/// First six-bit group of the three bytes `b1 b2 b3`.
pub open spec fn sextet0(b1: u8) -> u8 {
    b1 >> 2
}

/// Second six-bit group.
pub open spec fn sextet1(b1: u8, b2: u8) -> u8 {
    ((b1 & 3) << 4) | (b2 >> 4)
}

/// Third six-bit group.
pub open spec fn sextet2(b2: u8, b3: u8) -> u8 {
    ((b2 & 15) << 2) | (b3 >> 6)
}

/// Fourth six-bit group.
pub open spec fn sextet3(b3: u8) -> u8 {
    b3 & 63
}

proof fn lemma_sextets_small(b1: u8, b2: u8, b3: u8)
    ensures
        sextet0(b1) < 64,
        sextet1(b1, b2) < 64,
        sextet2(b2, b3) < 64,
        sextet3(b3) < 64,
{
    assert(b1 >> 2 < 64) by (bit_vector);
    assert(((b1 & 3) << 4) | (b2 >> 4) < 64) by (bit_vector);
    assert(((b2 & 15) << 2) | (b3 >> 6) < 64) by (bit_vector);
    assert(b3 & 63 < 64) by (bit_vector);
}

/// The four six-bit groups of three bytes hold exactly those bytes: each
/// group is below 64, and the bytes are read back from them in order.
pub proof fn sextets_roundtrip(b1: u8, b2: u8, b3: u8)
    by (bit_vector)
    ensures
        sextet0(b1) < 64 && sextet1(b1, b2) < 64 && sextet2(b2, b3) < 64 && sextet3(b3) < 64,
        b1 == (sextet0(b1) << 2) | (sextet1(b1, b2) >> 4),
        b2 == (sextet1(b1, b2) << 4) | (sextet2(b2, b3) >> 2),
        b3 == (sextet2(b2, b3) << 6) | sextet3(b3),
{
}

/// Base64 over the alphabet `CHARS2`, with `=` padding to a multiple of four.
pub open spec fn base64_spec(input: Seq<u8>) -> Seq<char>
    decreases input.len(),
{
    let a = CHARS2@;
    if input.len() >= 3 {
        seq![
            a[sextet0(input[0]) as int],
            a[sextet1(input[0], input[1]) as int],
            a[sextet2(input[1], input[2]) as int],
            a[sextet3(input[2]) as int],
        ] + base64_spec(input.skip(3))
    } else if input.len() == 2 {
        seq![
            a[sextet0(input[0]) as int],
            a[sextet1(input[0], input[1]) as int],
            a[sextet2(input[1], 0) as int],
            '=',
        ]
    } else if input.len() == 1 {
        seq![a[sextet0(input[0]) as int], a[sextet1(input[0], 0) as int], '=', '=']
    } else {
        Seq::empty()
    }
}

/// Base64 takes four characters for every three bytes or part of them, and
/// writes only characters of `CHARS2` and the padding `=`, which stands
/// only at the end.
pub proof fn base64_shape(input: Seq<u8>)
    ensures
        base64_spec(input).len() == 4 * ((input.len() + 2) / 3),
        forall|k: int|
            0 <= k < base64_spec(input).len() ==> CHARS2@.contains(#[trigger] base64_spec(input)[k])
                || (base64_spec(input)[k] == '=' && k >= base64_spec(input).len() - 2),
    decreases input.len(),
{
    let a = CHARS2@;
    let out = base64_spec(input);
    if input.len() >= 3 {
        let rest = input.skip(3);
        base64_shape(rest);
        lemma_sextets_small(input[0], input[1], input[2]);
        let head = seq![
            a[sextet0(input[0]) as int],
            a[sextet1(input[0], input[1]) as int],
            a[sextet2(input[1], input[2]) as int],
            a[sextet3(input[2]) as int],
        ];
        assert(out == head + base64_spec(rest));
        assert forall|k: int| 0 <= k < out.len() implies a.contains(#[trigger] out[k]) || (out[k] == '='
            && k >= out.len() - 2) by {
            if k < 4 {
                assert(a.contains(head[k]));
            } else {
                assert(out[k] == base64_spec(rest)[k - 4]);
            }
        }
    } else if input.len() == 2 {
        lemma_sextets_small(input[0], input[1], 0);
        assert(a.contains(out[0]));
        assert(a.contains(out[1]));
        assert(a.contains(out[2]));
    } else if input.len() == 1 {
        lemma_sextets_small(input[0], 0, 0);
        assert(a.contains(out[0]));
        assert(a.contains(out[1]));
    }
}

/// Base64 encoding of `input` over the alphabet `CHARS2`.
pub fn base64_encode(input: &[u8]) -> (result: String)
    ensures
        result@ == base64_spec(input@),
{
    let mut result = String::new();
    let mut i: usize = 0;
    assert(input@.skip(0) =~= input@);
    while i < input.len() && input.len() - i > 2
        invariant
            i <= input@.len(),
            base64_spec(input@) == result@ + base64_spec(input@.skip(i as int)),
        decreases input@.len() - i,
    {
        let b1 = input[i];
        let b2 = input[i + 1];
        let b3 = input[i + 2];
        proof { lemma_sextets_small(b1, b2, b3); }
        let i1 = b1 >> 2;
        let i2 = ((b1 & 3) << 4) | (b2 >> 4);
        let i3 = ((b2 & 15) << 2) | (b3 >> 6);
        let i4 = b3 & 63;
        assert(i1 == sextet0(b1));
        assert(i2 == sextet1(b1, b2));
        assert(i3 == sextet2(b2, b3));
        assert(i4 == sextet3(b3));
        let ghost before = result@;
        push_char(&mut result, CHARS2[i1 as usize]);
        push_char(&mut result, CHARS2[i2 as usize]);
        push_char(&mut result, CHARS2[i3 as usize]);
        push_char(&mut result, CHARS2[i4 as usize]);
        proof {
            let rest = input@.skip(i as int);
            assert(rest[0] == b1 && rest[1] == b2 && rest[2] == b3);
            assert(rest.skip(3) =~= input@.skip(i + 3));
            assert(result@ =~= before + seq![
                CHARS2@[sextet0(b1) as int],
                CHARS2@[sextet1(b1, b2) as int],
                CHARS2@[sextet2(b2, b3) as int],
                CHARS2@[sextet3(b3) as int],
            ]);
        }
        i = i + 3;
    }
    let remain = input.len() - i;
    let ghost before = result@;
    let ghost rest = input@.skip(i as int);
    if remain == 1 {
        let b1 = input[i];
        proof { lemma_sextets_small(b1, 0, 0); }
        let i1 = b1 >> 2;
        let i2 = (b1 & 3) << 4;
        assert((b1 & 3) << 4 == ((b1 & 3) << 4) | (0u8 >> 4)) by (bit_vector);
        push_char(&mut result, CHARS2[i1 as usize]);
        push_char(&mut result, CHARS2[i2 as usize]);
        push_char(&mut result, '=');
        push_char(&mut result, '=');
        assert(rest[0] == b1);
        assert(result@ =~= before + base64_spec(rest));
    } else if remain == 2 {
        let b1 = input[i];
        let b2 = input[i + 1];
        proof { lemma_sextets_small(b1, b2, 0); }
        let i1 = b1 >> 2;
        let i2 = ((b1 & 3) << 4) | (b2 >> 4);
        let i3 = (b2 & 15) << 2;
        assert((b2 & 15) << 2 == ((b2 & 15) << 2) | (0u8 >> 6)) by (bit_vector);
        push_char(&mut result, CHARS2[i1 as usize]);
        push_char(&mut result, CHARS2[i2 as usize]);
        push_char(&mut result, CHARS2[i3 as usize]);
        push_char(&mut result, '=');
        assert(rest[0] == b1 && rest[1] == b2);
        assert(result@ =~= before + base64_spec(rest));
    } else {
        assert(rest.len() == 0);
        assert(result@ =~= before + base64_spec(rest));
    }
    result
}

/// The characters that `abogus_encode` writes for the bytes `input`, before
/// padding: four per full group, three for a final pair, two for a final
/// single byte.
pub open spec fn abogus_chars(input: Seq<u8>) -> Seq<char>
    decreases input.len(),
{
    let a = CHARS1@;
    if input.len() >= 3 {
        seq![
            a[sextet0(input[0]) as int],
            a[sextet1(input[0], input[1]) as int],
            a[sextet2(input[1], input[2]) as int],
            a[sextet3(input[2]) as int],
        ] + abogus_chars(input.skip(3))
    } else if input.len() == 2 {
        seq![
            a[sextet0(input[0]) as int],
            a[sextet1(input[0], input[1]) as int],
            a[sextet2(input[1], 0) as int],
        ]
    } else if input.len() == 1 {
        seq![a[sextet0(input[0]) as int], a[sextet1(input[0], 0) as int]]
    } else {
        Seq::empty()
    }
}

proof fn lemma_abogus_chars_len(input: Seq<u8>)
    ensures
        abogus_chars(input).len() == 4 * (input.len() / 3) + (if input.len() % 3 == 0 {
            0int
        } else {
            (input.len() % 3 + 1) as int
        }),
    decreases input.len(),
{
    if input.len() >= 3 {
        lemma_abogus_chars_len(input.skip(3));
    }
}

/// The `a_bogus` text for the bytes `input`: `abogus_chars` followed by
/// `4 - len % 4` padding characters `=` (four when the length is already a
/// multiple of four).
pub open spec fn abogus_encode_spec(input: Seq<u8>) -> Seq<char> {
    let c = abogus_chars(input);
    c + Seq::new((4 - c.len() % 4) as nat, |k: int| '=')
}

/// The 24-bit value of the group starting at `i`, missing bytes read as zero.
pub open spec fn group_value(input: Seq<u8>, i: int) -> u32 {
    if i + 2 < input.len() {
        ((input[i] as u32) << 16) | ((input[i + 1] as u32) << 8) | (input[i + 2] as u32)
    } else if i + 1 < input.len() {
        ((input[i] as u32) << 16) | ((input[i + 1] as u32) << 8)
    } else {
        (input[i] as u32) << 16
    }
}

proof fn lemma_group_sextets(b1: u8, b2: u8, b3: u8, n: u32)
    requires
        n == ((b1 as u32) << 16) | ((b2 as u32) << 8) | (b3 as u32),
    ensures
        (n & 0xFC0000) >> 18 == sextet0(b1) as u32,
        (n & 0x03F000) >> 12 == sextet1(b1, b2) as u32,
        (n & 0x0FC0) >> 6 == sextet2(b2, b3) as u32,
        n & 0x3F == sextet3(b3) as u32,
{
    assert((n & 0xFC0000) >> 18 == (b1 >> 2) as u32) by (bit_vector)
        requires n == ((b1 as u32) << 16) | ((b2 as u32) << 8) | (b3 as u32);
    assert((n & 0x03F000) >> 12 == (((b1 & 3) << 4) | (b2 >> 4)) as u32) by (bit_vector)
        requires n == ((b1 as u32) << 16) | ((b2 as u32) << 8) | (b3 as u32);
    assert((n & 0x0FC0) >> 6 == (((b2 & 15) << 2) | (b3 >> 6)) as u32) by (bit_vector)
        requires n == ((b1 as u32) << 16) | ((b2 as u32) << 8) | (b3 as u32);
    assert(n & 0x3F == (b3 & 63) as u32) by (bit_vector)
        requires n == ((b1 as u32) << 16) | ((b2 as u32) << 8) | (b3 as u32);
}

/// Encodes bytes with the alphabet `CHARS1` and the padding rule of
/// `abogus_encode_spec`.
pub fn abogus_encode(input: &[u8]) -> (result: String)
    ensures
        result@ == abogus_encode_spec(input@),
{
    let mut result = String::new();
    let mut i: usize = 0;
    assert(input@.skip(0) =~= input@);
    while i < input.len()
        invariant
            i <= input@.len(),
            i < input@.len() ==> abogus_chars(input@) == result@ + abogus_chars(input@.skip(i as int)),
            i >= input@.len() ==> abogus_chars(input@) == result@,
        decreases input@.len() + 2 - i,
    {
        let ghost before = result@;
        let ghost rest = input@.skip(i as int);
        let b1 = input[i];
        let b2: u8 = if i + 1 < input.len() { input[i + 1] } else { 0 };
        let b3: u8 = if input.len() - i > 2 { input[i + 2] } else { 0 };
        let n: u32 = if input.len() - i > 2 {
            ((input[i] as u32) << 16) | ((input[i + 1] as u32) << 8) | (input[i + 2] as u32)
        } else if i + 1 < input.len() {
            ((input[i] as u32) << 16) | ((input[i + 1] as u32) << 8)
        } else {
            (input[i] as u32) << 16
        };
        proof {
            if i + 2 < input@.len() {
            } else if i + 1 < input@.len() {
                assert(((b1 as u32) << 16) | ((b2 as u32) << 8) == ((b1 as u32) << 16) | ((b2 as u32) << 8) | (0u8 as u32)) by (bit_vector);
            } else {
                assert((b1 as u32) << 16 == ((b1 as u32) << 16) | ((0u8 as u32) << 8) | (0u8 as u32)) by (bit_vector);
            }
            lemma_group_sextets(b1, b2, b3, n);
            lemma_sextets_small(b1, b2, b3);
        }
        let c0 = ((n & 0xFC0000) >> 18) as usize;
        let c1 = ((n & 0x03F000) >> 12) as usize;
        push_char(&mut result, CHARS1[c0]);
        push_char(&mut result, CHARS1[c1]);
        if i + 1 < input.len() {
            let c2 = ((n & 0x0FC0) >> 6) as usize;
            push_char(&mut result, CHARS1[c2]);
        }
        if input.len() - i > 2 {
            let c3 = (n & 0x3F) as usize;
            push_char(&mut result, CHARS1[c3]);
        }
        proof {
            assert(rest[0] == b1);
            if i + 2 < input@.len() {
                assert(rest[1] == b2 && rest[2] == b3);
                let four = seq![
                    CHARS1@[sextet0(b1) as int],
                    CHARS1@[sextet1(b1, b2) as int],
                    CHARS1@[sextet2(b2, b3) as int],
                    CHARS1@[sextet3(b3) as int],
                ];
                assert(result@ =~= before + four);
                assert(rest.skip(3) =~= input@.skip(i + 3));
                assert(abogus_chars(rest) == four + abogus_chars(input@.skip(i + 3)));
                assert(before + abogus_chars(rest) =~= result@ + abogus_chars(input@.skip(i + 3)));
                if i + 3 >= input@.len() {
                    assert(input@.skip(i + 3).len() == 0);
                    assert(abogus_chars(input@.skip(i + 3)) =~= Seq::<char>::empty());
                    assert(result@ + abogus_chars(input@.skip(i + 3)) =~= result@);
                }
            } else if i + 1 < input@.len() {
                assert(rest[1] == b2);
                assert(result@ =~= before + abogus_chars(rest));
            } else {
                assert(result@ =~= before + abogus_chars(rest));
            }
        }
        i = if input.len() - i > 3 { i + 3 } else { input.len() };
    }
    // The characters written so far are `abogus_chars(input)`; the padding
    // brings their count to the next multiple of four, or adds four more.
    let r: usize = if input.len() % 3 == 0 {
        4
    } else if input.len() % 3 == 1 {
        2
    } else {
        1
    };
    proof { lemma_abogus_chars_len(input@); }
    let ghost chars = result@;
    let mut k: usize = 0;
    while k < r
        invariant
            k <= r,
            chars == abogus_chars(input@),
            r == 4 - chars.len() % 4,
            result@ == chars + Seq::new(k as nat, |t: int| '='),
        decreases r - k,
    {
        push_char(&mut result, '=');
        k = k + 1;
        assert(result@ =~= chars + Seq::new(k as nat, |t: int| '='));
    }
    result
}

// ---------------------------------------------------------------------------
// Byte scrambling with the evolving permutation BIG_ARRAY
// ---------------------------------------------------------------------------

/// The first half of a scrambling step at position `index`: the permutation
/// it reads from and the position of the key byte.
pub open spec fn scramble_head(a: Seq<u8>, index_b: int, initial_value: int, index: int) -> (Seq<u8>, int) {
    if index == 0 {
        let v = a[index_b];
        (a.update(1, v).update(index_b, index_b as u8), (index_b + v) % 256)
    } else {
        (a, initial_value % 256)
    }
}

/// One scrambling step at position `k`: the state after it.
pub open spec fn scramble_next(a: Seq<u8>, b: int, iv: int, k: int) -> (Seq<u8>, int, int) {
    let (a1, _) = scramble_head(a, b, iv, k);
    let e = a1[(k + 2) % 256];
    let s2 = (b + e) % 256;
    let v = a1[s2];
    (a1.update(s2, a1[(k + 2) % 256]).update((k + 2) % 256, v), s2, v as int)
}

/// The scrambling state (permutation, `index_b`, `initial_value`) before
/// position `n` is processed.
pub open spec fn scramble_state(n: nat) -> (Seq<u8>, int, int)
    decreases n,
{
    if n == 0 {
        (BIG_ARRAY@, BIG_ARRAY@[1] as int, 0)
    } else {
        let (a, b, iv) = scramble_state((n - 1) as nat);
        scramble_next(a, b, iv, n - 1)
    }
}

/// The key byte xored into position `n`.
pub open spec fn scramble_key(n: nat) -> u8 {
    let (a, b, iv) = scramble_state(n);
    let (a1, s) = scramble_head(a, b, iv, n as int);
    a1[s]
}

/// The scrambled bytes of `s`.
pub open spec fn transform_spec(s: Seq<u8>) -> Seq<u8> {
    Seq::new(s.len(), |k: int| s[k] ^ scramble_key(k as nat))
}

proof fn lemma_scramble_state_wf(n: nat)
    ensures
        scramble_state(n).0.len() == 256,
        0 <= scramble_state(n).1 < 256,
        0 <= scramble_state(n).2 < 256,
    decreases n,
{
    if n > 0 {
        lemma_scramble_state_wf((n - 1) as nat);
    }
}

fn scramble_step(a: &mut [u8; 256], index_b: usize, initial_value: usize, index: usize) -> (res: (u8, usize, usize))
    requires
        index_b < 256,
        initial_value < 256,
    ensures
        ({
            let (a1, s) = scramble_head(old(a)@, index_b as int, initial_value as int, index as int);
            res.0 == a1[s]
        }),
        scramble_next(old(a)@, index_b as int, initial_value as int, index as int)
            == (final(a)@, res.1 as int, res.2 as int),
        res.1 < 256,
        res.2 < 256,
{
    let mut initial_value = initial_value;
    let mut sum_initial = if index == 0 {
        initial_value = a[index_b] as usize;
        a[1] = initial_value as u8;
        a[index_b] = index_b as u8;
        index_b + initial_value
    } else {
        initial_value
    };
    sum_initial = sum_initial % 256;
    let value_f = a[sum_initial];

    let pos = (index % 256 + 2) % 256;
    assert(pos == (index + 2) % 256);
    let value_e = a[pos];
    let sum2 = (index_b + value_e as usize) % 256;
    initial_value = a[sum2] as usize;
    a[sum2] = a[pos];
    a[pos] = initial_value as u8;
    (value_f, sum2, initial_value)
}

/// Appends the scrambled bytes of `s` to `q`.
pub fn transform_bytes(s: &[u8], q: &mut Vec<u8>)
    ensures
        final(q)@ == old(q)@ + transform_spec(s@),
{
    let mut a: [u8; 256] = BIG_ARRAY;
    let mut index_b: usize = a[1] as usize;
    let mut initial_value: usize = 0;
    let mut index: usize = 0;
    let ghost start = q@;
    while index < s.len()
        invariant
            index <= s@.len(),
            scramble_state(index as nat) == (a@, index_b as int, initial_value as int),
            index_b < 256,
            initial_value < 256,
            q@.len() == start.len() + index,
            forall|k: int| 0 <= k < start.len() ==> q@[k] == start[k],
            forall|k: int| 0 <= k < index ==> q@[start.len() + k] == s@[k] ^ scramble_key(k as nat),
        decreases s@.len() - index,
    {
        let ch = s[index];
        let (value_f, b, iv) = scramble_step(&mut a, index_b, initial_value, index);
        q.push(ch ^ value_f);
        index_b = b;
        initial_value = iv;
        index = index + 1;
    }
    assert(q@ =~= start + transform_spec(s@));
}
// ---------------------------------------------------------------------------
// The web signature
// ---------------------------------------------------------------------------

/// Query pairs after `websign` at Unix time `ts` (seconds): `timestamp` and
/// `uifid` are appended, then `x-secsdk-web-signature`, the lowercase MD5 of
/// `{UIFID}_{ts}_{UIFID_SALT}_{the form-encoded pairs so far}`.
pub open spec fn websign_spec(q: Seq<(Seq<char>, Seq<char>)>, ts: int) -> Seq<(Seq<char>, Seq<char>)> {
    let q1 = q.push(("timestamp"@, dec_signed(ts))).push(("uifid"@, UIFID@));
    let text = UIFID@ + seq!['_'] + dec_signed(ts) + seq!['_'] + UIFID_SALT@ + seq!['_']
        + form_urlencoded_spec(q1);
    q1.push(("x-secsdk-web-signature"@, hex_lower_spec(md5_digest(encode_utf8(text)))))
}

proof fn lemma_query_view_push<'a>(q: Seq<(&'a str, String)>, p: (&'a str, String))
    ensures
        query_view(q.push(p)) == query_view(q).push((p.0@, p.1@)),
{
    assert(query_view(q.push(p)) =~= query_view(q).push((p.0@, p.1@)));
}

/// Appends the web-signature parameters for Unix time `timestamp`.
pub fn websign_at<'a>(query: &mut Vec<(&'a str, String)>, timestamp: i64)
    ensures
        query_view(final(query)@) == websign_spec(query_view(old(query)@), timestamp as int),
{
    let ghost q0 = query@;
    let ts = i64_to_string(timestamp);
    let ts_text = ts.clone();
    query.push(("timestamp", ts));
    query.push(("uifid", UIFID.to_owned()));
    proof {
        lemma_query_view_push(q0, ("timestamp", ts_text));
        lemma_query_view_push(q0.push(("timestamp", ts_text)), query@.last());
    }
    let params = urlencode_pairs(query.as_slice());
    let mut text = String::new();
    push_str(&mut text, UIFID);
    push_char(&mut text, '_');
    push_str(&mut text, ts_text.as_str());
    push_char(&mut text, '_');
    push_str(&mut text, UIFID_SALT);
    push_char(&mut text, '_');
    push_str(&mut text, params.as_str());
    let signature = md5_hex(text.as_str().as_bytes());
    let ghost q1 = query@;
    query.push(("x-secsdk-web-signature", signature));
    proof {
        lemma_query_view_push(q1, query@.last());
        assert(text@ =~= UIFID@ + seq!['_'] + dec_signed(timestamp as int) + seq!['_']
            + UIFID_SALT@ + seq!['_'] + form_urlencoded_spec(query_view(q1)));
    }
}

/// Appends the web-signature parameters for the current time.
pub fn websign<'a>(query: &mut Vec<(&'a str, String)>)
    ensures
        exists|ts: i64| query_view(final(query)@) == websign_spec(query_view(old(query)@), ts as int),
{
    let ts = now_seconds();
    websign_at(query, ts);
}

// ---------------------------------------------------------------------------
// The `a_bogus` parameter
// ---------------------------------------------------------------------------

/// The salt appended before hashing request parameters and body.
pub open spec fn sm3_salt() -> Seq<u8> {
    seq![99u8, 117u8, 115u8]
}

/// SM3 of the UTF-8 bytes of `s` followed by `cus`.
pub fn sm3_with_salt(s: &str) -> (res: [u8; 32])
    ensures
        res@ == sm3_digest(s.spec_bytes() + sm3_salt()),
{
    let bytes = s.as_bytes();
    let mut data: Vec<u8> = Vec::with_capacity(bytes.len());
    data.extend_from_slice(bytes);
    data.push(99u8);
    data.push(117u8);
    data.push(115u8);
    assert(data@ =~= s.spec_bytes() + sm3_salt());
    sm3(data.as_slice())
}

/// The four random-looking bytes derived from one draw `rd`.
pub open spec fn random_group(rd: u32) -> Seq<u8> {
    seq![
        (((rd & 255) & 170) | 1) as u8,
        (((rd & 255) & 85) | 2) as u8,
        (((rd >> 8) & 170) | 5) as u8,
        (((rd >> 8) & 85) | 40) as u8,
    ]
}

/// Appends the four bytes derived from the draw `rd`.
pub fn push_random_group(q: &mut Vec<u8>, rd: u32)
    ensures
        final(q)@ == old(q)@ + random_group(rd),
{
    q.push((((rd & 255) & 170) | 1) as u8);
    q.push((((rd & 255) & 85) | 2) as u8);
    q.push((((rd >> 8) & 170) | 5) as u8);
    q.push((((rd >> 8) & 85) | 40) as u8);
    assert(final(q)@ =~= old(q)@ + random_group(rd));
}

/// Appends twelve bytes: the groups of three draws below 10000.
pub fn random_bytes(q: &mut Vec<u8>)
    ensures
        exists|r0: u32, r1: u32, r2: u32|
            r0 < 10000 && r1 < 10000 && r2 < 10000 && final(q)@ == old(q)@ + random_group(r0)
                + random_group(r1) + random_group(r2),
{
    let r0 = random_inclusive(0, 9999);
    push_random_group(q, r0);
    let r1 = random_inclusive(0, 9999);
    push_random_group(q, r1);
    let r2 = random_inclusive(0, 9999);
    push_random_group(q, r2);
    assert(final(q)@ =~= old(q)@ + random_group(r0) + random_group(r1) + random_group(r2));
}

/// The browser fingerprint for the given window, screen and available sizes.
pub open spec fn fingerprint_spec(
    inner_width: u32,
    inner_height: u32,
    outer_width: u32,
    outer_height: u32,
    size_width: u32,
    size_height: u32,
    avail_width: u32,
    avail_height: u32,
) -> Seq<char> {
    let bar = seq!['|'];
    dec(inner_width as nat) + bar + dec(inner_height as nat) + bar + dec(outer_width as nat) + bar
        + dec(outer_height as nat) + bar + seq!['0', '|', '0', '|', '0', '|', '0', '|'] + dec(
        size_width as nat,
    ) + bar + dec(size_height as nat) + bar + dec(avail_width as nat) + bar + dec(
        avail_height as nat,
    ) + bar + dec(inner_width as nat) + bar + dec(inner_height as nat) + bar + "24|24|Win32"@
}

/// Formats a browser fingerprint from its sizes.
pub fn fingerprint_from(
    inner_width: u32,
    inner_height: u32,
    outer_width: u32,
    outer_height: u32,
    size_width: u32,
    size_height: u32,
    avail_width: u32,
    avail_height: u32,
) -> (res: String)
    ensures
        res@ == fingerprint_spec(
            inner_width,
            inner_height,
            outer_width,
            outer_height,
            size_width,
            size_height,
            avail_width,
            avail_height,
        ),
{
    let iw = u64_to_string(inner_width as u64);
    let ih = u64_to_string(inner_height as u64);
    let mut res = String::new();
    push_str(&mut res, iw.as_str());
    push_char(&mut res, '|');
    push_str(&mut res, ih.as_str());
    push_char(&mut res, '|');
    push_str(&mut res, u64_to_string(outer_width as u64).as_str());
    push_char(&mut res, '|');
    push_str(&mut res, u64_to_string(outer_height as u64).as_str());
    push_char(&mut res, '|');
    push_str(&mut res, "0|0|0|0|");
    push_str(&mut res, u64_to_string(size_width as u64).as_str());
    push_char(&mut res, '|');
    push_str(&mut res, u64_to_string(size_height as u64).as_str());
    push_char(&mut res, '|');
    push_str(&mut res, u64_to_string(avail_width as u64).as_str());
    push_char(&mut res, '|');
    push_str(&mut res, u64_to_string(avail_height as u64).as_str());
    push_char(&mut res, '|');
    push_str(&mut res, iw.as_str());
    push_char(&mut res, '|');
    push_str(&mut res, ih.as_str());
    push_char(&mut res, '|');
    push_str(&mut res, "24|24|Win32");
    proof {
        reveal_strlit("0|0|0|0|");
        assert(res@ =~= fingerprint_spec(
            inner_width,
            inner_height,
            outer_width,
            outer_height,
            size_width,
            size_height,
            avail_width,
            avail_height,
        ));
    }
    res
}

/// Whether a fingerprint is one that `fingerprint` can draw: sizes within
/// the ranges it draws from.
pub open spec fn drawable_fingerprint(fp: Seq<char>) -> bool {
    exists|iw: u32, ih: u32, ow: u32, oh: u32, sw: u32, sh: u32, aw: u32, ah: u32|
        1024 <= iw <= 1920 && 768 <= ih <= 1080 && iw + 24 <= ow <= iw + 32 && ih + 75 <= oh <= ih
            + 90 && 1024 <= sw <= 1920 && 768 <= sh <= 1080 && 1280 <= aw <= 1920 && 800 <= ah
            <= 1080 && fp == #[trigger] fingerprint_spec(iw, ih, ow, oh, sw, sh, aw, ah)
}

/// Whether twelve bytes are three groups of draws below 10000, as
/// `random_bytes` appends them.
pub open spec fn drawable_prefix(prefix: Seq<u8>) -> bool {
    exists|r0: u32, r1: u32, r2: u32|
        #![trigger random_group(r0), random_group(r1), random_group(r2)]
        r0 < 10000 && r1 < 10000 && r2 < 10000 && prefix == random_group(r0) + random_group(r1)
            + random_group(r2)
}

/// A random browser fingerprint: inner size in 1024..=1920 by 768..=1080,
/// outer size 24..=32 wider and 75..=90 taller, screen size in the inner
/// ranges, available size in 1280..=1920 by 800..=1080.
pub fn fingerprint() -> (res: String)
    ensures
        drawable_fingerprint(res@),
{
    let inner_width = random_inclusive(1024, 1920);
    let inner_height = random_inclusive(768, 1080);
    let outer_width = inner_width + random_inclusive(24, 32);
    let outer_height = inner_height + random_inclusive(75, 90);
    let size_width = random_inclusive(1024, 1920);
    let size_height = random_inclusive(768, 1080);
    let avail_width = random_inclusive(1280, 1920);
    let avail_height = random_inclusive(800, 1080);
    let res = fingerprint_from(
        inner_width,
        inner_height,
        outer_width,
        outer_height,
        size_width,
        size_height,
        avail_width,
        avail_height,
    );
    assert(res@ == fingerprint_spec(
        inner_width,
        inner_height,
        outer_width,
        outer_height,
        size_width,
        size_height,
        avail_width,
        avail_height,
    ));
    res
}

/// Byte `shift / 8` (counting from the least significant) of the
/// two's-complement form of `x`.
pub open spec fn byte_of(x: i64, shift: u64) -> u8 {
    (((x as u64) >> shift) & 0xff) as u8
}

/// The 72-byte parameter block of `a_bogus`: hash bytes of the parameters,
/// body and user agent, the start and end times of hashing (milliseconds),
/// the fingerprint length and fixed markers.
pub open spec fn ab_dir_spec(
    array1: Seq<u8>,
    array2: Seq<u8>,
    array3: Seq<u8>,
    start: i64,
    end: i64,
    fp_len: usize,
) -> Seq<u8> {
    Seq::new(72, |k: int| 0u8).update(8, 3u8).update(18, 44u8).update(
        20,
        byte_of(start, 24),
    ).update(21, byte_of(start, 16)).update(22, byte_of(start, 8)).update(
        23,
        byte_of(start, 0),
    ).update(24, byte_of(start, 32)).update(25, byte_of(start, 40)).update(31, 1u8).update(
        37,
        8u8,
    ).update(38, array1[21]).update(39, array1[22]).update(40, array2[21]).update(
        41,
        array2[22],
    ).update(42, array3[23]).update(43, array3[24]).update(44, byte_of(end, 24)).update(
        45,
        byte_of(end, 16),
    ).update(46, byte_of(end, 8)).update(47, byte_of(end, 0)).update(48, 3u8).update(
        49,
        byte_of(end, 32),
    ).update(50, byte_of(end, 40)).update(57, 239u8).update(58, 24u8).update(
        65,
        fp_len as u8,
    )
}

/// The parameter block, position by position: 72 bytes; bytes 21 and 22 of
/// the parameters hash at 38 and 39, of the body hash at 40 and 41, bytes 23
/// and 24 of the user-agent hash at 42 and 43; the start time at 20 to 25
/// and the end time at 44 to 47, 49 and 50, as bytes 3, 2, 1, 0, 4, 5 of
/// its two's-complement form; the fingerprint length at 65; the markers 3,
/// 44, 1, 8, 3, 239, 24 at 8, 18, 31, 37, 48, 57, 58; zero everywhere else.
pub proof fn ab_dir_layout(
    array1: Seq<u8>,
    array2: Seq<u8>,
    array3: Seq<u8>,
    start: i64,
    end: i64,
    fp_len: usize,
)
    requires
        array1.len() == 32,
        array2.len() == 32,
        array3.len() == 32,
    ensures
        ({
            let ab = ab_dir_spec(array1, array2, array3, start, end, fp_len);
            let su = start as u64;
            let eu = end as u64;
            &&& ab.len() == 72
            &&& ab[38] == array1[21] && ab[39] == array1[22]
            &&& ab[40] == array2[21] && ab[41] == array2[22]
            &&& ab[42] == array3[23] && ab[43] == array3[24]
            &&& ab[20] == ((su >> 24u64) & 0xffu64) as u8
            &&& ab[21] == ((su >> 16u64) & 0xffu64) as u8
            &&& ab[22] == ((su >> 8u64) & 0xffu64) as u8
            &&& ab[23] == (su & 0xffu64) as u8
            &&& ab[24] == ((su >> 32u64) & 0xffu64) as u8
            &&& ab[25] == ((su >> 40u64) & 0xffu64) as u8
            &&& ab[44] == ((eu >> 24u64) & 0xffu64) as u8
            &&& ab[45] == ((eu >> 16u64) & 0xffu64) as u8
            &&& ab[46] == ((eu >> 8u64) & 0xffu64) as u8
            &&& ab[47] == (eu & 0xffu64) as u8
            &&& ab[49] == ((eu >> 32u64) & 0xffu64) as u8
            &&& ab[50] == ((eu >> 40u64) & 0xffu64) as u8
            &&& ab[65] == fp_len as u8
            &&& ab[8] == 3 && ab[18] == 44 && ab[31] == 1 && ab[37] == 8
            &&& ab[48] == 3 && ab[57] == 239 && ab[58] == 24
            &&& forall|k: int|
                0 <= k < 72 && k != 8 && k != 18 && !(20 <= k <= 25) && k != 31 && !(37 <= k <= 50)
                    && k != 57 && k != 58 && k != 65 ==> #[trigger] ab[k] == 0
        }),
{
    let su = start as u64;
    let eu = end as u64;
    assert(su == (su >> 0u64)) by (bit_vector);
    assert(eu == (eu >> 0u64)) by (bit_vector);
}

fn byte_at(x: i64, shift: u64) -> (b: u8)
    requires
        shift < 64,
    ensures
        b == byte_of(x, shift),
{
    (((x as u64) >> shift) & 0xff) as u8
}

/// Builds the parameter block described by `ab_dir_spec`.
pub fn ab_dir(
    array1: &[u8; 32],
    array2: &[u8; 32],
    array3: &[u8; 32],
    start_encryption: i64,
    end_encryption: i64,
    fp_len: usize,
) -> (ab: Vec<u8>)
    ensures
        ab@ == ab_dir_spec(array1@, array2@, array3@, start_encryption, end_encryption, fp_len),
{
    let mut ab = vec![0u8; 72];
    ab.set(8, 3);
    ab.set(18, 44);
    ab.set(20, byte_at(start_encryption, 24));
    ab.set(21, byte_at(start_encryption, 16));
    ab.set(22, byte_at(start_encryption, 8));
    ab.set(23, byte_at(start_encryption, 0));
    ab.set(24, byte_at(start_encryption, 32));
    ab.set(25, byte_at(start_encryption, 40));
    // request method GET
    ab.set(31, 1);
    // header encryption marker for GET
    ab.set(37, 8);
    ab.set(38, array1[21]);
    ab.set(39, array1[22]);
    ab.set(40, array2[21]);
    ab.set(41, array2[22]);
    ab.set(42, array3[23]);
    ab.set(43, array3[24]);
    ab.set(44, byte_at(end_encryption, 24));
    ab.set(45, byte_at(end_encryption, 16));
    ab.set(46, byte_at(end_encryption, 8));
    ab.set(47, byte_at(end_encryption, 0));
    let marker = ab[8];
    ab.set(48, marker);
    ab.set(49, byte_at(end_encryption, 32));
    ab.set(50, byte_at(end_encryption, 40));
    ab.set(57, 239);
    ab.set(58, 24);
    ab.set(65, fp_len as u8);
    assert(ab@ =~= ab_dir_spec(array1@, array2@, array3@, start_encryption, end_encryption, fp_len));
    ab
}

/// `init` xored with `ab[2]`, `ab[3]`, ..., `ab[n - 1]`, left to right.
pub open spec fn xor_fold(ab: Seq<u8>, init: u8, n: int) -> u8
    decreases n,
{
    if n <= 2 {
        init
    } else {
        xor_fold(ab, init, n - 1) ^ ab[n - 1]
    }
}

/// The bytes that are scrambled into `a_bogus`: the block bytes at
/// `SORT_INDEX`, the fingerprint bytes, and a check byte.
pub open spec fn payload_spec(ab: Seq<u8>, fp: Seq<u8>) -> Seq<u8> {
    Seq::new(44, |i: int| ab[SORT_INDEX@[i] as int]) + fp + seq![xor_fold(ab, ab[18], 44)]
}

/// Collects the payload of `payload_spec` from a parameter block.
pub fn abogus_payload(ab: &Vec<u8>, browser_fp: &str) -> (res: Vec<u8>)
    requires
        ab@.len() == 72,
    ensures
        res@ == payload_spec(ab@, browser_fp.spec_bytes()),
{
    let mut sorted_values: Vec<u8> = Vec::new();
    let mut i: usize = 0;
    while i < 44
        invariant
            i <= 44,
            ab@.len() == 72,
            sorted_values@ =~= Seq::new(i as nat, |k: int| ab@[SORT_INDEX@[k] as int]),
        decreases 44 - i,
    {
        assert(SORT_INDEX@[i as int] < 72);
        sorted_values.push(ab[SORT_INDEX[i] as usize]);
        i = i + 1;
    }
    let mut ab_xor = ab[SORT_INDEX_2[0] as usize];
    let mut index: usize = 2;
    while index < 44
        invariant
            2 <= index <= 44,
            ab@.len() == 72,
            ab_xor == xor_fold(ab@, ab@[18], index as int),
        decreases 44 - index,
    {
        ab_xor = ab_xor ^ ab[index];
        index = index + 1;
    }
    let ghost sorted = sorted_values@;
    sorted_values.extend_from_slice(browser_fp.as_bytes());
    sorted_values.push(ab_xor);
    assert(sorted_values@ =~= payload_spec(ab@, browser_fp.spec_bytes()));
    sorted_values
}

/// The first hash input: the parameters, hashed salted and then hashed again.
pub open spec fn params_hash(params: Seq<char>) -> Seq<u8> {
    sm3_digest(sm3_digest(encode_utf8(params) + sm3_salt()))
}

/// The user-agent hash: SM3 of the base64 text of the RC4-encrypted agent.
pub open spec fn user_agent_hash(user_agent: Seq<char>) -> Seq<u8> {
    sm3_digest(encode_utf8(base64_spec(rc4_spec(encode_utf8(user_agent)))))
}

/// The `a_bogus` value for form-encoded parameters `params`, body `body`,
/// user agent `ua`, fingerprint `fp`, hashing times `start` and `end`, and the
/// twelve random prefix bytes `prefix`.
pub open spec fn abogus_spec(
    params: Seq<char>,
    body: Seq<char>,
    ua: Seq<char>,
    fp: Seq<char>,
    start: i64,
    end: i64,
    prefix: Seq<u8>,
) -> Seq<char> {
    let ab = ab_dir_spec(
        params_hash(params),
        params_hash(body),
        user_agent_hash(ua),
        start,
        end,
        encode_utf8(fp).len() as usize,
    );
    abogus_encode_spec(prefix + transform_spec(payload_spec(ab, encode_utf8(fp))))
}

/// Hashes the user agent as the user-agent hash of `abogus_spec` prescribes.
pub fn user_agent_digest(user_agent: &str) -> (res: [u8; 32])
    ensures
        res@ == user_agent_hash(user_agent@),
{
    let encrypted = rc4(user_agent);
    let text = base64_encode(encrypted.as_slice());
    sm3(text.as_str().as_bytes())
}

/// The user agent that signing uses: the given one, else `USER_AGENT`.
pub open spec fn user_agent_or_default(user_agent: Option<&str>) -> Seq<char> {
    match user_agent {
        Some(u) => u@,
        None => USER_AGENT@,
    }
}

/// Appends `("a_bogus", value)` to the query, where the value signs the current
/// form encoding of the query, the request body and the user agent (by default
/// `USER_AGENT`) with the fingerprint `fp` (by default a random one), the
/// current time and random bytes.
pub fn abogus<'a>(
    query: &mut Vec<(&'a str, String)>,
    body: &str,
    user_agent: Option<&str>,
    fp: Option<String>,
)
    ensures
        final(query)@.len() == old(query)@.len() + 1,
        forall|k: int| 0 <= k < old(query)@.len() ==> final(query)@[k] == old(query)@[k],
        final(query)@.last().0@ == "a_bogus"@,
        exists|browser_fp: Seq<char>, start: i64, end: i64, prefix: Seq<u8>|
            {
                &&& (fp matches Some(f) ==> browser_fp == f@)
                &&& (fp is None ==> drawable_fingerprint(browser_fp))
                &&& drawable_prefix(prefix)
                &&& prefix.len() == 12
                &&& final(query)@.last().1@ == #[trigger] abogus_spec(
                    form_urlencoded_spec(query_view(old(query)@)),
                    body@,
                    user_agent_or_default(user_agent),
                    browser_fp,
                    start,
                    end,
                    prefix,
                )
            },
{
    let ua = match user_agent {
        Some(u) => u,
        None => USER_AGENT,
    };
    let ghost fp_given = fp;
    let browser_fp = match fp {
        Some(f) => f,
        None => fingerprint(),
    };
    let params = urlencode_pairs(query.as_slice());
    let start_encryption = now_millis();
    let array1 = sm3(&sm3_with_salt(params.as_str()));
    let array2 = sm3(&sm3_with_salt(body));
    let array3 = user_agent_digest(ua);
    let end_encryption = now_millis();

    let fp_bytes = browser_fp.as_str().as_bytes();
    let block = ab_dir(&array1, &array2, &array3, start_encryption, end_encryption, fp_bytes.len());
    let payload = abogus_payload(&block, browser_fp.as_str());
    let mut abogus_bytes: Vec<u8> = Vec::with_capacity(12);
    random_bytes(&mut abogus_bytes);
    let ghost prefix = abogus_bytes@;
    transform_bytes(payload.as_slice(), &mut abogus_bytes);
    let value = abogus_encode(abogus_bytes.as_slice());
    proof {
        let (r0, r1, r2) = choose|r0: u32, r1: u32, r2: u32|
            r0 < 10000 && r1 < 10000 && r2 < 10000 && prefix == Seq::<u8>::empty()
                + random_group(r0) + random_group(r1) + random_group(r2);
        assert(prefix.len() == 12);
        assert(prefix =~= random_group(r0) + random_group(r1) + random_group(r2));
        assert(drawable_prefix(prefix));
        assert(fp_given is None ==> drawable_fingerprint(browser_fp@));
        assert(ua@ == user_agent_or_default(user_agent));
        assert(value@ == abogus_spec(
            params@,
            body@,
            user_agent_or_default(user_agent),
            browser_fp@,
            start_encryption,
            end_encryption,
            prefix,
        ));
    }
    query.push(("a_bogus", value));
}

} // verus!
