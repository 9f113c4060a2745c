//! The canonical encoding of a record's content and its digest.

use vstd::prelude::*;
use vstd::string::StringExecFns;
use vstd::utf8::encode_utf8;
use sha2::Digest;
use crate::json::{field, Json, Member};
use crate::text::{matches_ignoring_case, no_capitals, same_ignoring_case};

verus! {

/// The ASCII code of `[`.
pub const OPEN_BRACKET: u8 = 91;

/// The ASCII code of `]`.
pub const CLOSE_BRACKET: u8 = 93;

/// The ASCII code of `{`.
pub const OPEN_BRACE: u8 = 123;

/// The ASCII code of `}`.
pub const CLOSE_BRACE: u8 = 125;

/// The ASCII code of `,`.
pub const COMMA: u8 = 44;

/// The ASCII code of `:`.
pub const COLON: u8 = 58;

/// The ASCII code of `-`.
pub const MINUS: u8 = 45;

/// The ASCII code of `0`.
pub const ZERO: u8 = 48;

/// The compact JSON text of a string: the bytes that `serde_json` writes for
/// it, quotes and escapes included.
pub uninterp spec fn json_string_bytes(s: Seq<char>) -> Seq<u8>;

/// The digits of `n` in base ten, most significant first, as ASCII.
pub open spec fn decimal_bytes(n: nat) -> Seq<u8>
    decreases n,
{
    if n < 10 {
        seq![(ZERO + n) as u8]
    } else {
        decimal_bytes(n / 10).push((ZERO + n % 10) as u8)
    }
}

/// The text of an integer: a minus sign where it is below zero, then the
/// digits of its magnitude.
pub open spec fn integer_bytes(n: int) -> Seq<u8> {
    if n < 0 {
        seq![MINUS] + decimal_bytes((-n) as nat)
    } else {
        decimal_bytes(n as nat)
    }
}

/// The compact JSON text of a value, with the members of an object in the
/// order in which the value holds them.
pub open spec fn json_bytes(v: Json) -> Seq<u8>
    decreases v,
{
    match v {
        Json::Null => encode_utf8("null"@),
        Json::Bool(b) => if b {
            encode_utf8("true"@)
        } else {
            encode_utf8("false"@)
        },
        Json::Unsigned(n) => decimal_bytes(n as nat),
        Json::Signed(n) => integer_bytes(n as int),
        Json::Real(s) => encode_utf8(s@),
        Json::Text(s) => json_string_bytes(s@),
        Json::Array(items) => seq![OPEN_BRACKET] + items_bytes(items@) + seq![CLOSE_BRACKET],
        Json::Object(members) => seq![OPEN_BRACE] + members_bytes(members@) + seq![CLOSE_BRACE],
    }
}

/// The texts of `items`, with a comma between each two.
pub open spec fn items_bytes(items: Seq<Json>) -> Seq<u8>
    decreases items,
{
    if items.len() == 0 {
        Seq::empty()
    } else if items.len() == 1 {
        json_bytes(items[0])
    } else {
        items_bytes(items.drop_last()) + seq![COMMA] + json_bytes(items.last())
    }
}

/// The text of one member: its key as a JSON string, a colon, its value.
pub open spec fn member_bytes(m: Member) -> Seq<u8>
    decreases m,
{
    json_string_bytes(m.key@) + seq![COLON] + json_bytes(m.value)
}

/// The texts of `members`, with a comma between each two.
pub open spec fn members_bytes(members: Seq<Member>) -> Seq<u8>
    decreases members,
{
    if members.len() == 0 {
        Seq::empty()
    } else if members.len() == 1 {
        member_bytes(members[0])
    } else {
        members_bytes(members.drop_last()) + seq![COMMA] + member_bytes(members.last())
    }
}

/// Calls `serde_json` for the compact text of a JSON string, by way of
/// `Value::to_string`. The contract gives that text its name, and claims no
/// more than that it depends on the characters of `s` alone.
#[verifier::external_body]
fn string_text(s: &str) -> (out: Vec<u8>)
    ensures
        out@ == json_string_bytes(s@),
{
    serde_json::Value::String(s.to_owned()).to_string().into_bytes()
}

/// Calls `serde_json` for the text of a non-negative integer, by way of
/// `Number::to_string`. The contract claims that this is the number in base
/// ten, without a sign and without leading zeros.
#[verifier::external_body]
fn decimal_text(n: u64) -> (out: Vec<u8>)
    ensures
        out@ == decimal_bytes(n as nat),
{
    serde_json::Number::from(n).to_string().into_bytes()
}

/// Appends the compact text of `v` to `out`.
pub fn write_json(v: &Json, out: &mut Vec<u8>)
    ensures
        final(out)@ == old(out)@ + json_bytes(*v),
    decreases v,
{
    match v {
        Json::Null => {
            out.extend_from_slice("null".as_bytes());
        },
        Json::Bool(b) => {
            if *b {
                out.extend_from_slice("true".as_bytes());
            } else {
                out.extend_from_slice("false".as_bytes());
            }
        },
        Json::Unsigned(n) => {
            let mut digits = decimal_text(*n);
            out.append(&mut digits);
        },
        Json::Signed(n) => {
            if *n < 0 {
                out.push(MINUS);
                let magnitude: u64 = if *n == i64::MIN {
                    9223372036854775808u64
                } else {
                    (-*n) as u64
                };
                let mut digits = decimal_text(magnitude);
                out.append(&mut digits);
            } else {
                let mut digits = decimal_text(*n as u64);
                out.append(&mut digits);
            }
        },
        Json::Real(s) => {
            out.extend_from_slice(s.as_str().as_bytes());
        },
        Json::Text(s) => {
            let mut quoted = string_text(s.as_str());
            out.append(&mut quoted);
        },
        Json::Array(items) => {
            out.push(OPEN_BRACKET);
            let mut i: usize = 0;
            while i < items.len()
                invariant
                    i <= items.len(),
                    *v == Json::Array(*items),
                    out@ == old(out)@ + seq![OPEN_BRACKET] + items_bytes(items@.take(i as int)),
                decreases items.len() - i,
            {
                if i > 0 {
                    out.push(COMMA);
                }
                assert(decreases_to!(*v => v->Array_0));
                write_json(&items[i], out);
                assert(items@.take(i + 1).drop_last() =~= items@.take(i as int));
                i += 1;
            }
            assert(items@.take(i as int) =~= items@);
            out.push(CLOSE_BRACKET);
        },
        Json::Object(members) => {
            out.push(OPEN_BRACE);
            let mut i: usize = 0;
            while i < members.len()
                invariant
                    i <= members.len(),
                    *v == Json::Object(*members),
                    out@ == old(out)@ + seq![OPEN_BRACE] + members_bytes(members@.take(i as int)),
                decreases members.len() - i,
            {
                if i > 0 {
                    out.push(COMMA);
                }
                let ghost separated = out@;
                let mut quoted = string_text(members[i].key.as_str());
                out.append(&mut quoted);
                out.push(COLON);
                assert(decreases_to!(*v => v->Object_0));
                write_json(&members[i].value, out);
                assert(members@.take(i + 1).drop_last() =~= members@.take(i as int));
                assert(out@ =~= separated + member_bytes(members@[i as int]));
                i += 1;
            }
            assert(members@.take(i as int) =~= members@);
            out.push(CLOSE_BRACE);
        },
    }
}

/// The content of a record as it is hashed: the texts of its predecessor,
/// transactions, difficulty and nonce, in this order, as one JSON array.
pub open spec fn canonical_bytes(
    predecessor: Json,
    transactions: Json,
    difficulty: Json,
    nonce: Json,
) -> Seq<u8> {
    seq![OPEN_BRACKET] + json_bytes(predecessor) + seq![COMMA] + json_bytes(transactions) + seq![COMMA]
        + json_bytes(difficulty) + seq![COMMA] + json_bytes(nonce) + seq![CLOSE_BRACKET]
}

/// Encodes the content of a record in its canonical form.
pub fn canonicalize(predecessor: &Json, transactions: &Json, difficulty: &Json, nonce: &Json) -> (out:
    Vec<u8>)
    ensures
        out@ == canonical_bytes(*predecessor, *transactions, *difficulty, *nonce),
{
    let mut out: Vec<u8> = Vec::new();
    out.push(OPEN_BRACKET);
    write_json(predecessor, &mut out);
    out.push(COMMA);
    write_json(transactions, &mut out);
    out.push(COMMA);
    write_json(difficulty, &mut out);
    out.push(COMMA);
    write_json(nonce, &mut out);
    out.push(CLOSE_BRACKET);
    out
}

/// The SHA-256 hash of a byte string.
pub uninterp spec fn sha256_digest(data: Seq<u8>) -> Seq<u8>;

/// Calls `sha2` for the SHA-256 hash of `data`, by way of `Sha256::digest`.
/// The contract gives the hash its name, and claims no more than that it
/// depends on the bytes of `data` alone.
#[verifier::external_body]
fn sha256(data: &[u8]) -> (out: Vec<u8>)
    ensures
        out@ == sha256_digest(data@),
{
    sha2::Sha256::digest(data).to_vec()
}

/// The small hexadecimal digit for a value below sixteen.
pub open spec fn hex_digit(n: u8) -> char {
    if n == 0 {
        '0'
    } else if n == 1 {
        '1'
    } else if n == 2 {
        '2'
    } else if n == 3 {
        '3'
    } else if n == 4 {
        '4'
    } else if n == 5 {
        '5'
    } else if n == 6 {
        '6'
    } else if n == 7 {
        '7'
    } else if n == 8 {
        '8'
    } else if n == 9 {
        '9'
    } else if n == 10 {
        'a'
    } else if n == 11 {
        'b'
    } else if n == 12 {
        'c'
    } else if n == 13 {
        'd'
    } else if n == 14 {
        'e'
    } else {
        'f'
    }
}

/// Two small hexadecimal digits for each byte, the high half first.
pub open spec fn hex_chars(bytes: Seq<u8>) -> Seq<char>
    decreases bytes.len(),
{
    if bytes.len() == 0 {
        Seq::empty()
    } else {
        hex_chars(bytes.drop_last()).push(hex_digit(bytes.last() / 16)).push(
            hex_digit(bytes.last() % 16),
        )
    }
}

/// The digest of a byte string as text: `0x`, then its SHA-256 hash in small
/// hexadecimal digits.
pub open spec fn digest_text(data: Seq<u8>) -> Seq<char> {
    seq!['0', 'x'] + hex_chars(sha256_digest(data))
}

/// Whether a character is one of those that a digest is written in.
pub open spec fn is_digest_char(c: char) -> bool {
    ('0' <= c <= '9') || ('a' <= c <= 'f') || c == 'x'
}

/// Small hexadecimal digits are all that `hex_chars` writes.
pub proof fn lemma_hex_chars_are_small(bytes: Seq<u8>)
    ensures
        forall|i: int|
            0 <= i < hex_chars(bytes).len() ==> is_digest_char(#[trigger] hex_chars(bytes)[i]),
    decreases bytes.len(),
{
    if bytes.len() > 0 {
        let rest = hex_chars(bytes.drop_last());
        lemma_hex_chars_are_small(bytes.drop_last());
        assert forall|i: int| 0 <= i < hex_chars(bytes).len() implies is_digest_char(
            #[trigger] hex_chars(bytes)[i],
        ) by {
            if i < rest.len() {
                assert(hex_chars(bytes)[i] == rest[i]);
            }
        }
    }
}

/// A digest has no capital letter in it.
pub proof fn lemma_digest_has_no_capitals(data: Seq<u8>)
    ensures
        no_capitals(encode_utf8(digest_text(data))),
{
    let text = digest_text(data);
    lemma_hex_chars_are_small(sha256_digest(data));
    assert forall|i: int| 0 <= i < text.len() implies is_digest_char(#[trigger] text[i]) by {}
    vstd::utf8::is_ascii_chars_encode_utf8(text);
}

fn hex_str(n: u8) -> (digit: &'static str)
    requires
        n < 16,
    ensures
        digit@ == seq![hex_digit(n)],
{
    proof {
        reveal_strlit("0");
        reveal_strlit("1");
        reveal_strlit("2");
        reveal_strlit("3");
        reveal_strlit("4");
        reveal_strlit("5");
        reveal_strlit("6");
        reveal_strlit("7");
        reveal_strlit("8");
        reveal_strlit("9");
        reveal_strlit("a");
        reveal_strlit("b");
        reveal_strlit("c");
        reveal_strlit("d");
        reveal_strlit("e");
        reveal_strlit("f");
    }
    let digit = match n {
        0 => "0",
        1 => "1",
        2 => "2",
        3 => "3",
        4 => "4",
        5 => "5",
        6 => "6",
        7 => "7",
        8 => "8",
        9 => "9",
        10 => "a",
        11 => "b",
        12 => "c",
        13 => "d",
        14 => "e",
        _ => "f",
    };
    digit
}

/// Writes a hash as a digest: `0x`, then two small hexadecimal digits for
/// each byte.
pub fn render_digest(hash: &[u8]) -> (out: String)
    ensures
        out@ == seq!['0', 'x'] + hex_chars(hash@),
{
    let mut out = "0x".to_owned();
    proof {
        reveal_strlit("0x");
    }
    let mut i: usize = 0;
    while i < hash.len()
        invariant
            i <= hash.len(),
            out@ == seq!['0', 'x'] + hex_chars(hash@.take(i as int)),
        decreases hash.len() - i,
    {
        let b: u8 = hash[i];
        out.append(hex_str(b / 16));
        out.append(hex_str(b % 16));
        assert(hash@.take(i + 1).drop_last() =~= hash@.take(i as int));
        i += 1;
    }
    assert(hash@.take(i as int) =~= hash@);
    out
}

/// The digest of `data`: its SHA-256 hash in small hexadecimal digits, after
/// the prefix `0x`.
pub fn digest(data: &[u8]) -> (out: String)
    ensures
        out@ == digest_text(data@),
{
    let hash = sha256(data);
    render_digest(hash.as_slice())
}

/// The digest of a record's content, where the record holds a predecessor,
/// transactions, a difficulty and a nonce.
pub open spec fn content_digest(record: Json) -> Option<Seq<char>> {
    match (
        field(record, "predecessor"@),
        field(record, "transactions"@),
        field(record, "difficulty"@),
        field(record, "nonce"@),
    ) {
        (Some(predecessor), Some(transactions), Some(difficulty), Some(nonce)) => Some(
            digest_text(canonical_bytes(predecessor, transactions, difficulty, nonce)),
        ),
        _ => None,
    }
}

/// Whether a record holds what its hash is made of, and holds as its hash, in
/// a string, the digest of that content; the case of letters does not count.
pub open spec fn hash_verified(record: Json) -> bool {
    match (content_digest(record), field(record, "hash"@)) {
        (Some(digest), Some(Json::Text(claimed))) => same_ignoring_case(
            encode_utf8(claimed@),
            encode_utf8(digest),
        ),
        _ => false,
    }
}

/// Computes the digest of a record's content from the record's own fields.
pub fn record_digest(json: &Json) -> (out: Option<String>)
    ensures
        match out {
            Some(text) => content_digest(*json) == Some(text@),
            None => content_digest(*json) is None,
        },
{
    let predecessor = json.get("predecessor");
    let transactions = json.get("transactions");
    let difficulty = json.get("difficulty");
    let nonce = json.get("nonce");
    match (predecessor, transactions, difficulty, nonce) {
        (Some(p), Some(t), Some(d), Some(n)) => {
            let bytes = canonicalize(p, t, d, n);
            Some(digest(bytes.as_slice()))
        },
        _ => None,
    }
}

/// Checks the hash that a record claims against the digest of its content.
pub fn verify_hash(json: &Json) -> (ok: bool)
    ensures
        ok == hash_verified(*json),
{
    match (record_digest(json), json.get("hash")) {
        (Some(digest), Some(Json::Text(claimed))) => matches_ignoring_case(
            claimed.as_str(),
            digest.as_str(),
        ),
        _ => false,
    }
}

} // verus!
