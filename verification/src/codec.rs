//! Canonical JSON framing of a message record.
//!
//! A message's content address is the digest of its canonical serialization:
//! a JSON object with the fields `role`, `content`, `parent`, `id` in that
//! order, strings escaped as JSON requires (`"`, `\`, and control bytes below
//! 0x20; all other bytes verbatim), `parent` rendered as `null` or a string,
//! and no whitespace. The functions here state that form over byte sequences
//! and build it.

use crate::digest::{hex_digit, hex_digit_exec};
use vstd::prelude::*;

verus! {

/// The JSON escape of a single byte of UTF-8 text.
pub open spec fn esc_byte(b: u8) -> Seq<u8> {
    if b == 0x22 {
        seq![0x5cu8, 0x22]
    } else if b == 0x5c {
        seq![0x5cu8, 0x5c]
    } else if b == 0x08 {
        seq![0x5cu8, 0x62]
    } else if b == 0x09 {
        seq![0x5cu8, 0x74]
    } else if b == 0x0a {
        seq![0x5cu8, 0x6e]
    } else if b == 0x0c {
        seq![0x5cu8, 0x66]
    } else if b == 0x0d {
        seq![0x5cu8, 0x72]
    } else if b < 0x20 {
        seq![0x5cu8, 0x75, 0x30, 0x30, hex_digit(b / 16), hex_digit(b % 16)]
    } else {
        seq![b]
    }
}

/// The JSON escape of a byte sequence of UTF-8 text.
pub open spec fn escape_bytes(s: Seq<u8>) -> Seq<u8>
    decreases s.len(),
{
    if s.len() == 0 {
        Seq::empty()
    } else {
        escape_bytes(s.drop_last()) + esc_byte(s.last())
    }
}

/// The JSON string literal for the text `s`: a quote, the escaped UTF-8
/// bytes of `s`, a quote.
pub open spec fn json_string_of(s: Seq<char>) -> Seq<u8> {
    seq![0x22u8] + escape_bytes(vstd::utf8::encode_utf8(s)) + seq![0x22u8]
}

/// `null` for an absent reference, a JSON string literal for a present one.
pub open spec fn json_opt_string_of(p: Option<Seq<char>>) -> Seq<u8> {
    match p {
        None => seq![0x6eu8, 0x75, 0x6c, 0x6c],
        Some(s) => json_string_of(s),
    }
}

/// The canonical serialization of a message record:
/// `{"role":R,"content":C,"parent":P,"id":I}`.
pub open spec fn message_record(
    role: Seq<char>,
    content: Seq<char>,
    parent: Option<Seq<char>>,
    id: Seq<char>,
) -> Seq<u8> {
    seq![0x7bu8, 0x22, 0x72, 0x6f, 0x6c, 0x65, 0x22, 0x3a] + json_string_of(role)
        + seq![0x2cu8, 0x22, 0x63, 0x6f, 0x6e, 0x74, 0x65, 0x6e, 0x74, 0x22, 0x3a]
        + json_string_of(content) + seq![0x2cu8, 0x22, 0x70, 0x61, 0x72, 0x65, 0x6e, 0x74, 0x22, 0x3a]
        + json_opt_string_of(parent) + seq![0x2cu8, 0x22, 0x69, 0x64, 0x22, 0x3a] + json_string_of(id)
        + seq![0x7du8]
}

/// Whether a byte passes into JSON text unescaped.
pub open spec fn plain_byte(b: u8) -> bool {
    b >= 0x20 && b != 0x22 && b != 0x5c
}

/// Escaping distributes over concatenation.
proof fn lemma_escape_concat(a: Seq<u8>, b: Seq<u8>)
    ensures
        escape_bytes(a + b) == escape_bytes(a) + escape_bytes(b),
    decreases b.len(),
{
    if b.len() == 0 {
        assert(a + b =~= a);
        assert(escape_bytes(a) + escape_bytes(b) =~= escape_bytes(a));
    } else {
        assert((a + b).drop_last() =~= a + b.drop_last());
        assert((a + b).last() == b.last());
        lemma_escape_concat(a, b.drop_last());
        assert(escape_bytes(a) + escape_bytes(b.drop_last()) + esc_byte(b.last()) =~= escape_bytes(
            a,
        ) + escape_bytes(b));
    }
}

/// Escaping peels its first code unit off the front.
proof fn lemma_escape_front(s: Seq<u8>)
    requires
        s.len() > 0,
    ensures
        escape_bytes(s) == esc_byte(s[0]) + escape_bytes(s.drop_first()),
{
    assert(s =~= seq![s[0]] + s.drop_first());
    assert(seq![s[0]].drop_last() =~= Seq::<u8>::empty());
    assert(escape_bytes(Seq::<u8>::empty()) == Seq::<u8>::empty());
    assert(Seq::<u8>::empty() + esc_byte(s[0]) =~= esc_byte(s[0]));
    assert(escape_bytes(seq![s[0]]) =~= esc_byte(s[0]));
    lemma_escape_concat(seq![s[0]], s.drop_first());
}

/// The escape code is uniquely decodable from the front: when two streams
/// that begin with code units agree, the encoded bytes agree and so do the
/// remainders.
proof fn lemma_esc_byte_determined(x: u8, y: u8, rest_x: Seq<u8>, rest_y: Seq<u8>)
    requires
        esc_byte(x) + rest_x == esc_byte(y) + rest_y,
    ensures
        x == y,
        rest_x == rest_y,
{
    let t = esc_byte(x) + rest_x;
    assert(t == esc_byte(y) + rest_y);
    assert(plain_byte(x) <==> t[0] != 0x5c);
    assert(plain_byte(y) <==> t[0] != 0x5c);
    if plain_byte(x) {
        assert(x == t[0] && y == t[0]);
    } else {
        assert(t[1] == esc_byte(x)[1] && t[1] == esc_byte(y)[1]);
        if t[1] == 0x75 {
            assert(esc_byte(x).len() == 6 && esc_byte(y).len() == 6);
            assert(hex_digit(x / 16) == t[4] && hex_digit(y / 16) == t[4]);
            assert(hex_digit(x % 16) == t[5] && hex_digit(y % 16) == t[5]);
            assert(x / 16 == y / 16 && x % 16 == y % 16);
        }
    }
    assert(esc_byte(x).len() == esc_byte(y).len());
    assert(rest_x =~= t.subrange(esc_byte(x).len() as int, t.len() as int));
    assert(rest_y =~= t.subrange(esc_byte(y).len() as int, t.len() as int));
}

/// Stripping an equal prefix from equal sequences leaves equal remainders.
proof fn lemma_strip_prefix(pre: Seq<u8>, a: Seq<u8>, b: Seq<u8>)
    requires
        pre + a == pre + b,
    ensures
        a == b,
{
    assert(a =~= (pre + a).subrange(pre.len() as int, (pre + a).len() as int));
    assert(b =~= (pre + b).subrange(pre.len() as int, (pre + b).len() as int));
}

/// A quoted segment is uniquely decodable: no code unit begins with a quote,
/// so two streams of the form "escaped bytes, closing quote, tail" agree
/// only when the escaped bytes agree and the tails agree.
proof fn lemma_json_seg(a: Seq<u8>, b: Seq<u8>, ta: Seq<u8>, tb: Seq<u8>)
    requires
        escape_bytes(a) + seq![0x22u8] + ta == escape_bytes(b) + seq![0x22u8] + tb,
    ensures
        a == b,
        ta == tb,
    decreases a.len(),
{
    let la = escape_bytes(a) + seq![0x22u8] + ta;
    if a.len() == 0 && b.len() == 0 {
        assert(la =~= seq![0x22u8] + ta);
        assert(escape_bytes(b) + seq![0x22u8] + tb =~= seq![0x22u8] + tb);
        lemma_strip_prefix(seq![0x22u8], ta, tb);
    } else if a.len() == 0 {
        lemma_escape_front(b);
        assert(la[0] == 0x22);
        assert(la[0] == esc_byte(b[0])[0]);
        assert(esc_byte(b[0])[0] != 0x22);
    } else if b.len() == 0 {
        lemma_escape_front(a);
        assert(la[0] == 0x22);
        assert(la[0] == esc_byte(a[0])[0]);
        assert(esc_byte(a[0])[0] != 0x22);
    } else {
        lemma_escape_front(a);
        lemma_escape_front(b);
        assert(la =~= esc_byte(a[0]) + (escape_bytes(a.drop_first()) + seq![0x22u8] + ta));
        assert(escape_bytes(b) + seq![0x22u8] + tb =~= esc_byte(b[0]) + (escape_bytes(
            b.drop_first(),
        ) + seq![0x22u8] + tb));
        lemma_esc_byte_determined(
            a[0],
            b[0],
            escape_bytes(a.drop_first()) + seq![0x22u8] + ta,
            escape_bytes(b.drop_first()) + seq![0x22u8] + tb,
        );
        lemma_json_seg(a.drop_first(), b.drop_first(), ta, tb);
        assert(a =~= seq![a[0]] + a.drop_first());
        assert(b =~= seq![b[0]] + b.drop_first());
    }
}

/// The escaped UTF-8 bytes of a text.
pub open spec fn esc_text(s: Seq<char>) -> Seq<u8> {
    escape_bytes(vstd::utf8::encode_utf8(s))
}

/// What follows the id's opening quote in a record: the escaped id, its
/// closing quote, and the closing brace.
spec fn seg_id(i: Seq<char>) -> Seq<u8> {
    esc_text(i) + seq![0x22u8] + seq![0x7du8]
}

/// What follows the parent value in a record.
spec fn after_parent(i: Seq<char>) -> Seq<u8> {
    seq![0x2cu8, 0x22, 0x69, 0x64, 0x22, 0x3a, 0x22] + seg_id(i)
}

/// What follows the content's closing quote in a record, starting at the
/// parent value.
spec fn seg_parent(p: Option<Seq<char>>, i: Seq<char>) -> Seq<u8> {
    json_opt_string_of(p) + after_parent(i)
}

/// What follows the content's opening quote in a record.
spec fn after_content(p: Option<Seq<char>>, i: Seq<char>) -> Seq<u8> {
    seq![0x2cu8, 0x22, 0x70, 0x61, 0x72, 0x65, 0x6e, 0x74, 0x22, 0x3a] + seg_parent(p, i)
}

/// What follows the role's closing quote in a record.
spec fn seg_content(c: Seq<char>, p: Option<Seq<char>>, i: Seq<char>) -> Seq<u8> {
    esc_text(c) + seq![0x22u8] + after_content(p, i)
}

/// What follows the role's opening quote in a record.
spec fn after_role(c: Seq<char>, p: Option<Seq<char>>, i: Seq<char>) -> Seq<u8> {
    seq![0x2cu8, 0x22, 0x63, 0x6f, 0x6e, 0x74, 0x65, 0x6e, 0x74, 0x22, 0x3a, 0x22] + seg_content(
        c,
        p,
        i,
    )
}

/// The whole record after its fixed head, regrouped around each quoted
/// segment.
spec fn seg_role(r: Seq<char>, c: Seq<char>, p: Option<Seq<char>>, i: Seq<char>) -> Seq<u8> {
    esc_text(r) + seq![0x22u8] + after_role(c, p, i)
}

/// A record is its fixed head followed by the regrouped segments.
#[verifier::rlimit(100)]
#[verifier::spinoff_prover]
proof fn lemma_record_nested(r: Seq<char>, c: Seq<char>, p: Option<Seq<char>>, i: Seq<char>)
    ensures
        message_record(r, c, p, i) == seq![0x7bu8, 0x22, 0x72, 0x6f, 0x6c, 0x65, 0x22, 0x3a, 0x22]
            + seg_role(r, c, p, i),
{
    assert(message_record(r, c, p, i) =~= seq![0x7bu8, 0x22, 0x72, 0x6f, 0x6c, 0x65, 0x22, 0x3a, 0x22]
        + seg_role(r, c, p, i));
}

/// Canonical records are injective: equal records carry equal fields. Two
/// messages with different role, content or parent therefore hash different
/// payloads — an id collision between them could only be a digest collision,
/// never an artifact of the framing.
pub proof fn lemma_record_injective(
    r1: Seq<char>,
    c1: Seq<char>,
    p1: Option<Seq<char>>,
    i1: Seq<char>,
    r2: Seq<char>,
    c2: Seq<char>,
    p2: Option<Seq<char>>,
    i2: Seq<char>,
)
    requires
        message_record(r1, c1, p1, i1) == message_record(r2, c2, p2, i2),
    ensures
        r1 == r2,
        c1 == c2,
        p1 == p2,
        i1 == i2,
{
    lemma_record_nested(r1, c1, p1, i1);
    lemma_record_nested(r2, c2, p2, i2);
    lemma_strip_prefix(
        seq![0x7bu8, 0x22, 0x72, 0x6f, 0x6c, 0x65, 0x22, 0x3a, 0x22],
        seg_role(r1, c1, p1, i1),
        seg_role(r2, c2, p2, i2),
    );
    lemma_json_seg(
        vstd::utf8::encode_utf8(r1),
        vstd::utf8::encode_utf8(r2),
        after_role(c1, p1, i1),
        after_role(c2, p2, i2),
    );
    vstd::utf8::encode_utf8_decode_utf8(r1);
    vstd::utf8::encode_utf8_decode_utf8(r2);
    assert(r1 == r2);

    lemma_strip_prefix(
        seq![0x2cu8, 0x22, 0x63, 0x6f, 0x6e, 0x74, 0x65, 0x6e, 0x74, 0x22, 0x3a, 0x22],
        seg_content(c1, p1, i1),
        seg_content(c2, p2, i2),
    );
    lemma_json_seg(
        vstd::utf8::encode_utf8(c1),
        vstd::utf8::encode_utf8(c2),
        after_content(p1, i1),
        after_content(p2, i2),
    );
    vstd::utf8::encode_utf8_decode_utf8(c1);
    vstd::utf8::encode_utf8_decode_utf8(c2);
    assert(c1 == c2);

    lemma_strip_prefix(
        seq![0x2cu8, 0x22, 0x70, 0x61, 0x72, 0x65, 0x6e, 0x74, 0x22, 0x3a],
        seg_parent(p1, i1),
        seg_parent(p2, i2),
    );
    match (p1, p2) {
        (None, None) => {
            lemma_strip_prefix(
                seq![0x6eu8, 0x75, 0x6c, 0x6c],
                after_parent(i1),
                after_parent(i2),
            );
        },
        (None, Some(s2)) => {
            assert(seg_parent(p1, i1)[0] == 0x6e);
            assert(seg_parent(p2, i2)[0] == 0x22);
        },
        (Some(s1), None) => {
            assert(seg_parent(p1, i1)[0] == 0x22);
            assert(seg_parent(p2, i2)[0] == 0x6e);
        },
        (Some(s1), Some(s2)) => {
            assert(seg_parent(Some(s1), i1) =~= seq![0x22u8] + (esc_text(s1) + seq![0x22u8]
                + after_parent(i1)));
            assert(seg_parent(Some(s2), i2) =~= seq![0x22u8] + (esc_text(s2) + seq![0x22u8]
                + after_parent(i2)));
            lemma_strip_prefix(
                seq![0x22u8],
                esc_text(s1) + seq![0x22u8] + after_parent(i1),
                esc_text(s2) + seq![0x22u8] + after_parent(i2),
            );
            lemma_json_seg(
                vstd::utf8::encode_utf8(s1),
                vstd::utf8::encode_utf8(s2),
                after_parent(i1),
                after_parent(i2),
            );
            vstd::utf8::encode_utf8_decode_utf8(s1);
            vstd::utf8::encode_utf8_decode_utf8(s2);
            assert(s1 == s2);
        },
    }
    assert(p1 == p2);
    assert(after_parent(i1) == after_parent(i2));

    lemma_strip_prefix(
        seq![0x2cu8, 0x22, 0x69, 0x64, 0x22, 0x3a, 0x22],
        seg_id(i1),
        seg_id(i2),
    );
    lemma_json_seg(
        vstd::utf8::encode_utf8(i1),
        vstd::utf8::encode_utf8(i2),
        seq![0x7du8],
        seq![0x7du8],
    );
    vstd::utf8::encode_utf8_decode_utf8(i1);
    vstd::utf8::encode_utf8_decode_utf8(i2);
    assert(i1 == i2);
}

/// The view of an optional owned string.
pub open spec fn opt_str_view(p: Option<String>) -> Option<Seq<char>> {
    match p {
        None => None,
        Some(s) => Some(s@),
    }
}

fn escape_json(s: &[u8]) -> (r: Vec<u8>)
    ensures
        r@ == escape_bytes(s@),
{
    let mut out: Vec<u8> = Vec::new();
    let mut i: usize = 0;
    while i < s.len()
        invariant
            i <= s@.len(),
            out@ == escape_bytes(s@.take(i as int)),
        decreases s@.len() - i,
    {
        let b = s[i];
        if b == 0x22 {
            out.push(0x5c);
            out.push(0x22);
        } else if b == 0x5c {
            out.push(0x5c);
            out.push(0x5c);
        } else if b == 0x08 {
            out.push(0x5c);
            out.push(0x62);
        } else if b == 0x09 {
            out.push(0x5c);
            out.push(0x74);
        } else if b == 0x0a {
            out.push(0x5c);
            out.push(0x6e);
        } else if b == 0x0c {
            out.push(0x5c);
            out.push(0x66);
        } else if b == 0x0d {
            out.push(0x5c);
            out.push(0x72);
        } else if b < 0x20 {
            out.push(0x5c);
            out.push(0x75);
            out.push(0x30);
            out.push(0x30);
            out.push(hex_digit_exec(b / 16));
            out.push(hex_digit_exec(b % 16));
        } else {
            out.push(b);
        }
        i = i + 1;
        proof {
            assert(s@.take(i as int).drop_last() =~= s@.take(i as int - 1));
            assert(out@ =~= escape_bytes(s@.take(i as int)));
        }
    }
    proof {
        assert(s@.take(s@.len() as int) =~= s@);
    }
    out
}

fn push_json_string(out: &mut Vec<u8>, s: &str)
    ensures
        final(out)@ == old(out)@ + json_string_of(s@),
{
    out.push(0x22);
    let mut esc = escape_json(s.as_bytes());
    out.append(&mut esc);
    out.push(0x22);
    proof {
        assert(out@ =~= old(out)@ + json_string_of(s@));
    }
}

fn push_json_opt_string(out: &mut Vec<u8>, p: &Option<String>)
    ensures
        final(out)@ == old(out)@ + json_opt_string_of(opt_str_view(*p)),
{
    match p {
        None => {
            out.push(0x6e);
            out.push(0x75);
            out.push(0x6c);
            out.push(0x6c);
            proof {
                assert(out@ =~= old(out)@ + json_opt_string_of(opt_str_view(*p)));
            }
        },
        Some(s) => {
            push_json_string(out, s.as_str());
        },
    }
}

/// Builds the canonical serialization of a message record.
#[verifier::rlimit(60)]
pub fn encode_message_record(role: &str, content: &str, parent: &Option<String>, id: &str) -> (r:
    Vec<u8>)
    ensures
        r@ == message_record(role@, content@, opt_str_view(*parent), id@),
{
    let mut out: Vec<u8> = Vec::new();
    out.push(0x7b);
    out.push(0x22);
    out.push(0x72);
    out.push(0x6f);
    out.push(0x6c);
    out.push(0x65);
    out.push(0x22);
    out.push(0x3a);
    push_json_string(&mut out, role);
    out.push(0x2c);
    out.push(0x22);
    out.push(0x63);
    out.push(0x6f);
    out.push(0x6e);
    out.push(0x74);
    out.push(0x65);
    out.push(0x6e);
    out.push(0x74);
    out.push(0x22);
    out.push(0x3a);
    push_json_string(&mut out, content);
    out.push(0x2c);
    out.push(0x22);
    out.push(0x70);
    out.push(0x61);
    out.push(0x72);
    out.push(0x65);
    out.push(0x6e);
    out.push(0x74);
    out.push(0x22);
    out.push(0x3a);
    push_json_opt_string(&mut out, parent);
    out.push(0x2c);
    out.push(0x22);
    out.push(0x69);
    out.push(0x64);
    out.push(0x22);
    out.push(0x3a);
    push_json_string(&mut out, id);
    out.push(0x7d);
    proof {
        assert(out@ =~= message_record(role@, content@, opt_str_view(*parent), id@));
    }
    out
}

} // verus!
