//! The wire format: NUL-free JSON call documents, and byte scanning.

use vstd::prelude::*;

verus! {

/// A byte sequence with no NUL byte, as required of every framed document.
pub open spec fn nul_free(s: Seq<u8>) -> bool {
    forall|i: int| 0 <= i < s.len() ==> s[i] != 0
}

/// Relies on memchr::memchr: the index of the first occurrence of `needle`
/// in `haystack`, or nothing when it does not occur.
#[verifier::external_body]
pub(crate) fn find_byte(needle: u8, haystack: &[u8]) -> (r: Option<usize>)
    ensures
        match r {
            Some(i) => {
                &&& i < haystack@.len()
                &&& haystack@[i as int] == needle
                &&& forall|j: int| 0 <= j < i ==> haystack@[j] != needle
            },
            None => forall|j: int| 0 <= j < haystack@.len() ==> haystack@[j] != needle,
        },
{
    memchr::memchr(needle, haystack)
}

/// A message that can stand framed on the wire: at least one byte, none of
/// them NUL.
pub open spec fn wire_message(m: Seq<u8>) -> bool {
    &&& m.len() >= 1
    &&& nul_free(m)
}

/// Index of the first NUL byte of `buf` at or after `from`, or the length
/// of `buf` when none occurs there.
pub open spec fn first_nul(buf: Seq<u8>, from: int) -> int
    recommends
        0 <= from <= buf.len(),
    decreases buf.len() - from,
{
    if from < 0 || from >= buf.len() {
        buf.len() as int
    } else if buf[from] == 0 {
        from
    } else {
        first_nul(buf, from + 1)
    }
}

/// The characterizing fact of `first_nul`: where a NUL stands at `n` and
/// none stands in `[from, n)`, the first NUL at or after `from` is `n`.
pub proof fn lemma_first_nul_exact(buf: Seq<u8>, from: int, n: int)
    requires
        0 <= from <= n < buf.len(),
        buf[n] == 0,
        forall|j: int| from <= j < n ==> buf[j] != 0,
    ensures
        first_nul(buf, from) == n,
    decreases n - from,
{
    if from < n {
        lemma_first_nul_exact(buf, from + 1, n);
    }
}

/// Lower-case hexadecimal digit of a value below 16.
pub open spec fn hex_digit(n: int) -> u8
    recommends
        0 <= n < 16,
{
    if n < 10 {
        (48 + n) as u8
    } else {
        (87 + n) as u8
    }
}

/// JSON string escaping of one byte: quote and backslash get a leading
/// backslash, control bytes become `\u00XX`, every other byte stands as
/// itself.
pub open spec fn json_escape_byte(b: u8) -> Seq<u8> {
    if b == 34 {
        seq![92u8, 34u8]
    } else if b == 92 {
        seq![92u8, 92u8]
    } else if b < 32 {
        seq![92u8, 117u8, 48u8, 48u8, hex_digit(b as int / 16), hex_digit(b as int % 16)]
    } else {
        seq![b]
    }
}

/// JSON string escaping of a whole byte sequence.
pub open spec fn json_escape(s: Seq<u8>) -> Seq<u8>
    decreases s.len(),
{
    if s.len() == 0 {
        Seq::empty()
    } else {
        json_escape(s.drop_last()) + json_escape_byte(s.last())
    }
}

/// The bytes of `{"method":"`.
pub open spec fn doc_open() -> Seq<u8> {
    seq![123u8, 34u8, 109u8, 101u8, 116u8, 104u8, 111u8, 100u8, 34u8, 58u8, 34u8]
}

/// The bytes of `","parameters":`.
pub open spec fn doc_params() -> Seq<u8> {
    seq![
        34u8,
        44u8,
        34u8,
        112u8,
        97u8,
        114u8,
        97u8,
        109u8,
        101u8,
        116u8,
        101u8,
        114u8,
        115u8,
        34u8,
        58u8,
    ]
}

/// The bytes of `true` or `false`.
pub open spec fn bool_lit(b: bool) -> Seq<u8> {
    if b {
        seq![116u8, 114u8, 117u8, 101u8]
    } else {
        seq![102u8, 97u8, 108u8, 115u8, 101u8]
    }
}

/// The bytes of `one_way`.
pub open spec fn flag_one_way() -> Seq<u8> {
    seq![111u8, 110u8, 101u8, 95u8, 119u8, 97u8, 121u8]
}

/// The bytes of `more`.
pub open spec fn flag_more() -> Seq<u8> {
    seq![109u8, 111u8, 114u8, 101u8]
}

/// The bytes of `upgrade`.
pub open spec fn flag_upgrade() -> Seq<u8> {
    seq![117u8, 112u8, 103u8, 114u8, 97u8, 100u8, 101u8]
}

/// `,"<name>":<value>` for a flag that is given; nothing for an absent one.
pub open spec fn flag_field(name: Seq<u8>, v: Option<bool>) -> Seq<u8> {
    match v {
        None => Seq::empty(),
        Some(b) => seq![44u8, 34u8] + name + seq![34u8, 58u8] + bool_lit(b),
    }
}

/// The complete call document: the escaped fully qualified method name, the
/// caller's already-encoded parameter value, and the three optional flags,
/// each present exactly when the caller set it.
pub open spec fn call_document(
    name: Seq<u8>,
    params: Seq<u8>,
    one_way: Option<bool>,
    more: Option<bool>,
    upgrade: Option<bool>,
) -> Seq<u8> {
    doc_open() + json_escape(name) + doc_params() + params + flag_field(flag_one_way(), one_way)
        + flag_field(flag_more(), more) + flag_field(flag_upgrade(), upgrade) + seq![125u8]
}

/// Concatenation keeps byte sequences NUL-free.
pub proof fn lemma_nul_free_concat(a: Seq<u8>, b: Seq<u8>)
    requires
        nul_free(a),
        nul_free(b),
    ensures
        nul_free(a + b),
{
    assert forall|i: int| 0 <= i < (a + b).len() implies (a + b)[i] != 0 by {
        if i < a.len() {
            assert((a + b)[i] == a[i]);
        } else {
            assert((a + b)[i] == b[i - a.len()]);
        }
    }
}

/// JSON string escaping never produces a NUL byte.
pub proof fn lemma_json_escape_nul_free(s: Seq<u8>)
    ensures
        nul_free(json_escape(s)),
    decreases s.len(),
{
    if s.len() > 0 {
        lemma_json_escape_nul_free(s.drop_last());
        assert(nul_free(json_escape_byte(s.last())));
        lemma_nul_free_concat(json_escape(s.drop_last()), json_escape_byte(s.last()));
    }
}

/// A flag field holds no NUL byte.
proof fn lemma_flag_field_nul_free(name: Seq<u8>, v: Option<bool>)
    requires
        nul_free(name),
    ensures
        nul_free(flag_field(name, v)),
{
    match v {
        None => {},
        Some(b) => {
            lemma_nul_free_concat(seq![44u8, 34u8], name);
            lemma_nul_free_concat(seq![44u8, 34u8] + name, seq![34u8, 58u8]);
            lemma_nul_free_concat(seq![44u8, 34u8] + name + seq![34u8, 58u8], bool_lit(b));
        },
    }
}

/// Every call document over NUL-free parameters is a wire message: it is
/// nonempty and holds no NUL byte, so it frames cleanly between its own
/// terminator and the next message.
pub proof fn lemma_call_document_wire_message(
    name: Seq<u8>,
    params: Seq<u8>,
    one_way: Option<bool>,
    more: Option<bool>,
    upgrade: Option<bool>,
)
    requires
        nul_free(params),
    ensures
        wire_message(call_document(name, params, one_way, more, upgrade)),
{
    lemma_json_escape_nul_free(name);
    lemma_flag_field_nul_free(flag_one_way(), one_way);
    lemma_flag_field_nul_free(flag_more(), more);
    lemma_flag_field_nul_free(flag_upgrade(), upgrade);
    let d1 = doc_open() + json_escape(name);
    lemma_nul_free_concat(doc_open(), json_escape(name));
    let d2 = d1 + doc_params();
    lemma_nul_free_concat(d1, doc_params());
    let d3 = d2 + params;
    lemma_nul_free_concat(d2, params);
    let d4 = d3 + flag_field(flag_one_way(), one_way);
    lemma_nul_free_concat(d3, flag_field(flag_one_way(), one_way));
    let d5 = d4 + flag_field(flag_more(), more);
    lemma_nul_free_concat(d4, flag_field(flag_more(), more));
    let d6 = d5 + flag_field(flag_upgrade(), upgrade);
    lemma_nul_free_concat(d5, flag_field(flag_upgrade(), upgrade));
    lemma_nul_free_concat(d6, seq![125u8]);
}

/// Lower-case hexadecimal digit of a value below 16.
fn hex_digit_exec(n: u8) -> (r: u8)
    requires
        n < 16,
    ensures
        r == hex_digit(n as int),
{
    if n < 10 {
        48 + n
    } else {
        87 + n
    }
}

/// Append the JSON string escaping of `s` to `out`.
fn push_escaped(out: &mut Vec<u8>, s: &[u8])
    ensures
        final(out)@ == old(out)@ + json_escape(s@),
{
    let n = s.len();
    let mut i: usize = 0;
    while i < n
        invariant
            n == s@.len(),
            i <= n,
            out@ == old(out)@ + json_escape(s@.subrange(0, i as int)),
        decreases n - i,
    {
        let b = s[i];
        if b == 34 {
            out.push(92);
            out.push(34);
        } else if b == 92 {
            out.push(92);
            out.push(92);
        } else if b < 32 {
            out.push(92);
            out.push(117);
            out.push(48);
            out.push(48);
            out.push(hex_digit_exec(b / 16));
            out.push(hex_digit_exec(b % 16));
        } else {
            out.push(b);
        }
        proof {
            let pre = s@.subrange(0, i as int + 1);
            assert(pre.drop_last() =~= s@.subrange(0, i as int));
            assert(pre.last() == s@[i as int]);
            assert(out@ =~= old(out)@ + json_escape(s@.subrange(0, i as int + 1)));
        }
        i = i + 1;
    }
    proof {
        assert(s@.subrange(0, n as int) =~= s@);
    }
}

/// Append the bytes of `{"method":"` to `out`.
fn push_doc_open(out: &mut Vec<u8>)
    ensures
        final(out)@ == old(out)@ + doc_open(),
{
    out.push(123);
    out.push(34);
    out.push(109);
    out.push(101);
    out.push(116);
    out.push(104);
    out.push(111);
    out.push(100);
    out.push(34);
    out.push(58);
    out.push(34);
    proof {
        assert(out@ =~= old(out)@ + doc_open());
    }
}

/// Append the bytes of `","parameters":` to `out`.
fn push_doc_params(out: &mut Vec<u8>)
    ensures
        final(out)@ == old(out)@ + doc_params(),
{
    out.push(34);
    out.push(44);
    out.push(34);
    out.push(112);
    out.push(97);
    out.push(114);
    out.push(97);
    out.push(109);
    out.push(101);
    out.push(116);
    out.push(101);
    out.push(114);
    out.push(115);
    out.push(34);
    out.push(58);
    proof {
        assert(out@ =~= old(out)@ + doc_params());
    }
}

/// Append the bytes of `true` or `false` to `out`.
fn push_bool(out: &mut Vec<u8>, b: bool)
    ensures
        final(out)@ == old(out)@ + bool_lit(b),
{
    if b {
        out.push(116);
        out.push(114);
        out.push(117);
        out.push(101);
    } else {
        out.push(102);
        out.push(97);
        out.push(108);
        out.push(115);
        out.push(101);
    }
    proof {
        assert(out@ =~= old(out)@ + bool_lit(b));
    }
}

/// Append the `one_way` flag field to `out`, when given.
fn push_flag_one_way(out: &mut Vec<u8>, v: Option<bool>)
    ensures
        final(out)@ == old(out)@ + flag_field(flag_one_way(), v),
{
    match v {
        None => {
            proof {
                assert(out@ =~= old(out)@ + flag_field(flag_one_way(), v));
            }
        },
        Some(b) => {
            out.push(44);
            out.push(34);
            out.push(111);
            out.push(110);
            out.push(101);
            out.push(95);
            out.push(119);
            out.push(97);
            out.push(121);
            out.push(34);
            out.push(58);
            push_bool(out, b);
            proof {
                assert(out@ =~= old(out)@ + flag_field(flag_one_way(), v));
            }
        },
    }
}

/// Append the `more` flag field to `out`, when given.
fn push_flag_more(out: &mut Vec<u8>, v: Option<bool>)
    ensures
        final(out)@ == old(out)@ + flag_field(flag_more(), v),
{
    match v {
        None => {
            proof {
                assert(out@ =~= old(out)@ + flag_field(flag_more(), v));
            }
        },
        Some(b) => {
            out.push(44);
            out.push(34);
            out.push(109);
            out.push(111);
            out.push(114);
            out.push(101);
            out.push(34);
            out.push(58);
            push_bool(out, b);
            proof {
                assert(out@ =~= old(out)@ + flag_field(flag_more(), v));
            }
        },
    }
}

/// Append the `upgrade` flag field to `out`, when given.
fn push_flag_upgrade(out: &mut Vec<u8>, v: Option<bool>)
    ensures
        final(out)@ == old(out)@ + flag_field(flag_upgrade(), v),
{
    match v {
        None => {
            proof {
                assert(out@ =~= old(out)@ + flag_field(flag_upgrade(), v));
            }
        },
        Some(b) => {
            out.push(44);
            out.push(34);
            out.push(117);
            out.push(112);
            out.push(103);
            out.push(114);
            out.push(97);
            out.push(100);
            out.push(101);
            out.push(34);
            out.push(58);
            push_bool(out, b);
            proof {
                assert(out@ =~= old(out)@ + flag_field(flag_upgrade(), v));
            }
        },
    }
}

/// Encode the call document for `name`, `params`, and the flags into `out`,
/// replacing whatever `out` held.
pub(crate) fn build_document(
    out: &mut Vec<u8>,
    name: &[u8],
    params: &[u8],
    one_way: Option<bool>,
    more: Option<bool>,
    upgrade: Option<bool>,
) -> (r: ())
    ensures
        final(out)@ == call_document(name@, params@, one_way, more, upgrade),
{
    out.clear();
    push_doc_open(out);
    push_escaped(out, name);
    push_doc_params(out);
    out.extend_from_slice(params);
    push_flag_one_way(out, one_way);
    push_flag_more(out, more);
    push_flag_upgrade(out, upgrade);
    out.push(125);
    proof {
        assert(out@ =~= call_document(name@, params@, one_way, more, upgrade));
    }
}

} // verus!
