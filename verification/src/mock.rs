//! Synthetic well-formed messages for exercising the pipeline.
//!
//! A mock message is the flat record object rendered as JSON bytes:
//! `{"idx":N,"name":"...","timestamp":"..."}` with a name drawn at random
//! from a fixed set and the current time as its timestamp.

use vstd::prelude::*;

verus! {

/// Decimal digit bytes of a number, most significant first.
pub open spec fn dec_digits(v: nat) -> Seq<u8>
    decreases v,
{
    if v < 10 {
        seq![(48 + v) as u8]
    } else {
        dec_digits(v / 10).push((48 + v % 10) as u8)
    }
}

/// The bytes hold no quote, no backslash, and nothing below a space, so
/// they can stand inside a JSON string literal unescaped.
pub open spec fn plain_text(s: Seq<u8>) -> bool {
    forall|i: int| 0 <= i < s.len() ==> s[i] != 34u8 && s[i] != 92u8 && s[i] >= 32u8
}

/// The JSON rendering of one mock record.
pub open spec fn mock_payload_spec(idx: nat, name: Seq<u8>, ts: Seq<u8>) -> Seq<u8> {
    seq![123u8, 34u8, 105u8, 100u8, 120u8, 34u8, 58u8] + dec_digits(idx) + seq![
        44u8,
        34u8,
        110u8,
        97u8,
        109u8,
        101u8,
        34u8,
        58u8,
        34u8,
    ] + name + seq![
        34u8,
        44u8,
        34u8,
        116u8,
        105u8,
        109u8,
        101u8,
        115u8,
        116u8,
        97u8,
        109u8,
        112u8,
        34u8,
        58u8,
        34u8,
    ] + ts + seq![34u8, 125u8]
}

fn push_dec(v: u64, out: &mut Vec<u8>)
    ensures
        final(out)@ == old(out)@ + dec_digits(v as nat),
    decreases v,
{
    if v >= 10 {
        push_dec(v / 10, out);
        out.push(48 + (v % 10) as u8);
        proof {
            assert(final(out)@ =~= old(out)@ + dec_digits(v as nat));
        }
    } else {
        out.push(48 + v as u8);
        proof {
            assert(final(out)@ =~= old(out)@ + dec_digits(v as nat));
        }
    }
}

fn push_all(out: &mut Vec<u8>, s: &[u8])
    ensures
        final(out)@ == old(out)@ + s@,
{
    let mut i: usize = 0;
    while i < s.len()
        invariant
            i <= s@.len(),
            out@ == old(out)@ + s@.subrange(0, i as int),
        decreases s@.len() - i,
    {
        out.push(s[i]);
        proof {
            assert(old(out)@ + s@.subrange(0, i as int + 1) =~= (old(out)@ + s@.subrange(
                0,
                i as int,
            )).push(s@[i as int]));
        }
        i = i + 1;
    }
    proof {
        assert(s@.subrange(0, s@.len() as int) =~= s@);
    }
}

/// One of the fixed test names, as bytes.
pub open spec fn mock_name_spec(k: int) -> Seq<u8> {
    if k == 0 {
        // "Jimmy Test"
        seq![74u8, 105u8, 109u8, 109u8, 121u8, 32u8, 84u8, 101u8, 115u8, 116u8]
    } else if k == 1 {
        // "Jimbo Test"
        seq![74u8, 105u8, 109u8, 98u8, 111u8, 32u8, 84u8, 101u8, 115u8, 116u8]
    } else {
        // "Joe Bob"
        seq![74u8, 111u8, 101u8, 32u8, 66u8, 111u8, 98u8]
    }
}

/// Build one of the fixed test names.
pub fn mock_name(k: usize) -> (r: Vec<u8>)
    requires
        k < 3,
    ensures
        r@ == mock_name_spec(k as int),
{
    let mut r: Vec<u8> = Vec::new();
    if k == 0 {
        push_all(&mut r, &[74, 105, 109, 109, 121, 32, 84, 101, 115, 116]);
    } else if k == 1 {
        push_all(&mut r, &[74, 105, 109, 98, 111, 32, 84, 101, 115, 116]);
    } else {
        push_all(&mut r, &[74, 111, 101, 32, 66, 111, 98]);
    }
    proof {
        assert(r@ =~= mock_name_spec(k as int));
    }
    r
}

/// Render one mock record as JSON bytes, exactly.
pub fn render_mock_payload(idx: u64, name: &[u8], ts: &[u8]) -> (r: Vec<u8>)
    requires
        plain_text(name@),
        plain_text(ts@),
    ensures
        r@ == mock_payload_spec(idx as nat, name@, ts@),
{
    let mut r: Vec<u8> = Vec::new();
    push_all(&mut r, &[123, 34, 105, 100, 120, 34, 58]);
    push_dec(idx, &mut r);
    push_all(&mut r, &[44, 34, 110, 97, 109, 101, 34, 58, 34]);
    push_all(&mut r, name);
    push_all(&mut r, &[34, 44, 34, 116, 105, 109, 101, 115, 116, 97, 109, 112, 34, 58, 34]);
    push_all(&mut r, ts);
    push_all(&mut r, &[34, 125]);
    proof {
        assert(r@ =~= mock_payload_spec(idx as nat, name@, ts@));
    }
    r
}

/// Relies on rand::random to draw a machine-word sample; nothing can be
/// promised of the value.
#[verifier::external_body]
fn random_u32() -> (r: u32) {
    rand::random::<u32>()
}

/// Relies on chrono's Utc::now and DateTime::to_rfc3339_opts: the current
/// time rendered as an RFC 3339 string at microsecond precision, whose
/// characters are digits, letters and punctuation from that format —
/// never a quote, a backslash, or a control character.
#[verifier::external_body]
fn now_rfc3339_micros() -> (r: String)
    ensures
        plain_text(r@.map_values(|c: char| c as u8)),
        vstd::utf8::is_ascii_chars(r@),
{
    chrono::Utc::now().to_rfc3339_opts(chrono::SecondsFormat::Micros, true)
}

/// Generate one well-formed mock message: a random test name, the given
/// index, the current time.
pub fn gen_mock_message(idx: u64) -> (r: Vec<u8>)
    ensures
        exists|k: int, ts: Seq<u8>|
            0 <= k < 3 && plain_text(ts) && r@ == mock_payload_spec(
                idx as nat,
                mock_name_spec(k),
                ts,
            ),
{
    let pick = (random_u32() % 3) as usize;
    let name = mock_name(pick);
    let ts = now_rfc3339_micros();
    let ts_bytes = ascii_bytes(&ts);
    let r = render_mock_payload(idx, name.as_slice(), ts_bytes.as_slice());
    proof {
        let k = pick as int;
        let tsv = ts_bytes@;
        assert(0 <= k < 3 && plain_text(tsv) && r@ == mock_payload_spec(
            idx as nat,
            mock_name_spec(k),
            tsv,
        ));
    }
    r
}

/// The bytes of an ASCII string, one per character.
fn ascii_bytes(s: &String) -> (r: Vec<u8>)
    requires
        vstd::utf8::is_ascii_chars(s@),
    ensures
        r@ == s@.map_values(|c: char| c as u8),
{
    proof {
        vstd::utf8::is_ascii_chars_encode_utf8(s@);
    }
    let b = s.as_str().as_bytes();
    let mut r: Vec<u8> = Vec::new();
    let mut i: usize = 0;
    while i < b.len()
        invariant
            i <= b@.len(),
            r@ == b@.subrange(0, i as int),
        decreases b@.len() - i,
    {
        r.push(b[i]);
        proof {
            assert(b@.subrange(0, i as int + 1) =~= b@.subrange(0, i as int).push(b@[i as int]));
        }
        i = i + 1;
    }
    proof {
        assert(r@ =~= s@.map_values(|c: char| c as u8));
    }
    r
}

} // verus!
