//! The `application/x-www-form-urlencoded` grammar for subscription
//! requests: `&`-separated segments, each `key=value`, keys and values
//! percent-decoded with `+` standing for space.  The subscription form
//! must carry an `email` and a `name` field.

use vstd::prelude::*;
use crate::domain::SP;

verus! {

/// ASCII `%`.
pub const PERCENT: u8 = 0x25;

/// ASCII `+`.
pub const PLUS: u8 = 0x2b;

/// ASCII `&`.
pub const AMP: u8 = 0x26;

/// ASCII `=`.
pub const EQUALS: u8 = 0x3d;

/// Why a form body was rejected.
#[derive(Clone, Copy, Debug, PartialEq, Eq)]
pub enum FormError {
    /// Some key or value holds a stray or malformed percent escape.
    MalformedEncoding,
    /// No `email` field is present.
    MissingEmail,
    /// No `name` field is present.
    MissingName,
}

pub open spec fn is_hex_digit_byte(b: u8) -> bool {
    (0x30 <= b && b <= 0x39) || (0x41 <= b && b <= 0x46) || (0x61 <= b && b <= 0x66)
}

pub open spec fn hex_digit_value(b: u8) -> int {
    if 0x30 <= b && b <= 0x39 {
        b - 0x30
    } else if 0x41 <= b && b <= 0x46 {
        b - 0x41 + 10
    } else {
        b - 0x61 + 10
    }
}

/// Percent-decoding of one component: `+` is space, `%XX` is the byte
/// `XX`; a stray `%` or a malformed escape makes the component invalid.
pub open spec fn percent_decode(s: Seq<u8>) -> Option<Seq<u8>>
    decreases s.len(),
{
    if s.len() == 0 {
        Some(Seq::<u8>::empty())
    } else if s[0] == PERCENT {
        if s.len() >= 3 && is_hex_digit_byte(s[1]) && is_hex_digit_byte(s[2]) {
            match percent_decode(s.skip(3)) {
                Some(rest) => Some(
                    seq![(hex_digit_value(s[1]) * 16 + hex_digit_value(s[2])) as u8] + rest,
                ),
                None => None,
            }
        } else {
            None
        }
    } else if s[0] == PLUS {
        match percent_decode(s.skip(1)) {
            Some(rest) => Some(seq![SP] + rest),
            None => None,
        }
    } else {
        match percent_decode(s.skip(1)) {
            Some(rest) => Some(seq![s[0]] + rest),
            None => None,
        }
    }
}

/// Index of the first occurrence of `b` in `s`, if any.
pub open spec fn first_index(s: Seq<u8>, b: u8) -> Option<int>
    decreases s.len(),
{
    if s.len() == 0 {
        None
    } else if s[0] == b {
        Some(0)
    } else {
        match first_index(s.skip(1), b) {
            Some(k) => Some(k + 1),
            None => None,
        }
    }
}

pub proof fn lemma_first_index_bounds(s: Seq<u8>, b: u8)
    ensures
        match first_index(s, b) {
            Some(k) => 0 <= k < s.len() && s[k] == b && (forall|j: int| 0 <= j < k ==> s[j] != b),
            None => forall|j: int| 0 <= j < s.len() ==> s[j] != b,
        },
    decreases s.len(),
{
    if s.len() == 0 {
    } else if s[0] == b {
    } else {
        lemma_first_index_bounds(s.skip(1), b);
        match first_index(s.skip(1), b) {
            Some(k) => {
                assert(s[k + 1] == s.skip(1)[k]);
                assert forall|j: int| 0 <= j < k + 1 implies s[j] != b by {
                    if j > 0 {
                        assert(s.skip(1)[j - 1] == s[j]);
                    }
                }
            },
            None => {
                assert forall|j: int| 0 <= j < s.len() implies s[j] != b by {
                    if j > 0 {
                        assert(s.skip(1)[j - 1] == s[j]);
                    }
                }
            },
        }
    }
}

/// The characterisation above pins `first_index` down.
pub proof fn lemma_first_index_is(s: Seq<u8>, b: u8, k: int)
    requires
        0 <= k < s.len(),
        s[k] == b,
        forall|j: int| 0 <= j < k ==> s[j] != b,
    ensures
        first_index(s, b) == Some(k),
    decreases s.len(),
{
    if k == 0 {
    } else {
        lemma_first_index_is(s.skip(1), b, k - 1);
    }
}

pub proof fn lemma_first_index_none(s: Seq<u8>, b: u8)
    requires
        forall|j: int| 0 <= j < s.len() ==> s[j] != b,
    ensures
        first_index(s, b) is None,
    decreases s.len(),
{
    if s.len() > 0 {
        lemma_first_index_none(s.skip(1), b);
    }
}

/// The body split on `&`; a body with no `&` is a single segment.
pub open spec fn spec_segments(body: Seq<u8>) -> Seq<Seq<u8>>
    decreases body.len(),
    via spec_segments_decreases
{
    match first_index(body, AMP) {
        None => seq![body],
        Some(k) => seq![body.take(k)] + spec_segments(body.skip(k + 1)),
    }
}

#[via_fn]
proof fn spec_segments_decreases(body: Seq<u8>) {
    lemma_first_index_bounds(body, AMP);
}

/// The key part of a segment: everything before the first `=`, or the
/// whole segment when it has none.
pub open spec fn seg_key(seg: Seq<u8>) -> Seq<u8> {
    match first_index(seg, EQUALS) {
        None => seg,
        Some(k) => seg.take(k),
    }
}

/// The raw value part of a segment: everything after the first `=`, or
/// empty when it has none.
pub open spec fn seg_value(seg: Seq<u8>) -> Seq<u8> {
    match first_index(seg, EQUALS) {
        None => Seq::<u8>::empty(),
        Some(k) => seg.skip(k + 1),
    }
}

/// The bytes of the `email` key.
pub open spec fn key_email() -> Seq<u8> {
    seq![0x65u8, 0x6d, 0x61, 0x69, 0x6c]
}

/// The bytes of the `name` key.
pub open spec fn key_name() -> Seq<u8> {
    seq![0x6eu8, 0x61, 0x6d, 0x65]
}

/// Fold over the segments: the first decoded `email` and `name` values
/// win; a segment that does not decode fails the whole form; a missing
/// `email` is reported before a missing `name`.
pub open spec fn scan_segments(
    segs: Seq<Seq<u8>>,
    email: Option<Seq<u8>>,
    name: Option<Seq<u8>>,
) -> Result<(Seq<u8>, Seq<u8>), FormError>
    decreases segs.len(),
{
    if segs.len() == 0 {
        match email {
            None => Err(FormError::MissingEmail),
            Some(e) => match name {
                None => Err(FormError::MissingName),
                Some(nm) => Ok((e, nm)),
            },
        }
    } else {
        match percent_decode(seg_key(segs[0])) {
            None => Err(FormError::MalformedEncoding),
            Some(k) => match percent_decode(seg_value(segs[0])) {
                None => Err(FormError::MalformedEncoding),
                Some(v) => scan_segments(
                    segs.skip(1),
                    if email is None && k == key_email() {
                        Some(v)
                    } else {
                        email
                    },
                    if name is None && k == key_name() {
                        Some(v)
                    } else {
                        name
                    },
                ),
            },
        }
    }
}

/// What parsing a subscription form body yields: the decoded email and
/// name values, or the first error in scan order.
pub open spec fn spec_parse_form(body: Seq<u8>) -> Result<(Seq<u8>, Seq<u8>), FormError> {
    scan_segments(spec_segments(body), None, None)
}

/// The raw fields of a subscription request, straight out of the form
/// body and not yet validated.
pub struct FormData {
    pub email: Vec<u8>,
    pub name: Vec<u8>,
}

/// Decode a hex digit byte.
fn hex_val(b: u8) -> (r: Option<u8>)
    ensures
        r is Some <==> is_hex_digit_byte(b),
        r matches Some(v) ==> v == hex_digit_value(b),
{
    if 0x30 <= b && b <= 0x39 {
        Some(b - 0x30)
    } else if 0x41 <= b && b <= 0x46 {
        Some(b - 0x41 + 10)
    } else if 0x61 <= b && b <= 0x66 {
        Some(b - 0x61 + 10)
    } else {
        None
    }
}

/// Percent-decode one component; `None` on a malformed escape.
pub fn decode_component(s: &[u8]) -> (r: Option<Vec<u8>>)
    ensures
        match r {
            Some(v) => percent_decode(s@) == Some(v@),
            None => percent_decode(s@) is None,
        },
{
    let n = s.len();
    let mut out: Vec<u8> = Vec::new();
    let mut i: usize = 0;
    proof {
        assert(s@.skip(0) =~= s@);
    }
    while i < n
        invariant
            n == s@.len(),
            i <= n,
            match percent_decode(s@.skip(i as int)) {
                Some(rest) => percent_decode(s@) == Some(out@ + rest),
                None => percent_decode(s@) is None,
            },
        decreases n - i,
    {
        let ghost pre = s@.skip(i as int);
        let b = s[i];
        assert(pre[0] == b);
        if b == PERCENT {
            if n - i > 2 {
                let v1 = hex_val(s[i + 1]);
                let v2 = hex_val(s[i + 2]);
                assert(pre.len() >= 3 && pre[1] == s@[i + 1] && pre[2] == s@[i + 2]);
                match (v1, v2) {
                    (Some(h1), Some(h2)) => {
                        let decoded: u8 = h1 * 16 + h2;
                        proof {
                            assert(s@.skip(i as int).skip(3) =~= s@.skip(i + 3));
                            match percent_decode(pre.skip(3)) {
                                Some(rest) => {
                                    assert(out@ + (seq![decoded] + rest) =~= out@.push(decoded)
                                        + rest);
                                },
                                None => {},
                            }
                        }
                        out.push(decoded);
                        i = i + 3;
                    },
                    _ => {
                        assert(percent_decode(pre) is None);
                        return None;
                    },
                }
            } else {
                assert(percent_decode(pre) is None);
                return None;
            }
        } else {
            let pushed: u8 = if b == PLUS {
                SP
            } else {
                b
            };
            proof {
                assert(s@.skip(i as int).skip(1) =~= s@.skip(i + 1));
                match percent_decode(pre.skip(1)) {
                    Some(rest) => {
                        assert(out@ + (seq![pushed] + rest) =~= out@.push(pushed) + rest);
                    },
                    None => {},
                }
            }
            out.push(pushed);
            i = i + 1;
        }
    }
    proof {
        assert(s@.skip(n as int) =~= Seq::<u8>::empty());
        assert(out@ + Seq::<u8>::empty() =~= out@);
    }
    Some(out)
}

/// First occurrence of `target` in `s[from..end]`.
fn find_byte(s: &[u8], from: usize, end: usize, target: u8) -> (r: Option<usize>)
    requires
        from <= end <= s@.len(),
    ensures
        match r {
            Some(k) => from <= k < end && s@[k as int] == target && (forall|j: int|
                from <= j < k ==> s@[j] != target),
            None => forall|j: int| from <= j < end ==> s@[j] != target,
        },
{
    let mut i: usize = from;
    while i < end
        invariant
            from <= i <= end <= s@.len(),
            forall|j: int| from <= j < i ==> s@[j] != target,
        decreases end - i,
    {
        if s[i] == target {
            return Some(i);
        }
        i = i + 1;
    }
    None
}

/// The decoded key equals `email`.
fn is_key_email(k: &Vec<u8>) -> (r: bool)
    ensures
        r <==> k@ == key_email(),
{
    let r = k.len() == 5 && k[0] == 0x65 && k[1] == 0x6d && k[2] == 0x61 && k[3] == 0x69 && k[4]
        == 0x6c;
    proof {
        if r {
            assert(k@ =~= key_email());
        }
    }
    r
}

/// The decoded key equals `name`.
fn is_key_name(k: &Vec<u8>) -> (r: bool)
    ensures
        r <==> k@ == key_name(),
{
    let r = k.len() == 4 && k[0] == 0x6e && k[1] == 0x61 && k[2] == 0x6d && k[3] == 0x65;
    proof {
        if r {
            assert(k@ =~= key_name());
        }
    }
    r
}

pub open spec fn opt_view(o: Option<Vec<u8>>) -> Option<Seq<u8>> {
    match o {
        None => None,
        Some(v) => Some(v@),
    }
}

/// Parse a subscription form body into its raw `email` and `name`
/// fields, exactly as the form grammar reads it.
#[verifier::rlimit(80)]
pub fn parse_form(body: &[u8]) -> (r: Result<FormData, FormError>)
    ensures
        r matches Ok(fd) ==> spec_parse_form(body@) == Ok::<(Seq<u8>, Seq<u8>), FormError>(
            (fd.email@, fd.name@),
        ),
        r matches Err(e) ==> spec_parse_form(body@) == Err::<(Seq<u8>, Seq<u8>), FormError>(e),
{
    let n = body.len();
    let mut pos: usize = 0;
    let mut email: Option<Vec<u8>> = None;
    let mut name: Option<Vec<u8>> = None;
    proof {
        assert(body@.skip(0) =~= body@);
    }
    loop
        invariant
            pos <= n,
            n == body@.len(),
            spec_parse_form(body@) == scan_segments(
                spec_segments(body@.skip(pos as int)),
                opt_view(email),
                opt_view(name),
            ),
        decreases n - pos,
    {
        let ghost rem = body@.skip(pos as int);
        let amp = find_byte(body, pos, n, AMP);
        let seg_end = match amp {
            Some(k) => k,
            None => n,
        };
        let ghost seg = body@.subrange(pos as int, seg_end as int);
        // key/value split inside the segment
        let eq = find_byte(body, pos, seg_end, EQUALS);
        let (key_end, val_start): (usize, usize) = match eq {
            Some(k) => (k, k + 1),
            None => (seg_end, seg_end),
        };
        proof {
            // the segment is the next entry of the split
            match amp {
                Some(k) => {
                    assert(rem[k - pos] == AMP);
                    assert(forall|j: int| 0 <= j < k - pos ==> rem[j] != AMP);
                    lemma_first_index_is(rem, AMP, k - pos);
                    assert(rem.take(k - pos) =~= seg);
                    assert(rem.skip(k - pos + 1) =~= body@.skip(k + 1));
                    assert(spec_segments(rem) == seq![seg] + spec_segments(body@.skip(k + 1)));
                    assert(spec_segments(rem)[0] == seg);
                    assert(spec_segments(rem).skip(1) =~= spec_segments(body@.skip(k + 1)));
                },
                None => {
                    lemma_first_index_none(rem, AMP);
                    assert(rem =~= seg);
                    assert(spec_segments(rem) == seq![seg]);
                    assert(spec_segments(rem)[0] == seg);
                    assert(spec_segments(rem).skip(1) =~= Seq::<Seq<u8>>::empty());
                },
            }
            // the key and value parts of the segment
            match eq {
                Some(k) => {
                    assert(seg[k - pos] == EQUALS);
                    assert(forall|j: int| 0 <= j < k - pos ==> seg[j] != EQUALS);
                    lemma_first_index_is(seg, EQUALS, k - pos);
                    assert(seg.take(k - pos) =~= body@.subrange(pos as int, key_end as int));
                    assert(seg.skip(k - pos + 1) =~= body@.subrange(
                        val_start as int,
                        seg_end as int,
                    ));
                },
                None => {
                    lemma_first_index_none(seg, EQUALS);
                    assert(body@.subrange(pos as int, key_end as int) =~= seg);
                    assert(body@.subrange(val_start as int, seg_end as int) =~= Seq::<
                        u8,
                    >::empty());
                },
            }
        }
        let raw_key = vstd::slice::slice_subrange(body, pos, key_end);
        let raw_val = vstd::slice::slice_subrange(body, val_start, seg_end);
        let dk = decode_component(raw_key);
        let dv = decode_component(raw_val);
        let dk = match dk {
            Some(v) => v,
            None => {
                return Err(FormError::MalformedEncoding);
            },
        };
        let dv = match dv {
            Some(v) => v,
            None => {
                return Err(FormError::MalformedEncoding);
            },
        };
        proof {
            assert(percent_decode(seg_key(seg)) == Some(dk@));
            assert(percent_decode(seg_value(seg)) == Some(dv@));
            assert(key_email().len() != key_name().len());
        }
        let take_email = email.is_none() && is_key_email(&dk);
        let take_name = name.is_none() && is_key_name(&dk);
        if take_email {
            email = Some(dv);
        } else if take_name {
            name = Some(dv);
        }
        match amp {
            Some(k) => {
                pos = k + 1;
            },
            None => {
                proof {
                    reveal_with_fuel(scan_segments, 3);
                }
                match (email, name) {
                    (Some(e), Some(nm)) => {
                        return Ok(FormData { email: e, name: nm });
                    },
                    (None, _) => {
                        return Err(FormError::MissingEmail);
                    },
                    (Some(_), None) => {
                        return Err(FormError::MissingName);
                    },
                }
            },
        }
    }
}

} // verus!
