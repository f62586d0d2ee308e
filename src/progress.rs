use vstd::prelude::*;

use crate::body::copy_range;
use crate::decimal::{parse_decimal, parse_decimal_bytes};

verus! {

/// A fraction `num / den`, with `den > 0`.
#[derive(PartialEq, Eq, Structural, Debug, Clone, Copy)]
pub struct Ratio {
    pub num: u64,
    pub den: u64,
}

/// The fraction capped at one.
pub open spec fn clamp_ratio(r: Ratio) -> Ratio {
    if r.num > r.den {
        Ratio { num: 1, den: 1 }
    } else {
        r
    }
}

/// `r <= s` as fractions.
pub open spec fn ratio_le(r: Ratio, s: Ratio) -> bool {
    (r.num as int) * (s.den as int) <= (s.num as int) * (r.den as int)
}

/// How far a transfer is: what has been moved and what the whole is.
pub struct UploadProgressStatus {
    pub request_uuid: u128,
    pub req_path: String,
    pub completed: Ratio,
    pub total: usize,
    pub received: usize,
}

/// How far a download is: the bytes received of the announced length.
pub struct DownloadProgressStatus {
    pub req_path: String,
    pub request_uuid: u128,
    pub progress: Ratio,
    pub total: usize,
    pub received: usize,
}

impl UploadProgressStatus {
    pub fn clone_status(&self) -> (r: UploadProgressStatus)
        ensures
            r.request_uuid == self.request_uuid,
            r.req_path@ == self.req_path@,
            r.completed == self.completed,
            r.total == self.total,
            r.received == self.received,
    {
        UploadProgressStatus {
            request_uuid: self.request_uuid,
            req_path: self.req_path.clone(),
            completed: self.completed,
            total: self.total,
            received: self.received,
        }
    }

    /// A status whose fraction is capped at one.
    pub fn new(req_path: &str, request_uuid: u128, received: usize, total: usize, ratio: Ratio) -> (r:
        UploadProgressStatus)
        requires
            ratio.den > 0,
        ensures
            r.req_path@ == req_path@,
            r.request_uuid == request_uuid,
            r.received == received,
            r.total == total,
            r.completed == clamp_ratio(ratio),
    {
        let completed = if ratio.num > ratio.den {
            Ratio { num: 1, den: 1 }
        } else {
            ratio
        };
        UploadProgressStatus {
            request_uuid,
            req_path: req_path.to_owned(),
            completed,
            total,
            received,
        }
    }

    pub fn uuid(&self) -> (r: u128)
        ensures
            r == self.request_uuid,
    {
        self.request_uuid
    }

    pub fn req_path(&self) -> (r: String)
        ensures
            r@ == self.req_path@,
    {
        self.req_path.clone()
    }

    pub fn progress(&self) -> (r: Ratio)
        ensures
            r == self.completed,
    {
        self.completed
    }

    /// Reads a progress report of the form
    /// `progress=<fraction>%&written=<digits>%&total=<digits>`; the
    /// fraction is digits with an optional decimal point.
    pub fn from_bytes(req_path: &str, request_uuid: u128, bytes: &[u8]) -> (r: Option<
        UploadProgressStatus,
    >)
        ensures
            r is Some == parse_progress(bytes@) is Some,
            r matches Some(st) ==> {
                let (num, den, w, t) = parse_progress(bytes@)->Some_0;
                &&& st.req_path@ == req_path@
                &&& st.request_uuid == request_uuid
                &&& st.completed == clamp_ratio(Ratio { num: num as u64, den: den as u64 })
                &&& st.received == w
                &&& st.total == t
            },
    {
        match parse_progress_fields(bytes) {
            Some((ratio, w, t)) => Some(UploadProgressStatus::new(req_path, request_uuid, w, t, ratio)),
            None => None,
        }
    }
}

impl DownloadProgressStatus {
    pub fn clone_status(&self) -> (r: DownloadProgressStatus)
        ensures
            r.request_uuid == self.request_uuid,
            r.req_path@ == self.req_path@,
            r.progress == self.progress,
            r.total == self.total,
            r.received == self.received,
    {
        DownloadProgressStatus {
            req_path: self.req_path.clone(),
            request_uuid: self.request_uuid,
            progress: self.progress,
            total: self.total,
            received: self.received,
        }
    }

    /// A status whose fraction is capped at one.
    pub fn new(req_path: &str, request_uuid: u128, received: usize, total: usize, ratio: Ratio) -> (r:
        DownloadProgressStatus)
        requires
            ratio.den > 0,
        ensures
            r.req_path@ == req_path@,
            r.request_uuid == request_uuid,
            r.received == received,
            r.total == total,
            r.progress == clamp_ratio(ratio),
    {
        let progress = if ratio.num > ratio.den {
            Ratio { num: 1, den: 1 }
        } else {
            ratio
        };
        DownloadProgressStatus { req_path: req_path.to_owned(), request_uuid, progress, total, received }
    }

    pub fn uuid(&self) -> (r: u128)
        ensures
            r == self.request_uuid,
    {
        self.request_uuid
    }

    pub fn req_path(&self) -> (r: String)
        ensures
            r@ == self.req_path@,
    {
        self.req_path.clone()
    }

    pub fn progress(&self) -> (r: Ratio)
        ensures
            r == self.progress,
    {
        self.progress
    }
}

pub open spec fn starts_with(s: Seq<u8>, prefix: Seq<u8>) -> bool {
    s.len() >= prefix.len() && s.subrange(0, prefix.len() as int) == prefix
}

/// The index of the first `b` in `s`, or the length of `s` when there is none.
pub open spec fn first_index(s: Seq<u8>, b: u8) -> nat
    decreases s.len(),
{
    if s.len() == 0 {
        0
    } else if s[0] == b {
        0
    } else {
        1 + first_index(s.drop_first(), b)
    }
}

pub open spec fn pow10(k: nat) -> nat
    decreases k,
{
    if k == 0 {
        1
    } else {
        10 * pow10((k - 1) as nat)
    }
}

/// `progress=`
pub open spec fn progress_key() -> Seq<u8> {
    seq![112u8, 114, 111, 103, 114, 101, 115, 115, 61]
}

/// `%&written=`
pub open spec fn written_key() -> Seq<u8> {
    seq![37u8, 38, 119, 114, 105, 116, 116, 101, 110, 61]
}

/// `%&total=`
pub open spec fn total_key() -> Seq<u8> {
    seq![37u8, 38, 116, 111, 116, 97, 108, 61]
}

/// The fraction that digits with an optional decimal point spell, as a
/// numerator and a power of ten.
pub open spec fn fraction_value(p: Seq<u8>) -> Option<(nat, nat)> {
    let k = first_index(p, 46);
    if k == p.len() {
        match parse_decimal(p) {
            Some(v) => if v <= u64::MAX {
                Some((v, 1nat))
            } else {
                None
            },
            None => None,
        }
    } else {
        let a = p.subrange(0, k as int);
        let b = p.subrange(k as int + 1, p.len() as int);
        if parse_decimal(a) is Some && parse_decimal(b) is Some && pow10(b.len()) <= u64::MAX {
            match parse_decimal(a + b) {
                Some(v) => if v <= u64::MAX {
                    Some((v, pow10(b.len())))
                } else {
                    None
                },
                None => None,
            }
        } else {
            None
        }
    }
}

/// A field that opens with `key`: its value, up to the next `%` or the end,
/// and what follows from that `%` on.
pub open spec fn field(s: Seq<u8>, key: Seq<u8>) -> Option<(Seq<u8>, Seq<u8>)> {
    if !starts_with(s, key) {
        None
    } else {
        let a = s.subrange(key.len() as int, s.len() as int);
        let i = first_index(a, 37);
        Some((a.subrange(0, i as int), a.subrange(i as int, a.len() as int)))
    }
}

/// The fields of a progress report: numerator and denominator of the
/// fraction, bytes written and total.
pub open spec fn parse_progress(s: Seq<u8>) -> Option<(nat, nat, nat, nat)> {
    match field(s, progress_key()) {
        None => None,
        Some((p, r1)) => match field(r1, written_key()) {
            None => None,
            Some((w, r2)) => if !starts_with(r2, total_key()) {
                None
            } else {
                let t = r2.subrange(8, r2.len() as int);
                match (fraction_value(p), parse_decimal(w), parse_decimal(t)) {
                    (Some((n, d)), Some(wv), Some(tv)) => Some((n, d, wv, tv)),
                    _ => None,
                }
            },
        },
    }
}

fn has_prefix(s: &[u8], from: usize, prefix: &[u8]) -> (r: bool)
    requires
        from <= s@.len(),
    ensures
        r == starts_with(s@.subrange(from as int, s@.len() as int), prefix@),
{
    let ghost t = s@.subrange(from as int, s@.len() as int);
    if s.len() - from < prefix.len() {
        return false;
    }
    assert(s@.len() == s.len());
    let mut i: usize = 0;
    while i < prefix.len()
        invariant
            i <= prefix@.len(),
            from + prefix@.len() <= s@.len(),
            s@.len() <= usize::MAX,
            t == s@.subrange(from as int, s@.len() as int),
            forall|j: int| 0 <= j < i ==> t[j] == prefix@[j],
        decreases prefix@.len() - i,
    {
        if s[from + i] != prefix[i] {
            assert(t.subrange(0, prefix@.len() as int)[i as int] != prefix@[i as int]);
            return false;
        }
        i = i + 1;
    }
    assert(t.subrange(0, prefix@.len() as int) =~= prefix@);
    true
}

/// The index of the first `b` at or after `from`, or the length of `s`.
fn find_byte(s: &[u8], from: usize, b: u8) -> (r: usize)
    requires
        from <= s@.len(),
    ensures
        r == from + first_index(s@.subrange(from as int, s@.len() as int), b),
        r <= s@.len(),
{
    let mut i: usize = from;
    while i < s.len()
        invariant
            from <= i <= s@.len(),
            first_index(s@.subrange(from as int, s@.len() as int), b) == (i - from) + first_index(
                s@.subrange(i as int, s@.len() as int),
                b,
            ),
        decreases s@.len() - i,
    {
        if s[i] == b {
            return i;
        }
        assert(s@.subrange(i as int, s@.len() as int).drop_first() =~= s@.subrange(
            i + 1,
            s@.len() as int,
        ));
        i = i + 1;
    }
    i
}

fn pow10_u64(k: usize) -> (r: Option<u64>)
    ensures
        r is Some == (pow10(k as nat) <= u64::MAX),
        r matches Some(v) ==> v == pow10(k as nat),
{
    let mut v: u64 = 1;
    let mut i: usize = 0;
    while i < k
        invariant
            i <= k,
            v == pow10(i as nat),
        decreases k - i,
    {
        match v.checked_mul(10) {
            Some(n) => v = n,
            None => {
                proof {
                    lemma_pow10_grows(i as nat + 1, k as nat);
                }
                return None;
            },
        }
        i = i + 1;
    }
    Some(v)
}

proof fn lemma_pow10_grows(i: nat, k: nat)
    requires
        i <= k,
    ensures
        pow10(i) <= pow10(k),
    decreases k - i,
{
    if i < k {
        lemma_pow10_grows(i, (k - 1) as nat);
    }
}

fn parse_fraction(p: &[u8]) -> (r: Option<Ratio>)
    ensures
        r is Some == fraction_value(p@) is Some,
        r matches Some(q) ==> q.num == fraction_value(p@)->Some_0.0 && q.den == fraction_value(
            p@,
        )->Some_0.1 && q.den > 0,
{
    let k = find_byte(p, 0, 46);
    assert(p@.subrange(0, p@.len() as int) =~= p@);
    if k == p.len() {
        match parse_decimal_bytes(p) {
            Some(v) => {
                if v as u128 <= u64::MAX as u128 {
                    Some(Ratio { num: v as u64, den: 1 })
                } else {
                    None
                }
            },
            None => None,
        }
    } else {
        let a = copy_range(p, 0, k);
        let b = copy_range(p, k + 1, p.len());
        let pa = parse_decimal_bytes(a.as_slice());
        let pb = parse_decimal_bytes(b.as_slice());
        let den = pow10_u64(b.len());
        if pa.is_none() || pb.is_none() || den.is_none() {
            return None;
        }
        let mut ab = a;
        let mut i: usize = 0;
        let ghost a0 = ab@;
        while i < b.len()
            invariant
                i <= b@.len(),
                ab@ == a0 + b@.subrange(0, i as int),
            decreases b@.len() - i,
        {
            ab.push(b[i]);
            i = i + 1;
            assert(ab@ =~= a0 + b@.subrange(0, i as int));
        }
        assert(b@.subrange(0, b@.len() as int) =~= b@);
        match parse_decimal_bytes(ab.as_slice()) {
            Some(v) => {
                if v as u128 <= u64::MAX as u128 {
                    let d = den.unwrap();
                    proof {
                        assert(pow10(b@.len()) >= 1) by {
                            lemma_pow10_grows(0, b@.len());
                        }
                    }
                    Some(Ratio { num: v as u64, den: d })
                } else {
                    None
                }
            },
            None => None,
        }
    }
}

/// Splits off the field that opens with `key`.
fn take_field(s: &[u8], key: &[u8]) -> (r: Option<(Vec<u8>, Vec<u8>)>)
    ensures
        r is Some == field(s@, key@) is Some,
        r matches Some((v, rest)) ==> field(s@, key@) == Some((v@, rest@)),
{
    assert(s@.subrange(0, s@.len() as int) =~= s@);
    if !has_prefix(s, 0, key) {
        return None;
    }
    let ghost a = s@.subrange(key@.len() as int, s@.len() as int);
    let i = find_byte(s, key.len(), 37);
    let v = copy_range(s, key.len(), i);
    let rest = copy_range(s, i, s.len());
    assert(v@ =~= a.subrange(0, first_index(a, 37) as int));
    assert(rest@ =~= a.subrange(first_index(a, 37) as int, a.len() as int));
    Some((v, rest))
}

/// Reads the fields of a progress report: the fraction, bytes written and
/// total.
pub fn parse_progress_fields(s: &[u8]) -> (r: Option<(Ratio, usize, usize)>)
    ensures
        r is Some == parse_progress(s@) is Some,
        r matches Some((q, w, t)) ==> {
            let (num, den, wv, tv) = parse_progress(s@)->Some_0;
            &&& q.num == num
            &&& q.den == den
            &&& q.den > 0
            &&& w == wv
            &&& t == tv
        },
{
    let pk: [u8; 9] = [112, 114, 111, 103, 114, 101, 115, 115, 61];
    let wk: [u8; 10] = [37, 38, 119, 114, 105, 116, 116, 101, 110, 61];
    let tk: [u8; 8] = [37, 38, 116, 111, 116, 97, 108, 61];
    assert(pk@ =~= progress_key());
    assert(wk@ =~= written_key());
    assert(tk@ =~= total_key());
    let (p, r1) = match take_field(s, pk.as_slice()) {
        Some(f) => f,
        None => return None,
    };
    let (w, r2) = match take_field(r1.as_slice(), wk.as_slice()) {
        Some(f) => f,
        None => return None,
    };
    assert(r2@.subrange(0, r2@.len() as int) =~= r2@);
    if !has_prefix(r2.as_slice(), 0, tk.as_slice()) {
        return None;
    }
    let t = copy_range(r2.as_slice(), 8, r2.len());
    let q = parse_fraction(p.as_slice());
    let wv = parse_decimal_bytes(w.as_slice());
    let tv = parse_decimal_bytes(t.as_slice());
    match (q, wv, tv) {
        (Some(q), Some(wv), Some(tv)) => Some((q, wv, tv)),
        _ => None,
    }
}

} // verus!
