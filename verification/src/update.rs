//! The update-check cache: a small record persisted on disk that throttles
//! remote version checks to at most one per fixed time window.
//!
//! The record is stored as a two-field JSON document. Rendering and parsing
//! of that document are verified here: rendering produces exactly the
//! canonical text, and parsing accepts a text if and only if it is the
//! canonical rendering of some record, returning that record.
use vstd::prelude::*;

verus! {

/// Fixed schema constant written into every cache record.
pub const SCHEMA_VERSION: u16 = 1;

/// Length of the throttling window in seconds: one day.
pub const SECONDS_PER_DAY: u64 = 86400;

/// The persisted cache record: a schema version and the epoch-seconds
/// timestamp of the last remote check.
#[derive(Clone, Copy, PartialEq, Eq, Structural, Debug)]
pub struct UpdateRecord {
    pub data_version: u16,
    pub last_check: u64,
}

/// The decimal digit byte for a value below ten.
pub open spec fn dec_digit(d: nat) -> u8 {
    (48 + d) as u8
}

/// The canonical decimal rendering of a number: most significant digit
/// first, no leading zeros, at least one digit.
pub open spec fn dec_of(n: nat) -> Seq<u8>
    decreases n,
{
    if n < 10 {
        seq![dec_digit(n)]
    } else {
        dec_of(n / 10).push(dec_digit(n % 10))
    }
}

/// Whether a byte is an ASCII decimal digit.
pub open spec fn is_digit(b: u8) -> bool {
    48 <= b <= 57
}

/// Whether every byte of a sequence is an ASCII decimal digit.
pub open spec fn all_digits(s: Seq<u8>) -> bool {
    forall|i: int| 0 <= i < s.len() ==> is_digit(#[trigger] s[i])
}

/// The numeric value of a sequence of digit bytes, most significant first.
pub open spec fn val_of(s: Seq<u8>) -> nat
    decreases s.len(),
{
    if s.len() == 0 {
        0
    } else {
        (val_of(s.drop_last()) * 10 + (s.last() - 48)) as nat
    }
}

/// A decimal rendering consists of digits, is never empty, and evaluates
/// back to the number it was made from.
pub proof fn lemma_dec_of_val(n: nat)
    ensures
        dec_of(n).len() >= 1,
        all_digits(dec_of(n)),
        val_of(dec_of(n)) == n,
    decreases n,
{
    if n < 10 {
        assert(is_digit(dec_digit(n)));
        assert(dec_of(n).drop_last() =~= Seq::<u8>::empty());
        assert(dec_of(n).last() == dec_digit(n));
        assert(val_of(dec_of(n)) == val_of(Seq::<u8>::empty()) * 10 + (dec_digit(n) - 48));
    } else {
        lemma_dec_of_val(n / 10);
        vstd::arithmetic::div_mod::lemma_fundamental_div_mod(n as int, 10);
        assert(is_digit(dec_digit(n % 10)));
        assert(dec_of(n).drop_last() =~= dec_of(n / 10));
        assert(dec_of(n).last() == dec_digit(n % 10));
        assert(val_of(dec_of(n)) == val_of(dec_of(n / 10)) * 10 + (dec_digit(n % 10) - 48));
        assert forall|i: int| 0 <= i < dec_of(n).len() implies is_digit(#[trigger] dec_of(n)[i]) by {
            if i < dec_of(n).len() - 1 {
                assert(dec_of(n)[i] == dec_of(n / 10)[i]);
            }
        }
    }
}

/// The end of the run of digit bytes that starts at position `i`: the first
/// index at or after `i` that is out of range or holds a non-digit byte.
pub open spec fn digit_run_end(s: Seq<u8>, i: int) -> int
    decreases s.len() - i,
{
    if 0 <= i < s.len() && is_digit(s[i]) {
        digit_run_end(s, i + 1)
    } else {
        i
    }
}

/// A run of digits bounded by a non-digit (or the end of the sequence) is
/// exactly what `digit_run_end` delimits.
pub proof fn lemma_run_end_is(s: Seq<u8>, a: int, b: int)
    requires
        0 <= a <= b <= s.len(),
        forall|k: int| a <= k < b ==> is_digit(#[trigger] s[k]),
        b == s.len() || !is_digit(s[b]),
    ensures
        digit_run_end(s, a) == b,
    decreases b - a,
{
    if a < b {
        lemma_run_end_is(s, a + 1, b);
    }
}

/// The value of a prefix of a digit run never exceeds the value of the run.
pub proof fn lemma_val_of_prefix(t: Seq<u8>, j: int)
    requires
        0 <= j <= t.len(),
        all_digits(t),
    ensures
        val_of(t.take(j)) <= val_of(t),
    decreases t.len(),
{
    if j == t.len() {
        assert(t.take(j) =~= t);
    } else {
        assert(t.take(j) =~= t.drop_last().take(j));
        assert(all_digits(t.drop_last())) by {
            assert(forall|i: int| 0 <= i < t.len() - 1 ==> t.drop_last()[i] == #[trigger] t[i]);
        }
        lemma_val_of_prefix(t.drop_last(), j);
        assert(val_of(t) == val_of(t.drop_last()) * 10 + (t.last() - 48));
        assert(val_of(t.drop_last()) * 10 >= val_of(t.drop_last()));
    }
}

/// Scans the run of digit bytes that starts at `start`. Returns the run's
/// numeric value and the index just past the run, exactly when such a run
/// exists and its value fits in a `u64`.
pub fn scan_u64(s: &Vec<u8>, start: usize) -> (r: Option<(u64, usize)>)
    requires
        start <= s@.len(),
    ensures
        ({
            let end = digit_run_end(s@, start as int);
            let run = s@.subrange(start as int, end);
            if start < s@.len() && is_digit(s@[start as int]) && val_of(run) <= u64::MAX {
                r matches Some(p) && p.0 == val_of(run) && p.1 == end
            } else {
                r is None
            }
        }),
{
    proof {
        lemma_run_end_props(s@, start as int);
    }
    if start == s.len() || !(48 <= s[start] && s[start] <= 57) {
        return None;
    }
    let ghost end = digit_run_end(s@, start as int);
    let ghost run = s@.subrange(start as int, end);
    proof {
        assert forall|k: int| 0 <= k < run.len() implies is_digit(#[trigger] run[k]) by {
            assert(run[k] == s@[start + k]);
        }
    }
    let mut i: usize = start;
    let mut acc: u64 = 0;
    while i < s.len() && 48 <= s[i] && s[i] <= 57
        invariant
            start <= i <= s@.len(),
            i <= end <= s@.len(),
            end == digit_run_end(s@, start as int),
            run == s@.subrange(start as int, end),
            all_digits(run),
            digit_run_end(s@, i as int) == end,
            acc == val_of(s@.subrange(start as int, i as int)),
        decreases s@.len() - i,
    {
        let d: u64 = (s[i] - 48) as u64;
        proof {
            assert(is_digit(s@[i as int]));
            assert(digit_run_end(s@, i as int) == digit_run_end(s@, i + 1));
            lemma_run_end_props(s@, i + 1);
            assert(i < end);
            assert(s@.subrange(start as int, i + 1).drop_last() =~= s@.subrange(start as int, i as int));
            assert(s@.subrange(start as int, i + 1).last() == s@[i as int]);
            assert(val_of(s@.subrange(start as int, i + 1)) == acc * 10 + d);
            assert(s@.subrange(start as int, i + 1) =~= run.take(i + 1 - start));
            lemma_val_of_prefix(run, i + 1 - start);
            assert(acc * 10 + d <= val_of(run));
            vstd::arithmetic::div_mod::lemma_fundamental_div_mod(u64::MAX as int, 10);
        }
        if acc > u64::MAX / 10 || (acc == u64::MAX / 10 && d > u64::MAX % 10) {
            proof {
                assert(acc * 10 + d > u64::MAX);
            }
            return None;
        }
        proof {
            assert(acc * 10 + d <= u64::MAX);
        }
        acc = acc * 10 + d;
        i = i + 1;
    }
    proof {
        assert(digit_run_end(s@, i as int) == i as int);
        assert(i == end);
        assert(s@.subrange(start as int, i as int) == run);
    }
    Some((acc, i))
}

/// Everything before a run's end is a digit, and the end is the sequence's
/// end or a non-digit.
pub proof fn lemma_run_end_props(s: Seq<u8>, i: int)
    requires
        0 <= i <= s.len(),
    ensures
        i <= digit_run_end(s, i) <= s.len(),
        forall|k: int| i <= k < digit_run_end(s, i) ==> is_digit(#[trigger] s[k]),
        digit_run_end(s, i) == s.len() || !is_digit(s[digit_run_end(s, i)]),
    decreases s.len() - i,
{
    if 0 <= i < s.len() && is_digit(s[i]) {
        lemma_run_end_props(s, i + 1);
    }
}

/// Renders a number as canonical decimal digit bytes.
pub fn render_u64(n: u64) -> (r: Vec<u8>)
    ensures
        r@ == dec_of(n as nat),
    decreases n,
{
    if n < 10 {
        let mut v: Vec<u8> = Vec::new();
        v.push(48 + n as u8);
        proof {
            assert(v@ =~= dec_of(n as nat));
        }
        v
    } else {
        let mut v = render_u64(n / 10);
        v.push(48 + (n % 10) as u8);
        proof {
            assert(v@ =~= dec_of(n as nat));
        }
        v
    }
}

/// The bytes of `{\n  "data_version": `, the opening of the cache document.
pub open spec fn obj_open() -> Seq<u8> {
    seq![123u8, 10u8, 32u8, 32u8, 34u8, 100u8, 97u8, 116u8, 97u8, 95u8, 118u8, 101u8, 114u8, 115u8, 105u8, 111u8, 110u8, 34u8, 58u8, 32u8]
}

/// The bytes of `,\n  "last_check": `, between the two fields.
pub open spec fn mid_sep() -> Seq<u8> {
    seq![44u8, 10u8, 32u8, 32u8, 34u8, 108u8, 97u8, 115u8, 116u8, 95u8, 99u8, 104u8, 101u8, 99u8, 107u8, 34u8, 58u8, 32u8]
}

/// The bytes of `\n}`, closing the cache document.
pub open spec fn obj_close() -> Seq<u8> {
    seq![10u8, 125u8]
}

/// The canonical rendering of a cache record: a pretty-printed two-field
/// JSON object with two-space indentation.
pub open spec fn record_json(rec: UpdateRecord) -> Seq<u8> {
    obj_open() + dec_of(rec.data_version as nat) + mid_sep() + dec_of(rec.last_check as nat) + obj_close()
}

fn obj_open_bytes() -> (r: Vec<u8>)
    ensures
        r@ == obj_open(),
{
    let mut v: Vec<u8> = Vec::new();
    v.push(123);
    v.push(10);
    v.push(32);
    v.push(32);
    v.push(34);
    v.push(100);
    v.push(97);
    v.push(116);
    v.push(97);
    v.push(95);
    v.push(118);
    v.push(101);
    v.push(114);
    v.push(115);
    v.push(105);
    v.push(111);
    v.push(110);
    v.push(34);
    v.push(58);
    v.push(32);
    proof {
        assert(v@ =~= obj_open());
    }
    v
}

fn mid_sep_bytes() -> (r: Vec<u8>)
    ensures
        r@ == mid_sep(),
{
    let mut v: Vec<u8> = Vec::new();
    v.push(44);
    v.push(10);
    v.push(32);
    v.push(32);
    v.push(34);
    v.push(108);
    v.push(97);
    v.push(115);
    v.push(116);
    v.push(95);
    v.push(99);
    v.push(104);
    v.push(101);
    v.push(99);
    v.push(107);
    v.push(34);
    v.push(58);
    v.push(32);
    proof {
        assert(v@ =~= mid_sep());
    }
    v
}

fn obj_close_bytes() -> (r: Vec<u8>)
    ensures
        r@ == obj_close(),
{
    let mut v: Vec<u8> = Vec::new();
    v.push(10);
    v.push(125);
    proof {
        assert(v@ =~= obj_close());
    }
    v
}

/// Renders a record as its canonical cache document.
pub fn render_record(rec: &UpdateRecord) -> (r: Vec<u8>)
    ensures
        r@ == record_json(*rec),
{
    let mut v = obj_open_bytes();
    let mut part = render_u64(rec.data_version as u64);
    v.append(&mut part);
    let mut part = mid_sep_bytes();
    v.append(&mut part);
    let mut part = render_u64(rec.last_check);
    v.append(&mut part);
    let mut part = obj_close_bytes();
    v.append(&mut part);
    proof {
        assert(v@ =~= record_json(*rec));
    }
    v
}

/// Whether the bytes of `lit` stand in `s` at position `i`.
fn match_at(s: &Vec<u8>, i: usize, lit: &Vec<u8>) -> (r: bool)
    requires
        i <= s@.len(),
    ensures
        r == (i + lit@.len() <= s@.len() && s@.subrange(i as int, i + lit@.len()) == lit@),
{
    if s.len() - i < lit.len() {
        return false;
    }
    let mut j: usize = 0;
    while j < lit.len()
        invariant
            i + lit@.len() <= s@.len(),
            j <= lit@.len(),
            forall|k: int| 0 <= k < j ==> s@[i + k] == #[trigger] lit@[k],
        decreases lit@.len() - j,
    {
        proof {
            assert(s@.len() == s.len());
            assert(i + j < s@.len());
        }
        if s[i + j] != lit[j] {
            proof {
                assert(s@.subrange(i as int, i + lit@.len())[j as int] != lit@[j as int]);
            }
            return false;
        }
        j = j + 1;
    }
    proof {
        assert(s@.subrange(i as int, i + lit@.len()) =~= lit@);
    }
    true
}

/// Whether two byte vectors hold the same bytes.
pub fn eq_bytes(a: &Vec<u8>, b: &Vec<u8>) -> (r: bool)
    ensures
        r == (a@ == b@),
{
    if a.len() != b.len() {
        return false;
    }
    let r = match_at(a, 0, b);
    proof {
        assert(a@.subrange(0, a@.len() as int) =~= a@);
    }
    r
}

/// The structure of a canonical cache document: where its literal parts,
/// digit runs and their values stand.
pub proof fn lemma_canonical_shape(s: Seq<u8>, rec: UpdateRecord)
    requires
        s == record_json(rec),
    ensures
        s.len() == 40 + dec_of(rec.data_version as nat).len() + dec_of(rec.last_check as nat).len(),
        s.subrange(0, 20) == obj_open(),
        20 < s.len() && is_digit(s[20]),
        digit_run_end(s, 20) == 20 + dec_of(rec.data_version as nat).len(),
        val_of(s.subrange(20, digit_run_end(s, 20))) == rec.data_version as nat,
        digit_run_end(s, 20) + 18 <= s.len(),
        s.subrange(digit_run_end(s, 20), digit_run_end(s, 20) + 18) == mid_sep(),
        ({
            let i3 = digit_run_end(s, 20) + 18;
            &&& i3 < s.len() && is_digit(s[i3])
            &&& digit_run_end(s, i3) == i3 + dec_of(rec.last_check as nat).len()
            &&& val_of(s.subrange(i3, digit_run_end(s, i3))) == rec.last_check as nat
        }),
{
    let d1 = dec_of(rec.data_version as nat);
    let d2 = dec_of(rec.last_check as nat);
    lemma_dec_of_val(rec.data_version as nat);
    lemma_dec_of_val(rec.last_check as nat);
    let e1 = 20 + d1.len() as int;
    let i3 = e1 + 18;
    let e2 = i3 + d2.len() as int;
    assert(s.len() == 20 + d1.len() + 18 + d2.len() + 2);
    assert(s.subrange(0, 20) =~= obj_open());
    assert(s.subrange(20, e1) =~= d1);
    assert(s.subrange(e1, i3) =~= mid_sep());
    assert(s.subrange(i3, e2) =~= d2);
    assert(s[e1] == 44u8);
    assert(s[e2] == 10u8);
    assert(is_digit(s[20])) by {
        assert(s[20] == d1[0]);
    }
    assert(is_digit(s[i3])) by {
        assert(s[i3] == d2[0]);
    }
    assert forall|k: int| 20 <= k < e1 implies is_digit(#[trigger] s[k]) by {
        assert(s[k] == d1[k - 20]);
    }
    lemma_run_end_is(s, 20, e1);
    assert forall|k: int| i3 <= k < e2 implies is_digit(#[trigger] s[k]) by {
        assert(s[k] == d2[k - i3]);
    }
    lemma_run_end_is(s, i3, e2);
    assert(val_of(s.subrange(20, e1)) == rec.data_version as nat);
    assert(val_of(s.subrange(i3, e2)) == rec.last_check as nat);
}

/// Parses a cache document. Returns `Some(rec)` exactly when the bytes are
/// the canonical rendering of `rec`, and `None` on any other text.
pub fn parse_record(s: &Vec<u8>) -> (r: Option<UpdateRecord>)
    ensures
        r matches Some(rec) ==> s@ == record_json(rec),
        forall|rec: UpdateRecord| s@ == #[trigger] record_json(rec) ==> r == Some(rec),
{
    let open = obj_open_bytes();
    if !match_at(s, 0, &open) {
        proof {
            assert forall|rec: UpdateRecord| s@ == #[trigger] record_json(rec) implies false by {
                lemma_canonical_shape(s@, rec);
            }
        }
        return None;
    }
    let d_scan = scan_u64(s, 20);
    let (d, i2) = match d_scan {
        Some(p) => p,
        None => {
            proof {
                assert forall|rec: UpdateRecord| s@ == #[trigger] record_json(rec) implies false by {
                    lemma_canonical_shape(s@, rec);
                }
            }
            return None;
        },
    };
    if d > 65535 {
        proof {
            assert forall|rec: UpdateRecord| s@ == #[trigger] record_json(rec) implies false by {
                lemma_canonical_shape(s@, rec);
            }
        }
        return None;
    }
    proof {
        lemma_run_end_props(s@, 20);
    }
    let mid = mid_sep_bytes();
    if !match_at(s, i2, &mid) {
        proof {
            assert forall|rec: UpdateRecord| s@ == #[trigger] record_json(rec) implies false by {
                lemma_canonical_shape(s@, rec);
            }
        }
        return None;
    }
    proof {
        assert(s@.len() == s.len());
        assert(mid@.len() == 18);
        assert(i2 + 18 <= s@.len());
    }
    let i3 = i2 + 18;
    let l_scan = scan_u64(s, i3);
    let (l, _i4) = match l_scan {
        Some(p) => p,
        None => {
            proof {
                assert forall|rec: UpdateRecord| s@ == #[trigger] record_json(rec) implies false by {
                    lemma_canonical_shape(s@, rec);
                }
            }
            return None;
        },
    };
    let candidate = UpdateRecord { data_version: d as u16, last_check: l };
    let rendered = render_record(&candidate);
    if eq_bytes(&rendered, s) {
        proof {
            assert forall|rec: UpdateRecord| s@ == #[trigger] record_json(rec) implies candidate == rec by {
                lemma_canonical_shape(s@, rec);
            }
        }
        Some(candidate)
    } else {
        proof {
            assert forall|rec: UpdateRecord| s@ == #[trigger] record_json(rec) implies false by {
                lemma_canonical_shape(s@, rec);
                assert(candidate == rec);
                assert(rendered@ == s@);
            }
        }
        None
    }
}

/// A cache text determines its record: two records with the same canonical
/// rendering are the same record.
pub proof fn lemma_record_json_injective(a: UpdateRecord, b: UpdateRecord)
    requires
        record_json(a) == record_json(b),
    ensures
        a == b,
{
    lemma_canonical_shape(record_json(a), a);
    lemma_canonical_shape(record_json(a), b);
}

/// Whether a remote check performed at `last_check` is stale at `now`: more
/// than one day has passed. A `last_check` at or ahead of `now` counts as
/// recent.
pub open spec fn stale_at(last_check: u64, now: u64) -> bool {
    last_check < now && now - last_check > SECONDS_PER_DAY
}

/// Decides whether the throttling window has passed and a remote check is
/// due again.
pub fn should_check(now: u64, last_check: u64) -> (r: bool)
    ensures
        r == stale_at(last_check, now),
{
    last_check < now && now - last_check > SECONDS_PER_DAY
}

/// The throttling window, characterized exactly: a record written at
/// `last_check` suppresses every remote check up to one day later and none
/// after that.
pub proof fn lemma_ttl_window(last_check: u64, now: u64)
    ensures
        now <= last_check + SECONDS_PER_DAY ==> !stale_at(last_check, now),
        now > last_check + SECONDS_PER_DAY ==> stale_at(last_check, now),
{
}

/// A fresh cache record carries the fixed schema constant and the time of
/// the write.
pub fn fresh_record(now: u64) -> (r: UpdateRecord)
    ensures
        r.data_version == SCHEMA_VERSION,
        r.last_check == now,
{
    UpdateRecord { data_version: SCHEMA_VERSION, last_check: now }
}

/// What reading the cache file yielded: no file, an unreadable file, or its
/// bytes.
pub enum CacheReadOutcome {
    Absent,
    Unreadable,
    Contents(Vec<u8>),
}

/// Decides from the cache file whether to perform a remote check now: a
/// missing file always checks, an unreadable or malformed file silently
/// skips, and a well-formed record checks exactly when it is stale.
pub fn plan_update_check(cache: &CacheReadOutcome, now: u64) -> (r: bool)
    ensures
        cache is Absent ==> r,
        cache is Unreadable ==> !r,
        cache matches CacheReadOutcome::Contents(b) ==> {
            &&& forall|rec: UpdateRecord| b@ == #[trigger] record_json(rec) ==> r == stale_at(rec.last_check, now)
            &&& (forall|rec: UpdateRecord| b@ != #[trigger] record_json(rec)) ==> !r
        },
{
    match cache {
        CacheReadOutcome::Absent => true,
        CacheReadOutcome::Unreadable => false,
        CacheReadOutcome::Contents(b) => match parse_record(b) {
            Some(rec) => should_check(now, rec.last_check),
            None => false,
        },
    }
}

} // verus!
