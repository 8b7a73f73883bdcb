//! One-time codes and the serialized pending-action payload they resolve to.
//!
//! A payload is a tagged union over the three deferred actions, carried
//! through the token store as a string. The wire format is length-prefixed
//! and fully verified: serializing is proven to parse back to the identical
//! payload, and parsing is specified exactly on every input, so a malformed
//! store value is rejected rather than misread.
//!
//! Layout: an action tag ('C', 'D' or 'U'), the decimal user id terminated
//! by ';', then the otc, name and email as `<len>:<chars>` fields, then the
//! optional phone and password hash, each '-' when absent or '+' followed by
//! a field when present. Decimal runs are capped at twenty digits, which
//! covers every representable length.

use vstd::prelude::*;

use crate::numbers::{
    all_digits, dec_digits, dec_value, digit_value, is_digit_char, lemma_dec_digits,
    lemma_dec_value_nonneg,
};

verus! {

/// The three deferred account mutations a one-time code can resolve to.
#[derive(Debug, Clone, Copy, PartialEq, Eq, Structural)]
pub enum OtcPayloadAction {
    ConfirmAccount,
    DeleteAccount,
    UpdateAccount,
}

/// The pending action bound to a one-time code.
#[derive(Debug, Clone)]
pub struct OtcPayload {
    pub otc: String,
    pub user_id: i32,
    pub action: OtcPayloadAction,
    pub name: String,
    pub phone: Option<String>,
    pub email: String,
    pub password_hash: Option<String>,
}

/// Spec-level snapshot of a pending-action payload.
pub ghost struct OtcPayloadV {
    pub otc: Seq<char>,
    pub user_id: int,
    pub action: OtcPayloadAction,
    pub name: Seq<char>,
    pub phone: Option<Seq<char>>,
    pub email: Seq<char>,
    pub password_hash: Option<Seq<char>>,
}

impl View for OtcPayload {
    type V = OtcPayloadV;

    open spec fn view(&self) -> OtcPayloadV {
        OtcPayloadV {
            otc: self.otc@,
            user_id: self.user_id as int,
            action: self.action,
            name: self.name@,
            phone: match self.phone {
                Some(p) => Some(p@),
                None => None,
            },
            email: self.email@,
            password_hash: match self.password_hash {
                Some(h) => Some(h@),
                None => None,
            },
        }
    }
}

pub open spec fn action_char(a: OtcPayloadAction) -> char {
    match a {
        OtcPayloadAction::ConfirmAccount => 'C',
        OtcPayloadAction::DeleteAccount => 'D',
        OtcPayloadAction::UpdateAccount => 'U',
    }
}

pub open spec fn char_action(c: char) -> Option<OtcPayloadAction> {
    if c == 'C' {
        Some(OtcPayloadAction::ConfirmAccount)
    } else if c == 'D' {
        Some(OtcPayloadAction::DeleteAccount)
    } else if c == 'U' {
        Some(OtcPayloadAction::UpdateAccount)
    } else {
        None
    }
}

pub open spec fn spec_encode_field(f: Seq<char>) -> Seq<char> {
    dec_digits(f.len() as int) + seq![':'] + f
}

pub open spec fn spec_encode_opt(o: Option<Seq<char>>) -> Seq<char> {
    match o {
        None => seq!['-'],
        Some(f) => seq!['+'] + spec_encode_field(f),
    }
}

/// The wire form of a payload.
pub open spec fn spec_encode_payload(p: OtcPayloadV) -> Seq<char> {
    seq![action_char(p.action)] + dec_digits(p.user_id) + seq![';'] + spec_encode_field(p.otc)
        + spec_encode_field(p.name) + spec_encode_field(p.email) + spec_encode_opt(p.phone)
        + spec_encode_opt(p.password_hash)
}

/// The number of consecutive digit characters from position i.
pub open spec fn digit_run(s: Seq<char>, i: int) -> int
    decreases s.len() - i,
{
    if i < 0 || i >= s.len() {
        0
    } else if is_digit_char(s[i]) {
        1 + digit_run(s, i + 1)
    } else {
        0
    }
}

/// Reads a canonical decimal run of one to twenty digits at position i.
pub open spec fn spec_parse_num(s: Seq<char>, i: int) -> Option<(int, int)> {
    let run = digit_run(s, i);
    if 1 <= run <= 20 && (s[i] != '0' || run == 1) {
        Some((dec_value(s.subrange(i, i + run)), i + run))
    } else {
        None
    }
}

/// Reads a `<len>:<chars>` field at position i.
pub open spec fn spec_parse_field(s: Seq<char>, i: int) -> Option<(Seq<char>, int)> {
    match spec_parse_num(s, i) {
        None => None,
        Some((n, j)) => {
            if j < s.len() && s[j] == ':' && j + 1 + n <= s.len() {
                Some((s.subrange(j + 1, j + 1 + n), j + 1 + n))
            } else {
                None
            }
        },
    }
}

/// Reads an optional field: '-' for absent, '+' then a field for present.
pub open spec fn spec_parse_opt(s: Seq<char>, i: int) -> Option<(Option<Seq<char>>, int)> {
    if 0 <= i < s.len() && s[i] == '-' {
        Some((None, i + 1))
    } else if 0 <= i < s.len() && s[i] == '+' {
        match spec_parse_field(s, i + 1) {
            None => None,
            Some((f, j)) => Some((Some(f), j)),
        }
    } else {
        None
    }
}

/// What parsing a stored payload string yields, on every input.
pub open spec fn spec_parse_payload(s: Seq<char>) -> Option<OtcPayloadV> {
    if s.len() < 1 {
        None
    } else {
        match char_action(s[0]) {
            None => None,
            Some(action) => match spec_parse_num(s, 1) {
                None => None,
                Some((uid, i1)) => {
                    if !(i1 < s.len() && s[i1] == ';' && 0 <= uid <= i32::MAX) {
                        None
                    } else {
                        match spec_parse_field(s, i1 + 1) {
                            None => None,
                            Some((otc, i2)) => match spec_parse_field(s, i2) {
                                None => None,
                                Some((name, i3)) => match spec_parse_field(s, i3) {
                                    None => None,
                                    Some((email, i4)) => match spec_parse_opt(s, i4) {
                                        None => None,
                                        Some((phone, i5)) => match spec_parse_opt(s, i5) {
                                            None => None,
                                            Some((password_hash, i6)) => {
                                                if i6 == s.len() {
                                                    Some(
                                                        OtcPayloadV {
                                                            otc,
                                                            user_id: uid,
                                                            action,
                                                            name,
                                                            phone,
                                                            email,
                                                            password_hash,
                                                        },
                                                    )
                                                } else {
                                                    None
                                                }
                                            },
                                        },
                                    },
                                },
                            },
                        }
                    }
                },
            },
        }
    }
}

pub open spec fn pow10(k: int) -> int
    decreases k,
{
    if k <= 0 {
        1
    } else {
        10 * pow10(k - 1)
    }
}

proof fn lemma_digit_run_nonneg(s: Seq<char>, i: int)
    ensures
        digit_run(s, i) >= 0,
    decreases s.len() - i,
{
    if 0 <= i < s.len() && is_digit_char(s[i]) {
        lemma_digit_run_nonneg(s, i + 1);
    }
}

proof fn lemma_digit_run_exact(s: Seq<char>, i: int, k: int)
    requires
        0 <= i,
        0 <= k,
        i + k <= s.len(),
        forall|t: int| 0 <= t < k ==> is_digit_char(#[trigger] s[i + t]),
        i + k < s.len() ==> !is_digit_char(s[i + k]),
    ensures
        digit_run(s, i) == k,
    decreases k,
{
    if k == 0 {
    } else {
        assert(is_digit_char(s[i + 0]));
        assert forall|t: int| 0 <= t < k - 1 implies is_digit_char(#[trigger] s[(i + 1) + t]) by {
            assert(is_digit_char(s[i + (t + 1)]));
        }
        lemma_digit_run_exact(s, i + 1, k - 1);
    }
}

proof fn lemma_dec_digits_len(n: int, k: int)
    requires
        0 <= n < pow10(k),
        k >= 1,
    ensures
        dec_digits(n).len() <= k,
    decreases k,
{
    if n < 10 {
    } else {
        assert(pow10(k) == 10 * pow10(k - 1));
        assert(n / 10 < pow10(k - 1));
        assert(k - 1 >= 1) by {
            if k - 1 < 1 {
                assert(pow10(k) == 10);
            }
        }
        lemma_dec_digits_len(n / 10, k - 1);
    }
}

proof fn lemma_dec_digits_first(n: int)
    requires
        n >= 0,
    ensures
        dec_digits(n).len() > 1 ==> dec_digits(n)[0] != '0',
    decreases n,
{
    if n >= 10 {
        lemma_dec_digits_first(n / 10);
        lemma_dec_digits(n / 10);
        assert(dec_digits(n)[0] == dec_digits(n / 10)[0]);
        if n / 10 < 10 {
            assert(dec_digits(n / 10) =~= seq![crate::numbers::digit_char(n / 10)]);
            assert(n / 10 >= 1);
            assert(crate::numbers::digit_char(n / 10) != '0');
        } else {
            lemma_dec_digits(n / 10 / 10);
            assert(dec_digits(n / 10).len() > 1);
        }
    }
}

proof fn lemma_dec_value_bound(s: Seq<char>)
    requires
        all_digits(s),
    ensures
        dec_value(s) < pow10(s.len() as int),
    decreases s.len(),
{
    if s.len() == 0 {
    } else {
        assert(all_digits(s.drop_last()));
        lemma_dec_value_bound(s.drop_last());
        lemma_dec_value_nonneg(s.drop_last());
        assert(digit_value(s.last()) <= 9);
        assert(pow10(s.len() as int) == 10 * pow10(s.len() - 1));
    }
}

/// A canonical decimal rendering with a non-digit (or the end) after it
/// parses back to exactly its value.
proof fn lemma_parse_num_at(s: Seq<char>, i: int, n: int)
    requires
        0 <= i,
        0 <= n < pow10(20),
        i + dec_digits(n).len() <= s.len(),
        s.subrange(i, i + dec_digits(n).len() as int) == dec_digits(n),
        i + dec_digits(n).len() < s.len() ==> !is_digit_char(s[i + dec_digits(n).len()]),
    ensures
        spec_parse_num(s, i) == Some((n, i + dec_digits(n).len() as int)),
{
    lemma_dec_digits(n);
    lemma_dec_digits_len(n, 20);
    lemma_dec_digits_first(n);
    let d = dec_digits(n);
    let k = d.len() as int;
    let sub = s.subrange(i, i + k);
    assert forall|t: int| 0 <= t < k implies s[i + t] == d[t] by {
        assert(sub[t] == s[i + t]);
        assert(sub[t] == d[t]);
    }
    assert forall|t: int| 0 <= t < k implies is_digit_char(#[trigger] s[i + t]) by {
        assert(s[i + t] == d[t]);
        assert(is_digit_char(d[t]));
    }
    lemma_digit_run_exact(s, i, k);
    assert(s[i] == d[0]);
    assert(k > 1 ==> s[i] != '0');
    assert(dec_value(s.subrange(i, i + k)) == n);
}

/// A `<len>:<chars>` encoding in place parses back to exactly its field.
proof fn lemma_parse_field_at(s: Seq<char>, i: int, f: Seq<char>)
    requires
        0 <= i,
        f.len() < pow10(20),
        i + spec_encode_field(f).len() <= s.len(),
        s.subrange(i, i + spec_encode_field(f).len() as int) == spec_encode_field(f),
    ensures
        spec_parse_field(s, i) == Some((f, i + spec_encode_field(f).len() as int)),
{
    let d = dec_digits(f.len() as int);
    let e = spec_encode_field(f);
    let k = d.len() as int;
    let elen = e.len() as int;
    assert(e.len() == k + 1 + f.len());
    let sub = s.subrange(i, i + elen);
    assert forall|t: int| 0 <= t < elen implies s[i + t] == e[t] by {
        assert(sub[t] == s[i + t]);
        assert(sub[t] == e[t]);
    }
    assert forall|t: int| 0 <= t < k implies e[t] == d[t] by {
        assert((d + seq![':'])[t] == d[t]);
    }
    assert(s.subrange(i, i + k) =~= d);
    assert(e[k] == ':');
    assert(s[i + k] == ':');
    assert(!is_digit_char(':'));
    lemma_parse_num_at(s, i, f.len() as int);
    assert forall|t: int| 0 <= t < f.len() implies s.subrange(
        i + k + 1,
        i + k + 1 + f.len() as int,
    )[t] == f[t] by {
        assert(s[i + (k + 1 + t)] == e[k + 1 + t]);
        assert(e[k + 1 + t] == f[t]);
    }
    assert(s.subrange(i + k + 1, i + k + 1 + f.len() as int) =~= f);
}

/// An optional-field encoding in place parses back to exactly its option.
proof fn lemma_parse_opt_at(s: Seq<char>, i: int, o: Option<Seq<char>>)
    requires
        0 <= i,
        (o matches Some(f) ==> f.len() < pow10(20)),
        i + spec_encode_opt(o).len() <= s.len(),
        s.subrange(i, i + spec_encode_opt(o).len() as int) == spec_encode_opt(o),
    ensures
        spec_parse_opt(s, i) == Some((o, i + spec_encode_opt(o).len() as int)),
{
    let e = spec_encode_opt(o);
    let elen = e.len() as int;
    let sub = s.subrange(i, i + elen);
    assert forall|t: int| 0 <= t < elen implies s[i + t] == e[t] by {
        assert(sub[t] == s[i + t]);
        assert(sub[t] == e[t]);
    }
    match o {
        None => {
            assert(sub[0] == s[i + 0]);
            assert(e =~= seq!['-']);
            assert(e[0] == '-');
            assert(s[i] == '-');
        },
        Some(f) => {
            assert(sub[0] == s[i + 0]);
            assert(e[0] == '+');
            assert(s[i] == '+');
            assert(s[i] != '-');
            let ef = spec_encode_field(f);
            assert(e =~= seq!['+'] + ef);
            assert forall|t: int| 0 <= t < ef.len() implies s.subrange(
                i + 1,
                i + 1 + ef.len() as int,
            )[t] == ef[t] by {
                assert(s[i + (1 + t)] == e[1 + t]);
                assert(e[1 + t] == ef[t]);
            }
            assert(s.subrange(i + 1, i + 1 + ef.len() as int) =~= ef);
            lemma_parse_field_at(s, i + 1, f);
        },
    }
}

/// Law: parsing the wire form of any payload recovers the identical payload.
#[verifier::rlimit(100)]
pub proof fn lemma_payload_round_trip(p: OtcPayloadV)
    requires
        0 <= p.user_id <= i32::MAX,
        p.otc.len() < pow10(20),
        p.name.len() < pow10(20),
        p.email.len() < pow10(20),
        (p.phone matches Some(f) ==> f.len() < pow10(20)),
        (p.password_hash matches Some(f) ==> f.len() < pow10(20)),
    ensures
        spec_parse_payload(spec_encode_payload(p)) == Some(p),
{
    let a = seq![action_char(p.action)];
    let d = dec_digits(p.user_id);
    let sm = seq![';'];
    let e1 = spec_encode_field(p.otc);
    let e2 = spec_encode_field(p.name);
    let e3 = spec_encode_field(p.email);
    let o1 = spec_encode_opt(p.phone);
    let o2 = spec_encode_opt(p.password_hash);
    let s = spec_encode_payload(p);
    assert(s =~= a + d + sm + e1 + e2 + e3 + o1 + o2);
    lemma_dec_digits(p.user_id);

    assert(pow10(20) == 100000000000000000000) by {
        reveal_with_fuel(pow10, 21);
    }
    assert(s[0] == action_char(p.action));
    assert(char_action(action_char(p.action)) == Some(p.action));

    let i1 = 1 + d.len() as int;
    assert(s.subrange(1, i1) =~= d);
    assert(s[i1] == ';');
    assert(!is_digit_char(';'));
    lemma_parse_num_at(s, 1, p.user_id);

    let i2 = i1 + 1;
    let i3 = i2 + e1.len() as int;
    assert(s.subrange(i2, i3) =~= e1);
    lemma_parse_field_at(s, i2, p.otc);

    let i4 = i3 + e2.len() as int;
    assert(s.subrange(i3, i4) =~= e2);
    lemma_parse_field_at(s, i3, p.name);

    let i5 = i4 + e3.len() as int;
    assert(s.subrange(i4, i5) =~= e3);
    lemma_parse_field_at(s, i4, p.email);

    let i6 = i5 + o1.len() as int;
    assert(s.subrange(i5, i6) =~= o1);
    lemma_parse_opt_at(s, i5, p.phone);

    let i7 = i6 + o2.len() as int;
    assert(s.subrange(i6, i7) =~= o2);
    lemma_parse_opt_at(s, i6, p.password_hash);

    assert(i7 == s.len());
}

proof fn lemma_digit_run_digits(s: Seq<char>, i: int)
    ensures
        forall|t: int| i <= t < i + digit_run(s, i) ==> is_digit_char(#[trigger] s[t]),
    decreases s.len() - i,
{
    if 0 <= i < s.len() && is_digit_char(s[i]) {
        lemma_digit_run_digits(s, i + 1);
        assert forall|t: int| i <= t < i + digit_run(s, i) implies is_digit_char(
            #[trigger] s[t],
        ) by {
            if t > i {
                assert(i + 1 <= t < (i + 1) + digit_run(s, i + 1));
            }
        }
    }
}

proof fn lemma_pow10_le(k1: int, k2: int)
    requires
        0 <= k1 <= k2,
    ensures
        pow10(k1) <= pow10(k2),
    decreases k2,
{
    if k1 < k2 {
        lemma_pow10_le(k1, k2 - 1);
        assert(pow10(k2 - 1) >= 1) by {
            lemma_pow10_le(0, k2 - 1);
        }
    }
}

fn is_digit(c: char) -> (b: bool)
    ensures
        b == is_digit_char(c),
{
    let cv = c as u32;
    48 <= cv && cv <= 57
}

/// Reads a canonical decimal run at position i, as the spec-level parser does.
fn parse_num(s: &str, i: usize) -> (r: Option<(u128, usize)>)
    requires
        i <= s@.len(),
    ensures
        match r {
            Some((v, j)) => spec_parse_num(s@, i as int) == Some((v as int, j as int)) && i < j
                <= s@.len(),
            None => spec_parse_num(s@, i as int) is None,
        },
{
    let n = s.unicode_len();
    let mut j = i;
    while j < n && j - i < 21 && is_digit(s.get_char(j))
        invariant
            i <= j <= n,
            n == s@.len(),
            j - i <= 21,
            digit_run(s@, i as int) == (j - i) + digit_run(s@, j as int),
        decreases n - j,
    {
        proof {
            assert(digit_run(s@, j as int) == 1 + digit_run(s@, j as int + 1));
        }
        j = j + 1;
    }
    proof {
        lemma_digit_run_nonneg(s@, j as int);
    }
    let run = j - i;
    if run == 0 || run > 20 {
        proof {
            if run > 20 {
                assert(digit_run(s@, i as int) > 20);
            } else {
                if j == n {
                    assert(digit_run(s@, j as int) == 0);
                }
                assert(digit_run(s@, i as int) == 0);
            }
        }
        return None;
    }
    proof {
        if j < n {
            assert(digit_run(s@, j as int) == 0);
        } else {
            assert(digit_run(s@, j as int) == 0);
        }
        assert(digit_run(s@, i as int) == run);
        lemma_digit_run_digits(s@, i as int);
    }
    let c0 = s.get_char(i);
    if c0 == '0' && run != 1 {
        return None;
    }
    let mut acc: u128 = 0;
    let mut t = i;
    while t < j
        invariant
            i <= t <= j <= n,
            n == s@.len(),
            j - i == run,
            1 <= run <= 20,
            forall|u: int| i <= u < j ==> is_digit_char(#[trigger] s@[u]),
            acc as int == dec_value(s@.subrange(i as int, t as int)),
        decreases j - t,
    {
        let c = s.get_char(t);
        let d = (c as u32) - 48;
        proof {
            let sub = s@.subrange(i as int, t as int);
            let sub1 = s@.subrange(i as int, t as int + 1);
            assert(all_digits(sub));
            lemma_dec_value_bound(sub);
            lemma_pow10_le(sub.len() as int, 19);
            assert(pow10(19) == 10000000000000000000) by {
                reveal_with_fuel(pow10, 21);
            }
            assert(sub1.drop_last() =~= sub);
            assert(sub1.last() == s@[t as int]);
        }
        acc = acc * 10 + (d as u128);
        t = t + 1;
    }
    proof {
        assert(s@.subrange(i as int, i as int + run) == s@.subrange(i as int, j as int));
    }
    Some((acc, j))
}

/// Reads a `<len>:<chars>` field at position i, as the spec-level parser does.
fn parse_field(s: &str, i: usize) -> (r: Option<(String, usize)>)
    requires
        i <= s@.len(),
    ensures
        match r {
            Some((f, j)) => spec_parse_field(s@, i as int) == Some((f@, j as int)) && i < j
                <= s@.len(),
            None => spec_parse_field(s@, i as int) is None,
        },
{
    let (n, j) = match parse_num(s, i) {
        Some(x) => x,
        None => {
            return None;
        },
    };
    let len = s.unicode_len();
    if j >= len {
        return None;
    }
    if s.get_char(j) != ':' {
        return None;
    }
    let rem = (len - (j + 1)) as u128;
    if n > rem {
        return None;
    }
    let nn = n as usize;
    proof {
        assert(nn as int == n as int);
    }
    let f = s.substring_char(j + 1, j + 1 + nn);
    Some((String::from_str(f), j + 1 + nn))
}

/// Reads an optional field at position i, as the spec-level parser does.
fn parse_opt(s: &str, i: usize) -> (r: Option<(Option<String>, usize)>)
    requires
        i <= s@.len(),
    ensures
        match r {
            Some((o, j)) => spec_parse_opt(s@, i as int) == Some(
                (
                    match o {
                        Some(f) => Some(f@),
                        None => None,
                    },
                    j as int,
                ),
            ) && i < j <= s@.len(),
            None => spec_parse_opt(s@, i as int) is None,
        },
{
    let len = s.unicode_len();
    if i >= len {
        return None;
    }
    let c = s.get_char(i);
    if c == '-' {
        return Some((None, i + 1));
    }
    if c != '+' {
        return None;
    }
    match parse_field(s, i + 1) {
        Some((f, j)) => Some((Some(f), j)),
        None => None,
    }
}

/// Parses a stored payload string; rejects anything that is not the exact
/// wire form of some payload.
pub fn parse_otc_payload(s: &str) -> (r: Option<OtcPayload>)
    ensures
        match r {
            Some(p) => spec_parse_payload(s@) == Some(p@),
            None => spec_parse_payload(s@) is None,
        },
{
    let len = s.unicode_len();
    if len == 0 {
        return None;
    }
    let a = s.get_char(0);
    let action = if a == 'C' {
        OtcPayloadAction::ConfirmAccount
    } else if a == 'D' {
        OtcPayloadAction::DeleteAccount
    } else if a == 'U' {
        OtcPayloadAction::UpdateAccount
    } else {
        return None;
    };
    let (uid, i1) = match parse_num(s, 1) {
        Some(x) => x,
        None => {
            return None;
        },
    };
    if i1 >= len {
        return None;
    }
    if s.get_char(i1) != ';' {
        return None;
    }
    if uid > i32::MAX as u128 {
        return None;
    }
    let user_id = uid as i32;
    let (otc, i2) = match parse_field(s, i1 + 1) {
        Some(x) => x,
        None => {
            return None;
        },
    };
    let (name, i3) = match parse_field(s, i2) {
        Some(x) => x,
        None => {
            return None;
        },
    };
    let (email, i4) = match parse_field(s, i3) {
        Some(x) => x,
        None => {
            return None;
        },
    };
    let (phone, i5) = match parse_opt(s, i4) {
        Some(x) => x,
        None => {
            return None;
        },
    };
    let (password_hash, i6) = match parse_opt(s, i5) {
        Some(x) => x,
        None => {
            return None;
        },
    };
    if i6 != len {
        return None;
    }
    Some(OtcPayload { otc, user_id, action, name, phone, email, password_hash })
}

fn write_field(out: &mut String, f: &str)
    ensures
        final(out)@ == old(out)@ + spec_encode_field(f@),
        f@.len() < pow10(20),
{
    let l = f.unicode_len();
    let num = crate::numbers::format_u64(l as u64);
    out.append(num.as_str());
    out.append(":");
    out.append(f);
    proof {
        reveal_strlit(":");
        assert(":"@ =~= seq![':']);
        assert(pow10(20) == 100000000000000000000) by {
            reveal_with_fuel(pow10, 21);
        }
        assert(out@ =~= old(out)@ + spec_encode_field(f@));
    }
}

fn write_opt(out: &mut String, o: &Option<String>)
    ensures
        final(out)@ == old(out)@ + spec_encode_opt(
            match o {
                Some(f) => Some(f@),
                None => None,
            },
        ),
        (o matches Some(f) ==> f@.len() < pow10(20)),
{
    match o {
        None => {
            out.append("-");
            proof {
                reveal_strlit("-");
                assert("-"@ =~= seq!['-']);
                assert(out@ =~= old(out)@ + seq!['-']);
            }
        },
        Some(f) => {
            out.append("+");
            write_field(out, f.as_str());
            proof {
                reveal_strlit("+");
                assert("+"@ =~= seq!['+']);
                assert(out@ =~= old(out)@ + (seq!['+'] + spec_encode_field(f@)));
            }
        },
    }
}

/// Serializes a payload to its wire form. The result is proven to parse
/// back to the identical payload.
pub fn serialize_otc_payload(payload: &OtcPayload) -> (r: String)
    requires
        payload.user_id >= 0,
    ensures
        r@ == spec_encode_payload(payload@),
        spec_parse_payload(r@) == Some(payload@),
{
    let mut out = String::new();
    match payload.action {
        OtcPayloadAction::ConfirmAccount => out.append("C"),
        OtcPayloadAction::DeleteAccount => out.append("D"),
        OtcPayloadAction::UpdateAccount => out.append("U"),
    }
    proof {
        reveal_strlit("C");
        reveal_strlit("D");
        reveal_strlit("U");
        assert(out@ =~= seq![action_char(payload.action)]);
    }
    let num = crate::numbers::format_u64(payload.user_id as u64);
    out.append(num.as_str());
    out.append(";");
    proof {
        reveal_strlit(";");
        assert(";"@ =~= seq![';']);
    }
    write_field(&mut out, payload.otc.as_str());
    write_field(&mut out, payload.name.as_str());
    write_field(&mut out, payload.email.as_str());
    write_opt(&mut out, &payload.phone);
    write_opt(&mut out, &payload.password_hash);
    proof {
        assert(out@ =~= spec_encode_payload(payload@));
        lemma_payload_round_trip(payload@);
    }
    out
}

} // verus!
