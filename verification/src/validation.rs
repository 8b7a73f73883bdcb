//! Input validation for registration, account update and password reset.
//!
//! Each field rule is stated as a spec predicate mirroring the character
//! classes and anchors of the patterns they enforce, and each checker is proven
//! to return exactly the first failing rule's message key. The whitespace
//! accepted inside phone numbers is the ASCII whitespace set.

use vstd::prelude::*;

use crate::models::{opt_view, PasswordResetUser, RegisterUser, UpdateUser};
use crate::numbers::is_digit_char;
use crate::strutil::str_eq;

verus! {

pub open spec fn is_upper(c: char) -> bool {
    65 <= c as int <= 90
}

pub open spec fn is_lower(c: char) -> bool {
    97 <= c as int <= 122
}

pub open spec fn is_letter(c: char) -> bool {
    is_upper(c) || is_lower(c)
}

/// Characters an email may hold: letters, digits, '.', '@', '-'.
pub open spec fn is_email_char(c: char) -> bool {
    is_letter(c) || is_digit_char(c) || c == '.' || c == '@' || c == '-'
}

/// Characters the local part may hold: letters, digits, '.', '-'.
pub open spec fn is_local_char(c: char) -> bool {
    is_letter(c) || is_digit_char(c) || c == '.' || c == '-'
}

/// Characters a password may hold: letters, digits, '-', '!'.
pub open spec fn is_password_char(c: char) -> bool {
    is_letter(c) || is_digit_char(c) || c == '-' || c == '!'
}

pub open spec fn is_ascii_space(c: char) -> bool {
    c == ' ' || c == '\t' || c == '\n' || c == '\r' || c as int == 11 || c as int == 12
}

/// Characters a phone number may hold: digits, whitespace, '(', ')', '+', '-'.
pub open spec fn is_phone_char(c: char) -> bool {
    is_digit_char(c) || is_ascii_space(c) || c == '(' || c == ')' || c == '+' || c == '-'
}

pub open spec fn email_has_invalid_char(s: Seq<char>) -> bool {
    exists|i: int| 0 <= i < s.len() && !is_email_char(#[trigger] s[i])
}

pub open spec fn email_missing_at(s: Seq<char>) -> bool {
    forall|i: int| 0 <= i < s.len() ==> #[trigger] s[i] != '@'
}

/// The email starts with at least two local-part characters.
pub open spec fn email_valid_start(s: Seq<char>) -> bool {
    s.len() >= 2 && is_local_char(s[0]) && is_local_char(s[1])
}

/// A local part of two to twenty characters, then '@', then at least two
/// lowercase letters of domain.
pub open spec fn email_valid_domain(s: Seq<char>) -> bool {
    exists|k: int|
        {
            &&& 2 <= k <= 20
            &&& k + 2 < s.len()
            &&& (forall|t: int| 0 <= t < k ==> is_local_char(#[trigger] s[t]))
            &&& #[trigger] s[k] == '@'
            &&& is_lower(s[k + 1])
            &&& is_lower(s[k + 2])
        }
}

/// The email ends in '.' followed by two to five lowercase letters.
pub open spec fn email_valid_tld(s: Seq<char>) -> bool {
    exists|j: int|
        {
            &&& 0 <= j < s.len()
            &&& #[trigger] s[j] == '.'
            &&& 2 <= s.len() - (j + 1) <= 5
            &&& (forall|t: int| j < t < s.len() ==> is_lower(#[trigger] s[t]))
        }
}

pub open spec fn spec_email_feedback(s: Seq<char>) -> Option<Seq<char>> {
    if email_has_invalid_char(s) {
        Some("authentication.errors.invalid_characters"@)
    } else if email_missing_at(s) {
        Some("authentication.errors.missing_at_symbol"@)
    } else if !email_valid_start(s) {
        Some("authentication.errors.invalid_email_start"@)
    } else if !email_valid_domain(s) {
        Some("authentication.errors.invalid_domain_name"@)
    } else if !email_valid_tld(s) {
        Some("authentication.errors.missing_or_invalid_tld"@)
    } else {
        None
    }
}

/// The password length rule counts bytes of the UTF-8 form, as `str::len`
/// does.
pub open spec fn password_too_short(s: Seq<char>) -> bool {
    vstd::utf8::encode_utf8(s).len() < 8
}

pub open spec fn password_has_upper(s: Seq<char>) -> bool {
    exists|i: int| 0 <= i < s.len() && is_upper(#[trigger] s[i])
}

pub open spec fn password_has_digit(s: Seq<char>) -> bool {
    exists|i: int| 0 <= i < s.len() && is_digit_char(#[trigger] s[i])
}

pub open spec fn password_has_special(s: Seq<char>) -> bool {
    exists|i: int| 0 <= i < s.len() && (#[trigger] s[i] == '-' || s[i] == '!')
}

pub open spec fn password_has_invalid_char(s: Seq<char>) -> bool {
    exists|i: int| 0 <= i < s.len() && !is_password_char(#[trigger] s[i])
}

pub open spec fn spec_password_feedback(s: Seq<char>) -> Option<Seq<char>> {
    if password_too_short(s) {
        Some("authentication.errors.password_too_short"@)
    } else if !password_has_upper(s) {
        Some("authentication.errors.missing_uppercase"@)
    } else if !password_has_digit(s) {
        Some("authentication.errors.missing_number"@)
    } else if !password_has_special(s) {
        Some("authentication.errors.missing_special_character"@)
    } else if password_has_invalid_char(s) {
        Some("authentication.errors.invalid_characters"@)
    } else {
        None
    }
}

/// The phone starts with an optional '+' and then a digit.
pub open spec fn phone_valid_country_code(s: Seq<char>) -> bool {
    (s.len() >= 1 && is_digit_char(s[0])) || (s.len() >= 2 && s[0] == '+' && is_digit_char(s[1]))
}

/// The number of digit characters in s.
pub open spec fn num_digits(s: Seq<char>) -> int
    decreases s.len(),
{
    if s.len() == 0 {
        0
    } else {
        num_digits(s.drop_last()) + if is_digit_char(s.last()) {
            1int
        } else {
            0int
        }
    }
}

pub open spec fn phone_has_invalid_char(s: Seq<char>) -> bool {
    exists|i: int| 0 <= i < s.len() && !is_phone_char(#[trigger] s[i])
}

pub open spec fn spec_phone_feedback(s: Seq<char>) -> Option<Seq<char>> {
    if !phone_valid_country_code(s) {
        Some("authentication.errors.invalid_phone_country_code"@)
    } else if num_digits(s) < 10 {
        Some("authentication.errors.invalid_phone_length"@)
    } else if phone_has_invalid_char(s) {
        Some("authentication.errors.invalid_phone_characters"@)
    } else {
        None
    }
}

pub open spec fn spec_name_feedback(s: Seq<char>) -> Option<Seq<char>> {
    if s.len() < 1 {
        Some("authentication.errors.invalid_name"@)
    } else {
        None
    }
}

fn ch_is_upper(c: char) -> (b: bool)
    ensures
        b == is_upper(c),
{
    let v = c as u32;
    65 <= v && v <= 90
}

fn ch_is_lower(c: char) -> (b: bool)
    ensures
        b == is_lower(c),
{
    let v = c as u32;
    97 <= v && v <= 122
}

fn ch_is_digit(c: char) -> (b: bool)
    ensures
        b == is_digit_char(c),
{
    let v = c as u32;
    48 <= v && v <= 57
}

fn ch_is_email(c: char) -> (b: bool)
    ensures
        b == is_email_char(c),
{
    ch_is_upper(c) || ch_is_lower(c) || ch_is_digit(c) || c == '.' || c == '@' || c == '-'
}

fn ch_is_local(c: char) -> (b: bool)
    ensures
        b == is_local_char(c),
{
    ch_is_upper(c) || ch_is_lower(c) || ch_is_digit(c) || c == '.' || c == '-'
}

fn ch_is_password(c: char) -> (b: bool)
    ensures
        b == is_password_char(c),
{
    ch_is_upper(c) || ch_is_lower(c) || ch_is_digit(c) || c == '-' || c == '!'
}

fn ch_is_phone(c: char) -> (b: bool)
    ensures
        b == is_phone_char(c),
{
    let v = c as u32;
    ch_is_digit(c) || c == ' ' || c == '\t' || c == '\n' || c == '\r' || v == 11 || v == 12
        || c == '(' || c == ')' || c == '+' || c == '-'
}

fn email_chars_ok(s: &str) -> (b: bool)
    ensures
        b == !email_has_invalid_char(s@),
{
    let n = s.unicode_len();
    let mut i: usize = 0;
    while i < n
        invariant
            0 <= i <= n,
            n == s@.len(),
            forall|j: int| 0 <= j < i ==> is_email_char(#[trigger] s@[j]),
        decreases n - i,
    {
        if !ch_is_email(s.get_char(i)) {
            return false;
        }
        i = i + 1;
    }
    true
}

fn contains_at(s: &str) -> (b: bool)
    ensures
        b == !email_missing_at(s@),
{
    let n = s.unicode_len();
    let mut i: usize = 0;
    while i < n
        invariant
            0 <= i <= n,
            n == s@.len(),
            forall|j: int| 0 <= j < i ==> #[trigger] s@[j] != '@',
        decreases n - i,
    {
        if s.get_char(i) == '@' {
            return true;
        }
        i = i + 1;
    }
    false
}

fn email_start_ok(s: &str) -> (b: bool)
    ensures
        b == email_valid_start(s@),
{
    let n = s.unicode_len();
    n >= 2 && ch_is_local(s.get_char(0)) && ch_is_local(s.get_char(1))
}

fn email_domain_ok(s: &str) -> (b: bool)
    ensures
        b == email_valid_domain(s@),
{
    let n = s.unicode_len();
    let mut r: usize = 0;
    while r < n && r < 21 && ch_is_local(s.get_char(r))
        invariant
            0 <= r <= n,
            r <= 21,
            n == s@.len(),
            forall|t: int| 0 <= t < r ==> is_local_char(#[trigger] s@[t]),
        decreases n - r,
    {
        r = r + 1;
    }
    if r >= 21 {
        proof {
            if email_valid_domain(s@) {
                let k = choose|k: int|
                    {
                        &&& 2 <= k <= 20
                        &&& k + 2 < s@.len()
                        &&& (forall|t: int| 0 <= t < k ==> is_local_char(#[trigger] s@[t]))
                        &&& #[trigger] s@[k] == '@'
                        &&& is_lower(s@[k + 1])
                        &&& is_lower(s@[k + 2])
                    };
                assert(is_local_char(s@[k]));
                assert(false);
            }
        }
        return false;
    }
    // r is the exact run: r == n or s[r] is not a local character
    let ok = 2 <= r && r + 2 < n && s.get_char(r) == '@' && ch_is_lower(s.get_char(r + 1))
        && ch_is_lower(s.get_char(r + 2));
    proof {
        if ok {
            assert(email_valid_domain(s@)) by {
                assert(s@[r as int] == '@');
            }
        } else {
            if email_valid_domain(s@) {
                let k = choose|k: int|
                    {
                        &&& 2 <= k <= 20
                        &&& k + 2 < s@.len()
                        &&& (forall|t: int| 0 <= t < k ==> is_local_char(#[trigger] s@[t]))
                        &&& #[trigger] s@[k] == '@'
                        &&& is_lower(s@[k + 1])
                        &&& is_lower(s@[k + 2])
                    };
                if k < r {
                    assert(s@[k] == '@' && is_local_char(s@[k]));
                    assert(false);
                } else if k > r {
                    assert(r < n);
                    assert(is_local_char(s@[r as int]));
                    assert(false);
                }
                assert(k == r);
                assert(false);
            }
        }
    }
    ok
}

fn email_tld_ok(s: &str) -> (b: bool)
    ensures
        b == email_valid_tld(s@),
{
    let n = s.unicode_len();
    let mut q: usize = 2;
    while q <= 5
        invariant
            2 <= q <= 6,
            n == s@.len(),
            forall|j: int|
                0 <= j < s@.len() && 2 <= s@.len() - (j + 1) < q ==> !(#[trigger] s@[j] == '.' && (
                forall|t: int| j < t < s@.len() ==> is_lower(#[trigger] s@[t]))),
        decreases 6 - q,
    {
        if n >= q + 1 {
            let j = n - 1 - q;
            if s.get_char(j) == '.' && suffix_lower(s, q) {
                proof {
                    assert(s@[j as int] == '.');
                    assert(2 <= s@.len() - (j as int + 1) <= 5);
                    assert(email_valid_tld(s@));
                }
                return true;
            }
        }
        q = q + 1;
    }
    proof {
        if email_valid_tld(s@) {
            let j = choose|j: int|
                {
                    &&& 0 <= j < s@.len()
                    &&& #[trigger] s@[j] == '.'
                    &&& 2 <= s@.len() - (j + 1) <= 5
                    &&& (forall|t: int| j < t < s@.len() ==> is_lower(#[trigger] s@[t]))
                };
            assert(2 <= s@.len() - (j + 1) < 6);
            assert(false);
        }
    }
    false
}

fn suffix_lower(s: &str, q: usize) -> (b: bool)
    requires
        q <= s@.len(),
    ensures
        b == (forall|t: int| s@.len() - q <= t < s@.len() ==> is_lower(#[trigger] s@[t])),
{
    let n = s.unicode_len();
    let mut t = n - q;
    while t < n
        invariant
            n == s@.len(),
            n - q <= t <= n,
            forall|u: int| s@.len() - q <= u < t ==> is_lower(#[trigger] s@[u]),
        decreases n - t,
    {
        if !ch_is_lower(s.get_char(t)) {
            return false;
        }
        t = t + 1;
    }
    true
}

/// The first failing email rule's message key, if any.
pub fn get_email_feedback_message(email: &str) -> (r: Option<&str>)
    ensures
        match r {
            Some(m) => spec_email_feedback(email@) == Some(m@),
            None => spec_email_feedback(email@) is None,
        },
{
    if !email_chars_ok(email) {
        Some("authentication.errors.invalid_characters")
    } else if !contains_at(email) {
        Some("authentication.errors.missing_at_symbol")
    } else if !email_start_ok(email) {
        Some("authentication.errors.invalid_email_start")
    } else if !email_domain_ok(email) {
        Some("authentication.errors.invalid_domain_name")
    } else if !email_tld_ok(email) {
        Some("authentication.errors.missing_or_invalid_tld")
    } else {
        None
    }
}

fn password_scan(s: &str) -> (r: (bool, bool, bool, bool))
    ensures
        r.0 == password_has_upper(s@),
        r.1 == password_has_digit(s@),
        r.2 == password_has_special(s@),
        r.3 == password_has_invalid_char(s@),
{
    let n = s.unicode_len();
    let mut has_upper = false;
    let mut has_digit = false;
    let mut has_special = false;
    let mut has_invalid = false;
    let mut i: usize = 0;
    while i < n
        invariant
            0 <= i <= n,
            n == s@.len(),
            has_upper == exists|j: int| 0 <= j < i && is_upper(#[trigger] s@[j]),
            has_digit == exists|j: int| 0 <= j < i && is_digit_char(#[trigger] s@[j]),
            has_special == exists|j: int|
                0 <= j < i && (#[trigger] s@[j] == '-' || s@[j] == '!'),
            has_invalid == exists|j: int| 0 <= j < i && !is_password_char(#[trigger] s@[j]),
        decreases n - i,
    {
        let c = s.get_char(i);
        if ch_is_upper(c) {
            has_upper = true;
        }
        if ch_is_digit(c) {
            has_digit = true;
        }
        if c == '-' || c == '!' {
            has_special = true;
        }
        if !ch_is_password(c) {
            has_invalid = true;
        }
        i = i + 1;
    }
    (has_upper, has_digit, has_special, has_invalid)
}

/// The first failing password rule's message key, if any.
pub fn get_password_feedback_message(password: &str) -> (r: Option<&str>)
    ensures
        match r {
            Some(m) => spec_password_feedback(password@) == Some(m@),
            None => spec_password_feedback(password@) is None,
        },
{
    let bytes = password.as_bytes();
    if bytes.len() < 8 {
        return Some("authentication.errors.password_too_short");
    }
    let (has_upper, has_digit, has_special, has_invalid) = password_scan(password);
    if !has_upper {
        Some("authentication.errors.missing_uppercase")
    } else if !has_digit {
        Some("authentication.errors.missing_number")
    } else if !has_special {
        Some("authentication.errors.missing_special_character")
    } else if has_invalid {
        Some("authentication.errors.invalid_characters")
    } else {
        None
    }
}

fn count_phone_digits(s: &str) -> (r: usize)
    ensures
        r as int == num_digits(s@),
{
    let n = s.unicode_len();
    let mut count: usize = 0;
    let mut i: usize = 0;
    while i < n
        invariant
            0 <= i <= n,
            n == s@.len(),
            count <= i,
            count as int == num_digits(s@.take(i as int)),
        decreases n - i,
    {
        proof {
            assert(s@.take(i as int + 1).drop_last() =~= s@.take(i as int));
            assert(s@.take(i as int + 1).last() == s@[i as int]);
        }
        if ch_is_digit(s.get_char(i)) {
            count = count + 1;
        }
        i = i + 1;
    }
    proof {
        assert(s@.take(n as int) =~= s@);
    }
    count
}

fn phone_chars_ok(s: &str) -> (b: bool)
    ensures
        b == !phone_has_invalid_char(s@),
{
    let n = s.unicode_len();
    let mut i: usize = 0;
    while i < n
        invariant
            0 <= i <= n,
            n == s@.len(),
            forall|j: int| 0 <= j < i ==> is_phone_char(#[trigger] s@[j]),
        decreases n - i,
    {
        if !ch_is_phone(s.get_char(i)) {
            return false;
        }
        i = i + 1;
    }
    true
}

/// The first failing phone rule's message key, if any.
pub fn get_phone_number_feedback_message(phone: &str) -> (r: Option<&str>)
    ensures
        match r {
            Some(m) => spec_phone_feedback(phone@) == Some(m@),
            None => spec_phone_feedback(phone@) is None,
        },
{
    let n = phone.unicode_len();
    let country_ok = if n >= 1 && ch_is_digit(phone.get_char(0)) {
        true
    } else if n >= 2 && phone.get_char(0) == '+' && ch_is_digit(phone.get_char(1)) {
        true
    } else {
        false
    };
    if !country_ok {
        return Some("authentication.errors.invalid_phone_country_code");
    }
    if count_phone_digits(phone) < 10 {
        return Some("authentication.errors.invalid_phone_length");
    }
    if !phone_chars_ok(phone) {
        return Some("authentication.errors.invalid_phone_characters");
    }
    None
}

/// The name rule: a name must be nonempty.
pub fn get_name_feedback_message(name: &str) -> (r: Option<&str>)
    ensures
        match r {
            Some(m) => spec_name_feedback(name@) == Some(m@),
            None => spec_name_feedback(name@) is None,
        },
{
    if name.unicode_len() < 1 {
        Some("authentication.errors.invalid_name")
    } else {
        None
    }
}

/// What validating a registration yields: the first failing rule's key.
pub open spec fn spec_validate_register(
    name: Seq<char>,
    email: Seq<char>,
    password: Seq<char>,
    password_confirm: Seq<char>,
) -> Option<Seq<char>> {
    if spec_name_feedback(name) is Some {
        spec_name_feedback(name)
    } else if spec_email_feedback(email) is Some {
        spec_email_feedback(email)
    } else if spec_password_feedback(password) is Some {
        spec_password_feedback(password)
    } else if password != password_confirm {
        Some("auth.errors.password_mismatch"@)
    } else {
        None
    }
}

pub fn validate_register_user_data(user: &RegisterUser) -> (r: Option<&str>)
    ensures
        match r {
            Some(m) => spec_validate_register(
                user.name@,
                user.email@,
                user.password@,
                user.password_confirm@,
            ) == Some(m@),
            None => spec_validate_register(
                user.name@,
                user.email@,
                user.password@,
                user.password_confirm@,
            ) is None,
        },
{
    if let Some(error) = get_name_feedback_message(user.name.as_str()) {
        return Some(error);
    }
    if let Some(error) = get_email_feedback_message(user.email.as_str()) {
        return Some(error);
    }
    if let Some(error) = get_password_feedback_message(user.password.as_str()) {
        return Some(error);
    }
    if !str_eq(user.password.as_str(), user.password_confirm.as_str()) {
        return Some("auth.errors.password_mismatch");
    }
    None
}

/// What validating an account update yields: the first failing rule's key.
pub open spec fn spec_validate_update(
    name: Seq<char>,
    email: Seq<char>,
    email_confirm: Option<Seq<char>>,
    password: Option<Seq<char>>,
    password_confirm: Option<Seq<char>>,
    phone: Option<Seq<char>>,
) -> Option<Seq<char>> {
    if spec_name_feedback(name) is Some {
        spec_name_feedback(name)
    } else if spec_email_feedback(email) is Some {
        spec_email_feedback(email)
    } else if email_confirm matches Some(ec) && email != ec {
        Some("auth.errors.email_mismatch"@)
    } else if password matches Some(p) && password_confirm matches Some(pc)
        && spec_password_feedback(p) is Some {
        spec_password_feedback(password->0)
    } else if password matches Some(p) && password_confirm matches Some(pc) && p != pc {
        Some("auth.errors.password_mismatch"@)
    } else if phone matches Some(ph) && spec_phone_feedback(ph) is Some {
        spec_phone_feedback(phone->0)
    } else {
        None
    }
}

pub fn validate_update_user_data(user: &UpdateUser) -> (r: Option<&str>)
    ensures
        match r {
            Some(m) => spec_validate_update(
                user.name@,
                user.email@,
                opt_view(user.email_confirm),
                opt_view(user.password),
                opt_view(user.password_confirm),
                opt_view(user.phone),
            ) == Some(m@),
            None => spec_validate_update(
                user.name@,
                user.email@,
                opt_view(user.email_confirm),
                opt_view(user.password),
                opt_view(user.password_confirm),
                opt_view(user.phone),
            ) is None,
        },
{
    if let Some(error) = get_name_feedback_message(user.name.as_str()) {
        return Some(error);
    }
    if let Some(error) = get_email_feedback_message(user.email.as_str()) {
        return Some(error);
    }
    if let Some(email_confirm) = &user.email_confirm {
        if !str_eq(user.email.as_str(), email_confirm.as_str()) {
            return Some("auth.errors.email_mismatch");
        }
    }
    if let (Some(password), Some(password_confirm)) = (&user.password, &user.password_confirm) {
        if let Some(error) = get_password_feedback_message(password.as_str()) {
            return Some(error);
        }
        if !str_eq(password.as_str(), password_confirm.as_str()) {
            return Some("auth.errors.password_mismatch");
        }
    }
    if let Some(phone) = &user.phone {
        if let Some(error) = get_phone_number_feedback_message(phone.as_str()) {
            return Some(error);
        }
    }
    None
}

/// What validating a password reset yields: the first failing rule's key.
pub open spec fn spec_validate_password_reset(
    password: Seq<char>,
    password_confirm: Seq<char>,
) -> Option<Seq<char>> {
    if spec_password_feedback(password) is Some {
        spec_password_feedback(password)
    } else if password != password_confirm {
        Some("auth.errors.password_mismatch"@)
    } else {
        None
    }
}

pub fn validate_password_reset_user_data(user: &PasswordResetUser) -> (r: Option<&str>)
    ensures
        match r {
            Some(m) => spec_validate_password_reset(user.password@, user.password_confirm@)
                == Some(m@),
            None => spec_validate_password_reset(
                user.password@,
                user.password_confirm@,
            ) is None,
        },
{
    if let Some(error) = get_password_feedback_message(user.password.as_str()) {
        return Some(error);
    }
    if !str_eq(user.password.as_str(), user.password_confirm.as_str()) {
        return Some("auth.errors.password_mismatch");
    }
    None
}

} // verus!
