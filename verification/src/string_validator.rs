//! A composable string validator: a value is captured once, checks are
//! queued, and validation runs every queued check, collecting a message for
//! each failure.
//!
//! The character classes that depend on Unicode tables (alphabetic,
//! case, whitespace) are taken from the standard library behind named,
//! uninterpreted results; everything else, including the e-mail shape, is
//! specified and verified here.

use vstd::prelude::*;
use vstd::string::StrSliceExecFns;

verus! {

/// What `char::is_alphanumeric` returns: a function of the character
/// alone, by Unicode tables.
pub uninterp spec fn unicode_alphanumeric(c: char) -> bool;

/// What `char::is_lowercase` returns: a function of the character alone,
/// by Unicode tables.
pub uninterp spec fn unicode_lowercase(c: char) -> bool;

/// What `char::is_uppercase` returns: a function of the character alone,
/// by Unicode tables.
pub uninterp spec fn unicode_uppercase(c: char) -> bool;

/// What `char::is_whitespace` returns: a function of the character alone,
/// by Unicode tables.
pub uninterp spec fn unicode_whitespace(c: char) -> bool;

/// Relies on char::is_alphanumeric: the result depends on the character
/// alone.
#[verifier::external_body]
fn char_is_alphanumeric(c: char) -> (alnum: bool)
    ensures
        alnum == unicode_alphanumeric(c),
{
    c.is_alphanumeric()
}

/// Relies on char::is_lowercase: the result depends on the character
/// alone.
#[verifier::external_body]
fn char_is_lowercase(c: char) -> (lower: bool)
    ensures
        lower == unicode_lowercase(c),
{
    c.is_lowercase()
}

/// Relies on char::is_uppercase: the result depends on the character
/// alone.
#[verifier::external_body]
fn char_is_uppercase(c: char) -> (upper: bool)
    ensures
        upper == unicode_uppercase(c),
{
    c.is_uppercase()
}

/// Relies on char::is_whitespace: the result depends on the character
/// alone.
#[verifier::external_body]
pub(crate) fn char_is_whitespace(c: char) -> (white: bool)
    ensures
        white == unicode_whitespace(c),
{
    c.is_whitespace()
}

/// An ASCII decimal digit, as `char::is_digit(10)` recognizes them.
pub open spec fn digit_char(c: char) -> bool {
    48 <= c as u32 <= 57
}

/// True iff some character of `s` is an ASCII digit.
pub open spec fn has_digit(s: Seq<char>) -> bool {
    exists|i: int| 0 <= i < s.len() && digit_char(#[trigger] s[i])
}

/// True iff some character of `s` is whitespace.
pub open spec fn has_whitespace(s: Seq<char>) -> bool {
    exists|i: int| 0 <= i < s.len() && unicode_whitespace(#[trigger] s[i])
}

/// True iff some character of `s` is uppercase.
pub open spec fn has_uppercase(s: Seq<char>) -> bool {
    exists|i: int| 0 <= i < s.len() && unicode_uppercase(#[trigger] s[i])
}

/// True iff some character of `s` is lowercase.
pub open spec fn has_lowercase(s: Seq<char>) -> bool {
    exists|i: int| 0 <= i < s.len() && unicode_lowercase(#[trigger] s[i])
}

/// True iff some character of `s` is not alphanumeric.
pub open spec fn has_special(s: Seq<char>) -> bool {
    exists|i: int| 0 <= i < s.len() && !unicode_alphanumeric(#[trigger] s[i])
}

/// True iff every character of `s` is alphanumeric.
pub open spec fn all_alphanumeric(s: Seq<char>) -> bool {
    forall|i: int| 0 <= i < s.len() ==> unicode_alphanumeric(#[trigger] s[i])
}

/// True iff every character of `s` is lowercase.
pub open spec fn all_lowercase(s: Seq<char>) -> bool {
    forall|i: int| 0 <= i < s.len() ==> unicode_lowercase(#[trigger] s[i])
}

/// True iff every character of `s` is uppercase.
pub open spec fn all_uppercase(s: Seq<char>) -> bool {
    forall|i: int| 0 <= i < s.len() ==> unicode_uppercase(#[trigger] s[i])
}

/// True iff `s` equals the view of some entry of `items`.
pub open spec fn one_of(s: Seq<char>, items: Seq<String>) -> bool {
    exists|i: int| 0 <= i < items.len() && (#[trigger] items[i])@ == s
}

/// An ASCII letter.
pub open spec fn email_alpha_char(c: char) -> bool {
    (65 <= c as u32 <= 90) || (97 <= c as u32 <= 122)
}

/// A character admissible in the local part of an e-mail address:
/// ASCII letters and digits and `. _ % + -`.
pub open spec fn email_local_char(c: char) -> bool {
    ||| email_alpha_char(c)
    ||| digit_char(c)
    ||| c as u32 == 46  // .
    ||| c as u32 == 95  // _
    ||| c as u32 == 37  // %
    ||| c as u32 == 43  // +
    ||| c as u32 == 45  // -
}

/// A character admissible in the domain part of an e-mail address:
/// ASCII letters and digits and `. -`.
pub open spec fn email_domain_char(c: char) -> bool {
    ||| email_alpha_char(c)
    ||| digit_char(c)
    ||| c as u32 == 46  // .
    ||| c as u32 == 45  // -
}

/// The e-mail shape with `@` at `i` and the final dot at `j`: a non-empty
/// local part, an `@`, a non-empty domain part, a dot, and at least two
/// closing letters.
pub open spec fn email_shape(s: Seq<char>, i: int, j: int) -> bool {
    &&& 1 <= i
    &&& i + 1 < j
    &&& j + 3 <= s.len()
    &&& s[i] == '@'
    &&& s[j] == '.'
    &&& forall|k: int| 0 <= k < i ==> email_local_char(#[trigger] s[k])
    &&& forall|k: int| i < k < j ==> email_domain_char(#[trigger] s[k])
    &&& forall|k: int| j < k < s.len() ==> email_alpha_char(#[trigger] s[k])
}

/// A well-shaped e-mail address: some split into local part, domain part
/// and a final all-letter segment of length at least two.
pub open spec fn is_email(s: Seq<char>) -> bool {
    exists|i: int, j: int| email_shape(s, i, j)
}

/// In a well-shaped address, the `@` and the final dot are forced: the
/// `@` position is the only one carrying `@`, and the dot position is the
/// last one carrying `.`.
proof fn lemma_email_witnesses(s: Seq<char>, i: int, j: int, at: int, dot: int)
    requires
        email_shape(s, i, j),
        0 <= at < s.len(),
        s[at] == '@',
        0 <= dot < s.len(),
        s[dot] == '.',
        forall|p: int| dot < p < s.len() ==> s[p] != '.',
    ensures
        i == at,
        j == dot,
{
    lemma_email_at_forced(s, i, j, at);
    if dot < j {
        assert(s[j] == '.');
    } else if dot > j {
        assert(email_alpha_char(s[dot]));
    }
}

/// In a well-shaped address, any position carrying `@` is the split
/// position: neither the local nor the domain nor the closing segment can
/// hold an `@`.
proof fn lemma_email_at_forced(s: Seq<char>, i: int, j: int, at: int)
    requires
        email_shape(s, i, j),
        0 <= at < s.len(),
        s[at] == '@',
    ensures
        i == at,
{
    if at < i {
        assert(email_local_char(s[at]));
    } else if at > i {
        if at < j {
            assert(email_domain_char(s[at]));
        } else if at == j {
            assert(s[j] == '.');
        } else {
            assert(email_alpha_char(s[at]));
        }
    }
}

/// True iff `s` is a well-shaped e-mail address.
pub fn check_email(s: &str) -> (matched: bool)
    ensures
        matched == is_email(s@),
{
    let n = s.unicode_len();
    // Find the unique '@'; two of them rule the shape out.
    let mut at_opt: Option<usize> = None;
    let mut k: usize = 0;
    while k < n
        invariant
            k <= n,
            n == s@.len(),
            match at_opt {
                Some(a) => a < k && s@[a as int] == '@',
                None => forall|p: int| 0 <= p < k ==> s@[p] != '@',
            },
            at_opt matches Some(a) ==> forall|p: int| 0 <= p < k && p != a ==> s@[p] != '@',
        decreases n - k,
    {
        let c = s.get_char(k);
        if c == '@' {
            match at_opt {
                Some(a) => {
                    proof {
                        assert forall|i: int, j: int| !email_shape(s@, i, j) by {
                            if email_shape(s@, i, j) {
                                lemma_email_at_forced(s@, i, j, a as int);
                                lemma_email_at_forced(s@, i, j, k as int);
                            }
                        }
                    }
                    return false;
                },
                None => {
                    at_opt = Some(k);
                },
            }
        }
        k += 1;
    }
    let at = match at_opt {
        None => {
            proof {
                assert forall|i: int, j: int| !email_shape(s@, i, j) by {
                    if email_shape(s@, i, j) {
                        assert(s@[i] == '@');
                    }
                }
            }
            return false;
        },
        Some(a) => a,
    };
    if at == 0 {
        proof {
            assert forall|i: int, j: int| !email_shape(s@, i, j) by {
                if email_shape(s@, i, j) {
                    lemma_email_at_forced(s@, i, j, at as int);
                }
            }
        }
        return false;
    }
    // The local part must be non-empty and admissible.
    let mut k: usize = 0;
    while k < at
        invariant
            k <= at,
            at < n,
            n == s@.len(),
            s@[at as int] == '@',
            forall|p: int| 0 <= p < n && p != at ==> s@[p] != '@',
            forall|p: int| 0 <= p < k ==> email_local_char(#[trigger] s@[p]),
        decreases at - k,
    {
        let c = s.get_char(k);
        let u = c as u32;
        let local = (65 <= u && u <= 90) || (97 <= u && u <= 122) || (48 <= u && u <= 57) || u == 46
            || u == 95 || u == 37 || u == 43 || u == 45;
        if !local {
            proof {
                assert forall|i: int, j: int| !email_shape(s@, i, j) by {
                    if email_shape(s@, i, j) {
                        lemma_email_at_forced(s@, i, j, at as int);
                        assert(email_local_char(s@[k as int]));
                    }
                }
            }
            return false;
        }
        k += 1;
    }
    // Find the last '.'; in a well-shaped address it closes the domain.
    let mut dot_opt: Option<usize> = None;
    let mut k: usize = 0;
    while k < n
        invariant
            k <= n,
            n == s@.len(),
            match dot_opt {
                Some(d) => d < k && s@[d as int] == '.' && forall|p: int|
                    d < p < k ==> s@[p] != '.',
                None => forall|p: int| 0 <= p < k ==> s@[p] != '.',
            },
        decreases n - k,
    {
        let c = s.get_char(k);
        if c == '.' {
            dot_opt = Some(k);
        }
        k += 1;
    }
    let dot = match dot_opt {
        None => {
            proof {
                assert forall|i: int, j: int| !email_shape(s@, i, j) by {
                    if email_shape(s@, i, j) {
                        assert(s@[j] == '.');
                    }
                }
            }
            return false;
        },
        Some(d) => d,
    };
    if (dot as u128) < (at as u128) + 2 || (dot as u128) + 3 > (n as u128) {
        proof {
            assert forall|i: int, j: int| !email_shape(s@, i, j) by {
                if email_shape(s@, i, j) {
                    lemma_email_witnesses(s@, i, j, at as int, dot as int);
                }
            }
        }
        return false;
    }
    // The domain part between '@' and the last dot must be admissible.
    let mut k: usize = at + 1;
    while k < dot
        invariant
            at < k <= dot,
            dot < n,
            n == s@.len(),
            s@[at as int] == '@',
            s@[dot as int] == '.',
            forall|p: int| 0 <= p < n && p != at ==> s@[p] != '@',
            forall|p: int| dot < p < n ==> s@[p] != '.',
            forall|p: int| at < p < k ==> email_domain_char(#[trigger] s@[p]),
        decreases dot - k,
    {
        let c = s.get_char(k);
        let u = c as u32;
        let domain = (65 <= u && u <= 90) || (97 <= u && u <= 122) || (48 <= u && u <= 57)
            || u == 46 || u == 45;
        if !domain {
            proof {
                assert forall|i: int, j: int| !email_shape(s@, i, j) by {
                    if email_shape(s@, i, j) {
                        lemma_email_witnesses(s@, i, j, at as int, dot as int);
                        assert(email_domain_char(s@[k as int]));
                    }
                }
            }
            return false;
        }
        k += 1;
    }
    // The closing segment after the last dot must be all letters.
    let mut k: usize = dot + 1;
    while k < n
        invariant
            dot < k <= n,
            n == s@.len(),
            s@[at as int] == '@',
            s@[dot as int] == '.',
            at < n,
            forall|p: int| 0 <= p < n && p != at ==> s@[p] != '@',
            forall|p: int| dot < p < n ==> s@[p] != '.',
            forall|p: int| dot < p < k ==> email_alpha_char(#[trigger] s@[p]),
        decreases n - k,
    {
        let c = s.get_char(k);
        let u = c as u32;
        let alpha = (65 <= u && u <= 90) || (97 <= u && u <= 122);
        if !alpha {
            proof {
                assert forall|i: int, j: int| !email_shape(s@, i, j) by {
                    if email_shape(s@, i, j) {
                        lemma_email_witnesses(s@, i, j, at as int, dot as int);
                        assert(email_alpha_char(s@[k as int]));
                    }
                }
            }
            return false;
        }
        k += 1;
    }
    proof {
        assert(email_shape(s@, at as int, dot as int));
    }
    true
}

/// `s` with its leading whitespace dropped.
pub open spec fn trim_front_spec(s: Seq<char>) -> Seq<char>
    decreases s.len(),
{
    if s.len() > 0 && unicode_whitespace(s[0]) {
        trim_front_spec(s.drop_first())
    } else {
        s
    }
}

/// `s` with its trailing whitespace dropped.
pub open spec fn trim_back_spec(s: Seq<char>) -> Seq<char>
    decreases s.len(),
{
    if s.len() > 0 && unicode_whitespace(s.last()) {
        trim_back_spec(s.drop_last())
    } else {
        s
    }
}

/// `s` with leading and trailing whitespace dropped.
pub open spec fn trimmed(s: Seq<char>) -> Seq<char> {
    trim_back_spec(trim_front_spec(s))
}

/// Dropping the leading whitespace keeps exactly the tail from the first
/// non-whitespace position on.
proof fn lemma_trim_front(s: Seq<char>, k: int)
    requires
        0 <= k <= s.len(),
        forall|p: int| 0 <= p < k ==> unicode_whitespace(#[trigger] s[p]),
        k < s.len() ==> !unicode_whitespace(s[k]),
    ensures
        trim_front_spec(s) == s.subrange(k, s.len() as int),
    decreases k,
{
    if k == 0 {
        assert(s.subrange(0, s.len() as int) =~= s);
    } else {
        let rest = s.drop_first();
        assert(rest =~= s.subrange(1, s.len() as int));
        lemma_trim_front(rest, k - 1);
        assert(rest.subrange(k - 1, rest.len() as int) =~= s.subrange(k, s.len() as int));
    }
}

/// Dropping the trailing whitespace keeps exactly the head up to the last
/// non-whitespace position.
proof fn lemma_trim_back(s: Seq<char>, m: int)
    requires
        0 <= m <= s.len(),
        forall|p: int| m <= p < s.len() ==> unicode_whitespace(#[trigger] s[p]),
        m > 0 ==> !unicode_whitespace(s[m - 1]),
    ensures
        trim_back_spec(s) == s.subrange(0, m),
    decreases s.len(),
{
    if m == s.len() {
        if s.len() > 0 && unicode_whitespace(s.last()) {
            assert(!unicode_whitespace(s[m - 1]));
        }
        assert(s.subrange(0, m) =~= s);
    } else {
        assert(unicode_whitespace(s.last()));
        let rest = s.drop_last();
        lemma_trim_back(rest, m);
        assert(rest.subrange(0, m) =~= s.subrange(0, m));
    }
}

/// The value with leading and trailing whitespace dropped.
fn trim_str(s: &str) -> (clean: String)
    ensures
        clean@ == trimmed(s@),
{
    let n = s.unicode_len();
    let mut start: usize = 0;
    while start < n
        invariant_except_break
            start <= n,
            n == s@.len(),
            forall|p: int| 0 <= p < start ==> unicode_whitespace(#[trigger] s@[p]),
        ensures
            start <= n,
            n == s@.len(),
            forall|p: int| 0 <= p < start ==> unicode_whitespace(#[trigger] s@[p]),
            start < n ==> !unicode_whitespace(s@[start as int]),
        decreases n - start,
    {
        if !char_is_whitespace(s.get_char(start)) {
            break ;
        }
        start += 1;
    }
    let mut end: usize = n;
    while end > start
        invariant_except_break
            start <= end <= n,
            n == s@.len(),
            forall|p: int| end <= p < n ==> unicode_whitespace(#[trigger] s@[p]),
        ensures
            start <= end <= n,
            n == s@.len(),
            forall|p: int| end <= p < n ==> unicode_whitespace(#[trigger] s@[p]),
            end > start ==> !unicode_whitespace(s@[end - 1]),
        decreases end,
    {
        if !char_is_whitespace(s.get_char(end - 1)) {
            break ;
        }
        end -= 1;
    }
    proof {
        if start == n {
            lemma_trim_front(s@, start as int);
        } else {
            lemma_trim_front(s@, start as int);
        }
        let front = s@.subrange(start as int, n as int);
        assert forall|p: int| (end - start) <= p < front.len() implies unicode_whitespace(
            #[trigger] front[p],
        ) by {
            assert(front[p] == s@[p + start]);
        }
        if end > start {
            assert(front[end - start - 1] == s@[end - 1]);
        }
        lemma_trim_back(front, end - start);
        assert(front.subrange(0, end - start) =~= s@.subrange(start as int, end as int));
    }
    let piece = s.substring_char(start, end);
    piece.to_owned()
}

/// One queued check over a captured value.
#[derive(Debug)]
pub enum StringValidationFn {
    NoNumber(String),
    NoSpace(String),
    MaxLength(String, i32),
    MinLength(String, i32),
    Length(String, i32, i32),
    IsAlphanumerical(String),
    IsEmail(String),
    IsLowercase(String),
    IsUppercase(String),
    IsCapitalized(String),
    OneOf(String, Vec<String>),
    ContainsUppercase(String),
    ContainsLowercase(String),
    ContainsNumber(String),
    ContainsSpecialChar(String),
}

impl StringValidationFn {
    /// The exact condition under which this check accepts its value.
    /// A capitalization check only demands a non-empty value.
    pub open spec fn passes(self) -> bool {
        match self {
            StringValidationFn::NoNumber(s) => !has_digit(s@),
            StringValidationFn::NoSpace(s) => !has_whitespace(s@),
            StringValidationFn::MaxLength(s, n) => s@.len() <= n,
            StringValidationFn::MinLength(s, n) => s@.len() >= n,
            StringValidationFn::Length(s, min, max) => min <= s@.len() && s@.len() <= max,
            StringValidationFn::IsAlphanumerical(s) => all_alphanumeric(s@),
            StringValidationFn::IsEmail(s) => is_email(s@),
            StringValidationFn::IsLowercase(s) => all_lowercase(s@),
            StringValidationFn::IsUppercase(s) => all_uppercase(s@),
            StringValidationFn::IsCapitalized(s) => s@.len() > 0,
            StringValidationFn::OneOf(s, items) => one_of(s@, items@),
            StringValidationFn::ContainsUppercase(s) => has_uppercase(s@),
            StringValidationFn::ContainsLowercase(s) => has_lowercase(s@),
            StringValidationFn::ContainsNumber(s) => has_digit(s@),
            StringValidationFn::ContainsSpecialChar(s) => has_special(s@),
        }
    }

    /// The message reported when this check rejects its value.
    pub open spec fn failure_message(self) -> Seq<char> {
        match self {
            StringValidationFn::NoNumber(_) => "value contains a number"@,
            StringValidationFn::NoSpace(_) => "value contains a white space"@,
            StringValidationFn::MaxLength(_, _) => "value exceeds max length"@,
            StringValidationFn::MinLength(_, _) => "value is shorter than min length"@,
            StringValidationFn::Length(_, _, _) => "value length is out of range"@,
            StringValidationFn::IsAlphanumerical(_) => "value contains a special character"@,
            StringValidationFn::IsEmail(_) => "value is not an email"@,
            StringValidationFn::IsLowercase(_) => "value should be lowercased"@,
            StringValidationFn::IsUppercase(_) => "value should be uppercased"@,
            StringValidationFn::IsCapitalized(_) => "value is not capitalized"@,
            StringValidationFn::OneOf(_, _) => "value should be one of the allowed values"@,
            StringValidationFn::ContainsUppercase(_) => "value does not have an uppercase character"@,
            StringValidationFn::ContainsLowercase(_) => "value does not have a lowercase character"@,
            StringValidationFn::ContainsNumber(_) => "value does not have a digit character"@,
            StringValidationFn::ContainsSpecialChar(_) => "value does not have a special character"@,
        }
    }

    /// Runs the check: `None` on acceptance, the failure message on
    /// rejection.
    pub fn run(&self) -> (outcome: Option<String>)
        ensures
            outcome is None <==> self.passes(),
            outcome matches Some(m) ==> m@ == self.failure_message(),
    {
        let passed: bool = match self {
            StringValidationFn::NoNumber(s) => !scan_digit(s.as_str()),
            StringValidationFn::NoSpace(s) => !scan_whitespace(s.as_str()),
            StringValidationFn::MaxLength(s, n) => {
                let l = s.as_str().unicode_len();
                *n >= 0 && l <= (*n as usize)
            },
            StringValidationFn::MinLength(s, n) => {
                let l = s.as_str().unicode_len();
                *n < 0 || l >= (*n as usize)
            },
            StringValidationFn::Length(s, min, max) => {
                let l = s.as_str().unicode_len();
                (*min < 0 || l >= (*min as usize)) && *max >= 0 && l <= (*max as usize)
            },
            StringValidationFn::IsAlphanumerical(s) => !scan_nonalnum(s.as_str()),
            StringValidationFn::IsEmail(s) => check_email(s.as_str()),
            StringValidationFn::IsLowercase(s) => !scan_nonlower(s.as_str()),
            StringValidationFn::IsUppercase(s) => !scan_nonupper(s.as_str()),
            StringValidationFn::IsCapitalized(s) => s.as_str().unicode_len() > 0,
            StringValidationFn::OneOf(s, items) => scan_one_of(s, items),
            StringValidationFn::ContainsUppercase(s) => scan_uppercase(s.as_str()),
            StringValidationFn::ContainsLowercase(s) => scan_lowercase(s.as_str()),
            StringValidationFn::ContainsNumber(s) => scan_digit(s.as_str()),
            StringValidationFn::ContainsSpecialChar(s) => scan_nonalnum(s.as_str()),
        };
        if passed {
            None
        } else {
            Some(
                match self {
                    StringValidationFn::NoNumber(_) => String::from_str("value contains a number"),
                    StringValidationFn::NoSpace(_) => String::from_str(
                        "value contains a white space",
                    ),
                    StringValidationFn::MaxLength(_, _) => String::from_str(
                        "value exceeds max length",
                    ),
                    StringValidationFn::MinLength(_, _) => String::from_str(
                        "value is shorter than min length",
                    ),
                    StringValidationFn::Length(_, _, _) => String::from_str(
                        "value length is out of range",
                    ),
                    StringValidationFn::IsAlphanumerical(_) => String::from_str(
                        "value contains a special character",
                    ),
                    StringValidationFn::IsEmail(_) => String::from_str("value is not an email"),
                    StringValidationFn::IsLowercase(_) => String::from_str(
                        "value should be lowercased",
                    ),
                    StringValidationFn::IsUppercase(_) => String::from_str(
                        "value should be uppercased",
                    ),
                    StringValidationFn::IsCapitalized(_) => String::from_str(
                        "value is not capitalized",
                    ),
                    StringValidationFn::OneOf(_, _) => String::from_str(
                        "value should be one of the allowed values",
                    ),
                    StringValidationFn::ContainsUppercase(_) => String::from_str(
                        "value does not have an uppercase character",
                    ),
                    StringValidationFn::ContainsLowercase(_) => String::from_str(
                        "value does not have a lowercase character",
                    ),
                    StringValidationFn::ContainsNumber(_) => String::from_str(
                        "value does not have a digit character",
                    ),
                    StringValidationFn::ContainsSpecialChar(_) => String::from_str(
                        "value does not have a special character",
                    ),
                },
            )
        }
    }
}

/// True iff some character of `s` is an ASCII digit.
fn scan_digit(s: &str) -> (found: bool)
    ensures
        found == has_digit(s@),
{
    let n = s.unicode_len();
    let mut k: usize = 0;
    while k < n
        invariant
            k <= n,
            n == s@.len(),
            forall|p: int| 0 <= p < k ==> !digit_char(#[trigger] s@[p]),
        decreases n - k,
    {
        let u = s.get_char(k) as u32;
        if 48 <= u && u <= 57 {
            return true;
        }
        k += 1;
    }
    false
}

/// True iff some character of `s` is whitespace.
fn scan_whitespace(s: &str) -> (found: bool)
    ensures
        found == has_whitespace(s@),
{
    let n = s.unicode_len();
    let mut k: usize = 0;
    while k < n
        invariant
            k <= n,
            n == s@.len(),
            forall|p: int| 0 <= p < k ==> !unicode_whitespace(#[trigger] s@[p]),
        decreases n - k,
    {
        if char_is_whitespace(s.get_char(k)) {
            return true;
        }
        k += 1;
    }
    false
}

/// True iff some character of `s` is uppercase.
fn scan_uppercase(s: &str) -> (found: bool)
    ensures
        found == has_uppercase(s@),
{
    let n = s.unicode_len();
    let mut k: usize = 0;
    while k < n
        invariant
            k <= n,
            n == s@.len(),
            forall|p: int| 0 <= p < k ==> !unicode_uppercase(#[trigger] s@[p]),
        decreases n - k,
    {
        if char_is_uppercase(s.get_char(k)) {
            return true;
        }
        k += 1;
    }
    false
}

/// True iff some character of `s` is lowercase.
fn scan_lowercase(s: &str) -> (found: bool)
    ensures
        found == has_lowercase(s@),
{
    let n = s.unicode_len();
    let mut k: usize = 0;
    while k < n
        invariant
            k <= n,
            n == s@.len(),
            forall|p: int| 0 <= p < k ==> !unicode_lowercase(#[trigger] s@[p]),
        decreases n - k,
    {
        if char_is_lowercase(s.get_char(k)) {
            return true;
        }
        k += 1;
    }
    false
}

/// True iff some character of `s` is not alphanumeric.
fn scan_nonalnum(s: &str) -> (found: bool)
    ensures
        found == has_special(s@),
{
    let n = s.unicode_len();
    let mut k: usize = 0;
    while k < n
        invariant
            k <= n,
            n == s@.len(),
            forall|p: int| 0 <= p < k ==> unicode_alphanumeric(#[trigger] s@[p]),
        decreases n - k,
    {
        if !char_is_alphanumeric(s.get_char(k)) {
            return true;
        }
        k += 1;
    }
    false
}

/// True iff some character of `s` is not lowercase.
fn scan_nonlower(s: &str) -> (found: bool)
    ensures
        found == (exists|i: int| 0 <= i < s@.len() && !unicode_lowercase(#[trigger] s@[i])),
{
    let n = s.unicode_len();
    let mut k: usize = 0;
    while k < n
        invariant
            k <= n,
            n == s@.len(),
            forall|p: int| 0 <= p < k ==> unicode_lowercase(#[trigger] s@[p]),
        decreases n - k,
    {
        if !char_is_lowercase(s.get_char(k)) {
            return true;
        }
        k += 1;
    }
    false
}

/// True iff some character of `s` is not uppercase.
fn scan_nonupper(s: &str) -> (found: bool)
    ensures
        found == (exists|i: int| 0 <= i < s@.len() && !unicode_uppercase(#[trigger] s@[i])),
{
    let n = s.unicode_len();
    let mut k: usize = 0;
    while k < n
        invariant
            k <= n,
            n == s@.len(),
            forall|p: int| 0 <= p < k ==> unicode_uppercase(#[trigger] s@[p]),
        decreases n - k,
    {
        if !char_is_uppercase(s.get_char(k)) {
            return true;
        }
        k += 1;
    }
    false
}

/// True iff `value` equals one of `items`.
fn scan_one_of(value: &String, items: &Vec<String>) -> (found: bool)
    ensures
        found == one_of(value@, items@),
{
    let mut k: usize = 0;
    while k < items.len()
        invariant
            k <= items.len(),
            forall|p: int| 0 <= p < k ==> (#[trigger] items@[p])@ != value@,
        decreases items.len() - k,
    {
        if items[k] == *value {
            return true;
        }
        k += 1;
    }
    false
}

/// The checks of `tests` that reject their value, each contributing its
/// failure message, in order.
pub open spec fn failing_messages(tests: Seq<StringValidationFn>) -> Seq<Seq<char>>
    decreases tests.len(),
{
    if tests.len() == 0 {
        Seq::empty()
    } else {
        let rest = failing_messages(tests.drop_last());
        if !tests.last().passes() {
            rest.push(tests.last().failure_message())
        } else {
            rest
        }
    }
}

/// True iff every check of `tests` accepts its value.
pub open spec fn all_pass(tests: Seq<StringValidationFn>) -> bool {
    forall|i: int| 0 <= i < tests.len() ==> (#[trigger] tests[i]).passes()
}

/// Unfolds [`failing_messages`] over an appended check.
proof fn lemma_failing_messages_push(tests: Seq<StringValidationFn>, x: StringValidationFn)
    ensures
        failing_messages(tests.push(x)) == if !x.passes() {
            failing_messages(tests).push(x.failure_message())
        } else {
            failing_messages(tests)
        },
{
    assert(tests.push(x).drop_last() =~= tests);
}

/// No failure message is collected exactly when every check passes.
proof fn lemma_failing_messages_empty(tests: Seq<StringValidationFn>)
    ensures
        failing_messages(tests).len() == 0 <==> all_pass(tests),
    decreases tests.len(),
{
    if tests.len() > 0 {
        lemma_failing_messages_empty(tests.drop_last());
        if failing_messages(tests).len() == 0 {
            assert(all_pass(tests.drop_last()));
            assert forall|i: int| 0 <= i < tests.len() implies (#[trigger] tests[i]).passes() by {
                if i < tests.len() - 1 {
                    assert(tests.drop_last()[i].passes());
                } else {
                    assert(tests.last().passes());
                }
            }
        } else {
            if all_pass(tests) {
                assert(all_pass(tests.drop_last())) by {
                    assert(forall|i: int|
                        0 <= i < tests.len() - 1 ==> #[trigger] tests.drop_last()[i] == tests[i]);
                }
                assert(tests.last().passes());
            }
        }
    }
}

/// Captures a value, trimmed of surrounding whitespace, and queues checks
/// to run against it.
#[derive(Debug)]
pub struct StringValidator {
    pub value: String,
    pub tests: Vec<StringValidationFn>,
}

impl StringValidator {
    /// Captures `value`, trimmed, with no checks queued yet.
    pub fn new(value: String) -> (validator: StringValidator)
        ensures
            validator.value@ == trimmed(value@),
            validator.tests@.len() == 0,
    {
        StringValidator { value: trim_str(value.as_str()), tests: Vec::new() }
    }

    /// Queues the check that the value is non-empty.
    pub fn is_capitalized(self) -> (validator: StringValidator)
        ensures
            validator.value == self.value,
            validator.tests@ == self.tests@.push(StringValidationFn::IsCapitalized(self.value)),
    {
        let mut validator = self;
        let queued = StringValidationFn::IsCapitalized(validator.value.clone());
        validator.tests.push(queued);
        validator
    }

    /// Queues the check that the value holds no digit.
    pub fn no_number(self) -> (validator: StringValidator)
        ensures
            validator.value == self.value,
            validator.tests@ == self.tests@.push(StringValidationFn::NoNumber(self.value)),
    {
        let mut validator = self;
        let queued = StringValidationFn::NoNumber(validator.value.clone());
        validator.tests.push(queued);
        validator
    }

    /// Queues the check that every character is alphanumeric.
    pub fn is_alphanumerical(self) -> (validator: StringValidator)
        ensures
            validator.value == self.value,
            validator.tests@ == self.tests@.push(StringValidationFn::IsAlphanumerical(self.value)),
    {
        let mut validator = self;
        let queued = StringValidationFn::IsAlphanumerical(validator.value.clone());
        validator.tests.push(queued);
        validator
    }

    /// Queues the check that the value holds no whitespace.
    pub fn no_space(self) -> (validator: StringValidator)
        ensures
            validator.value == self.value,
            validator.tests@ == self.tests@.push(StringValidationFn::NoSpace(self.value)),
    {
        let mut validator = self;
        let queued = StringValidationFn::NoSpace(validator.value.clone());
        validator.tests.push(queued);
        validator
    }

    /// Queues the check that the value is at most `l` characters long.
    pub fn max_len(self, l: i32) -> (validator: StringValidator)
        ensures
            validator.value == self.value,
            validator.tests@ == self.tests@.push(StringValidationFn::MaxLength(self.value, l)),
    {
        let mut validator = self;
        let queued = StringValidationFn::MaxLength(validator.value.clone(), l);
        validator.tests.push(queued);
        validator
    }

    /// Queues the check that the value is at least `l` characters long.
    pub fn min_len(self, l: i32) -> (validator: StringValidator)
        ensures
            validator.value == self.value,
            validator.tests@ == self.tests@.push(StringValidationFn::MinLength(self.value, l)),
    {
        let mut validator = self;
        let queued = StringValidationFn::MinLength(validator.value.clone(), l);
        validator.tests.push(queued);
        validator
    }

    /// Queues the check that the value's length lies in `[min, max]`.
    pub fn length(self, min: i32, max: i32) -> (validator: StringValidator)
        ensures
            validator.value == self.value,
            validator.tests@ == self.tests@.push(StringValidationFn::Length(self.value, min, max)),
    {
        let mut validator = self;
        let queued = StringValidationFn::Length(validator.value.clone(), min, max);
        validator.tests.push(queued);
        validator
    }

    /// Queues the check that the value is a well-shaped e-mail address.
    pub fn is_email(self) -> (validator: StringValidator)
        ensures
            validator.value == self.value,
            validator.tests@ == self.tests@.push(StringValidationFn::IsEmail(self.value)),
    {
        let mut validator = self;
        let queued = StringValidationFn::IsEmail(validator.value.clone());
        validator.tests.push(queued);
        validator
    }

    /// Queues the check that every character is lowercase.
    pub fn is_lowercase(self) -> (validator: StringValidator)
        ensures
            validator.value == self.value,
            validator.tests@ == self.tests@.push(StringValidationFn::IsLowercase(self.value)),
    {
        let mut validator = self;
        let queued = StringValidationFn::IsLowercase(validator.value.clone());
        validator.tests.push(queued);
        validator
    }

    /// Queues the check that every character is uppercase.
    pub fn is_uppercase(self) -> (validator: StringValidator)
        ensures
            validator.value == self.value,
            validator.tests@ == self.tests@.push(StringValidationFn::IsUppercase(self.value)),
    {
        let mut validator = self;
        let queued = StringValidationFn::IsUppercase(validator.value.clone());
        validator.tests.push(queued);
        validator
    }

    /// Queues the check that the value equals one of `items`.
    pub fn is_one_of(self, items: Vec<String>) -> (validator: StringValidator)
        ensures
            validator.value == self.value,
            validator.tests@ == self.tests@.push(StringValidationFn::OneOf(self.value, items)),
    {
        let mut validator = self;
        let queued = StringValidationFn::OneOf(validator.value.clone(), items);
        validator.tests.push(queued);
        validator
    }

    /// Queues the check that some character is uppercase.
    pub fn contains_uppercase(self) -> (validator: StringValidator)
        ensures
            validator.value == self.value,
            validator.tests@ == self.tests@.push(
                StringValidationFn::ContainsUppercase(self.value),
            ),
    {
        let mut validator = self;
        let queued = StringValidationFn::ContainsUppercase(validator.value.clone());
        validator.tests.push(queued);
        validator
    }

    /// Queues the check that some character is lowercase.
    pub fn contains_lowercase(self) -> (validator: StringValidator)
        ensures
            validator.value == self.value,
            validator.tests@ == self.tests@.push(
                StringValidationFn::ContainsLowercase(self.value),
            ),
    {
        let mut validator = self;
        let queued = StringValidationFn::ContainsLowercase(validator.value.clone());
        validator.tests.push(queued);
        validator
    }

    /// Queues the check that some character is a digit.
    pub fn contains_number(self) -> (validator: StringValidator)
        ensures
            validator.value == self.value,
            validator.tests@ == self.tests@.push(StringValidationFn::ContainsNumber(self.value)),
    {
        let mut validator = self;
        let queued = StringValidationFn::ContainsNumber(validator.value.clone());
        validator.tests.push(queued);
        validator
    }

    /// Queues the check that some character is not alphanumeric.
    pub fn contains_special_char(self) -> (validator: StringValidator)
        ensures
            validator.value == self.value,
            validator.tests@ == self.tests@.push(
                StringValidationFn::ContainsSpecialChar(self.value),
            ),
    {
        let mut validator = self;
        let queued = StringValidationFn::ContainsSpecialChar(validator.value.clone());
        validator.tests.push(queued);
        validator
    }

    /// Runs every queued check: the captured value when all accept it,
    /// otherwise the failure messages, in queue order.
    pub fn validate(self) -> (result: crate::validator::ValidationResult<String>)
        ensures
            all_pass(self.tests@) ==> result.is_valid && result.value == Some(self.value)
                && result.errors is None,
            !all_pass(self.tests@) ==> !result.is_valid && result.value is None
                && (result.errors matches Some(es) && es.deep_view() == failing_messages(
                self.tests@,
            )),
    {
        let mut errors: Vec<String> = Vec::new();
        let mut k: usize = 0;
        while k < self.tests.len()
            invariant
                k <= self.tests@.len(),
                errors.deep_view() == failing_messages(self.tests@.take(k as int)),
            decreases self.tests@.len() - k,
        {
            proof {
                assert(self.tests@.take(k + 1) =~= self.tests@.take(k as int).push(
                    self.tests@[k as int],
                ));
                lemma_failing_messages_push(self.tests@.take(k as int), self.tests@[k as int]);
            }
            let outcome = self.tests[k].run();
            match outcome {
                Some(message) => {
                    let ghost before = errors.deep_view();
                    errors.push(message);
                    proof {
                        assert(errors.deep_view() =~= before.push(message@));
                    }
                },
                None => {},
            }
            k += 1;
        }
        proof {
            assert(self.tests@.take(self.tests@.len() as int) =~= self.tests@);
            lemma_failing_messages_empty(self.tests@);
        }
        if errors.len() == 0 {
            crate::validator::ValidationResult {
                value: Some(self.value),
                is_valid: true,
                errors: None,
            }
        } else {
            crate::validator::ValidationResult { value: None, is_valid: false, errors: Some(errors) }
        }
    }
}

} // verus!
