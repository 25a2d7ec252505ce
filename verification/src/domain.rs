//! Validated domain values: subscriber names and subscriber email addresses.
//!
//! Raw form fields become domain values only through the fallible
//! constructors, which check the validation rules stated by the spec
//! functions below. No I/O happens here.

use vstd::prelude::*;

verus! {

/// Characters that a subscriber name may never contain: a small set of
/// troublesome punctuation plus every control character.
pub open spec fn is_forbidden_name_char(c: char) -> bool {
    ||| c == '/'
    ||| c == '('
    ||| c == ')'
    ||| c == '"'
    ||| c == '<'
    ||| c == '>'
    ||| c == '\\'
    ||| c == '{'
    ||| c == '}'
    ||| (c as u32) < 32
    ||| (c as u32) == 127
}

/// A valid display name: at most 256 characters, not blank once spaces are
/// ignored, and free of forbidden characters.
pub open spec fn is_valid_name(s: Seq<char>) -> bool {
    &&& s.len() <= 256
    &&& exists|i: int| 0 <= i < s.len() && #[trigger] s[i] != ' '
    &&& forall|i: int| 0 <= i < s.len() ==> !is_forbidden_name_char(#[trigger] s[i])
}

/// Whitespace that may not appear anywhere in an email address.
pub open spec fn is_email_whitespace(c: char) -> bool {
    c == ' ' || c == '\t' || c == '\n' || c == '\r'
}

/// A valid email address: no whitespace, exactly one `@` with a non-empty
/// local part before it and a non-empty domain after it, and at least one
/// dot inside the domain.
pub open spec fn is_valid_email(s: Seq<char>) -> bool {
    &&& forall|i: int| 0 <= i < s.len() ==> !is_email_whitespace(#[trigger] s[i])
    &&& exists|a: int| is_email_at_position(s, a)
}

/// `a` is the position of the single `@` of a structurally valid address.
pub open spec fn is_email_at_position(s: Seq<char>, a: int) -> bool {
    &&& 1 <= a < s.len() - 1
    &&& s[a] == '@'
    &&& forall|j: int| 0 <= j < s.len() && j != a ==> #[trigger] s[j] != '@'
    &&& exists|d: int| a < d < s.len() && #[trigger] s[d] == '.'
}

/// A display name that passed validation.
pub struct SubscriberName {
    name: String,
}

impl View for SubscriberName {
    type V = Seq<char>;

    closed spec fn view(&self) -> Seq<char> {
        self.name@
    }
}

impl SubscriberName {
    /// Validates a raw display name, keeping the string exactly as
    /// submitted when it is acceptable.
    pub fn try_from(name: String) -> (r: Result<SubscriberName, String>)
        ensures
            r is Ok <==> is_valid_name(name@),
            r matches Ok(n) ==> n@ == name@,
            r matches Err(m) ==> m@ == "not a valid subscriber name"@,
    {
        if check_valid_name(name.as_str()) {
            Ok(SubscriberName { name })
        } else {
            Err("not a valid subscriber name".to_owned())
        }
    }

    /// The validated name as a borrowed string.
    pub fn as_ref(&self) -> (r: &str)
        ensures
            r@ == self@,
    {
        self.name.as_str()
    }
}

/// An email address that passed validation.
pub struct SubscriberEmail {
    email: String,
}

impl View for SubscriberEmail {
    type V = Seq<char>;

    closed spec fn view(&self) -> Seq<char> {
        self.email@
    }
}

impl SubscriberEmail {
    /// Validates a raw email address, keeping the string exactly as
    /// submitted when it is acceptable.
    pub fn try_from(email: String) -> (r: Result<SubscriberEmail, String>)
        ensures
            r is Ok <==> is_valid_email(email@),
            r matches Ok(e) ==> e@ == email@,
            r matches Err(m) ==> m@ == "not a valid subscriber email"@,
    {
        if check_valid_email(email.as_str()) {
            Ok(SubscriberEmail { email })
        } else {
            Err("not a valid subscriber email".to_owned())
        }
    }

    /// The validated address as a borrowed string.
    pub fn as_ref(&self) -> (r: &str)
        ensures
            r@ == self@,
    {
        self.email.as_str()
    }
}

/// A fully validated sign-up: the pair a pending subscriber is created from.
pub struct NewSubscriber {
    pub name: SubscriberName,
    pub email: SubscriberEmail,
}

/// Decides whether a raw display name is acceptable.
fn check_valid_name(s: &str) -> (r: bool)
    ensures
        r == is_valid_name(s@),
{
    let len = s.unicode_len();
    if len > 256 {
        return false;
    }
    let mut has_content = false;
    let mut i: usize = 0;
    while i < len
        invariant
            len == s@.len(),
            0 <= i <= len,
            has_content <==> exists|k: int| 0 <= k < i && #[trigger] s@[k] != ' ',
            forall|k: int| 0 <= k < i ==> !is_forbidden_name_char(#[trigger] s@[k]),
        decreases len - i,
    {
        let c = s.get_char(i);
        if c == '/' || c == '(' || c == ')' || c == '"' || c == '<' || c == '>' || c == '\\'
            || c == '{' || c == '}' || (c as u32) < 32 || (c as u32) == 127 {
            return false;
        }
        if c != ' ' {
            has_content = true;
        }
        i = i + 1;
    }
    has_content
}

/// Decides whether a raw email address is acceptable.
fn check_valid_email(s: &str) -> (r: bool)
    ensures
        r == is_valid_email(s@),
{
    let len = s.unicode_len();
    let mut at: usize = 0;
    let mut seen_at = false;
    let mut i: usize = 0;
    while i < len
        invariant
            len == s@.len(),
            0 <= i <= len,
            forall|k: int| 0 <= k < i ==> !is_email_whitespace(#[trigger] s@[k]),
            seen_at ==> 0 <= at < i && s@[at as int] == '@',
            seen_at ==> forall|k: int| 0 <= k < i && k != at ==> #[trigger] s@[k] != '@',
            !seen_at ==> forall|k: int| 0 <= k < i ==> #[trigger] s@[k] != '@',
        decreases len - i,
    {
        let c = s.get_char(i);
        if c == ' ' || c == '\t' || c == '\n' || c == '\r' {
            return false;
        }
        if c == '@' {
            if seen_at {
                return false;
            }
            seen_at = true;
            at = i;
        }
        i = i + 1;
    }
    if !seen_at {
        assert(forall|a: int| !is_email_at_position(s@, a));
        return false;
    }
    if at < 1 || at >= len - 1 {
        assert(forall|a: int| a != at ==> !is_email_at_position(s@, a));
        return false;
    }
    let mut d: usize = at + 1;
    while d < len
        invariant
            len == s@.len(),
            at + 1 <= d <= len,
            1 <= at < len - 1,
            s@[at as int] == '@',
            forall|k: int| 0 <= k < len && k != at ==> #[trigger] s@[k] != '@',
            forall|k: int| 0 <= k < len ==> !is_email_whitespace(#[trigger] s@[k]),
            forall|k: int| at < k < d ==> #[trigger] s@[k] != '.',
        decreases len - d,
    {
        if s.get_char(d) == '.' {
            assert(s@[d as int] == '.');
            assert(is_email_at_position(s@, at as int));
            return true;
        }
        d = d + 1;
    }
    assert(forall|a: int| a != at ==> !is_email_at_position(s@, a));
    assert(!is_email_at_position(s@, at as int));
    false
}

} // verus!
