use vstd::prelude::*;
use vstd::string::*;

use unicode_segmentation::UnicodeSegmentation;

use crate::schema::SubscribeBody;

verus! {

/// The longest accepted name, in extended grapheme clusters.
pub const MAX_NAME_GRAPHEMES: usize = 256;

/// A text without its leading and trailing white space.
pub uninterp spec fn trim_of(s: Seq<char>) -> Seq<char>;

/// The number of extended grapheme clusters of a text.
pub uninterp spec fn grapheme_count(s: Seq<char>) -> nat;

/// Whether a text is an e-mail address by validator's rules.
pub uninterp spec fn email_valid(s: Seq<char>) -> bool;

/// Relies on `str::trim`: the text without leading and trailing Unicode `White_Space`.
#[verifier::external_body]
fn trim(s: &str) -> (r: &str)
    ensures
        r@ == trim_of(s@),
        s@.len() == 0 ==> r@.len() == 0,
{
    s.trim()
}

/// Relies on unicode-segmentation's `graphemes(true)`: the extended grapheme clusters of the
/// text, counted.
#[verifier::external_body]
fn count_graphemes(s: &str) -> (r: usize)
    ensures
        r == grapheme_count(s@),
{
    s.graphemes(true).count()
}

/// Relies on validator's `validate_email`, which refuses at once any text without an `@`.
#[verifier::external_body]
fn validate_email(s: &str) -> (r: bool)
    ensures
        r == email_valid(s@),
        r ==> s@.contains('@'),
{
    validator::validate_email(s)
}

/// The characters that a name may not hold.
pub open spec fn is_forbidden(c: char) -> bool {
    c == '/' || c == '(' || c == ')' || c == '"' || c == '<' || c == '>' || c == '\\' || c == '{'
        || c == '}'
}

pub open spec fn has_forbidden(s: Seq<char>) -> bool {
    exists|i: int| 0 <= i < s.len() && is_forbidden(s[i])
}

/// Why a text is not a name, given its trimmed form and its grapheme count; checked in this
/// order: blank, too long, a forbidden character.
pub open spec fn name_problem_given(s: Seq<char>, trimmed: Seq<char>, graphemes: nat) -> Option<
    Seq<char>,
> {
    if trimmed.len() == 0 {
        Some("name is empty"@)
    } else if graphemes > MAX_NAME_GRAPHEMES {
        Some("name is too long"@)
    } else if has_forbidden(s) {
        Some("name contains invalid characters"@)
    } else {
        None
    }
}

/// Why a text is not a name.
pub open spec fn name_problem(s: Seq<char>) -> Option<Seq<char>> {
    name_problem_given(s, trim_of(s), grapheme_count(s))
}

fn contains_forbidden(s: &str) -> (r: bool)
    ensures
        r == has_forbidden(s@),
{
    let n = s.unicode_len();
    let mut i: usize = 0;
    while i < n
        invariant
            n == s@.len(),
            i <= n,
            forall|j: int| 0 <= j < i ==> !is_forbidden(#[trigger] s@[j]),
        decreases n - i,
    {
        let c = s.get_char(i);
        if c == '/' || c == '(' || c == ')' || c == '"' || c == '<' || c == '>' || c == '\\' || c
            == '{' || c == '}' {
            return true;
        }
        i = i + 1;
    }
    false
}

/// Checks a text against the rules for names, given its trimmed form and grapheme count.
pub fn name_problem_of(value: &str, trimmed: &str, graphemes: usize) -> (r: Option<String>)
    ensures
        match r {
            None => name_problem_given(value@, trimmed@, graphemes as nat) is None,
            Some(e) => name_problem_given(value@, trimmed@, graphemes as nat) == Some(e@),
        },
{
    if trimmed.unicode_len() == 0 {
        return Some("name is empty".to_owned());
    }
    if graphemes > MAX_NAME_GRAPHEMES {
        return Some("name is too long".to_owned());
    }
    if contains_forbidden(value) {
        return Some("name contains invalid characters".to_owned());
    }
    None
}

/// Checks a text against the rules for names.
fn check_name(value: &str) -> (r: Option<String>)
    ensures
        match r {
            None => name_problem(value@) is None,
            Some(e) => name_problem(value@) == Some(e@),
        },
{
    name_problem_of(value, trim(value), count_graphemes(value))
}

/// A subscriber's name: not blank, at most 256 grapheme clusters, none of `/()"<>\{}`.
pub struct Name(String);

impl View for Name {
    type V = Seq<char>;

    closed spec fn view(&self) -> Seq<char> {
        self.0@
    }
}

impl Name {
    /// Accepts a name, or says what is wrong with it.
    pub fn parse(value: String) -> (r: Result<Name, String>)
        ensures
            match r {
                Ok(n) => name_problem(value@) is None && n@ == value@,
                Err(e) => name_problem(value@) == Some(e@),
            },
    {
        match check_name(value.as_str()) {
            None => Ok(Name(value)),
            Some(e) => Err(e),
        }
    }

    pub fn as_str(&self) -> (r: &str)
        ensures
            r@ == self@,
    {
        self.0.as_str()
    }
}

/// A subscriber's name, under the rules of `Name`.
pub struct SubscriberName(String);

impl View for SubscriberName {
    type V = Seq<char>;

    closed spec fn view(&self) -> Seq<char> {
        self.0@
    }
}

impl SubscriberName {
    /// Accepts a name, or says what is wrong with it.
    pub fn parse(value: String) -> (r: Result<SubscriberName, String>)
        ensures
            match r {
                Ok(n) => name_problem(value@) is None && n@ == value@,
                Err(e) => name_problem(value@) == Some(e@),
            },
    {
        match check_name(value.as_str()) {
            None => Ok(SubscriberName(value)),
            Some(e) => Err(e),
        }
    }

    pub fn as_str(&self) -> (r: &str)
        ensures
            r@ == self@,
    {
        self.0.as_str()
    }
}

/// A subscriber's e-mail address.
pub struct Email(String);

impl View for Email {
    type V = Seq<char>;

    closed spec fn view(&self) -> Seq<char> {
        self.0@
    }
}

impl Email {
    /// Accepts an e-mail address, or fails with "invalid email".
    pub fn parse(value: String) -> (r: Result<Email, String>)
        ensures
            match r {
                Ok(e) => email_valid(value@) && e@ == value@,
                Err(e) => !email_valid(value@) && e@ == "invalid email"@,
            },
    {
        if validate_email(value.as_str()) {
            Ok(Email(value))
        } else {
            Err("invalid email".to_owned())
        }
    }

    pub fn as_str(&self) -> (r: &str)
        ensures
            r@ == self@,
    {
        self.0.as_str()
    }
}

/// A subscription request whose name and address passed their checks.
pub struct NewSubscriber {
    pub name: Name,
    pub email: Email,
}

impl NewSubscriber {
    /// Checks a subscription form: the name first, then the address.
    pub fn parse(body: SubscribeBody) -> (r: Result<NewSubscriber, String>)
        ensures
            match name_problem(body.name@) {
                Some(p) => r matches Err(e) && e@ == p,
                None => if email_valid(body.email@) {
                    r matches Ok(s) && s.name@ == body.name@ && s.email@ == body.email@
                } else {
                    r matches Err(e) && e@ == "invalid email"@
                },
            },
    {
        let name = Name::parse(body.name)?;
        let email = Email::parse(body.email)?;
        Ok(NewSubscriber { name, email })
    }
}

/// The link that confirms a pending subscription.
pub open spec fn confirmation_link_text(base_url: Seq<char>, token: Seq<char>) -> Seq<char> {
    base_url + "/api/v1/subscriptions/confirm?subscription_token="@ + token
}

/// The e-mail that asks a new subscriber to confirm.
pub struct ConfirmationEmail {
    pub subject: String,
    pub html_body: String,
    pub text_body: String,
}

/// The link that confirms the subscription holding `subscription_token`.
pub fn confirmation_link(base_url: &str, subscription_token: &str) -> (r: String)
    ensures
        r@ == confirmation_link_text(base_url@, subscription_token@),
{
    let mut link = base_url.to_owned();
    link.append("/api/v1/subscriptions/confirm?subscription_token=");
    link.append(subscription_token);
    link
}

/// The confirmation e-mail of a new subscription: a welcome, and the link in both renderings.
pub fn confirmation_email(base_url: &str, subscription_token: &str) -> (r: ConfirmationEmail)
    ensures
        r.subject@ == "Welcome!"@,
        r.text_body@ == "Welcome to our newsletter!\nVisit "@ + confirmation_link_text(
            base_url@,
            subscription_token@,
        ) + " to confirm your subscription."@,
        r.html_body@ == "Welcome to our newsletter!<br />Click <a href=\""@
            + confirmation_link_text(base_url@, subscription_token@)
            + "\">here</a> to confirm your subscription."@,
{
    let link = confirmation_link(base_url, subscription_token);
    let mut text_body = "Welcome to our newsletter!\nVisit ".to_owned();
    text_body.append(link.as_str());
    text_body.append(" to confirm your subscription.");
    let mut html_body = "Welcome to our newsletter!<br />Click <a href=\"".to_owned();
    html_body.append(link.as_str());
    html_body.append("\">here</a> to confirm your subscription.");
    ConfirmationEmail { subject: "Welcome!".to_owned(), html_body, text_body }
}

/// Checks the stored addresses of confirmed subscribers one by one, so that an invalid one can
/// be skipped and reported without stopping the others.
pub fn parse_subscriber_emails(rows: &Vec<String>) -> (r: Vec<Result<Email, String>>)
    ensures
        r@.len() == rows@.len(),
        forall|i: int|
            0 <= i < rows@.len() ==> match #[trigger] r@[i] {
                Ok(e) => email_valid(rows@[i]@) && e@ == rows@[i]@,
                Err(_) => !email_valid(rows@[i]@),
            },
{
    let mut out: Vec<Result<Email, String>> = Vec::new();
    let mut i: usize = 0;
    while i < rows.len()
        invariant
            i <= rows@.len(),
            out@.len() == i,
            forall|j: int|
                0 <= j < i ==> match #[trigger] out@[j] {
                    Ok(e) => email_valid(rows@[j]@) && e@ == rows@[j]@,
                    Err(_) => !email_valid(rows@[j]@),
                },
        decreases rows@.len() - i,
    {
        let row = rows[i].clone();
        out.push(Email::parse(row));
        i = i + 1;
    }
    out
}

} // verus!
