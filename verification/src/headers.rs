//! The header set of a request.

use crate::mailbox::{Mailbox, MailboxError, TokenFormat};
use crate::signer::{lemma_hex_text_shape, signature_text};
use crate::token::{
    decimal_digits, decimal_text, is_timestamp_text, is_uuid_text, mailbox_token, minute_pattern,
    random_nonce, scheme_prefix, signed_message, token_body, token_for, utc_now_text,
};
use vstd::prelude::*;
use vstd::string::StringExecFns;

verus! {

/// Whether a transport header may carry `c` in a value: a tab, or anything
/// from the space on but the delete character.
pub open spec fn is_header_char(c: char) -> bool {
    (c as u32 >= 32 && c as u32 != 127) || c as u32 == 9
}

/// Whether `text` can be a header value.
pub open spec fn is_header_value(text: Seq<char>) -> bool {
    forall|i: int| 0 <= i < text.len() ==> is_header_char(#[trigger] text[i])
}

/// Whether every value of `entries` can be a header value.
pub open spec fn all_values_valid(entries: Seq<(Seq<char>, Seq<char>)>) -> bool {
    forall|i: int| 0 <= i < entries.len() ==> is_header_value(#[trigger] entries[i].1)
}

/// The headers of a request that carries `token`: the accepted media type, the
/// authorization and the four headers that identify the client; for a request
/// with a JSON body, its content type as well.
pub open spec fn header_entries(token: Seq<char>, json_body: bool) -> Seq<(Seq<char>, Seq<char>)> {
    let fixed = seq![
        ("accept"@, "application/vnd.mesh.v2+json"@),
        ("authorization"@, token),
        ("mex-clientversion"@, "ApiDocs==0.0.1"@),
        ("mex-osarchitecture"@, "x86_64"@),
        ("mex-osname"@, "Linux"@),
        ("mex-osversion"@, "#44~18.04.2-Ubuntu"@),
    ];
    if json_body {
        fixed.push(("Content-Type"@, "application/json"@))
    } else {
        fixed
    }
}

/// `c` with the letters `A-Z` mapped to `a-z`.
pub open spec fn ascii_lower(c: char) -> char {
    if 'A' <= c && c <= 'Z' {
        ((c as u8 + 32) as u8) as char
    } else {
        c
    }
}

/// Whether two header names are the same name: equal but for the case of
/// ASCII letters.
pub open spec fn same_name(a: Seq<char>, b: Seq<char>) -> bool {
    a.len() == b.len() && forall|i: int|
        0 <= i < a.len() ==> ascii_lower(#[trigger] a[i]) == ascii_lower(b[i])
}

/// The first index of `entries` whose name is `name`, or the length of
/// `entries` if there is none.
pub open spec fn first_named(entries: Seq<(Seq<char>, Seq<char>)>, name: Seq<char>) -> int
    decreases entries.len(),
{
    if entries.len() == 0 {
        0
    } else if same_name(entries[0].0, name) {
        0
    } else {
        1 + first_named(entries.subrange(1, entries.len() as int), name)
    }
}

/// One header: a name and its value.
pub struct Header {
    pub name: String,
    pub value: String,
}

/// The headers of one request, in the order in which they were built. Every
/// value can be carried by a transport header.
pub struct HeaderSet {
    entries: Vec<Header>,
}

/// Calls `HeaderValue::from_str` of the reqwest crate and keeps whether it
/// accepted the text. Trusted: it accepts exactly the texts in which every
/// character is a tab or stands at or above the space and is not the delete
/// character.
#[verifier::external_body]
fn header_value_accepted(value: &str) -> (accepted: bool)
    ensures
        accepted == is_header_value(value@),
{
    reqwest::header::HeaderValue::from_str(value).is_ok()
}

fn lower(c: char) -> (r: char)
    ensures
        r == ascii_lower(c),
{
    if 'A' <= c && c <= 'Z' {
        (c as u8 + 32) as char
    } else {
        c
    }
}

/// Whether `a` and `b` are the same header name.
pub fn names_match(a: &str, b: &str) -> (r: bool)
    ensures
        r == same_name(a@, b@),
{
    let n = a.unicode_len();
    if b.unicode_len() != n {
        return false;
    }
    let mut i: usize = 0;
    while i < n
        invariant
            n == a@.len(),
            n == b@.len(),
            i <= n,
            forall|j: int| 0 <= j < i ==> ascii_lower(#[trigger] a@[j]) == ascii_lower(b@[j]),
        decreases n - i,
    {
        if lower(a.get_char(i)) != lower(b.get_char(i)) {
            return false;
        }
        i += 1;
    }
    true
}

impl HeaderSet {
    #[verifier::type_invariant]
    spec fn well_formed(self) -> bool {
        forall|i: int| 0 <= i < self.entries@.len() ==> is_header_value(#[trigger] self.entries@[i].value@)
    }

    /// The names and values, in order.
    pub closed spec fn view(&self) -> Seq<(Seq<char>, Seq<char>)> {
        Seq::new(self.entries@.len(), |i: int| (self.entries@[i].name@, self.entries@[i].value@))
    }

    /// The number of headers.
    pub fn len(&self) -> (n: usize)
        ensures
            n == self@.len(),
    {
        self.entries.len()
    }

    /// The name of the header at `index`.
    pub fn name_at(&self, index: usize) -> (name: &str)
        requires
            index < self@.len(),
        ensures
            name@ == self@[index as int].0,
    {
        self.entries[index].name.as_str()
    }

    /// The value of the header at `index`, which a transport header can carry.
    pub fn value_at(&self, index: usize) -> (value: &str)
        requires
            index < self@.len(),
        ensures
            value@ == self@[index as int].1,
            is_header_value(value@),
    {
        proof {
            use_type_invariant(self);
        }
        self.entries[index].value.as_str()
    }

    /// The value of the first header named `name`, whatever the case of its
    /// letters; `None` if there is no such header.
    pub fn get(&self, name: &str) -> (r: Option<&str>)
        ensures
            0 <= first_named(self@, name@) <= self@.len(),
            r is None <==> first_named(self@, name@) == self@.len(),
            r is Some ==> r.unwrap()@ == self@[first_named(self@, name@)].1,
    {
        let n = self.entries.len();
        let mut i: usize = 0;
        assert(self@.subrange(0, n as int) =~= self@);
        while i < n
            invariant
                n == self@.len(),
                n == self.entries@.len(),
                i <= n,
                first_named(self@, name@) == i + first_named(self@.subrange(i as int, n as int), name@),
            decreases n - i,
        {
            let ghost rest = self@.subrange(i as int, n as int);
            assert(rest[0] == self@[i as int]);
            if names_match(self.entries[i].name.as_str(), name) {
                return Some(self.entries[i].value.as_str());
            }
            assert(rest.subrange(1, rest.len() as int) =~= self@.subrange(i + 1, n as int));
            i += 1;
        }
        None
    }
}

/// A text of two parts can be a header value if and only if both parts can.
pub proof fn lemma_header_value_concat(a: Seq<char>, b: Seq<char>)
    ensures
        is_header_value(a + b) <==> is_header_value(a) && is_header_value(b),
{
    let whole = a + b;
    if is_header_value(whole) {
        assert forall|i: int| 0 <= i < a.len() implies is_header_char(#[trigger] a[i]) by {
            assert(whole[i] == a[i]);
        }
        assert forall|i: int| 0 <= i < b.len() implies is_header_char(#[trigger] b[i]) by {
            assert(whole[a.len() + i] == b[i]);
        }
    }
}

/// A number in decimal can be a header value.
pub proof fn lemma_decimal_is_header_value(n: nat)
    ensures
        is_header_value(decimal_text(n)),
    decreases n,
{
    let last = seq![decimal_digits()[(n % 10) as int]];
    assert(is_header_value(last)) by {
        lemma_digit_is_header_char((n % 10) as int);
    }
    if n >= 10 {
        lemma_decimal_is_header_value(n / 10);
        lemma_header_value_concat(decimal_text(n / 10), last);
    }
}

proof fn lemma_digit_is_header_char(d: int)
    requires
        0 <= d < 10,
    ensures
        is_header_char(decimal_digits()[d]),
{
    if d == 0 {
    } else if d == 1 {
    } else if d == 2 {
    } else if d == 3 {
    } else if d == 4 {
    } else if d == 5 {
    } else if d == 6 {
    } else if d == 7 {
    } else if d == 8 {
    } else {
    }
}

/// A token can be a header value if and only if the mailbox id and the nonce
/// can: the scheme, the nonce count, a minute stamp and a signature always can.
pub proof fn lemma_token_header_value(
    mailbox: &Mailbox,
    nonce: Seq<char>,
    nonce_count: nat,
    stamp: Seq<char>,
)
    requires
        is_timestamp_text(stamp),
    ensures
        is_header_value(mailbox_token(mailbox, nonce, nonce_count, stamp)) <==> is_header_value(
            mailbox.id_text(),
        ) && is_header_value(nonce),
{
    let format = mailbox.token_format();
    let id = mailbox.id_text();
    let message = signed_message(format, id, nonce, nonce_count, mailbox.password_text(), stamp);
    let signature = signature_text(mailbox.key_bytes(), message);
    let count = decimal_text(nonce_count);
    let colon = seq![':'];
    lemma_decimal_is_header_value(nonce_count);
    assert(is_header_value(signature)) by {
        lemma_hex_text_shape(
            crate::signer::hmac_sha256(mailbox.key_bytes(), vstd::utf8::encode_utf8(message)),
        );
    }
    assert(is_header_value(stamp));
    assert(is_header_value(colon));
    assert(is_header_value(scheme_prefix()));
    let body = token_body(format, id, nonce, nonce_count, stamp, signature);
    lemma_header_value_concat(scheme_prefix(), body);
    match format {
        TokenFormat::ColonDelimited => {
            lemma_header_value_concat(id, colon);
            lemma_header_value_concat(id + colon, nonce);
            lemma_header_value_concat(id + colon + nonce, colon);
            lemma_header_value_concat(id + colon + nonce + colon, count);
            lemma_header_value_concat(id + colon + nonce + colon + count, colon);
            lemma_header_value_concat(id + colon + nonce + colon + count + colon, stamp);
            lemma_header_value_concat(id + colon + nonce + colon + count + colon + stamp, colon);
            lemma_header_value_concat(
                id + colon + nonce + colon + count + colon + stamp + colon,
                signature,
            );
        },
        TokenFormat::Concatenated => {
            lemma_header_value_concat(id, nonce);
            lemma_header_value_concat(id + nonce, stamp);
            lemma_header_value_concat(id + nonce + stamp, signature);
        },
    }
}

/// The fixed values of a header set can always be header values, so the set is
/// valid if and only if its token is.
pub proof fn lemma_entries_valid(token: Seq<char>, json_body: bool)
    ensures
        header_entries(token, json_body).len() == if json_body {
            7int
        } else {
            6int
        },
        all_values_valid(header_entries(token, json_body)) <==> is_header_value(token),
{
    reveal_strlit("application/vnd.mesh.v2+json");
    reveal_strlit("ApiDocs==0.0.1");
    reveal_strlit("x86_64");
    reveal_strlit("Linux");
    reveal_strlit("#44~18.04.2-Ubuntu");
    reveal_strlit("application/json");
    let entries = header_entries(token, json_body);
    assert(entries[1].1 == token);
    assert(is_header_value(entries[0].1));
    assert(is_header_value(entries[2].1));
    assert(is_header_value(entries[3].1));
    assert(is_header_value(entries[4].1));
    assert(is_header_value(entries[5].1));
    if json_body {
        assert(is_header_value(entries[6].1));
    }
}

/// Builds the header set of a request that carries `token`.
///
/// Fails if and only if the token holds a character that no header value may
/// carry.
pub fn build_headers(token: String, json_body: bool) -> (r: Result<HeaderSet, MailboxError>)
    ensures
        match r {
            Ok(headers) => is_header_value(token@) && headers@ == header_entries(token@, json_body),
            Err(e) => !is_header_value(token@) && e == MailboxError::HeaderEncodingError,
        },
{
    if !header_value_accepted(token.as_str()) {
        return Err(MailboxError::HeaderEncodingError);
    }
    let ghost text = token@;
    let ghost expected = header_entries(text, json_body);
    let mut entries: Vec<Header> = Vec::new();
    entries.push(
        Header {
            name: String::from_str("accept"),
            value: String::from_str("application/vnd.mesh.v2+json"),
        },
    );
    entries.push(Header { name: String::from_str("authorization"), value: token });
    entries.push(
        Header {
            name: String::from_str("mex-clientversion"),
            value: String::from_str("ApiDocs==0.0.1"),
        },
    );
    entries.push(
        Header { name: String::from_str("mex-osarchitecture"), value: String::from_str("x86_64") },
    );
    entries.push(Header { name: String::from_str("mex-osname"), value: String::from_str("Linux") });
    entries.push(
        Header {
            name: String::from_str("mex-osversion"),
            value: String::from_str("#44~18.04.2-Ubuntu"),
        },
    );
    if json_body {
        entries.push(
            Header {
                name: String::from_str("Content-Type"),
                value: String::from_str("application/json"),
            },
        );
    }
    proof {
        lemma_entries_valid(text, json_body);
        assert(entries@.len() == expected.len());
        assert forall|i: int| 0 <= i < expected.len() implies (entries@[i].name@, entries@[i].value@)
            == #[trigger] expected[i] by {}
    }
    proof {
        assert forall|j: int| 0 <= j < entries@.len() implies is_header_value(
            #[trigger] entries@[j].value@,
        ) by {
            assert(entries@[j].value@ == expected[j].1);
        }
    }
    let headers = HeaderSet { entries };
    assert(headers@ =~= expected);
    Ok(headers)
}

/// Builds the header set of a single-shot request from a nonce and the text of
/// the current time.
///
/// Fails with `TimestampError` if and only if `stamp` is not twelve decimal
/// digits; otherwise with `HeaderEncodingError` if and only if the mailbox id
/// or the nonce cannot stand in a header value.
pub fn headers_for(mailbox: &Mailbox, nonce: &str, stamp: String, json_body: bool) -> (r: Result<
    HeaderSet,
    MailboxError,
>)
    ensures
        match r {
            Ok(headers) => is_timestamp_text(stamp@) && is_header_value(mailbox.id_text())
                && is_header_value(nonce@) && headers@ == header_entries(
                mailbox_token(mailbox, nonce@, 0, stamp@),
                json_body,
            ),
            Err(e) => if !is_timestamp_text(stamp@) {
                e == MailboxError::TimestampError
            } else {
                e == MailboxError::HeaderEncodingError && !(is_header_value(mailbox.id_text())
                    && is_header_value(nonce@))
            },
        },
{
    let token = match token_for(mailbox, nonce, stamp) {
        Ok(token) => token,
        Err(e) => {
            return Err(e);
        },
    };
    proof {
        lemma_token_header_value(mailbox, nonce@, 0, stamp@);
    }
    build_headers(token, json_body)
}

/// Builds the header set of a fresh request of `mailbox`, without a body: a
/// random UUID as nonce, nonce count 0, and the current UTC time to the minute.
///
/// Fails with `HeaderEncodingError` only if the mailbox id cannot stand in a
/// header value, and with `TimestampError` only if the clock gives a time that
/// has no twelve-digit stamp.
pub fn generate_headers(mailbox: &Mailbox) -> (r: Result<HeaderSet, MailboxError>)
    ensures
        match r {
            Ok(headers) => is_header_value(mailbox.id_text()) && exists|
                nonce: Seq<char>,
                stamp: Seq<char>,
            |
                is_uuid_text(nonce) && is_timestamp_text(stamp) && headers@ == header_entries(
                    #[trigger] mailbox_token(mailbox, nonce, 0, stamp),
                    false,
                ),
            Err(e) => e == MailboxError::TimestampError || (e == MailboxError::HeaderEncodingError
                && !is_header_value(mailbox.id_text())),
        },
{
    let nonce = random_nonce();
    proof {
        reveal_strlit("%Y%m%d%H%M");
        assert("%Y%m%d%H%M"@ =~= minute_pattern());
        assert(is_header_value(nonce@));
    }
    let stamp = utc_now_text("%Y%m%d%H%M");
    headers_for(mailbox, nonce.as_str(), stamp, false)
}

} // verus!
