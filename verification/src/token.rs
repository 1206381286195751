//! The authorization token: the message that is signed and the text that is sent.

use crate::mailbox::{Mailbox, MailboxError, TokenFormat};
use crate::signer::{is_lower_hex, sign, signature_text};
use vstd::prelude::*;
use vstd::string::StringExecFns;

verus! {

/// The name of the authentication scheme and the one space that follows it.
pub open spec fn scheme_prefix() -> Seq<char> {
    seq!['N', 'H', 'S', 'M', 'E', 'S', 'H', ' ']
}

/// What stands between two fields in the given grammar.
pub open spec fn delimiter(format: TokenFormat) -> Seq<char> {
    match format {
        TokenFormat::ColonDelimited => seq![':'],
        TokenFormat::Concatenated => Seq::empty(),
    }
}

/// The ten decimal digits, by value.
pub open spec fn decimal_digits() -> Seq<char> {
    seq!['0', '1', '2', '3', '4', '5', '6', '7', '8', '9']
}

/// `n` in decimal, without leading zeros.
pub open spec fn decimal_text(n: nat) -> Seq<char>
    decreases n,
{
    if n < 10 {
        seq![decimal_digits()[n as int]]
    } else {
        decimal_text(n / 10) + seq![decimal_digits()[(n % 10) as int]]
    }
}

/// Whether `c` is one of `0-9`.
pub open spec fn is_decimal_digit(c: char) -> bool {
    '0' <= c && c <= '9'
}

/// Whether `text` is a minute stamp: exactly twelve decimal digits.
pub open spec fn is_timestamp_text(text: Seq<char>) -> bool {
    text.len() == 12 && forall|i: int| 0 <= i < 12 ==> is_decimal_digit(#[trigger] text[i])
}

/// Whether `text` has the hyphenated form of a UUID in lower case.
pub open spec fn is_uuid_text(text: Seq<char>) -> bool {
    text.len() == 36 && forall|i: int|
        0 <= i < 36 ==> if i == 8 || i == 13 || i == 18 || i == 23 {
            #[trigger] text[i] == '-'
        } else {
            is_lower_hex(text[i])
        }
}

/// The message that is signed: mailbox id, nonce, nonce count, password and
/// minute stamp, in this order.
pub open spec fn signed_message(
    format: TokenFormat,
    id: Seq<char>,
    nonce: Seq<char>,
    nonce_count: nat,
    password: Seq<char>,
    stamp: Seq<char>,
) -> Seq<char> {
    let d = delimiter(format);
    id + d + nonce + d + decimal_text(nonce_count) + d + password + d + stamp
}

/// What follows the scheme prefix in a token.
pub open spec fn token_body(
    format: TokenFormat,
    id: Seq<char>,
    nonce: Seq<char>,
    nonce_count: nat,
    stamp: Seq<char>,
    signature: Seq<char>,
) -> Seq<char> {
    match format {
        TokenFormat::ColonDelimited => id + seq![':'] + nonce + seq![':'] + decimal_text(
            nonce_count,
        ) + seq![':'] + stamp + seq![':'] + signature,
        TokenFormat::Concatenated => id + nonce + stamp + signature,
    }
}

/// The token of a request of `mailbox` with the given nonce, count and stamp.
pub open spec fn mailbox_token(
    mailbox: &Mailbox,
    nonce: Seq<char>,
    nonce_count: nat,
    stamp: Seq<char>,
) -> Seq<char> {
    scheme_prefix() + token_body(
        mailbox.token_format(),
        mailbox.id_text(),
        nonce,
        nonce_count,
        stamp,
        signature_text(
            mailbox.key_bytes(),
            signed_message(
                mailbox.token_format(),
                mailbox.id_text(),
                nonce,
                nonce_count,
                mailbox.password_text(),
                stamp,
            ),
        ),
    )
}

/// A wall-clock time to the minute, as `YYYYMMDDHHMM`.
pub struct Timestamp {
    text: String,
}

impl Timestamp {
    #[verifier::type_invariant]
    spec fn well_formed(self) -> bool {
        is_timestamp_text(self.text@)
    }

    pub closed spec fn view(&self) -> Seq<char> {
        self.text@
    }

    /// Accepts `text` if and only if it is twelve decimal digits.
    pub fn new(text: String) -> (r: Option<Timestamp>)
        ensures
            r is Some <==> is_timestamp_text(text@),
            r is Some ==> r.unwrap()@ == text@,
    {
        let s = text.as_str();
        if s.unicode_len() != 12 {
            return None;
        }
        let mut i: usize = 0;
        while i < 12
            invariant
                s@ == text@,
                s@.len() == 12,
                i <= 12,
                forall|j: int| 0 <= j < i ==> is_decimal_digit(#[trigger] s@[j]),
            decreases 12 - i,
        {
            let c = s.get_char(i);
            if !('0' <= c && c <= '9') {
                return None;
            }
            i += 1;
        }
        Some(Timestamp { text })
    }

    /// The twelve digits.
    pub fn as_str(&self) -> (s: &str)
        ensures
            s@ == self@,
            is_timestamp_text(s@),
    {
        proof {
            use_type_invariant(self);
        }
        self.text.as_str()
    }
}

fn digit_str(d: u64) -> (s: &'static str)
    requires
        d < 10,
    ensures
        s@ == seq![decimal_digits()[d as int]],
{
    proof {
        reveal_strlit("0");
        reveal_strlit("1");
        reveal_strlit("2");
        reveal_strlit("3");
        reveal_strlit("4");
        reveal_strlit("5");
        reveal_strlit("6");
        reveal_strlit("7");
        reveal_strlit("8");
        reveal_strlit("9");
    }
    let s = if d == 0 {
        "0"
    } else if d == 1 {
        "1"
    } else if d == 2 {
        "2"
    } else if d == 3 {
        "3"
    } else if d == 4 {
        "4"
    } else if d == 5 {
        "5"
    } else if d == 6 {
        "6"
    } else if d == 7 {
        "7"
    } else if d == 8 {
        "8"
    } else {
        "9"
    };
    assert(s@ =~= seq![decimal_digits()[d as int]]);
    s
}

/// Appends `n` in decimal to `out`.
pub fn append_decimal(out: &mut String, n: u64)
    ensures
        final(out)@ == old(out)@ + decimal_text(n as nat),
    decreases n,
{
    if n >= 10 {
        append_decimal(out, n / 10);
    }
    out.append(digit_str(n % 10));
    assert(final(out)@ =~= old(out)@ + decimal_text(n as nat)) by {
        if n >= 10 {
            assert(decimal_text(n as nat) == decimal_text((n / 10) as nat) + seq![
                decimal_digits()[(n % 10) as int],
            ]);
        }
    }
}

fn delimiter_str(format: TokenFormat) -> (s: &'static str)
    ensures
        s@ == delimiter(format),
{
    proof {
        reveal_strlit(":");
        reveal_strlit("");
    }
    let s = match format {
        TokenFormat::ColonDelimited => ":",
        TokenFormat::Concatenated => "",
    };
    assert(s@ =~= delimiter(format));
    s
}

/// Builds the message that is signed.
pub fn build_signed_message(
    format: TokenFormat,
    id: &str,
    nonce: &str,
    nonce_count: u64,
    password: &str,
    timestamp: &Timestamp,
) -> (message: String)
    ensures
        message@ == signed_message(format, id@, nonce@, nonce_count as nat, password@, timestamp@),
{
    let d = delimiter_str(format);
    let mut message = String::from_str(id);
    message.append(d);
    message.append(nonce);
    message.append(d);
    append_decimal(&mut message, nonce_count);
    message.append(d);
    message.append(password);
    message.append(d);
    message.append(timestamp.as_str());
    message
}

/// Builds the authorization token of one request.
///
/// Nonce and timestamp come from the caller. The result is always `Ok`; it is
/// the scheme prefix followed by the fields in the mailbox's grammar, the last
/// of them the signature of the signed message under the mailbox's key.
pub fn build_token(mailbox: &Mailbox, nonce: &str, nonce_count: u64, timestamp: &Timestamp) -> (r:
    Result<String, MailboxError>)
    ensures
        r is Ok,
        r.unwrap()@ == mailbox_token(mailbox, nonce@, nonce_count as nat, timestamp@),
        r.unwrap()@.len() >= 8,
        r.unwrap()@.subrange(0, 8) == scheme_prefix(),
{
    let format = mailbox.format();
    let message = build_signed_message(
        format,
        mailbox.id(),
        nonce,
        nonce_count,
        mailbox.password(),
        timestamp,
    );
    let signature = match sign(mailbox.shared_key(), message.as_str()) {
        Ok(s) => s,
        Err(e) => {
            return Err(e);
        },
    };
    proof {
        reveal_strlit("NHSMESH ");
        reveal_strlit(":");
        assert("NHSMESH "@ =~= scheme_prefix());
        assert(":"@ =~= seq![':']);
    }
    let mut token = String::from_str("NHSMESH ");
    token.append(mailbox.id());
    match format {
        TokenFormat::ColonDelimited => {
            token.append(":");
            token.append(nonce);
            token.append(":");
            append_decimal(&mut token, nonce_count);
            token.append(":");
            token.append(timestamp.as_str());
            token.append(":");
        },
        TokenFormat::Concatenated => {
            token.append(nonce);
            token.append(timestamp.as_str());
        },
    }
    token.append(signature.as_str());
    proof {
        let expected = mailbox_token(mailbox, nonce@, nonce_count as nat, timestamp@);
        assert(token@ =~= expected);
        assert(token@.subrange(0, 8) =~= scheme_prefix());
    }
    Ok(token)
}

/// The `strftime` pattern of a minute stamp.
pub open spec fn minute_pattern() -> Seq<char> {
    seq!['%', 'Y', '%', 'm', '%', 'd', '%', 'H', '%', 'M']
}

/// Calls `Uuid::new_v4` of the uuid crate and formats the result with its
/// `Display`. Trusted: whatever the random bits, the text is the hyphenated
/// lower-case form, 36 characters with hyphens at 8, 13, 18 and 23.
#[verifier::external_body]
pub(crate) fn random_nonce() -> (nonce: String)
    ensures
        is_uuid_text(nonce@),
{
    uuid::Uuid::new_v4().to_string()
}

/// Calls `Utc::now` of the chrono crate and formats the time with `pattern`.
/// Trusted: nothing about the text, which depends on the clock. chrono stops
/// the process if the clock stands before 1970.
#[verifier::external_body]
pub(crate) fn utc_now_text(pattern: &str) -> (text: String)
    requires
        pattern@ == minute_pattern(),
{
    chrono::Utc::now().format(pattern).to_string()
}

/// Builds the token of a single-shot request from a nonce and the text of the
/// current time. The nonce count is 0.
///
/// Succeeds if and only if `stamp` is twelve decimal digits.
pub fn token_for(mailbox: &Mailbox, nonce: &str, stamp: String) -> (r: Result<String, MailboxError>)
    ensures
        match r {
            Ok(token) => is_timestamp_text(stamp@) && token@ == mailbox_token(
                mailbox,
                nonce@,
                0,
                stamp@,
            ),
            Err(e) => !is_timestamp_text(stamp@) && e == MailboxError::TimestampError,
        },
{
    match Timestamp::new(stamp) {
        Some(timestamp) => build_token(mailbox, nonce, 0, &timestamp),
        None => Err(MailboxError::TimestampError),
    }
}

/// Builds a fresh token for `mailbox`: a random UUID as nonce, nonce count 0,
/// and the current UTC time to the minute.
///
/// Fails only if the clock gives a time that has no twelve-digit stamp.
pub fn generate_token(mailbox: &Mailbox) -> (r: Result<String, MailboxError>)
    ensures
        match r {
            Ok(token) => exists|nonce: Seq<char>, stamp: Seq<char>|
                is_uuid_text(nonce) && is_timestamp_text(stamp) && token@ == #[trigger] mailbox_token(
                    mailbox,
                    nonce,
                    0,
                    stamp,
                ),
            Err(e) => e == MailboxError::TimestampError,
        },
{
    let nonce = random_nonce();
    proof {
        reveal_strlit("%Y%m%d%H%M");
        assert("%Y%m%d%H%M"@ =~= minute_pattern());
    }
    let stamp = utc_now_text("%Y%m%d%H%M");
    token_for(mailbox, nonce.as_str(), stamp)
}

/// Mailboxes that agree in id, password, key and grammar build the same token
/// from the same nonce, count and stamp.
pub proof fn lemma_token_deterministic(
    a: &Mailbox,
    b: &Mailbox,
    nonce: Seq<char>,
    nonce_count: nat,
    stamp: Seq<char>,
)
    requires
        a.id_text() == b.id_text(),
        a.password_text() == b.password_text(),
        a.key_bytes() == b.key_bytes(),
        a.token_format() == b.token_format(),
    ensures
        mailbox_token(a, nonce, nonce_count, stamp) == mailbox_token(b, nonce, nonce_count, stamp),
{
}

/// Every token starts with the scheme name, which holds no space, and one
/// space after it.
pub proof fn lemma_token_starts_with_scheme(
    mailbox: &Mailbox,
    nonce: Seq<char>,
    nonce_count: nat,
    stamp: Seq<char>,
)
    ensures
        mailbox_token(mailbox, nonce, nonce_count, stamp).len() >= 8,
        mailbox_token(mailbox, nonce, nonce_count, stamp).subrange(0, 8) == scheme_prefix(),
        mailbox_token(mailbox, nonce, nonce_count, stamp)[7] == ' ',
        forall|i: int| 0 <= i < 7 ==> #[trigger] mailbox_token(mailbox, nonce, nonce_count, stamp)[i] != ' ',
{
    let token = mailbox_token(mailbox, nonce, nonce_count, stamp);
    assert(token.subrange(0, 8) =~= scheme_prefix());
    assert forall|i: int| 0 <= i < 8 implies token[i] == scheme_prefix()[i] by {
        assert(token.subrange(0, 8)[i] == token[i]);
    }
}

/// The signed message ends with its minute stamp: twelve decimal digits.
pub proof fn lemma_signed_message_ends_with_stamp(
    format: TokenFormat,
    id: Seq<char>,
    nonce: Seq<char>,
    nonce_count: nat,
    password: Seq<char>,
    stamp: Seq<char>,
)
    requires
        is_timestamp_text(stamp),
    ensures
        ({
            let message = signed_message(format, id, nonce, nonce_count, password, stamp);
            &&& message.len() >= 12
            &&& message.subrange(message.len() - 12, message.len() as int) == stamp
            &&& forall|i: int|
                message.len() - 12 <= i < message.len() ==> is_decimal_digit(#[trigger] message[i])
        }),
{
    let message = signed_message(format, id, nonce, nonce_count, password, stamp);
    assert(message.subrange(message.len() - 12, message.len() as int) =~= stamp);
    assert forall|i: int| message.len() - 12 <= i < message.len() implies is_decimal_digit(
        #[trigger] message[i],
    ) by {
        assert(message[i] == stamp[i - (message.len() - 12)]);
    }
}

} // verus!
