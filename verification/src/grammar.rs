//! Reading a colon-delimited token back into its fields.

use crate::mailbox::{Mailbox, TokenFormat};
use crate::signer::{lemma_hex_text_shape, signature_text};
use crate::token::{
    decimal_digits, decimal_text, is_timestamp_text, mailbox_token, scheme_prefix, signed_message,
    token_body,
};
use vstd::prelude::*;

verus! {

/// Whether `text` holds no colon.
pub open spec fn has_no_colon(text: Seq<char>) -> bool {
    forall|i: int| 0 <= i < text.len() ==> #[trigger] text[i] != ':'
}

/// The fields of `text`: the pieces between its colons, in order. A text
/// without a colon is one field.
pub open spec fn colon_fields(text: Seq<char>) -> Seq<Seq<char>>
    decreases text.len(),
{
    if text.len() == 0 {
        seq![Seq::<char>::empty()]
    } else {
        let before = colon_fields(text.drop_last());
        if text.last() == ':' {
            before.push(Seq::<char>::empty())
        } else {
            before.drop_last().push(before.last().push(text.last()))
        }
    }
}

/// Every text has at least one field.
pub proof fn lemma_fields_nonempty(text: Seq<char>)
    ensures
        colon_fields(text).len() >= 1,
    decreases text.len(),
{
    if text.len() > 0 {
        lemma_fields_nonempty(text.drop_last());
    }
}

/// Text without a colon, written after `head`, lengthens the last field of
/// `head`.
pub proof fn lemma_fields_extend(head: Seq<char>, tail: Seq<char>)
    requires
        has_no_colon(tail),
    ensures
        colon_fields(head).len() >= 1,
        colon_fields(head + tail) == colon_fields(head).drop_last().push(
            colon_fields(head).last() + tail,
        ),
    decreases tail.len(),
{
    lemma_fields_nonempty(head);
    let fields = colon_fields(head);
    if tail.len() == 0 {
        assert(head + tail =~= head);
        assert(fields.last() + tail =~= fields.last());
        assert(fields.drop_last().push(fields.last()) =~= fields);
    } else {
        let shorter = tail.drop_last();
        lemma_fields_extend(head, shorter);
        let whole = head + tail;
        assert(whole.drop_last() =~= head + shorter);
        assert(whole.last() == tail[tail.len() - 1]);
        let before = colon_fields(head + shorter);
        assert(before.drop_last() =~= fields.drop_last());
        assert(before.last().push(tail.last()) =~= fields.last() + tail);
    }
}

/// A colon and a text without one, written after `head`, add one field.
pub proof fn lemma_fields_append(head: Seq<char>, field: Seq<char>)
    requires
        has_no_colon(field),
    ensures
        colon_fields(head + seq![':'] + field) == colon_fields(head).push(field),
{
    let marked = head + seq![':'];
    assert(marked.drop_last() =~= head);
    assert(marked.last() == ':');
    let fields = colon_fields(marked);
    assert(fields == colon_fields(head).push(Seq::<char>::empty()));
    lemma_fields_extend(marked, field);
    assert(fields.drop_last() =~= colon_fields(head));
    assert(fields.last() + field =~= field);
}

/// A text without a colon is its own single field.
pub proof fn lemma_fields_single(field: Seq<char>)
    requires
        has_no_colon(field),
    ensures
        colon_fields(field) == seq![field],
{
    let nothing = Seq::<char>::empty();
    lemma_fields_extend(nothing, field);
    assert(nothing + field =~= field);
    assert(colon_fields(nothing) =~= seq![nothing]);
    assert(colon_fields(nothing).drop_last().push(nothing + field) =~= seq![field]);
}

/// A number in decimal holds no colon.
pub proof fn lemma_decimal_has_no_colon(n: nat)
    ensures
        has_no_colon(decimal_text(n)),
    decreases n,
{
    let d = (n % 10) as int;
    assert(decimal_digits()[d] != ':') by {
        if d == 0 {
        } else if d == 1 {
        } else if d == 2 {
        } else if d == 3 {
        } else if d == 4 {
        } else if d == 5 {
        } else if d == 6 {
        } else if d == 7 {
        } else if d == 8 {
        } else {
        }
    }
    if n >= 10 {
        lemma_decimal_has_no_colon(n / 10);
    }
}

/// The body of a colon-delimited token reads back as its five fields, in
/// order, whenever the mailbox id and the nonce hold no colon.
pub proof fn lemma_token_body_fields(
    id: Seq<char>,
    nonce: Seq<char>,
    nonce_count: nat,
    stamp: Seq<char>,
    signature: Seq<char>,
)
    requires
        has_no_colon(id),
        has_no_colon(nonce),
        has_no_colon(stamp),
        has_no_colon(signature),
    ensures
        colon_fields(
            token_body(TokenFormat::ColonDelimited, id, nonce, nonce_count, stamp, signature),
        ) == seq![id, nonce, decimal_text(nonce_count), stamp, signature],
{
    let colon = seq![':'];
    let count = decimal_text(nonce_count);
    lemma_decimal_has_no_colon(nonce_count);
    lemma_fields_single(id);
    lemma_fields_append(id, nonce);
    lemma_fields_append(id + colon + nonce, count);
    lemma_fields_append(id + colon + nonce + colon + count, stamp);
    lemma_fields_append(id + colon + nonce + colon + count + colon + stamp, signature);
    assert(seq![id].push(nonce).push(count).push(stamp).push(signature) =~= seq![
        id,
        nonce,
        count,
        stamp,
        signature,
    ]);
}

/// The colon-delimited message that is signed reads back as its five fields,
/// the last of them the minute stamp, whenever the mailbox id, the nonce and
/// the password hold no colon.
pub proof fn lemma_signed_message_fields(
    id: Seq<char>,
    nonce: Seq<char>,
    nonce_count: nat,
    password: Seq<char>,
    stamp: Seq<char>,
)
    requires
        has_no_colon(id),
        has_no_colon(nonce),
        has_no_colon(password),
        is_timestamp_text(stamp),
    ensures
        colon_fields(
            signed_message(TokenFormat::ColonDelimited, id, nonce, nonce_count, password, stamp),
        ) == seq![id, nonce, decimal_text(nonce_count), password, stamp],
{
    let colon = seq![':'];
    let count = decimal_text(nonce_count);
    assert(has_no_colon(stamp));
    lemma_decimal_has_no_colon(nonce_count);
    lemma_fields_single(id);
    lemma_fields_append(id, nonce);
    lemma_fields_append(id + colon + nonce, count);
    lemma_fields_append(id + colon + nonce + colon + count, password);
    lemma_fields_append(id + colon + nonce + colon + count + colon + password, stamp);
    assert(seq![id].push(nonce).push(count).push(password).push(stamp) =~= seq![
        id,
        nonce,
        count,
        password,
        stamp,
    ]);
}

/// A colon-delimited token of a mailbox is the scheme prefix followed by five
/// fields: the mailbox id, the nonce, the nonce count in decimal, the minute
/// stamp and the signature. This holds whenever the id and the nonce hold no
/// colon.
pub proof fn lemma_token_parses_back(
    mailbox: &Mailbox,
    nonce: Seq<char>,
    nonce_count: nat,
    stamp: Seq<char>,
)
    requires
        mailbox.token_format() == TokenFormat::ColonDelimited,
        has_no_colon(mailbox.id_text()),
        has_no_colon(nonce),
        is_timestamp_text(stamp),
    ensures
        mailbox_token(mailbox, nonce, nonce_count, stamp).subrange(0, 8) == scheme_prefix(),
        colon_fields(
            mailbox_token(mailbox, nonce, nonce_count, stamp).skip(8),
        ) == seq![
            mailbox.id_text(),
            nonce,
            decimal_text(nonce_count),
            stamp,
            signature_text(
                mailbox.key_bytes(),
                signed_message(
                    TokenFormat::ColonDelimited,
                    mailbox.id_text(),
                    nonce,
                    nonce_count,
                    mailbox.password_text(),
                    stamp,
                ),
            ),
        ],
{
    let id = mailbox.id_text();
    let message = signed_message(
        TokenFormat::ColonDelimited,
        id,
        nonce,
        nonce_count,
        mailbox.password_text(),
        stamp,
    );
    let signature = signature_text(mailbox.key_bytes(), message);
    assert(has_no_colon(signature)) by {
        lemma_hex_text_shape(
            crate::signer::hmac_sha256(mailbox.key_bytes(), vstd::utf8::encode_utf8(message)),
        );
    }
    assert(has_no_colon(stamp));
    let body = token_body(TokenFormat::ColonDelimited, id, nonce, nonce_count, stamp, signature);
    let token = mailbox_token(mailbox, nonce, nonce_count, stamp);
    assert(token.subrange(0, 8) =~= scheme_prefix());
    assert(token.skip(8) =~= body);
    lemma_token_body_fields(id, nonce, nonce_count, stamp, signature);
}

/// A concatenated token of a mailbox is the scheme prefix, the mailbox id, the
/// nonce, the minute stamp and the signature, one after the other.
pub proof fn lemma_concatenated_token(
    mailbox: &Mailbox,
    nonce: Seq<char>,
    nonce_count: nat,
    stamp: Seq<char>,
)
    requires
        mailbox.token_format() == TokenFormat::Concatenated,
    ensures
        mailbox_token(mailbox, nonce, nonce_count, stamp) == scheme_prefix() + (mailbox.id_text()
            + nonce + stamp + signature_text(
            mailbox.key_bytes(),
            mailbox.id_text() + nonce + decimal_text(nonce_count) + mailbox.password_text() + stamp,
        )),
{
    let id = mailbox.id_text();
    let empty = Seq::<char>::empty();
    assert(id + empty + nonce + empty + decimal_text(nonce_count) + empty + mailbox.password_text()
        + empty + stamp =~= id + nonce + decimal_text(nonce_count) + mailbox.password_text()
        + stamp);
}

} // verus!
