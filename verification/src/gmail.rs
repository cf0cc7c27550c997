//! Mailbox integration data types and the pure helpers over them: header
//! lookup, attachment listing, body extraction and transfer encodings.

use vstd::prelude::*;

use base64::Engine;

use crate::chars;

verus! {

/// One mail message as the mailbox API reports it.
#[derive(Debug)]
pub struct GmailMessage {
    pub id: String,
    pub thread_id: Option<String>,
    pub label_ids: Option<Vec<String>>,
    pub snippet: Option<String>,
    pub payload: Option<MessagePayload>,
    pub size_estimate: Option<u64>,
    pub history_id: Option<String>,
    pub internal_date: Option<String>,
}

/// One part of a message body, possibly nested.
#[derive(Debug)]
pub struct MessagePayload {
    pub part_id: Option<String>,
    pub mime_type: Option<String>,
    pub filename: Option<String>,
    pub headers: Option<Vec<MessageHeader>>,
    pub body: Option<MessageBody>,
    pub parts: Option<Vec<MessagePayload>>,
}

/// One message header.
#[derive(Debug)]
pub struct MessageHeader {
    pub name: String,
    pub value: String,
}

/// The body data of one message part.
#[derive(Debug)]
pub struct MessageBody {
    pub attachment_id: Option<String>,
    pub size: Option<u64>,
    pub data: Option<String>,
}

/// One mailbox label.
#[derive(Debug, Clone)]
pub struct GmailLabel {
    pub id: String,
    pub name: String,
    pub label_type: Option<String>,
    pub message_list_visibility: Option<String>,
    pub label_list_visibility: Option<String>,
    pub messages_total: Option<u32>,
    pub messages_unread: Option<u32>,
    pub color: Option<LabelColor>,
}

/// A label's colors.
#[derive(Debug, Clone)]
pub struct LabelColor {
    pub text_color: Option<String>,
    pub background_color: Option<String>,
}

/// One page of a message listing.
#[derive(Debug)]
pub struct MessageListResponse {
    pub messages: Option<Vec<MessageRef>>,
    pub next_page_token: Option<String>,
    pub result_size_estimate: Option<u32>,
}

/// A reference to one listed message.
#[derive(Debug)]
pub struct MessageRef {
    pub id: String,
    pub thread_id: String,
}

/// The label listing.
#[derive(Debug)]
pub struct LabelListResponse {
    pub labels: Option<Vec<GmailLabel>>,
}

/// A send request: the encoded message and its thread.
#[derive(Debug)]
pub struct SendMessageRequest {
    pub raw: String,
    pub thread_id: Option<String>,
}

/// A label-modification request.
#[derive(Debug)]
pub struct ModifyMessageRequest {
    pub add_label_ids: Option<Vec<String>>,
    pub remove_label_ids: Option<Vec<String>>,
}

/// A label-creation request.
#[derive(Debug)]
pub struct CreateLabelRequest {
    pub name: String,
    pub message_list_visibility: Option<String>,
    pub label_list_visibility: Option<String>,
}

/// The label listing split into system and user labels.
#[derive(Debug)]
pub struct LabelManagerResult {
    pub system: Vec<GmailLabel>,
    pub user: Vec<GmailLabel>,
    pub count: LabelCount,
}

/// Counts over a label listing.
#[derive(Debug, Clone, Copy)]
pub struct LabelCount {
    pub total: usize,
    pub system: usize,
    pub user: usize,
}

/// The outcome of deleting a label.
#[derive(Debug)]
pub struct DeleteLabelResult {
    pub success: bool,
    pub message: String,
}

/// Namespace for label operations; the operations themselves talk to the
/// mailbox API outside the library.
#[derive(Debug)]
pub struct LabelManager;

/// Namespace for the mailbox tools; the tools themselves talk to the
/// mailbox API outside the library.
#[derive(Debug)]
pub struct GmailTools;

/// The readable bodies extracted from a message.
#[derive(Debug)]
pub struct EmailContent {
    pub text: String,
    pub html: String,
}

/// One attachment of a message.
#[derive(Debug)]
pub struct EmailAttachment {
    pub id: String,
    pub filename: String,
    pub mime_type: String,
    pub size: u64,
}

/// Arguments for sending a message.
#[derive(Debug)]
pub struct SendEmailArgs {
    pub to: Vec<String>,
    pub subject: String,
    pub body: String,
    pub html_body: Option<String>,
    pub mime_type: Option<String>,
    pub cc: Option<Vec<String>>,
    pub bcc: Option<Vec<String>>,
    pub thread_id: Option<String>,
    pub in_reply_to: Option<String>,
}

/// Arguments for reading one message.
#[derive(Debug)]
pub struct ReadEmailArgs {
    pub message_id: String,
}

/// Arguments for a message search.
#[derive(Debug)]
pub struct SearchEmailsArgs {
    pub query: String,
    pub max_results: Option<u32>,
}

/// Arguments for changing a message's labels.
#[derive(Debug)]
pub struct ModifyEmailArgs {
    pub message_id: String,
    pub label_ids: Option<Vec<String>>,
    pub add_label_ids: Option<Vec<String>>,
    pub remove_label_ids: Option<Vec<String>>,
}

/// Arguments for deleting one message.
#[derive(Debug)]
pub struct DeleteEmailArgs {
    pub message_id: String,
}

/// Arguments for creating a label.
#[derive(Debug)]
pub struct CreateLabelArgs {
    pub name: String,
    pub message_list_visibility: Option<String>,
    pub label_list_visibility: Option<String>,
}

/// Arguments for updating a label.
#[derive(Debug)]
pub struct UpdateLabelArgs {
    pub id: String,
    pub name: Option<String>,
    pub message_list_visibility: Option<String>,
    pub label_list_visibility: Option<String>,
}

/// Arguments for deleting a label.
#[derive(Debug)]
pub struct DeleteLabelArgs {
    pub id: String,
}

/// Arguments for finding or creating a label.
#[derive(Debug)]
pub struct GetOrCreateLabelArgs {
    pub name: String,
    pub message_list_visibility: Option<String>,
    pub label_list_visibility: Option<String>,
}

/// Arguments for changing labels on many messages.
#[derive(Debug)]
pub struct BatchModifyEmailsArgs {
    pub message_ids: Vec<String>,
    pub add_label_ids: Option<Vec<String>>,
    pub remove_label_ids: Option<Vec<String>>,
    pub batch_size: Option<usize>,
}

/// Arguments for deleting many messages.
#[derive(Debug)]
pub struct BatchDeleteEmailsArgs {
    pub message_ids: Vec<String>,
    pub batch_size: Option<usize>,
}

/// Credentials-file settings for the OAuth flow.
#[derive(Debug, Clone)]
pub struct OAuthConfig {
    pub client_id: String,
    pub client_secret: String,
    pub auth_uri: String,
    pub token_uri: String,
    pub redirect_uris: Vec<String>,
}

/// The tokens an OAuth exchange yields.
#[derive(Debug, Clone)]
pub struct OAuthCredentials {
    pub access_token: String,
    pub refresh_token: Option<String>,
    pub expires_in: Option<u64>,
    pub token_type: String,
}

/// The first header whose name matches, compared case-insensitively.
pub open spec fn spec_get_header(hs: Seq<MessageHeader>, name: Seq<char>) -> Option<Seq<char>>
    decreases hs.len(),
{
    if hs.len() == 0 {
        None
    } else if chars::lower_of(hs[0].name@) == chars::lower_of(name) {
        Some(hs[0].value@)
    } else {
        spec_get_header(hs.drop_first(), name)
    }
}

/// Finds a header's value by case-insensitive name, matching
/// `spec_get_header`.
pub fn get_header_value(headers: &Vec<MessageHeader>, name: &str) -> (r: Option<String>)
    ensures
        match r {
            Some(v) => spec_get_header(headers@, name@) == Some(v@),
            None => spec_get_header(headers@, name@) is None,
        },
{
    let target = chars::lowercase(name);
    let mut i: usize = 0;
    proof {
        assert(headers@.skip(0) =~= headers@);
    }
    while i < headers.len()
        invariant
            target@ == chars::lower_of(name@),
            i <= headers@.len(),
            spec_get_header(headers@, name@) == spec_get_header(headers@.skip(i as int), name@),
        decreases headers@.len() - i,
    {
        let ghost rest = headers@.skip(i as int);
        proof {
            assert(rest[0] == headers@[i as int]);
            assert(rest.drop_first() =~= headers@.skip(i as int + 1));
        }
        let lname = chars::lowercase(headers[i].name.as_str());
        if chars::str_eq(lname.as_str(), target.as_str()) {
            return Some(headers[i].value.clone());
        }
        i = i + 1;
    }
    proof {
        assert(headers@.skip(i as int) =~= Seq::<MessageHeader>::empty());
    }
    None
}

/// The mirror of one attachment.
#[verifier::ext_equal]
pub struct SpecAttachment {
    pub id: Seq<char>,
    pub filename: Seq<char>,
    pub mime_type: Seq<char>,
    pub size: u64,
}

/// The mirror of an attachment value.
pub open spec fn att_view(a: EmailAttachment) -> SpecAttachment {
    SpecAttachment { id: a.id@, filename: a.filename@, mime_type: a.mime_type@, size: a.size }
}

/// The mirrors of an attachment vector.
pub open spec fn atts_view(s: Seq<EmailAttachment>) -> Seq<SpecAttachment> {
    s.map(|i: int, a: EmailAttachment| att_view(a))
}

/// The name an attachment is reported under: the declared filename, or a
/// stand-in naming the attachment.
pub open spec fn spec_att_filename(f: Option<String>, id: Seq<char>) -> Seq<char> {
    match f {
        Some(n) => n@,
        None => "attachment-"@ + id,
    }
}

/// The attachments of one message part: its own body's attachment, if any,
/// followed by those of its nested parts.
pub open spec fn spec_attachments(p: MessagePayload) -> Seq<SpecAttachment>
    decreases p,
{
    let own: Seq<SpecAttachment> = match p.body {
        Some(b) => match b.attachment_id {
            Some(id) => seq![
                SpecAttachment {
                    id: id@,
                    filename: spec_att_filename(p.filename, id@),
                    mime_type: match p.mime_type {
                        Some(m) => m@,
                        None => "application/octet-stream"@,
                    },
                    size: match b.size {
                        Some(s) => s,
                        None => 0,
                    },
                },
            ],
            None => Seq::empty(),
        },
        None => Seq::empty(),
    };
    match p.parts {
        Some(ps) => own + spec_attachments_list(ps@),
        None => own,
    }
}

/// The attachments of a run of parts, in order.
pub open spec fn spec_attachments_list(s: Seq<MessagePayload>) -> Seq<SpecAttachment>
    decreases s,
{
    if s.len() == 0 {
        Seq::empty()
    } else {
        spec_attachments(s[0]) + spec_attachments_list(s.drop_first())
    }
}

/// Appends the attachments of one part, matching `spec_attachments`.
#[verifier::loop_isolation(false)]
fn collect_attachments(part: &MessagePayload, out: &mut Vec<EmailAttachment>)
    ensures
        atts_view(final(out)@) == atts_view(old(out)@) + spec_attachments(*part),
    decreases part,
{
    let ghost before = atts_view(out@);
    match &part.body {
        Some(b) => {
            match &b.attachment_id {
                Some(id) => {
                    let filename: String = match &part.filename {
                        Some(n) => n.clone(),
                        None => {
                            let mut f = "attachment-".to_owned();
                            f.append(id.as_str());
                            proof {
                                assert(f@ =~= "attachment-"@ + id@);
                            }
                            f
                        },
                    };
                    let mime_type: String = match &part.mime_type {
                        Some(m) => m.clone(),
                        None => "application/octet-stream".to_owned(),
                    };
                    let size: u64 = match &b.size {
                        Some(s) => *s,
                        None => 0,
                    };
                    let att = EmailAttachment { id: id.clone(), filename, mime_type, size };
                    let ghost attv = att_view(att);
                    let ghost obefore = out@;
                    out.push(att);
                    proof {
                        assert(atts_view(out@) =~= atts_view(obefore).push(attv));
                    }
                },
                None => {},
            }
        },
        None => {},
    }
    let ghost own_done = atts_view(out@);
    match &part.parts {
        Some(ps) => {
            let ghost pl = ps@;
            let mut i: usize = 0;
            proof {
                assert(pl.skip(0) =~= pl);
            }
            while i < ps.len()
                invariant
                    i <= pl.len(),
                    atts_view(out@) + spec_attachments_list(pl.skip(i as int)) =~= own_done
                        + spec_attachments_list(pl),
                decreases pl.len() - i,
            {
                let ghost rest = pl.skip(i as int);
                proof {
                    assert(rest[0] == pl[i as int]);
                    assert(rest.drop_first() =~= pl.skip(i as int + 1));
                }
                collect_attachments(&ps[i], out);
                i = i + 1;
            }
            proof {
                assert(pl.skip(i as int) =~= Seq::<MessagePayload>::empty());
                assert(spec_attachments_list(pl.skip(i as int)) =~= Seq::<SpecAttachment>::empty());
                assert(atts_view(out@) =~= own_done + spec_attachments_list(pl));
                assert(atts_view(out@) =~= before + spec_attachments(*part));
            }
        },
        None => {
            proof {
                assert(atts_view(out@) =~= before + spec_attachments(*part));
            }
        },
    }
}

/// Lists the attachments of a message part, matching `spec_attachments`.
pub fn extract_attachments(message_part: &MessagePayload) -> (r: Vec<EmailAttachment>)
    ensures
        atts_view(r@) == spec_attachments(*message_part),
{
    let mut out: Vec<EmailAttachment> = Vec::new();
    proof {
        assert(atts_view(out@) =~= Seq::<SpecAttachment>::empty());
    }
    collect_attachments(message_part, &mut out);
    proof {
        assert(Seq::<SpecAttachment>::empty() + spec_attachments(*message_part)
            =~= spec_attachments(*message_part));
    }
    out
}

/// What `base64`'s URL-safe unpadded engine encodes a string's bytes to: a
/// function of the characters alone.
pub uninterp spec fn b64url_of(s: Seq<char>) -> Seq<char>;

/// Relies on the URL-safe unpadded engine of `base64`: the encoding of the
/// string's bytes, which depends on its characters alone; an empty string
/// encodes to an empty string.
#[verifier::external_body]
fn b64url_encode(s: &str) -> (r: String)
    ensures
        r@ == b64url_of(s@),
        s@.len() == 0 ==> r@.len() == 0,
{
    base64::engine::general_purpose::URL_SAFE_NO_PAD.encode(s)
}

/// Encodes an assembled message for the send API.
pub fn encode_message_for_gmail(message: &str) -> (r: String)
    ensures
        r@ == b64url_of(message@),
{
    b64url_encode(message)
}

/// What decoding a URL-safe unpadded transfer encoding into text yields: a
/// function of the characters alone, when the bytes decode and form valid
/// text at all.
pub uninterp spec fn b64url_decoded_text(s: Seq<char>) -> Option<Seq<char>>;

/// Relies on the URL-safe unpadded engine of `base64` and on UTF-8
/// validation: the decoded text, which depends on the input's characters
/// alone; nothing when decoding or validation fails.
#[verifier::external_body]
fn b64url_decode_text(data: &str) -> (r: Option<String>)
    ensures
        match r {
            Some(t) => b64url_decoded_text(data@) == Some(t@),
            None => b64url_decoded_text(data@) is None,
        },
{
    match base64::engine::general_purpose::URL_SAFE_NO_PAD.decode(data) {
        Ok(bytes) => String::from_utf8(bytes).ok(),
        Err(_) => None,
    }
}

/// How a header line is encoded for transport: ASCII text as itself, and
/// anything else in the encoded-word form.
pub open spec fn spec_encode_header(s: Seq<char>) -> Seq<char> {
    if vstd::utf8::is_ascii_chars(s) {
        s
    } else {
        "=?UTF-8?B?"@ + crate::auth::base64_of(s) + "?="@
    }
}

/// Encodes a header line for transport, matching `spec_encode_header`.
pub fn encode_email_header(text: &str) -> (r: String)
    ensures
        r@ == spec_encode_header(text@),
{
    if text.is_ascii() {
        text.to_owned()
    } else {
        let mut out = "=?UTF-8?B?".to_owned();
        let encoded = crate::auth::b64_encode(text);
        out.append(encoded.as_str());
        out.append("?=");
        proof {
            assert(out@ =~= "=?UTF-8?B?"@ + crate::auth::base64_of(text@) + "?="@);
        }
        out
    }
}

/// Whether `c` is a whitespace character, by the Unicode white-space
/// property.
pub open spec fn spec_whitespace(c: char) -> bool {
    c == '\u{0009}' || c == '\u{000a}' || c == '\u{000b}' || c == '\u{000c}' || c == '\u{000d}'
        || c == '\u{0020}' || c == '\u{0085}' || c == '\u{00a0}' || c == '\u{1680}' || c
        == '\u{2000}' || c == '\u{2001}' || c == '\u{2002}' || c == '\u{2003}' || c == '\u{2004}'
        || c == '\u{2005}' || c == '\u{2006}' || c == '\u{2007}' || c == '\u{2008}' || c
        == '\u{2009}' || c == '\u{200a}' || c == '\u{2028}' || c == '\u{2029}' || c == '\u{202f}'
        || c == '\u{205f}' || c == '\u{3000}'
}

/// Whether `c` may stand in an address part: anything but whitespace and the
/// separator.
pub open spec fn spec_email_char(c: char) -> bool {
    !spec_whitespace(c) && c != '@'
}

/// The shape of an acceptable address: a non-empty local part, one `@`, and
/// a domain holding a dot with at least one character on each side — with no
/// whitespace and no second `@` anywhere.
pub open spec fn spec_valid_email(s: Seq<char>) -> bool {
    exists|a: int|
        {
            &&& 1 <= a < s.len()
            &&& s[a] == '@'
            &&& (forall|i: int| 0 <= i < s.len() && i != a ==> spec_email_char(#[trigger] s[i]))
            &&& (exists|p: int| a + 2 <= p <= s.len() - 2 && s[p] == '.')
        }
}

/// Executable whitespace test matching `spec_whitespace`.
fn is_whitespace_char(c: char) -> (r: bool)
    ensures
        r == spec_whitespace(c),
{
    c == '\u{0009}' || c == '\u{000a}' || c == '\u{000b}' || c == '\u{000c}' || c == '\u{000d}'
        || c == '\u{0020}' || c == '\u{0085}' || c == '\u{00a0}' || c == '\u{1680}' || c
        == '\u{2000}' || c == '\u{2001}' || c == '\u{2002}' || c == '\u{2003}' || c == '\u{2004}'
        || c == '\u{2005}' || c == '\u{2006}' || c == '\u{2007}' || c == '\u{2008}' || c
        == '\u{2009}' || c == '\u{200a}' || c == '\u{2028}' || c == '\u{2029}' || c == '\u{202f}'
        || c == '\u{205f}' || c == '\u{3000}'
}

/// Accepts exactly the addresses of `spec_valid_email`.
#[verifier::loop_isolation(false)]
pub fn validate_email(email: &str) -> (r: bool)
    ensures
        r == spec_valid_email(email@),
{
    let v = chars::to_chars(email);
    let ghost sv = email@;
    let n = v.len();
    let mut i: usize = 0;
    let mut at_pos: usize = 0;
    let mut at_seen: bool = false;
    while i < n
        invariant
            sv == v@,
            n == sv.len(),
            i <= n,
            forall|j: int| 0 <= j < i ==> !spec_whitespace(#[trigger] sv[j]),
            at_seen ==> at_pos < i && sv[at_pos as int] == '@',
            at_seen ==> forall|j: int| 0 <= j < i && j != at_pos ==> #[trigger] sv[j] != '@',
            !at_seen ==> forall|j: int| 0 <= j < i ==> #[trigger] sv[j] != '@',
        decreases n - i,
    {
        let c = v[i];
        if is_whitespace_char(c) {
            proof {
                assert forall|a: int| !({
                    &&& 1 <= a < sv.len()
                    &&& sv[a] == '@'
                    &&& (forall|k: int| 0 <= k < sv.len() && k != a ==> spec_email_char(
                        #[trigger] sv[k],
                    ))
                    &&& (exists|p: int| a + 2 <= p <= sv.len() - 2 && sv[p] == '.')
                }) by {
                    if 1 <= a < sv.len() && sv[a] == '@' {
                        assert(a != i as int);
                        assert(!spec_email_char(sv[i as int]));
                    }
                }
            }
            return false;
        }
        if c == '@' {
            if at_seen {
                proof {
                    let first = at_pos as int;
                    assert forall|a: int| !({
                        &&& 1 <= a < sv.len()
                        &&& sv[a] == '@'
                        &&& (forall|k: int| 0 <= k < sv.len() && k != a ==> spec_email_char(
                            #[trigger] sv[k],
                        ))
                        &&& (exists|p: int| a + 2 <= p <= sv.len() - 2 && sv[p] == '.')
                    }) by {
                        if 1 <= a < sv.len() && sv[a] == '@' {
                            if a != first {
                                assert(!spec_email_char(sv[first]));
                            } else {
                                assert(a != i as int);
                                assert(!spec_email_char(sv[i as int]));
                            }
                        }
                    }
                }
                return false;
            }
            at_pos = i;
            at_seen = true;
        }
        i = i + 1;
    }
    if !at_seen {
        proof {
            assert forall|a: int| !(1 <= a < sv.len() && sv[a] == '@') by {}
        }
        return false;
    }
    let a = at_pos;
    if a == 0 {
        proof {
            assert forall|cand: int| !({
                &&& 1 <= cand < sv.len()
                &&& sv[cand] == '@'
                &&& (forall|k: int| 0 <= k < sv.len() && k != cand ==> spec_email_char(
                    #[trigger] sv[k],
                ))
                &&& (exists|p: int| cand + 2 <= p <= sv.len() - 2 && sv[p] == '.')
            }) by {
                if 1 <= cand < sv.len() && sv[cand] == '@' {
                    assert(cand != 0);
                    assert(sv[0] == '@');
                    assert(!spec_email_char(sv[0]));
                }
            }
        }
        return false;
    }
    if n < 4 || a > n - 4 {
        proof {
            lemma_email_at_unique(sv, a as int);
        }
        return false;
    }
    let mut p: usize = a + 2;
    while p <= n - 2
        invariant
            sv == v@,
            n == sv.len(),
            2 <= n,
            1 <= a < n,
            a + 2 <= p <= n - 1,
            sv[a as int] == '@',
            forall|j: int| 0 <= j < n ==> !spec_whitespace(#[trigger] sv[j]),
            forall|j: int| 0 <= j < n && j != a ==> #[trigger] sv[j] != '@',
            forall|q: int| a + 2 <= q < p ==> #[trigger] sv[q] != '.',
        decreases n - p,
    {
        if v[p] == '.' {
            proof {
                assert(1 <= (a as int) && (a as int) < sv.len());
                assert(sv[a as int] == '@');
                assert forall|k: int| 0 <= k < sv.len() && k != a as int implies spec_email_char(
                    #[trigger] sv[k],
                ) by {}
                assert(a as int + 2 <= p as int <= sv.len() - 2 && sv[p as int] == '.');
                assert(spec_valid_email(sv));
            }
            return true;
        }
        p = p + 1;
    }
    proof {
        lemma_email_at_unique(sv, a as int);
    }
    false
}

/// When one position holds the separator and every other position holds an
/// address character, no other separator position can witness a valid
/// address — so if that witness lacks a dot window, the address is invalid.
proof fn lemma_email_at_unique(s: Seq<char>, a: int)
    requires
        1 <= a < s.len(),
        s[a] == '@',
        forall|j: int| 0 <= j < s.len() && j != a ==> #[trigger] s[j] != '@',
        forall|q: int| a + 2 <= q <= s.len() - 2 ==> #[trigger] s[q] != '.',
    ensures
        !spec_valid_email(s),
{
    assert forall|cand: int| !({
        &&& 1 <= cand < s.len()
        &&& s[cand] == '@'
        &&& (forall|k: int| 0 <= k < s.len() && k != cand ==> spec_email_char(#[trigger] s[k]))
        &&& (exists|p: int| cand + 2 <= p <= s.len() - 2 && s[p] == '.')
    }) by {
        if 1 <= cand < s.len() && s[cand] == '@' {
            assert(cand == a);
            if exists|p: int| cand + 2 <= p <= s.len() - 2 && s[p] == '.' {
                let p = choose|p: int| cand + 2 <= p <= s.len() - 2 && s[p] == '.';
                assert(s[p] != '.');
            }
        }
    }
}

/// The first address in the list that does not validate, if any.
pub open spec fn spec_first_invalid(emails: Seq<String>) -> Option<Seq<char>>
    decreases emails.len(),
{
    if emails.len() == 0 {
        None
    } else if !spec_valid_email(emails[0]@) {
        Some(emails[0]@)
    } else {
        spec_first_invalid(emails.drop_first())
    }
}

/// Finds the first invalid address, matching `spec_first_invalid`.
fn first_invalid(emails: &Vec<String>) -> (r: Option<String>)
    ensures
        match r {
            Some(e) => spec_first_invalid(emails@) == Some(e@),
            None => spec_first_invalid(emails@) is None,
        },
{
    let mut i: usize = 0;
    proof {
        assert(emails@.skip(0) =~= emails@);
    }
    while i < emails.len()
        invariant
            i <= emails@.len(),
            spec_first_invalid(emails@) == spec_first_invalid(emails@.skip(i as int)),
        decreases emails@.len() - i,
    {
        let ghost rest = emails@.skip(i as int);
        proof {
            assert(rest[0] == emails@[i as int]);
            assert(rest.drop_first() =~= emails@.skip(i as int + 1));
        }
        if !validate_email(emails[i].as_str()) {
            return Some(emails[i].clone());
        }
        i = i + 1;
    }
    proof {
        assert(emails@.skip(i as int) =~= Seq::<String>::empty());
    }
    None
}

/// The content type a message is assembled under: the declared type, except
/// that a message carrying an HTML body under any type but plain text
/// becomes a multipart alternative.
pub open spec fn spec_email_mime(args: SendEmailArgs) -> Seq<char> {
    let m: Seq<char> = match args.mime_type {
        Some(t) => t@,
        None => "text/plain"@,
    };
    if args.html_body is Some && m != "text/plain"@ {
        "multipart/alternative"@
    } else {
        m
    }
}

/// The lines of an assembled message, in order: the fixed sender, the
/// recipient lists, the encoded subject, the reply threading headers, and
/// the body under its content type — multipart messages carry both the
/// plain and the HTML body between boundary markers.
pub open spec fn spec_email_parts(args: SendEmailArgs, boundary: Seq<char>) -> Seq<Seq<char>> {
    let base = seq![
        "From: me"@,
        "To: "@ + chars::spec_join(crate::operation::strs(args.to@), ", "@),
    ];
    let with_cc = match args.cc {
        Some(cc) => if cc@.len() > 0 {
            base.push("Cc: "@ + chars::spec_join(crate::operation::strs(cc@), ", "@))
        } else {
            base
        },
        None => base,
    };
    let with_bcc = match args.bcc {
        Some(bcc) => if bcc@.len() > 0 {
            with_cc.push("Bcc: "@ + chars::spec_join(crate::operation::strs(bcc@), ", "@))
        } else {
            with_cc
        },
        None => with_cc,
    };
    let with_subject = with_bcc.push("Subject: "@ + spec_encode_header(args.subject@));
    let with_reply = match args.in_reply_to {
        Some(r) => with_subject.push("In-Reply-To: "@ + r@).push("References: "@ + r@),
        None => with_subject,
    };
    let with_mime = with_reply.push("MIME-Version: 1.0"@);
    let html_or_body: Seq<char> = match args.html_body {
        Some(h) => h@,
        None => args.body@,
    };
    let m = spec_email_mime(args);
    if m == "multipart/alternative"@ {
        with_mime.push("Content-Type: multipart/alternative; boundary=\""@ + boundary + "\""@)
            .push(""@).push("--"@ + boundary).push("Content-Type: text/plain; charset=UTF-8"@)
            .push("Content-Transfer-Encoding: 7bit"@).push(""@).push(args.body@).push(""@).push(
            "--"@ + boundary,
        ).push("Content-Type: text/html; charset=UTF-8"@).push(
            "Content-Transfer-Encoding: 7bit"@,
        ).push(""@).push(html_or_body).push(""@).push("--"@ + boundary + "--"@)
    } else if m == "text/html"@ {
        with_mime.push("Content-Type: text/html; charset=UTF-8"@).push(
            "Content-Transfer-Encoding: 7bit"@,
        ).push(""@).push(html_or_body)
    } else {
        with_mime.push("Content-Type: text/plain; charset=UTF-8"@).push(
            "Content-Transfer-Encoding: 7bit"@,
        ).push(""@).push(args.body@)
    }
}

/// What assembling a message yields: the first invalid recipient, copy or
/// blind-copy address as an error, and otherwise the message lines joined
/// with carriage-return line feeds.
pub open spec fn spec_create_email(args: SendEmailArgs, boundary: Seq<char>) -> Result<
    Seq<char>,
    Seq<char>,
> {
    match spec_first_invalid(args.to@) {
        Some(e) => Err(e),
        None => match (match args.cc {
            Some(cc) => spec_first_invalid(cc@),
            None => None,
        }) {
            Some(e) => Err(e),
            None => match (match args.bcc {
                Some(bcc) => spec_first_invalid(bcc@),
                None => None,
            }) {
                Some(e) => Err(e),
                None => Ok(chars::spec_join(spec_email_parts(args, boundary), "\r\n"@)),
            },
        },
    }
}

/// Relies on `uuid::Uuid::new_v4` and its simple (unhyphenated) text form:
/// a freshly drawn random identifier; no two calls are promised to agree.
/// Aborts only if the operating system's randomness source fails, an
/// environmental fault no input controls.
#[verifier::external_body]
fn uuid_simple() -> (r: String)
{
    uuid::Uuid::new_v4().simple().to_string()
}

/// Assembles a message around a given multipart boundary, matching
/// `spec_create_email`.
#[verifier::rlimit(100)]
#[verifier::spinoff_prover]
pub fn create_email_message_with(args: &SendEmailArgs, boundary: &str) -> (r: Result<
    String,
    String,
>)
    ensures
        match r {
            Ok(m) => spec_create_email(*args, boundary@) == Ok::<Seq<char>, Seq<char>>(m@),
            Err(e) => spec_create_email(*args, boundary@) == Err::<Seq<char>, Seq<char>>(e@),
        },
{
    match first_invalid(&args.to) {
        Some(e) => {
            return Err(e);
        },
        None => {},
    }
    match &args.cc {
        Some(cc) => match first_invalid(cc) {
            Some(e) => {
                return Err(e);
            },
            None => {},
        },
        None => {},
    }
    match &args.bcc {
        Some(bcc) => match first_invalid(bcc) {
            Some(e) => {
                return Err(e);
            },
            None => {},
        },
        None => {},
    }
    let mut parts: Vec<String> = Vec::new();
    parts.push("From: me".to_owned());
    let to_joined = chars::join_strs(&args.to, ", ");
    let mut to_line = "To: ".to_owned();
    to_line.append(to_joined.as_str());
    proof {
        assert(args.to.deep_view() =~= crate::operation::strs(args.to@));
        assert(to_line@ =~= "To: "@ + chars::spec_join(crate::operation::strs(args.to@), ", "@));
    }
    parts.push(to_line);
    let ghost base = seq![
        "From: me"@,
        "To: "@ + chars::spec_join(crate::operation::strs(args.to@), ", "@),
    ];
    proof {
        assert(parts.deep_view() =~= base);
    }
    match &args.cc {
        Some(cc) => {
            if cc.len() > 0 {
                let joined = chars::join_strs(cc, ", ");
                let mut line = "Cc: ".to_owned();
                line.append(joined.as_str());
                proof {
                    assert(cc.deep_view() =~= crate::operation::strs(cc@));
                    assert(line@ =~= "Cc: "@ + chars::spec_join(
                        crate::operation::strs(cc@),
                        ", "@,
                    ));
                }
                parts.push(line);
            }
        },
        None => {},
    }
    let ghost with_cc = (match &args.cc {
        Some(cc) => if cc@.len() > 0 {
            base.push("Cc: "@ + chars::spec_join(crate::operation::strs(cc@), ", "@))
        } else {
            base
        },
        None => base,
    });
    proof {
        assert(parts.deep_view() =~= with_cc);
    }
    match &args.bcc {
        Some(bcc) => {
            if bcc.len() > 0 {
                let joined = chars::join_strs(bcc, ", ");
                let mut line = "Bcc: ".to_owned();
                line.append(joined.as_str());
                proof {
                    assert(bcc.deep_view() =~= crate::operation::strs(bcc@));
                    assert(line@ =~= "Bcc: "@ + chars::spec_join(
                        crate::operation::strs(bcc@),
                        ", "@,
                    ));
                }
                parts.push(line);
            }
        },
        None => {},
    }
    let ghost with_bcc = (match &args.bcc {
        Some(bcc) => if bcc@.len() > 0 {
            with_cc.push("Bcc: "@ + chars::spec_join(crate::operation::strs(bcc@), ", "@))
        } else {
            with_cc
        },
        None => with_cc,
    });
    proof {
        assert(parts.deep_view() =~= with_bcc);
    }
    let encoded_subject = encode_email_header(args.subject.as_str());
    let mut subject_line = "Subject: ".to_owned();
    subject_line.append(encoded_subject.as_str());
    proof {
        assert(subject_line@ =~= "Subject: "@ + spec_encode_header(args.subject@));
    }
    parts.push(subject_line);
    let ghost with_subject = with_bcc.push("Subject: "@ + spec_encode_header(args.subject@));
    match &args.in_reply_to {
        Some(reply_to) => {
            let mut line1 = "In-Reply-To: ".to_owned();
            line1.append(reply_to.as_str());
            proof {
                assert(line1@ =~= "In-Reply-To: "@ + reply_to@);
            }
            parts.push(line1);
            let mut line2 = "References: ".to_owned();
            line2.append(reply_to.as_str());
            proof {
                assert(line2@ =~= "References: "@ + reply_to@);
            }
            parts.push(line2);
        },
        None => {},
    }
    parts.push("MIME-Version: 1.0".to_owned());
    let ghost with_reply = (match &args.in_reply_to {
        Some(r) => with_subject.push("In-Reply-To: "@ + r@).push("References: "@ + r@),
        None => with_subject,
    });
    let ghost with_mime = with_reply.push("MIME-Version: 1.0"@);
    proof {
        assert(parts.deep_view() =~= with_mime);
    }
    let mime: String = match &args.mime_type {
        Some(t) => t.clone(),
        None => "text/plain".to_owned(),
    };
    let has_html = match &args.html_body {
        Some(_) => true,
        None => false,
    };
    let effective: String = if has_html && !chars::str_eq(mime.as_str(), "text/plain") {
        "multipart/alternative".to_owned()
    } else {
        mime
    };
    proof {
        assert(effective@ == spec_email_mime(*args));
    }
    let html_or_body: &String = match &args.html_body {
        Some(h) => h,
        None => &args.body,
    };
    if chars::str_eq(effective.as_str(), "multipart/alternative") {
        let mut ct = "Content-Type: multipart/alternative; boundary=\"".to_owned();
        ct.append(boundary);
        ct.append("\"");
        proof {
            assert(ct@ =~= "Content-Type: multipart/alternative; boundary=\""@ + boundary@
                + "\""@);
        }
        parts.push(ct);
        parts.push("".to_owned());
        let mut open1 = "--".to_owned();
        open1.append(boundary);
        proof {
            assert(open1@ =~= "--"@ + boundary@);
        }
        parts.push(open1);
        parts.push("Content-Type: text/plain; charset=UTF-8".to_owned());
        parts.push("Content-Transfer-Encoding: 7bit".to_owned());
        parts.push("".to_owned());
        parts.push(args.body.clone());
        parts.push("".to_owned());
        let mut open2 = "--".to_owned();
        open2.append(boundary);
        proof {
            assert(open2@ =~= "--"@ + boundary@);
        }
        parts.push(open2);
        parts.push("Content-Type: text/html; charset=UTF-8".to_owned());
        parts.push("Content-Transfer-Encoding: 7bit".to_owned());
        parts.push("".to_owned());
        parts.push(html_or_body.clone());
        parts.push("".to_owned());
        let mut close = "--".to_owned();
        close.append(boundary);
        close.append("--");
        proof {
            assert(close@ =~= "--"@ + boundary@ + "--"@);
        }
        parts.push(close);
        proof {
            assert(parts.deep_view() =~= spec_email_parts(*args, boundary@));
        }
    } else if chars::str_eq(effective.as_str(), "text/html") {
        parts.push("Content-Type: text/html; charset=UTF-8".to_owned());
        parts.push("Content-Transfer-Encoding: 7bit".to_owned());
        parts.push("".to_owned());
        parts.push(html_or_body.clone());
        proof {
            assert(parts.deep_view() =~= spec_email_parts(*args, boundary@));
        }
    } else {
        parts.push("Content-Type: text/plain; charset=UTF-8".to_owned());
        parts.push("Content-Transfer-Encoding: 7bit".to_owned());
        parts.push("".to_owned());
        parts.push(args.body.clone());
        proof {
            assert(parts.deep_view() =~= spec_email_parts(*args, boundary@));
        }
    }
    Ok(chars::join_strs(&parts, "\r\n"))
}

/// Assembles a message, drawing a fresh multipart boundary.
pub fn create_email_message(args: &SendEmailArgs) -> (r: Result<String, String>)
    ensures
        exists|b: Seq<char>|
            match r {
                Ok(m) => #[trigger] spec_create_email(*args, b) == Ok::<Seq<char>, Seq<char>>(m@),
                Err(e) => spec_create_email(*args, b) == Err::<Seq<char>, Seq<char>>(e@),
            },
{
    let unique = uuid_simple();
    let mut boundary = "----=_NextPart_".to_owned();
    boundary.append(unique.as_str());
    let ghost b = boundary@;
    let out = create_email_message_with(args, boundary.as_str());
    proof {
        match &out {
            Ok(m) => {
                assert(spec_create_email(*args, b) == Ok::<Seq<char>, Seq<char>>(m@));
            },
            Err(e) => {
                assert(spec_create_email(*args, b) == Err::<Seq<char>, Seq<char>>(e@));
            },
        }
    }
    out
}

/// The readable text and HTML bodies of one part and its children: the
/// part's own decoded body under its declared type, followed by whatever the
/// nested parts carry, concatenated in order.
pub open spec fn spec_extract_content(p: MessagePayload) -> (Seq<char>, Seq<char>)
    decreases p,
{
    let own: (Seq<char>, Seq<char>) = match p.body {
        Some(b) => match b.data {
            Some(d) => match b64url_decoded_text(d@) {
                Some(content) => match p.mime_type {
                    Some(m) => if m@ == "text/plain"@ {
                        (content, Seq::<char>::empty())
                    } else if m@ == "text/html"@ {
                        (Seq::<char>::empty(), content)
                    } else {
                        (Seq::<char>::empty(), Seq::<char>::empty())
                    },
                    None => (Seq::<char>::empty(), Seq::<char>::empty()),
                },
                None => (Seq::<char>::empty(), Seq::<char>::empty()),
            },
            None => (Seq::<char>::empty(), Seq::<char>::empty()),
        },
        None => (Seq::<char>::empty(), Seq::<char>::empty()),
    };
    match p.parts {
        Some(ps) => spec_extract_content_list(ps@, own),
        None => own,
    }
}

/// Folds the bodies of a run of parts onto an accumulator.
pub open spec fn spec_extract_content_list(
    s: Seq<MessagePayload>,
    acc: (Seq<char>, Seq<char>),
) -> (Seq<char>, Seq<char>)
    decreases s,
{
    if s.len() == 0 {
        acc
    } else {
        let child = spec_extract_content(s[0]);
        spec_extract_content_list(s.drop_first(), (acc.0 + child.0, acc.1 + child.1))
    }
}

/// Extracts the readable bodies of a message part, matching
/// `spec_extract_content`.
#[verifier::loop_isolation(false)]
pub fn extract_email_content(message_part: &MessagePayload) -> (r: EmailContent)
    ensures
        (r.text@, r.html@) == spec_extract_content(*message_part),
    decreases message_part,
{
    let mut text = String::new();
    let mut html = String::new();
    match &message_part.body {
        Some(b) => {
            match &b.data {
                Some(d) => {
                    match b64url_decode_text(d.as_str()) {
                        Some(content) => {
                            match &message_part.mime_type {
                                Some(m) => {
                                    if chars::str_eq(m.as_str(), "text/plain") {
                                        text = content;
                                    } else if chars::str_eq(m.as_str(), "text/html") {
                                        html = content;
                                    }
                                },
                                None => {},
                            }
                        },
                        None => {},
                    }
                },
                None => {},
            }
        },
        None => {},
    }
    let ghost own = (text@, html@);
    match &message_part.parts {
        Some(ps) => {
            let ghost pl = ps@;
            let mut i: usize = 0;
            proof {
                assert(pl.skip(0) =~= pl);
            }
            while i < ps.len()
                invariant
                    i <= pl.len(),
                    spec_extract_content_list(pl.skip(i as int), (text@, html@))
                        == spec_extract_content_list(pl, own),
                decreases pl.len() - i,
            {
                let ghost rest = pl.skip(i as int);
                proof {
                    assert(rest[0] == pl[i as int]);
                    assert(rest.drop_first() =~= pl.skip(i as int + 1));
                }
                let child = extract_email_content(&ps[i]);
                text.append(child.text.as_str());
                html.append(child.html.as_str());
                i = i + 1;
            }
            proof {
                assert(pl.skip(i as int) =~= Seq::<MessagePayload>::empty());
            }
            EmailContent { text, html }
        },
        None => EmailContent { text, html },
    }
}

/// One listed attachment line of the display form.
pub open spec fn spec_attachment_line(a: EmailAttachment) -> Seq<char> {
    "- "@ + a.filename@ + " ("@ + a.mime_type@ + ", "@ + chars::spec_digits(
        (a.size / 1024) as nat,
    ) + " KB)"@
}

/// The trailing attachment listing of the display form; empty without
/// attachments.
pub open spec fn spec_attachment_info(atts: Seq<EmailAttachment>) -> Seq<char> {
    if atts.len() > 0 {
        "\n\nAttachments ("@ + chars::spec_digits(atts.len()) + "):\n"@ + chars::spec_join(
            atts.map(|i: int, a: EmailAttachment| spec_attachment_line(a)),
            "\n"@,
        )
    } else {
        Seq::<char>::empty()
    }
}

/// The headers of a message, or nothing when it carries none.
pub open spec fn spec_message_headers(message: GmailMessage) -> Seq<MessageHeader> {
    match message.payload {
        Some(p) => match p.headers {
            Some(h) => h@,
            None => Seq::empty(),
        },
        None => Seq::empty(),
    }
}

/// A header's value for display, or nothing as empty text.
pub open spec fn spec_header_or_empty(hs: Seq<MessageHeader>, name: Seq<char>) -> Seq<char> {
    match spec_get_header(hs, name) {
        Some(v) => v,
        None => Seq::empty(),
    }
}

/// The display form of a message: its thread and headers, a note when only
/// an HTML body exists, the preferred body, and the attachment listing.
pub open spec fn spec_email_display(
    message: GmailMessage,
    content: EmailContent,
    atts: Seq<EmailAttachment>,
) -> Seq<char> {
    let hs = spec_message_headers(message);
    let thread_id: Seq<char> = match message.thread_id {
        Some(t) => t@,
        None => Seq::empty(),
    };
    let body: Seq<char> = if content.text@.len() > 0 {
        content.text@
    } else {
        content.html@
    };
    let note: Seq<char> = if content.text@.len() == 0 && content.html@.len() > 0 {
        "[Note: This email is HTML-formatted. Plain text version not available.]\n\n"@
    } else {
        Seq::<char>::empty()
    };
    "Thread ID: "@ + thread_id + "\nSubject: "@ + spec_header_or_empty(hs, "subject"@)
        + "\nFrom: "@ + spec_header_or_empty(hs, "from"@) + "\nTo: "@ + spec_header_or_empty(
        hs,
        "to"@,
    ) + "\nDate: "@ + spec_header_or_empty(hs, "date"@) + "\n\n"@ + note + body
        + spec_attachment_info(atts)
}

/// Renders a message for display, matching `spec_email_display`.
#[verifier::loop_isolation(false)]
#[verifier::rlimit(100)]
#[verifier::spinoff_prover]
pub fn format_email_for_display(
    message: &GmailMessage,
    content: &EmailContent,
    attachments: &Vec<EmailAttachment>,
) -> (r: String)
    ensures
        r@ == spec_email_display(*message, *content, attachments@),
{
    let empty_headers: Vec<MessageHeader> = Vec::new();
    let headers: &Vec<MessageHeader> = match &message.payload {
        Some(p) => match &p.headers {
            Some(h) => h,
            None => &empty_headers,
        },
        None => &empty_headers,
    };
    proof {
        assert(headers@ =~= spec_message_headers(*message));
    }
    let mut out = "Thread ID: ".to_owned();
    match &message.thread_id {
        Some(t) => out.append(t.as_str()),
        None => {},
    }
    out.append("\nSubject: ");
    match get_header_value(headers, "subject") {
        Some(v) => out.append(v.as_str()),
        None => {},
    }
    out.append("\nFrom: ");
    match get_header_value(headers, "from") {
        Some(v) => out.append(v.as_str()),
        None => {},
    }
    out.append("\nTo: ");
    match get_header_value(headers, "to") {
        Some(v) => out.append(v.as_str()),
        None => {},
    }
    out.append("\nDate: ");
    match get_header_value(headers, "date") {
        Some(v) => out.append(v.as_str()),
        None => {},
    }
    out.append("\n\n");
    let ghost hs = spec_message_headers(*message);
    let ghost thread_spec: Seq<char> = (match &message.thread_id {
        Some(t) => t@,
        None => Seq::<char>::empty(),
    });
    let ghost head = "Thread ID: "@ + thread_spec + "\nSubject: "@ + spec_header_or_empty(
        hs,
        "subject"@,
    ) + "\nFrom: "@ + spec_header_or_empty(hs, "from"@) + "\nTo: "@ + spec_header_or_empty(
        hs,
        "to"@,
    ) + "\nDate: "@ + spec_header_or_empty(hs, "date"@) + "\n\n"@;
    proof {
        assert(out@ =~= head);
    }
    let text_len = content.text.as_str().unicode_len();
    let html_len = content.html.as_str().unicode_len();
    if text_len == 0 && html_len > 0 {
        out.append("[Note: This email is HTML-formatted. Plain text version not available.]\n\n");
    }
    if text_len > 0 {
        out.append(content.text.as_str());
    } else {
        out.append(content.html.as_str());
    }
    let ghost body_spec: Seq<char> = if content.text@.len() > 0 {
        content.text@
    } else {
        content.html@
    };
    let ghost note_spec: Seq<char> = if content.text@.len() == 0 && content.html@.len() > 0 {
        "[Note: This email is HTML-formatted. Plain text version not available.]\n\n"@
    } else {
        Seq::<char>::empty()
    };
    proof {
        assert(out@ =~= head + note_spec + body_spec);
    }
    if attachments.len() > 0 {
        out.append("\n\nAttachments (");
        let count = chars::u64_to_string(attachments.len() as u64);
        out.append(count.as_str());
        out.append("):\n");
        let ghost f = |i: int, a: EmailAttachment| spec_attachment_line(a);
        let ghost target = attachments@.map(f);
        let mut lines: Vec<String> = Vec::new();
        let mut i: usize = 0;
        proof {
            assert(lines.deep_view() =~= target.subrange(0, 0));
        }
        while i < attachments.len()
            invariant
                target == attachments@.map(f),
                target.len() == attachments@.len(),
                i <= attachments@.len(),
                lines.deep_view() =~= target.subrange(0, i as int),
            decreases attachments@.len() - i,
        {
            let a = &attachments[i];
            let mut line = "- ".to_owned();
            line.append(a.filename.as_str());
            line.append(" (");
            line.append(a.mime_type.as_str());
            line.append(", ");
            let kb = chars::u64_to_string(a.size / 1024);
            line.append(kb.as_str());
            line.append(" KB)");
            proof {
                assert(line@ =~= spec_attachment_line(attachments@[i as int]));
            }
            let ghost before = lines.deep_view();
            lines.push(line);
            proof {
                assert(lines.deep_view() =~= before.push(target[i as int]));
                assert(lines.deep_view() =~= target.subrange(0, i as int + 1));
            }
            i = i + 1;
        }
        proof {
            assert(target.subrange(0, i as int) =~= target);
        }
        let joined = chars::join_strs(&lines, "\n");
        out.append(joined.as_str());
        proof {
            assert(out@ =~= head + note_spec + body_spec + spec_attachment_info(attachments@));
            assert(out@ =~= spec_email_display(*message, *content, attachments@));
        }
    } else {
        proof {
            assert(spec_attachment_info(attachments@) =~= Seq::<char>::empty());
            assert(out@ =~= head + note_spec + body_spec + spec_attachment_info(attachments@));
            assert(out@ =~= spec_email_display(*message, *content, attachments@));
        }
    }
    out
}

} // verus!
