//! The message for one recipient, as plain values, and the rules that put it together.
//!
//! A message always has a sender, one recipient, a subject and a body that is HTML or plain
//! text. It has a reply address, a copy and a blind copy where the configuration names them.
//! With an attachment it has two parts, the body and the file; without, the body alone. The
//! file travels as `application/octet-stream` in base64, under its base name.
//!
//! What is written here is what the transport's message is built from, field by field.

use crate::config::{html_truthy, ConfigView, EnvConfig};
use crate::table::{RecipientRecord, RecordView};
use crate::text::{text_view, to_chars};
use vstd::prelude::*;

verus! {

/// What kind of text a body is.
#[derive(Debug, Clone, Copy, PartialEq, Eq, Structural)]
pub enum ContentKind {
    /// `text/html`.
    Html,
    /// `text/plain`.
    Plain,
}

/// One of the addresses of a message.
#[derive(Debug, Clone, Copy, PartialEq, Eq, Structural)]
pub enum AddressField {
    /// The sender.
    From,
    /// The recipient.
    To,
    /// The address that replies go to.
    ReplyTo,
    /// The address that gets a copy.
    Cc,
    /// The address that gets a blind copy.
    Bcc,
}

/// How the content of a part is encoded for transfer.
#[derive(Debug, Clone, Copy, PartialEq, Eq, Structural)]
pub enum TransferEncoding {
    /// `7bit`.
    SevenBit,
    /// `quoted-printable`.
    QuotedPrintable,
    /// `base64`.
    Base64,
    /// `8bit`.
    EightBit,
    /// `binary`.
    Binary,
}

/// The file that goes with every message of a run.
#[derive(Debug, PartialEq, Eq)]
pub struct Attachment {
    /// The name that the file is attached under.
    pub file_name: String,
    /// The media type that the file is declared as.
    pub media_type: String,
    /// How the file is encoded for transfer.
    pub encoding: TransferEncoding,
    /// What the file holds.
    pub bytes: Vec<u8>,
}

/// What an attachment holds.
pub ghost struct AttachmentView {
    pub file_name: Seq<char>,
    pub media_type: Seq<char>,
    pub encoding: TransferEncoding,
    pub bytes: Seq<u8>,
}

impl View for Attachment {
    type V = AttachmentView;

    open spec fn view(&self) -> AttachmentView {
        AttachmentView {
            file_name: self.file_name@,
            media_type: self.media_type@,
            encoding: self.encoding,
            bytes: self.bytes@,
        }
    }
}

impl Clone for Attachment {
    fn clone(&self) -> (copy: Self)
        ensures
            copy@ == self@,
    {
        let bytes = self.bytes.clone();
        assert(bytes@ =~= self.bytes@);
        Attachment {
            file_name: self.file_name.clone(),
            media_type: self.media_type.clone(),
            encoding: self.encoding,
            bytes,
        }
    }
}

/// A message that is ready to be sent.
#[derive(Debug, PartialEq, Eq)]
pub struct OutgoingMessage {
    /// The sender.
    pub from: String,
    /// The recipient, name and address.
    pub to: String,
    /// The address that replies go to.
    pub reply_to: Option<String>,
    /// The address that gets a copy.
    pub cc: Option<String>,
    /// The address that gets a blind copy.
    pub bcc: Option<String>,
    /// The subject line.
    pub subject: String,
    /// The body.
    pub body: String,
    /// What kind of text the body is.
    pub kind: ContentKind,
    /// The file that goes with the body.
    pub attachment: Option<Attachment>,
}

/// What a message holds.
pub ghost struct MessageView {
    pub from: Seq<char>,
    pub to: Seq<char>,
    pub reply_to: Option<Seq<char>>,
    pub cc: Option<Seq<char>>,
    pub bcc: Option<Seq<char>>,
    pub subject: Seq<char>,
    pub body: Seq<char>,
    pub kind: ContentKind,
    pub attachment: Option<AttachmentView>,
}

impl MessageView {
    /// The number of parts of the message: the body, and the attachment if there is one.
    pub open spec fn part_count(self) -> nat {
        if self.attachment is Some {
            2
        } else {
            1
        }
    }
}

/// The view of an attachment that may be there.
pub open spec fn attachment_view(attachment: Option<Attachment>) -> Option<AttachmentView> {
    match attachment {
        Some(a) => Some(a@),
        None => None,
    }
}

impl View for OutgoingMessage {
    type V = MessageView;

    open spec fn view(&self) -> MessageView {
        MessageView {
            from: self.from@,
            to: self.to@,
            reply_to: text_view(self.reply_to),
            cc: text_view(self.cc),
            bcc: text_view(self.bcc),
            subject: self.subject@,
            body: self.body@,
            kind: self.kind,
            attachment: attachment_view(self.attachment),
        }
    }
}

impl OutgoingMessage {
    /// The number of parts of the message: 2 with an attachment, 1 without.
    pub fn part_count(&self) -> (parts: usize)
        ensures
            parts == self@.part_count(),
    {
        if self.attachment.is_some() {
            2
        } else {
            1
        }
    }
}

/// Which of a message's addresses were found to be addresses. What is said of an address
/// that the configuration leaves empty counts for nothing.
#[derive(Debug, Clone, Copy, PartialEq, Eq, Structural)]
pub struct AddressChecks {
    /// The recipient.
    pub to: bool,
    /// The address that replies go to.
    pub reply_to: bool,
    /// The address that gets a copy.
    pub cc: bool,
    /// The address that gets a blind copy.
    pub bcc: bool,
}

/// The base name of a path: what follows its last `/`, or all of it if it has none.
pub open spec fn base_name(path: Seq<char>) -> Seq<char>
    decreases path.len(),
{
    if path.len() == 0 || path.last() == '/' {
        Seq::empty()
    } else {
        base_name(path.drop_last()).push(path.last())
    }
}

/// How a recipient is written in a message and in the run's output: the name in double
/// quotes, then the address in angle brackets.
pub open spec fn mailbox_text(record: RecordView) -> Seq<char> {
    seq!['"'] + record.name + seq!['"', ' ', '<'] + record.email + seq!['>']
}

/// A setting as a feature: there if it is not empty.
pub open spec fn optional(value: Seq<char>) -> Option<Seq<char>> {
    if value.len() > 0 {
        Some(value)
    } else {
        None
    }
}

/// The kind of body that a value of the `HTML` setting asks for.
pub open spec fn kind_for(html: Seq<char>) -> ContentKind {
    if html_truthy(html) {
        ContentKind::Html
    } else {
        ContentKind::Plain
    }
}

/// The attachment of a run whose attachment file holds `bytes`: none where the
/// configuration names no file; else the bytes as they are, declared as opaque binary data,
/// in base64, under the base name of the file.
pub open spec fn attachment_for(config: ConfigView, bytes: Seq<u8>) -> Option<AttachmentView> {
    if config.attachment.len() > 0 {
        Some(
            AttachmentView {
                file_name: base_name(config.attachment),
                media_type: "application/octet-stream"@,
                encoding: TransferEncoding::Base64,
                bytes,
            },
        )
    } else {
        None
    }
}

/// The first address of a message that is none, in the order recipient, reply address, copy,
/// blind copy.
pub open spec fn first_bad_address(config: ConfigView, checks: AddressChecks) -> Option<AddressField> {
    if !checks.to {
        Some(AddressField::To)
    } else if config.reply_to.len() > 0 && !checks.reply_to {
        Some(AddressField::ReplyTo)
    } else if config.cc.len() > 0 && !checks.cc {
        Some(AddressField::Cc)
    } else if config.bcc.len() > 0 && !checks.bcc {
        Some(AddressField::Bcc)
    } else {
        None
    }
}

/// The message for one recipient, or the first of its addresses that is none.
pub open spec fn assembled(
    config: ConfigView,
    record: RecordView,
    subject: Seq<char>,
    body: Seq<char>,
    attachment: Option<AttachmentView>,
    checks: AddressChecks,
) -> Result<MessageView, AddressField> {
    match first_bad_address(config, checks) {
        Some(field) => Err(field),
        None => Ok(
            MessageView {
                from: config.smtp_from,
                to: mailbox_text(record),
                reply_to: optional(config.reply_to),
                cc: optional(config.cc),
                bcc: optional(config.bcc),
                subject,
                body,
                kind: kind_for(config.html),
                attachment,
            },
        ),
    }
}

/// Whether `text` reads as a mailbox, a name and an address or an address alone, to the
/// `lettre` crate.
pub uninterp spec fn valid_mailbox(text: Seq<char>) -> bool;

/// Calls the `FromStr` of `lettre::message::Mailbox` and says whether it succeeded. Claimed
/// of it: that depends on `text` alone.
#[verifier::external_body]
fn is_mailbox(text: &str) -> (yes: bool)
    ensures
        yes == valid_mailbox(text@),
{
    text.parse::<lettre::message::Mailbox>().is_ok()
}

/// Which addresses of the message for `record` are addresses.
pub open spec fn address_checks(config: ConfigView, record: RecordView) -> AddressChecks {
    AddressChecks {
        to: valid_mailbox(mailbox_text(record)),
        reply_to: config.reply_to.len() == 0 || valid_mailbox(config.reply_to),
        cc: config.cc.len() == 0 || valid_mailbox(config.cc),
        bcc: config.bcc.len() == 0 || valid_mailbox(config.bcc),
    }
}

/// What follows the last `/` of a path is its base name.
pub proof fn lemma_base_name_from(path: Seq<char>, start: int)
    requires
        0 <= start <= path.len(),
        forall|j: int| start <= j < path.len() ==> path[j] != '/',
        start == 0 || path[start - 1] == '/',
    ensures
        base_name(path) == path.skip(start),
    decreases path.len(),
{
    if path.len() == start {
        assert(path.skip(start) =~= Seq::<char>::empty());
    } else {
        let front = path.drop_last();
        assert forall|j: int| start <= j < front.len() implies front[j] != '/' by {
            assert(front[j] == path[j]);
        }
        lemma_base_name_from(front, start);
        assert(front.skip(start).push(path.last()) =~= path.skip(start));
    }
}

/// The base name of a path.
pub fn attachment_name(path: &str) -> (name: String)
    ensures
        name@ == base_name(path@),
{
    let chars = to_chars(path);
    let mut start: usize = 0;
    let mut i: usize = 0;
    while i < chars.len()
        invariant
            start <= i <= chars.len(),
            forall|j: int| start <= j < i ==> chars@[j] != '/',
            start == 0 || chars@[start - 1] == '/',
        decreases chars.len() - i,
    {
        if chars[i] == '/' {
            start = i + 1;
        }
        i = i + 1;
    }
    proof {
        lemma_base_name_from(chars@, start as int);
    }
    let mut name = String::new();
    let mut k: usize = start;
    while k < chars.len()
        invariant
            start <= k <= chars.len(),
            name@ == chars@.subrange(start as int, k as int),
        decreases chars.len() - k,
    {
        name.push(chars[k]);
        assert(chars@.subrange(start as int, k as int).push(chars@[k as int]) =~= chars@.subrange(
            start as int,
            k + 1,
        ));
        k = k + 1;
    }
    assert(chars@.subrange(start as int, chars@.len() as int) =~= chars@.skip(start as int));
    name
}

impl Attachment {
    /// The attachment of a run whose attachment file holds `bytes`; none where the
    /// configuration names no file, whatever `bytes` is.
    pub fn for_config(config: &EnvConfig, bytes: Vec<u8>) -> (attachment: Option<Attachment>)
        ensures
            attachment_view(attachment) == attachment_for(config@, bytes@),
    {
        if config.has_attachment() {
            Some(
                Attachment {
                    file_name: attachment_name(config.attachment.as_str()),
                    media_type: String::from_str("application/octet-stream"),
                    encoding: TransferEncoding::Base64,
                    bytes,
                },
            )
        } else {
            None
        }
    }
}

impl RecipientRecord {
    /// The recipient as a mailbox: the name in double quotes, then the address in angle
    /// brackets.
    pub fn mailbox(&self) -> (text: String)
        ensures
            text@ == mailbox_text(self@),
    {
        let mut text = String::new();
        text.push('"');
        text.append(self.name.as_str());
        text.push('"');
        text.push(' ');
        text.push('<');
        text.append(self.email.as_str());
        text.push('>');
        assert(text@ =~= mailbox_text(self@));
        text
    }
}

/// A copy of a setting, if it is not empty.
fn optional_text(value: &String) -> (text: Option<String>)
    ensures
        text_view(text) == optional(value@),
{
    if value.as_str().is_empty() {
        None
    } else {
        Some(value.clone())
    }
}

/// A copy of the run's attachment.
fn copy_attachment(attachment: &Option<Attachment>) -> (copy: Option<Attachment>)
    ensures
        attachment_view(copy) == attachment_view(*attachment),
{
    match attachment {
        Some(a) => Some(a.clone()),
        None => None,
    }
}

/// Whether the sender of the configuration is an address.
pub fn sender_is_valid(config: &EnvConfig) -> (yes: bool)
    ensures
        yes == valid_mailbox(config@.smtp_from),
{
    is_mailbox(config.smtp_from.as_str())
}

/// Finds out which addresses of the message for `record` are addresses. An address that the
/// configuration leaves empty is not looked at.
pub fn check_addresses(config: &EnvConfig, record: &RecipientRecord) -> (checks: AddressChecks)
    ensures
        checks == address_checks(config@, record@),
{
    let to = is_mailbox(record.mailbox().as_str());
    let reply_to = config.reply_to.as_str().is_empty() || is_mailbox(config.reply_to.as_str());
    let cc = config.cc.as_str().is_empty() || is_mailbox(config.cc.as_str());
    let bcc = config.bcc.as_str().is_empty() || is_mailbox(config.bcc.as_str());
    AddressChecks { to, reply_to, cc, bcc }
}

/// Puts the message for one recipient together from the rendered subject and body, given
/// which of its addresses are addresses.
pub fn assemble_checked(
    config: &EnvConfig,
    record: &RecipientRecord,
    subject: String,
    body: String,
    attachment: &Option<Attachment>,
    checks: AddressChecks,
) -> (message: Result<OutgoingMessage, AddressField>)
    ensures
        match message {
            Ok(m) => assembled(config@, record@, subject@, body@, attachment_view(*attachment), checks)
                == Ok::<MessageView, AddressField>(m@),
            Err(field) => assembled(config@, record@, subject@, body@, attachment_view(*attachment), checks)
                == Err::<MessageView, AddressField>(field),
        },
{
    if !checks.to {
        return Err(AddressField::To);
    }
    if !config.reply_to.as_str().is_empty() && !checks.reply_to {
        return Err(AddressField::ReplyTo);
    }
    if !config.cc.as_str().is_empty() && !checks.cc {
        return Err(AddressField::Cc);
    }
    if !config.bcc.as_str().is_empty() && !checks.bcc {
        return Err(AddressField::Bcc);
    }
    let kind = if config.html_enabled() {
        ContentKind::Html
    } else {
        ContentKind::Plain
    };
    Ok(
        OutgoingMessage {
            from: config.smtp_from.clone(),
            to: record.mailbox(),
            reply_to: optional_text(&config.reply_to),
            cc: optional_text(&config.cc),
            bcc: optional_text(&config.bcc),
            subject,
            body,
            kind,
            attachment: copy_attachment(attachment),
        },
    )
}

/// Puts the message for one recipient together from the rendered subject and body.
///
/// Fails where the recipient, or an address that the configuration names for replies or
/// copies, is no address; the sender is not looked at.
pub fn assemble(
    config: &EnvConfig,
    record: &RecipientRecord,
    subject: String,
    body: String,
    attachment: &Option<Attachment>,
) -> (message: Result<OutgoingMessage, AddressField>)
    ensures
        match message {
            Ok(m) => assembled(
                config@,
                record@,
                subject@,
                body@,
                attachment_view(*attachment),
                address_checks(config@, record@),
            ) == Ok::<MessageView, AddressField>(m@),
            Err(field) => assembled(
                config@,
                record@,
                subject@,
                body@,
                attachment_view(*attachment),
                address_checks(config@, record@),
            ) == Err::<MessageView, AddressField>(field),
        },
{
    let checks = check_addresses(config, record);
    assemble_checked(config, record, subject, body, attachment, checks)
}

/// A message has one part where the configuration names no attachment, and two where it
/// names one; the second part then holds the bytes of the file as they are, in base64, under
/// its base name.
pub proof fn lemma_parts_follow_attachment(
    config: ConfigView,
    record: RecordView,
    subject: Seq<char>,
    body: Seq<char>,
    bytes: Seq<u8>,
    checks: AddressChecks,
)
    requires
        assembled(config, record, subject, body, attachment_for(config, bytes), checks) is Ok,
    ensures
        ({
            let message = assembled(config, record, subject, body, attachment_for(config, bytes), checks)->Ok_0;
            if config.attachment.len() == 0 {
                message.part_count() == 1 && message.attachment is None
            } else {
                &&& message.part_count() == 2
                &&& message.attachment->Some_0.bytes == bytes
                &&& message.attachment->Some_0.encoding == TransferEncoding::Base64
                &&& message.attachment->Some_0.file_name == base_name(config.attachment)
            }
        }),
{
}

/// A message is HTML where the `HTML` setting is truthy, and plain text where it is empty,
/// `no`, `0`, `false` or `unset`.
pub proof fn lemma_kind_follows_html(
    config: ConfigView,
    record: RecordView,
    subject: Seq<char>,
    body: Seq<char>,
    attachment: Option<AttachmentView>,
    checks: AddressChecks,
)
    requires
        assembled(config, record, subject, body, attachment, checks) is Ok,
    ensures
        ({
            let message = assembled(config, record, subject, body, attachment, checks)->Ok_0;
            &&& html_truthy(config.html) ==> message.kind == ContentKind::Html
            &&& !html_truthy(config.html) ==> message.kind == ContentKind::Plain
            &&& config.html == Seq::<char>::empty() ==> message.kind == ContentKind::Plain
            &&& config.html == seq!['n', 'o'] ==> message.kind == ContentKind::Plain
            &&& config.html == seq!['0'] ==> message.kind == ContentKind::Plain
            &&& config.html == seq!['f', 'a', 'l', 's', 'e'] ==> message.kind == ContentKind::Plain
            &&& config.html == seq!['u', 'n', 's', 'e', 't'] ==> message.kind == ContentKind::Plain
        }),
{
}

} // verus!
