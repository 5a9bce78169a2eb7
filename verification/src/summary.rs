//! What is shown of a matched message: date, subject, senders and
//! recipients, one line per message.

use vstd::prelude::*;
use vstd::string::StringExecFns;
use crate::text::decode_lossy;
use crate::text::decode_or;
use crate::text::fit_text;
use crate::text::fitted;
use crate::text::join_texts;
use crate::text::joined;
use crate::text::lossy_or;
use crate::text::lossy_utf8;

verus! {

/// An address of an envelope, each part as the mail store sent it.
#[derive(Debug, PartialEq, Eq)]
pub struct Address {
    /// The personal name.
    pub name: Option<Vec<u8>>,
    /// The source route.
    pub adl: Option<Vec<u8>>,
    /// The part before the `@`.
    pub mailbox: Option<Vec<u8>>,
    /// The part after the `@`.
    pub host: Option<Vec<u8>>,
}

/// What an [`Address`] holds, as mathematical values.
pub struct AddressView {
    pub name: Option<Seq<u8>>,
    pub adl: Option<Seq<u8>>,
    pub mailbox: Option<Seq<u8>>,
    pub host: Option<Seq<u8>>,
}

impl View for Address {
    type V = AddressView;

    open spec fn view(&self) -> AddressView {
        AddressView {
            name: self.name.deep_view(),
            adl: self.adl.deep_view(),
            mailbox: self.mailbox.deep_view(),
            host: self.host.deep_view(),
        }
    }
}

impl DeepView for Address {
    type V = AddressView;

    open spec fn deep_view(&self) -> AddressView {
        self@
    }
}

/// An address written out: the name in angle brackets where there is one,
/// then mailbox, route, `@` and host.
pub open spec fn address_text(
    name: Option<Seq<char>>,
    mailbox: Seq<char>,
    route: Seq<char>,
    host: Seq<char>,
) -> Seq<char> {
    (match name {
        Some(name) => "<"@ + name + "> "@,
        None => Seq::empty(),
    }) + mailbox + route + "@"@ + host
}

/// An address written out: the name in angle brackets where there is one,
/// then mailbox, route, `@` and host.
pub fn format_address(
    name: Option<&str>,
    mailbox: &str,
    route: &str,
    host: &str,
) -> (text: String)
    ensures
        text@ == address_text(name.deep_view(), mailbox@, route@, host@),
{
    let mut text = String::new();
    match name {
        Some(name) => {
            text.append("<");
            text.append(name);
            text.append("> ");
        },
        None => {},
    }
    text.append(mailbox);
    text.append(route);
    text.append("@");
    text.append(host);
    assert(text@ =~= address_text(name.deep_view(), mailbox@, route@, host@));
    text
}

impl AddressView {
    /// The name as text, where there is one.
    pub open spec fn name_text(self) -> Option<Seq<char>> {
        match self.name {
            Some(name) => Some(lossy_utf8(name)),
            None => None,
        }
    }

    /// The address written out. A missing mailbox or host shows as `?`, a
    /// missing route as nothing.
    pub open spec fn formatted(self) -> Seq<char> {
        address_text(
            self.name_text(),
            lossy_or(self.mailbox, "?"@),
            lossy_or(self.adl, ""@),
            lossy_or(self.host, "?"@),
        )
    }
}

impl Address {
    /// The address written out. A missing mailbox or host shows as `?`, a
    /// missing route as nothing.
    pub fn to_formated(&self) -> (text: String)
        ensures
            text@ == self@.formatted(),
    {
        let mailbox = decode_or(&self.mailbox, "?");
        let route = decode_or(&self.adl, "");
        let host = decode_or(&self.host, "?");
        match &self.name {
            Some(name) => {
                assert(name.deep_view() =~= name@);
                let name = decode_lossy(name);
                format_address(
                    Some(name.as_str()),
                    mailbox.as_str(),
                    route.as_str(),
                    host.as_str(),
                )
            },
            None => format_address(None, mailbox.as_str(), route.as_str(), host.as_str()),
        }
    }
}

/// The addresses of `list` written out, with ", " between them; `UNKNOWN`
/// where there is no list.
pub open spec fn addresses_text(list: Option<Seq<AddressView>>) -> Seq<char> {
    match list {
        Some(list) => joined(Seq::new(list.len(), |i: int| list[i].formatted()), ", "@),
        None => "UNKNOWN"@,
    }
}

/// The addresses of `list` written out, with ", " between them; `UNKNOWN`
/// where there is no list.
pub fn get_addresses(list: Option<&Vec<Address>>) -> (text: String)
    ensures
        text@ == addresses_text(list.deep_view()),
{
    match list {
        Some(list) => {
            let mut texts: Vec<String> = Vec::new();
            let mut i: usize = 0;
            while i < list.len()
                invariant
                    i <= list.len(),
                    texts.len() == i,
                    forall|j: int| 0 <= j < i ==> texts[j]@ == list[j]@.formatted(),
                decreases list.len() - i,
            {
                texts.push(list[i].to_formated());
                i += 1;
            }
            assert(texts.deep_view() =~= Seq::new(
                list.deep_view().len(),
                |i: int| list.deep_view()[i].formatted(),
            ));
            join_texts(&texts, ", ")
        },
        None => String::from_str("UNKNOWN"),
    }
}

/// The width of the date column.
pub const DATE_WIDTH: usize = 22;

/// The width of the subject column.
pub const SUBJECT_WIDTH: usize = 40;

/// The width of the column of senders, and of that of recipients.
pub const ADDRESS_WIDTH: usize = 30;

/// A line of four columns with a space between each two: date, subject,
/// senders, recipients, each cut or filled to its width.
pub open spec fn columns(
    date: Seq<char>,
    subject: Seq<char>,
    from: Seq<char>,
    to: Seq<char>,
) -> Seq<char> {
    fitted(date, DATE_WIDTH as nat) + " "@ + fitted(subject, SUBJECT_WIDTH as nat) + " "@ + fitted(
        from,
        ADDRESS_WIDTH as nat,
    ) + " "@ + fitted(to, ADDRESS_WIDTH as nat)
}

/// A line of four columns with a space between each two: date, subject,
/// senders, recipients, each cut or filled to its width.
pub fn format_columns(date: &str, subject: &str, from: &str, to: &str) -> (line: String)
    ensures
        line@ == columns(date@, subject@, from@, to@),
        line@.len() == DATE_WIDTH + SUBJECT_WIDTH + 2 * ADDRESS_WIDTH + 3,
{
    proof {
        reveal_strlit(" ");
    }
    let mut line = fit_text(date, DATE_WIDTH);
    line.append(" ");
    line.append(fit_text(subject, SUBJECT_WIDTH).as_str());
    line.append(" ");
    line.append(fit_text(from, ADDRESS_WIDTH).as_str());
    line.append(" ");
    line.append(fit_text(to, ADDRESS_WIDTH).as_str());
    line
}

/// The line above the messages: the names of the four columns.
pub fn summary_header() -> (line: String)
    ensures
        line@ == columns("date"@, "subject"@, "from"@, "to"@),
{
    format_columns("date", "subject", "from", "to")
}

/// What the envelope of a message says of it, each part as the mail store
/// sent it.
#[derive(Debug, PartialEq, Eq)]
pub struct MessageSummary {
    pub date: Option<Vec<u8>>,
    pub subject: Option<Vec<u8>>,
    pub from: Option<Vec<Address>>,
    pub to: Option<Vec<Address>>,
}

/// What a [`MessageSummary`] holds, as mathematical values.
pub struct MessageSummaryView {
    pub date: Option<Seq<u8>>,
    pub subject: Option<Seq<u8>>,
    pub from: Option<Seq<AddressView>>,
    pub to: Option<Seq<AddressView>>,
}

impl View for MessageSummary {
    type V = MessageSummaryView;

    open spec fn view(&self) -> MessageSummaryView {
        MessageSummaryView {
            date: self.date.deep_view(),
            subject: self.subject.deep_view(),
            from: self.from.deep_view(),
            to: self.to.deep_view(),
        }
    }
}

impl MessageSummaryView {
    /// The line that shows the message. A missing date or subject shows as
    /// `-`.
    pub open spec fn line(self) -> Seq<char> {
        columns(
            lossy_or(self.date, "-"@),
            lossy_or(self.subject, "-"@),
            addresses_text(self.from),
            addresses_text(self.to),
        )
    }
}

impl MessageSummary {
    /// The line that shows the message. A missing date or subject shows as
    /// `-`.
    pub fn line(&self) -> (line: String)
        ensures
            line@ == self@.line(),
    {
        let date = decode_or(&self.date, "-");
        let subject = decode_or(&self.subject, "-");
        let from = get_addresses(self.from.as_ref());
        let to = get_addresses(self.to.as_ref());
        format_columns(date.as_str(), subject.as_str(), from.as_str(), to.as_str())
    }
}

} // verus!
