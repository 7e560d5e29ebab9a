//! The e-mail channel: what a message to send looks like, which addresses are
//! accepted, and how the SMTP settings are read from a key.

use vstd::prelude::*;
use super::{PushMessage, PushResult};
use crate::text::{
    byte_len, byte_len_exceeds, chars_of, concat, contains_char, decimal, decimal_i64, decimal_int,
    is_digit, lemma_decimal_digits, lemma_parse_u16_decimal, lemma_split_concat, lemma_split_single,
    owned, parse_u16, parse_u16_exec, replace_char, replace_char_exec, split_char, split_char_exec,
};

verus! {

/// SMTP settings of the sender.
pub struct EmailConfig {
    pub smtp_host: String,
    pub smtp_port: u16,
    pub username: String,
    pub password: String,
    pub from_email: String,
    pub from_name: String,
}

/// Pushes news by e-mail.
pub struct EmailAdapter {
    config: EmailConfig,
}

/// A mail ready for the transport: sender and recipient mailboxes, subject,
/// content type and body, and how it is sent: by STARTTLS through the relay
/// at host and port, with the given credentials and time limit.
pub struct EmailDraft {
    /// `Name <address>` of the sender.
    pub from: String,
    pub to: String,
    pub subject: String,
    pub content_type: String,
    pub html_body: String,
    pub smtp_host: String,
    pub smtp_port: u16,
    pub username: String,
    pub password: String,
    /// The time limit of the SMTP exchange, in seconds.
    pub timeout_secs: u64,
}

/// The draft sends the mail for `m` to `target` as `config` says: from the
/// configured sender, with the title as subject and the HTML body of type
/// `text/html`, through the configured relay with the configured
/// credentials and a 30 s time limit.
pub open spec fn draft_for(d: EmailDraft, config: EmailConfig, m: PushMessage, target: Seq<char>) -> bool {
    &&& d.from@ == sender_mailbox(config)
    &&& d.to@ == target
    &&& d.subject@ == m.title@
    &&& d.content_type@ == "text/html"@
    &&& d.html_body@ == email_html(m)
    &&& d.smtp_host@ == config.smtp_host@
    &&& d.smtp_port == config.smtp_port
    &&& d.username@ == config.username@
    &&& d.password@ == config.password@
    &&& d.timeout_secs == 30
}

/// Where sending a mail failed, with the transport's own description.
pub enum EmailFailure {
    /// The message could not be built.
    Build(String),
    /// The SMTP connection could not be set up.
    Connect(String),
    /// The server did not take the message.
    Send(String),
}

/// An address is accepted when it holds an `@` and a `.` and is longer than
/// three bytes.
pub open spec fn valid_email(email: Seq<char>) -> bool {
    email.contains('@') && email.contains('.') && byte_len(email) > 3
}

/// Whether `email` looks like an address (see `valid_email`).
pub fn is_valid_email(email: &str) -> (r: bool)
    ensures
        r == valid_email(email@),
{
    let v = chars_of(email);
    contains_char(&v, '@') && contains_char(&v, '.') && byte_len_exceeds(&v, 3)
}

/// The sender mailbox `Name <address>`.
pub open spec fn sender_mailbox(config: EmailConfig) -> Seq<char> {
    config.from_name@ + " <"@ + config.from_email@ + ">"@
}

/// The HTML body of the mail for `m`: title as heading, content with line
/// breaks turned into `<br>`, then source, category and a link to the
/// original article.
pub open spec fn email_html(m: PushMessage) -> Seq<char> {
    "<html>\n<body>\n<h1>"@ + m.title@ + "</h1>\n<p>"@ + replace_char(m.content@, '\n', "<br>"@)
        + "</p>\n<hr>\n<p>来源: "@ + m.source_name@ + "</p>\n<p>分类: "@ + m.category@
        + "</p>\n<p>原文链接: <a href=\""@ + m.url@ + "\">"@ + m.url@
        + "</a></p>\n</body>\n</html>"@
}

/// The message id of a mail sent at the given UNIX time: `email_<seconds>`.
pub open spec fn email_message_id(timestamp: i64) -> Seq<char> {
    "email_"@ + decimal_int(timestamp as int)
}

/// The error text for a failure.
pub open spec fn failure_text(f: EmailFailure) -> Seq<char> {
    match f {
        EmailFailure::Build(e) => "构建邮件失败: "@ + e@,
        EmailFailure::Connect(e) => "创建 SMTP 连接失败: "@ + e@,
        EmailFailure::Send(e) => "发送失败: "@ + e@,
    }
}

impl EmailAdapter {
    /// The settings this adapter was made with.
    pub closed spec fn config_view(&self) -> EmailConfig {
        self.config
    }

    /// An adapter with the given settings.
    pub fn new(config: EmailConfig) -> (r: Self)
        ensures
            r.config_view() == config,
    {
        Self { config }
    }

    /// The SMTP settings.
    pub fn config(&self) -> (r: &EmailConfig)
        ensures
            *r == self.config_view(),
    {
        &self.config
    }

    /// The mail that pushes `message` to `target`, or the error when
    /// `target` is not an acceptable address.
    pub fn compose(&self, message: &PushMessage, target: &str) -> (r: Result<EmailDraft, String>)
        ensures
            !valid_email(target@) ==> (r matches Err(e) && e@ == "无效的邮箱地址"@),
            valid_email(target@) ==> (r matches Ok(d) && draft_for(
                d,
                self.config_view(),
                *message,
                target@,
            )),
    {
        if !is_valid_email(target) {
            return Err(owned("无效的邮箱地址"));
        }
        let mut from = concat(self.config.from_name.as_str(), " <");
        from.append(self.config.from_email.as_str());
        from.append(">");
        let content = replace_char_exec(message.content.as_str(), '\n', "<br>");
        let mut html = owned("<html>\n<body>\n<h1>");
        html.append(message.title.as_str());
        html.append("</h1>\n<p>");
        html.append(content.as_str());
        html.append("</p>\n<hr>\n<p>来源: ");
        html.append(message.source_name.as_str());
        html.append("</p>\n<p>分类: ");
        html.append(message.category.as_str());
        html.append("</p>\n<p>原文链接: <a href=\"");
        html.append(message.url.as_str());
        html.append("\">");
        html.append(message.url.as_str());
        html.append("</a></p>\n</body>\n</html>");
        Ok(
            EmailDraft {
                from,
                to: owned(target),
                subject: message.title.clone(),
                content_type: owned("text/html"),
                html_body: html,
                smtp_host: self.config.smtp_host.clone(),
                smtp_port: self.config.smtp_port,
                username: self.config.username.clone(),
                password: self.config.password.clone(),
                timeout_secs: 30,
            },
        )
    }

    /// What a push returns once the transport has finished: on success the
    /// UNIX time of sending gives the message id; a failure becomes its
    /// error text.
    pub fn send_outcome(outcome: Result<i64, EmailFailure>) -> (r: Result<PushResult, String>)
        ensures
            match outcome {
                Ok(t) => r matches Ok(p) && {
                    &&& p.success
                    &&& p.error is None
                    &&& (p.message_id matches Some(id) && id@ == email_message_id(t))
                },
                Err(f) => r matches Err(e) && e@ == failure_text(f),
            },
    {
        match outcome {
            Ok(t) => {
                let digits = decimal_i64(t);
                let id = concat("email_", digits.as_str());
                Ok(PushResult { success: true, message_id: Some(id), error: None })
            },
            Err(EmailFailure::Build(e)) => Err(concat("构建邮件失败: ", e.as_str())),
            Err(EmailFailure::Connect(e)) => Err(concat("创建 SMTP 连接失败: ", e.as_str())),
            Err(EmailFailure::Send(e)) => Err(concat("发送失败: ", e.as_str())),
        }
    }
}

/// The SMTP port given in a key: the number when the text is one that fits
/// in 16 bits, 587 otherwise.
pub open spec fn port_or_default(text: Seq<char>) -> u16 {
    match parse_u16(text) {
        Some(p) => p,
        None => 587,
    }
}

/// Reads SMTP settings from a key of the form
/// `smtp_host:port:username:password:from_email:from_name`: the key is split
/// on `:`; with fewer than six pieces there are no settings; further pieces
/// are ignored; a port that does not parse gives 587.
pub fn parse_email_config_from_key(api_key: &str) -> (r: Option<EmailConfig>)
    ensures
        split_char(api_key@, ':').len() < 6 ==> r is None,
        split_char(api_key@, ':').len() >= 6 ==> (r matches Some(c) && {
            let parts = split_char(api_key@, ':');
            &&& c.smtp_host@ == parts[0]
            &&& c.smtp_port == port_or_default(parts[1])
            &&& c.username@ == parts[2]
            &&& c.password@ == parts[3]
            &&& c.from_email@ == parts[4]
            &&& c.from_name@ == parts[5]
        }),
{
    let parts = split_char_exec(api_key, ':');
    if parts.len() >= 6 {
        let port = match parse_u16_exec(parts[1].as_str()) {
            Some(p) => p,
            None => 587,
        };
        Some(
            EmailConfig {
                smtp_host: parts[0].clone(),
                smtp_port: port,
                username: parts[2].clone(),
                password: parts[3].clone(),
                from_email: parts[4].clone(),
                from_name: parts[5].clone(),
            },
        )
    } else {
        None
    }
}

/// The key for SMTP settings: host, port in decimal, user name, password,
/// sender address and sender name, joined by `:`.
pub open spec fn email_key(
    host: Seq<char>,
    port: u16,
    username: Seq<char>,
    password: Seq<char>,
    from_email: Seq<char>,
    from_name: Seq<char>,
) -> Seq<char> {
    host + seq![':'] + decimal(port as nat) + seq![':'] + username + seq![':'] + password + seq![':']
        + from_email + seq![':'] + from_name
}

/// The settings read from `key` (see `parse_email_config_from_key`) hold
/// exactly the given fields.
pub open spec fn key_reads_as(
    key: Seq<char>,
    host: Seq<char>,
    port: u16,
    username: Seq<char>,
    password: Seq<char>,
    from_email: Seq<char>,
    from_name: Seq<char>,
) -> bool {
    let parts = split_char(key, ':');
    &&& parts.len() >= 6
    &&& parts[0] == host
    &&& port_or_default(parts[1]) == port
    &&& parts[2] == username
    &&& parts[3] == password
    &&& parts[4] == from_email
    &&& parts[5] == from_name
}

/// A key made of six fields without `:` reads back as those fields, and
/// whatever follows a further `:` is ignored.
pub proof fn lemma_email_key_read_back(
    host: Seq<char>,
    port: u16,
    username: Seq<char>,
    password: Seq<char>,
    from_email: Seq<char>,
    from_name: Seq<char>,
    rest: Seq<char>,
)
    requires
        !host.contains(':'),
        !username.contains(':'),
        !password.contains(':'),
        !from_email.contains(':'),
        !from_name.contains(':'),
    ensures
        key_reads_as(
            email_key(host, port, username, password, from_email, from_name),
            host,
            port,
            username,
            password,
            from_email,
            from_name,
        ),
        key_reads_as(
            email_key(host, port, username, password, from_email, from_name) + seq![':'] + rest,
            host,
            port,
            username,
            password,
            from_email,
            from_name,
        ),
{
    let d = decimal(port as nat);
    lemma_decimal_digits(port as nat);
    lemma_parse_u16_decimal(port);
    assert(!d.contains(':')) by {
        if d.contains(':') {
            let i = choose|i: int| 0 <= i < d.len() && d[i] == ':';
            assert(is_digit(d[i]));
        }
    }
    let a1 = host + seq![':'] + d;
    let a2 = a1 + seq![':'] + username;
    let a3 = a2 + seq![':'] + password;
    let a4 = a3 + seq![':'] + from_email;
    let key = a4 + seq![':'] + from_name;
    lemma_split_single(host, ':');
    lemma_split_single(d, ':');
    lemma_split_single(username, ':');
    lemma_split_single(password, ':');
    lemma_split_single(from_email, ':');
    lemma_split_single(from_name, ':');
    lemma_split_concat(host, d, ':');
    lemma_split_concat(a1, username, ':');
    lemma_split_concat(a2, password, ':');
    lemma_split_concat(a3, from_email, ':');
    lemma_split_concat(a4, from_name, ':');
    lemma_split_concat(key, rest, ':');
    let parts = split_char(key, ':');
    assert(parts =~= seq![host, d, username, password, from_email, from_name]);
    let more = split_char(key + seq![':'] + rest, ':');
    assert(more == parts + split_char(rest, ':'));
    assert(more[0] == parts[0] && more[1] == parts[1] && more[2] == parts[2]);
    assert(more[3] == parts[3] && more[4] == parts[4] && more[5] == parts[5]);
}

} // verus!
