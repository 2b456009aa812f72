//! The configuration of one run, resolved once from a list of settings.
//!
//! A setting is a pair of a name and a value. Where a name occurs more than once, its first
//! value counts. Four settings must be there (`HOST`, `USER`, `PASSWORD`, `FROM`); `PORT` and
//! `DELAY` have a default; the others switch a feature on when they are set to a value that
//! is not empty. `SUBJECT` is one of these: without it every subject is empty.

use crate::text::{decimal_value, parse_decimal};
use vstd::prelude::*;

verus! {

/// The configuration of one run.
#[derive(Debug)]
pub struct EnvConfig {
    /// The SMTP server's host.
    pub smtp_host: String,
    /// The SMTP server's port.
    pub smtp_port: u16,
    /// The name to authenticate with.
    pub smtp_user: String,
    /// The password to authenticate with.
    pub smtp_pass: String,
    /// The sender's address.
    pub smtp_from: String,
    /// The address that replies go to; none if empty.
    pub reply_to: String,
    /// The address that gets a copy; none if empty.
    pub cc: String,
    /// The address that gets a blind copy; none if empty.
    pub bcc: String,
    /// The template of the subject line.
    pub subject: String,
    /// The `HTML` setting as it was given.
    pub html: String,
    /// The path of the file attached to every message; none if empty.
    pub attachment: String,
    /// The seconds to wait after each attempt.
    pub delay: u64,
}

/// What a configuration holds.
pub ghost struct ConfigView {
    pub smtp_host: Seq<char>,
    pub smtp_port: u16,
    pub smtp_user: Seq<char>,
    pub smtp_pass: Seq<char>,
    pub smtp_from: Seq<char>,
    pub reply_to: Seq<char>,
    pub cc: Seq<char>,
    pub bcc: Seq<char>,
    pub subject: Seq<char>,
    pub html: Seq<char>,
    pub attachment: Seq<char>,
    pub delay: u64,
}

impl View for EnvConfig {
    type V = ConfigView;

    open spec fn view(&self) -> ConfigView {
        ConfigView {
            smtp_host: self.smtp_host@,
            smtp_port: self.smtp_port,
            smtp_user: self.smtp_user@,
            smtp_pass: self.smtp_pass@,
            smtp_from: self.smtp_from@,
            reply_to: self.reply_to@,
            cc: self.cc@,
            bcc: self.bcc@,
            subject: self.subject@,
            html: self.html@,
            attachment: self.attachment@,
            delay: self.delay,
        }
    }
}

/// Why a list of settings gives no configuration.
#[derive(Debug, Clone, Copy, PartialEq, Eq, Structural)]
pub enum ConfigError {
    /// `HOST` is not set.
    MissingHost,
    /// `PORT` is set to something that is no number up to 65535.
    InvalidPort,
    /// `USER` is not set.
    MissingUser,
    /// `PASSWORD` is not set.
    MissingPassword,
    /// `FROM` is not set.
    MissingFrom,
    /// `DELAY` is set to something that is no number of seconds.
    InvalidDelay,
}

/// The value of the first setting named `name`.
pub open spec fn lookup(vars: Seq<(Seq<char>, Seq<char>)>, name: Seq<char>) -> Option<Seq<char>>
    decreases vars.len(),
{
    if vars.len() == 0 {
        None
    } else if vars[0].0 == name {
        Some(vars[0].1)
    } else {
        lookup(vars.drop_first(), name)
    }
}

/// The value of the setting `name`, or `default` where it is not set or set to nothing.
pub open spec fn setting(vars: Seq<(Seq<char>, Seq<char>)>, name: Seq<char>, default: Seq<char>) -> Seq<char> {
    match lookup(vars, name) {
        Some(value) => if value.len() > 0 { value } else { default },
        None => default,
    }
}

/// Whether a value of the `HTML` setting asks for HTML bodies: every value does, but the
/// empty one, `no`, `unset`, `0` and `false`.
pub open spec fn html_truthy(value: Seq<char>) -> bool {
    &&& value != Seq::<char>::empty()
    &&& value != seq!['n', 'o']
    &&& value != seq!['u', 'n', 's', 'e', 't']
    &&& value != seq!['0']
    &&& value != seq!['f', 'a', 'l', 's', 'e']
}

/// The configuration that a list of settings gives, or the first thing that is wrong with
/// it, in the order host, port, user, password, sender, delay.
pub open spec fn resolved(vars: Seq<(Seq<char>, Seq<char>)>) -> Result<ConfigView, ConfigError> {
    let port = decimal_value(setting(vars, "PORT"@, "465"@), 0xffff);
    let delay = decimal_value(setting(vars, "DELAY"@, "1"@), 0xffff_ffff_ffff_ffff);
    if lookup(vars, "HOST"@) is None {
        Err(ConfigError::MissingHost)
    } else if port is None {
        Err(ConfigError::InvalidPort)
    } else if lookup(vars, "USER"@) is None {
        Err(ConfigError::MissingUser)
    } else if lookup(vars, "PASSWORD"@) is None {
        Err(ConfigError::MissingPassword)
    } else if lookup(vars, "FROM"@) is None {
        Err(ConfigError::MissingFrom)
    } else if delay is None {
        Err(ConfigError::InvalidDelay)
    } else {
        Ok(
            ConfigView {
                smtp_host: lookup(vars, "HOST"@)->Some_0,
                smtp_port: port->Some_0 as u16,
                smtp_user: lookup(vars, "USER"@)->Some_0,
                smtp_pass: lookup(vars, "PASSWORD"@)->Some_0,
                smtp_from: lookup(vars, "FROM"@)->Some_0,
                reply_to: setting(vars, "REPLY_TO"@, Seq::empty()),
                cc: setting(vars, "CC"@, Seq::empty()),
                bcc: setting(vars, "BCC"@, Seq::empty()),
                subject: setting(vars, "SUBJECT"@, Seq::empty()),
                html: setting(vars, "HTML"@, Seq::empty()),
                attachment: setting(vars, "ATTACHMENT"@, Seq::empty()),
                delay: delay->Some_0 as u64,
            },
        )
    }
}

/// Finds the value of the first setting named `name`.
pub fn find_var<'a>(vars: &'a Vec<(String, String)>, name: &str) -> (value: Option<&'a String>)
    ensures
        match lookup(vars.deep_view(), name@) {
            Some(v) => value is Some && value->Some_0@ == v,
            None => value is None,
        },
{
    let wanted = String::from_str(name);
    let mut i: usize = 0;
    assert(vars.deep_view().skip(0) =~= vars.deep_view());
    while i < vars.len()
        invariant
            i <= vars.len(),
            wanted@ == name@,
            lookup(vars.deep_view(), name@) == lookup(vars.deep_view().skip(i as int), name@),
        decreases vars.len() - i,
    {
        let ghost rest = vars.deep_view().skip(i as int);
        assert(rest[0] == vars[i as int].deep_view());
        assert(rest.drop_first() =~= vars.deep_view().skip(i + 1));
        if vars[i].0 == wanted {
            return Some(&vars[i].1);
        }
        i = i + 1;
    }
    None
}

/// The value of the setting `var`, or `val` where it is not set or set to nothing.
pub fn get_env(vars: &Vec<(String, String)>, var: &str, val: &str) -> (value: String)
    ensures
        value@ == setting(vars.deep_view(), var@, val@),
{
    match find_var(vars, var) {
        Some(found) => if found.as_str().is_empty() {
            String::from_str(val)
        } else {
            found.clone()
        },
        None => String::from_str(val),
    }
}

impl EnvConfig {
    /// Resolves the configuration of a run from its settings, or says what is wrong with
    /// them.
    pub fn check_or_default(vars: &Vec<(String, String)>) -> (config: Result<EnvConfig, ConfigError>)
        ensures
            match config {
                Ok(c) => resolved(vars.deep_view()) == Ok::<ConfigView, ConfigError>(c@),
                Err(e) => resolved(vars.deep_view()) == Err::<ConfigView, ConfigError>(e),
            },
    {
        let smtp_host = match find_var(vars, "HOST") {
            Some(value) => value.clone(),
            None => { return Err(ConfigError::MissingHost); },
        };
        let smtp_port = match parse_decimal(get_env(vars, "PORT", "465").as_str(), 0xffff) {
            Some(port) => port as u16,
            None => { return Err(ConfigError::InvalidPort); },
        };
        let smtp_user = match find_var(vars, "USER") {
            Some(value) => value.clone(),
            None => { return Err(ConfigError::MissingUser); },
        };
        let smtp_pass = match find_var(vars, "PASSWORD") {
            Some(value) => value.clone(),
            None => { return Err(ConfigError::MissingPassword); },
        };
        let smtp_from = match find_var(vars, "FROM") {
            Some(value) => value.clone(),
            None => { return Err(ConfigError::MissingFrom); },
        };
        let reply_to = get_env(vars, "REPLY_TO", "");
        let cc = get_env(vars, "CC", "");
        let bcc = get_env(vars, "BCC", "");
        let subject = get_env(vars, "SUBJECT", "");
        let html = get_env(vars, "HTML", "");
        let attachment = get_env(vars, "ATTACHMENT", "");
        let delay = match parse_decimal(get_env(vars, "DELAY", "1").as_str(), 0xffff_ffff_ffff_ffff) {
            Some(seconds) => seconds,
            None => { return Err(ConfigError::InvalidDelay); },
        };
        proof {
            reveal_strlit("");
            assert(""@ =~= Seq::<char>::empty());
        }
        Ok(
            EnvConfig {
                smtp_host,
                smtp_port,
                smtp_user,
                smtp_pass,
                smtp_from,
                reply_to,
                cc,
                bcc,
                subject,
                html,
                attachment,
                delay,
            },
        )
    }

    /// Whether the bodies are HTML.
    pub fn html_enabled(&self) -> (yes: bool)
        ensures
            yes == html_truthy(self.html@),
    {
        proof {
            reveal_strlit("");
            reveal_strlit("no");
            reveal_strlit("unset");
            reveal_strlit("0");
            reveal_strlit("false");
            assert(""@ =~= Seq::<char>::empty());
            assert("no"@ =~= seq!['n', 'o']);
            assert("unset"@ =~= seq!['u', 'n', 's', 'e', 't']);
            assert("0"@ =~= seq!['0']);
            assert("false"@ =~= seq!['f', 'a', 'l', 's', 'e']);
        }
        self.html != String::from_str("") && self.html != String::from_str("no") && self.html
            != String::from_str("unset") && self.html != String::from_str("0") && self.html
            != String::from_str("false")
    }

    /// Whether a file is attached to every message.
    pub fn has_attachment(&self) -> (yes: bool)
        ensures
            yes == (self.attachment@.len() > 0),
    {
        !self.attachment.as_str().is_empty()
    }
}

} // verus!
