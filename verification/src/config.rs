//! The settings of the program: where the mail store is, who logs in, and
//! where the rules and the secrets are kept.

use vstd::prelude::*;
use vstd::string::StringExecFns;

verus! {

/// The settings of the program.
#[derive(Debug, PartialEq, Eq)]
pub struct Configuration {
    /// The host of the mail store.
    pub imap_server: String,
    /// Its port.
    pub imap_port: u16,
    /// Who logs in.
    pub imap_username: String,
    /// With which password.
    pub imap_password: String,
    /// Where the rules are.
    pub rules_conf_path: String,
    /// Where the vault of secrets is.
    pub secure_store_path: String,
    /// Where the key of the vault is.
    pub key_path: String,
}

/// What a [`Configuration`] holds, as mathematical values.
pub struct ConfigurationView {
    pub imap_server: Seq<char>,
    pub imap_port: u16,
    pub imap_username: Seq<char>,
    pub imap_password: Seq<char>,
    pub rules_conf_path: Seq<char>,
    pub secure_store_path: Seq<char>,
    pub key_path: Seq<char>,
}

impl View for Configuration {
    type V = ConfigurationView;

    open spec fn view(&self) -> ConfigurationView {
        ConfigurationView {
            imap_server: self.imap_server@,
            imap_port: self.imap_port,
            imap_username: self.imap_username@,
            imap_password: self.imap_password@,
            rules_conf_path: self.rules_conf_path@,
            secure_store_path: self.secure_store_path@,
            key_path: self.key_path@,
        }
    }
}

impl ConfigurationView {
    /// The settings of a fresh installation.
    pub open spec fn initial() -> ConfigurationView {
        ConfigurationView {
            imap_server: "localhost"@,
            imap_port: 993,
            imap_username: "user"@,
            imap_password: ""@,
            rules_conf_path: "rules.yaml"@,
            secure_store_path: "config.json"@,
            key_path: "secrets.key"@,
        }
    }

    /// The settings with which to log in: what the vault holds goes before
    /// what the settings say.
    pub open spec fn with_secrets(
        self,
        server: Option<Seq<char>>,
        username: Option<Seq<char>>,
        password: Option<Seq<char>>,
    ) -> ConfigurationView {
        ConfigurationView {
            imap_server: preferred(server, self.imap_server),
            imap_username: preferred(username, self.imap_username),
            imap_password: preferred(password, self.imap_password),
            ..self
        }
    }
}

/// `first` where there is one, else `second`.
pub open spec fn preferred(first: Option<Seq<char>>, second: Seq<char>) -> Seq<char> {
    match first {
        Some(text) => text,
        None => second,
    }
}

/// `first` where there is one, else `second`.
pub fn prefer(first: Option<String>, second: String) -> (text: String)
    ensures
        text@ == preferred(first.deep_view(), second@),
{
    match first {
        Some(text) => text,
        None => second,
    }
}

impl Default for Configuration {
    fn default() -> (configuration: Configuration)
        ensures
            configuration@ == ConfigurationView::initial(),
    {
        Configuration {
            imap_server: String::from_str("localhost"),
            imap_port: 993,
            imap_username: String::from_str("user"),
            imap_password: String::from_str(""),
            rules_conf_path: String::from_str("rules.yaml"),
            secure_store_path: String::from_str("config.json"),
            key_path: String::from_str("secrets.key"),
        }
    }
}

impl Clone for Configuration {
    fn clone(&self) -> (copy: Configuration)
        ensures
            copy@ == self@,
    {
        Configuration {
            imap_server: self.imap_server.clone(),
            imap_port: self.imap_port,
            imap_username: self.imap_username.clone(),
            imap_password: self.imap_password.clone(),
            rules_conf_path: self.rules_conf_path.clone(),
            secure_store_path: self.secure_store_path.clone(),
            key_path: self.key_path.clone(),
        }
    }
}

impl Configuration {
    /// The settings with which to log in: what the vault holds goes before
    /// what the settings say.
    pub fn with_secrets(
        self,
        server: Option<String>,
        username: Option<String>,
        password: Option<String>,
    ) -> (effective: Configuration)
        ensures
            effective@ == self@.with_secrets(
                server.deep_view(),
                username.deep_view(),
                password.deep_view(),
            ),
    {
        Configuration {
            imap_server: prefer(server, self.imap_server),
            imap_port: self.imap_port,
            imap_username: prefer(username, self.imap_username),
            imap_password: prefer(password, self.imap_password),
            rules_conf_path: self.rules_conf_path,
            secure_store_path: self.secure_store_path,
            key_path: self.key_path,
        }
    }

    /// Where the rules are: the path given on the command line, else the
    /// one of the settings.
    pub fn rules_path(&self, given: Option<String>) -> (path: String)
        ensures
            path@ == preferred(given.deep_view(), self@.rules_conf_path),
    {
        prefer(given, self.rules_conf_path.clone())
    }
}

} // verus!
