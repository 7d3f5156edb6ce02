//! Mail delivery settings: the values the SMTP layer needs, carved out of
//! the configuration.  Actually sending a message is the transport layer's
//! business.

use vstd::prelude::*;
use crate::config::Config;

verus! {

/// What the SMTP transport is built from.
#[derive(Clone)]
pub struct Mailer {
    pub host: String,
    pub port: u16,
    pub auth_user: String,
    pub auth_pwd: String,
    pub app_name: String,
}

impl Mailer {
    /// Carve the mail settings out of the configuration, unchanged.
    pub fn new(config: &Config) -> (r: Mailer)
        ensures
            r.host@ == config.mail_host@,
            r.port == config.mail_port,
            r.auth_user@ == config.mail_auth_user@,
            r.auth_pwd@ == config.mail_auth_pwd@,
            r.app_name@ == config.app_name@,
    {
        Mailer {
            host: config.mail_host.clone(),
            port: config.mail_port,
            auth_user: config.mail_auth_user.clone(),
            auth_pwd: config.mail_auth_pwd.clone(),
            app_name: config.app_name.clone(),
        }
    }
}

} // verus!
