//! The server side: the registration service and the configuration it keeps.
use vstd::prelude::*;

pub mod auth;
pub mod backend;
pub mod config;

use crate::hooks::{HookError, RegistrationHooks};
use crate::ipnet::{ipv4_addr_text, ipv4_text};
use crate::server::config::{
    can_assign_ipv4, config_well_formed, document_after_register, ipv4_assignment, ipv6_result,
    map_after_assignment, register_outcome, RegisterResult, WireguardConfig,
};
use crate::text::concat;

verus! {

/// The answer to a registration: the server's public key, the client's
/// IPv4 address as dotted decimal text, the server's IPv6 address if it has
/// one, and the port WireGuard listens on.
pub struct RegistrationReply {
    pub public_key: String,
    pub ipv4_address: String,
    pub ipv6_address: Option<u128>,
    pub wg_port: String,
}

/// Why a registration is not answered.
pub enum RegistrationFailure {
    /// The script run before registering failed; nothing was registered.
    PreHook,
    /// No address could be given; the text of the error.
    Registration(String),
    /// The script run after registering failed; the registration stays.
    PostHook,
}

/// Whether `after` and `res` are what registering `key` makes of `before`,
/// with the answer built for the WireGuard port `port`.
pub open spec fn registration_reply_outcome(
    before: WireguardConfig,
    after: WireguardConfig,
    key: Seq<char>,
    port: Seq<char>,
    res: Result<RegistrationReply, RegistrationFailure>,
) -> bool {
    &&& after.ipv4_map() == map_after_assignment(before.addresses(), before.ipv4_map(), key)
    &&& after.file_name() == before.file_name()
    &&& after.addresses() == before.addresses()
    &&& after.server_public_key() == before.server_public_key()
    &&& config_well_formed(before.document(), before.ipv4_map())
    &&& config_well_formed(after.document(), after.ipv4_map())
    &&& match res {
        Ok(reply) => {
            &&& ipv4_assignment(before.addresses(), before.ipv4_map(), key) matches Ok(ip)
            &&& reply.ipv4_address@ == ipv4_text(ip)
            &&& after.document() == document_after_register(before.document(), key, ip)
            &&& reply.ipv6_address == ipv6_result(before.addresses())
            &&& reply.public_key@ == before.server_public_key()
            &&& reply.wg_port@ == port
        },
        Err(RegistrationFailure::Registration(e)) => {
            &&& ipv4_assignment(before.addresses(), before.ipv4_map(), key) == Err::<u32, Seq<char>>(e@)
            &&& after.document() == before.document()
        },
        Err(_) => false,
    }
}

/// The registration service: the server's configuration, the port WireGuard
/// listens on, and the hooks run around each registration.
pub struct WgRegistration {
    config: WireguardConfig,
    wg_port: String,
    hooks: RegistrationHooks,
}

impl WgRegistration {
    /// The server's configuration.
    pub closed spec fn configuration(&self) -> WireguardConfig {
        self.config
    }

    /// The port WireGuard listens on.
    pub closed spec fn port(&self) -> Seq<char> {
        self.wg_port@
    }

    /// The scripts run before and after each registration.
    pub closed spec fn hook_scripts(&self) -> (Seq<char>, Seq<char>) {
        (self.hooks.pre_register@, self.hooks.post_register@)
    }

    /// A service for a loaded configuration; a hook that is not given runs
    /// nothing.
    pub fn new(
        wg_port: &str,
        config: WireguardConfig,
        pre_register_script: Option<&str>,
        post_register_script: Option<&str>,
    ) -> (res: WgRegistration)
        ensures
            res.configuration() == config,
            res.port() == wg_port@,
            res.hook_scripts().0 == (match pre_register_script {
                Some(s) => s@,
                None => Seq::<char>::empty(),
            }),
            res.hook_scripts().1 == (match post_register_script {
                Some(s) => s@,
                None => Seq::<char>::empty(),
            }),
    {
        let mut hooks = RegistrationHooks::new();
        if let Some(pre_script) = pre_register_script {
            hooks.pre_register = concat(hooks.pre_register.as_str(), pre_script);
        }
        if let Some(post_script) = post_register_script {
            hooks.post_register = concat(hooks.post_register.as_str(), post_script);
        }
        WgRegistration { config, wg_port: wg_port.to_owned(), hooks }
    }

    /// The scripts run before and after each registration.
    pub fn hooks(&self) -> (res: &RegistrationHooks)
        ensures
            (res.pre_register@, res.post_register@) == self.hook_scripts(),
    {
        &self.hooks
    }

    /// The port WireGuard listens on.
    pub fn wg_port(&self) -> (res: &str)
        ensures
            res@ == self.port(),
    {
        self.wg_port.as_str()
    }

    /// The server's configuration.
    pub fn config(&self) -> (res: &WireguardConfig)
        ensures
            *res == self.configuration(),
    {
        &self.config
    }

    /// The registration that follows the script run before it: where the
    /// script failed nothing is registered and the answer is
    /// [`RegistrationFailure::PreHook`]; otherwise `key` is registered and
    /// the answer built, or `None`, changing nothing, where no address can
    /// be computed for it without overflow.
    pub fn register_after_pre_hook(&mut self, key: String, pre_hook: Result<String, HookError>) -> (res: Option<
        Result<RegistrationReply, RegistrationFailure>,
    >)
        ensures
            final(self).port() == old(self).port(),
            final(self).hook_scripts() == old(self).hook_scripts(),
            match pre_hook {
                Err(_) => res matches Some(Err(RegistrationFailure::PreHook)) && final(self).configuration()
                    == old(self).configuration(),
                Ok(_) => match res {
                    None => !can_assign_ipv4(
                        old(self).configuration().addresses(),
                        old(self).configuration().ipv4_map(),
                        key@,
                    ) && final(self).configuration() == old(self).configuration(),
                    Some(r) => can_assign_ipv4(
                        old(self).configuration().addresses(),
                        old(self).configuration().ipv4_map(),
                        key@,
                    ) && registration_reply_outcome(
                        old(self).configuration(),
                        final(self).configuration(),
                        key@,
                        old(self).port(),
                        r,
                    ),
                },
            },
    {
        if pre_hook.is_err() {
            return Some(Err(RegistrationFailure::PreHook));
        }
        match self.config.try_register(key) {
            None => None,
            Some(Ok(result)) => Some(
                Ok(
                    RegistrationReply {
                        public_key: result.public_key,
                        ipv4_address: ipv4_addr_text(result.ipv4_addr),
                        ipv6_address: result.ipv6_addr,
                        wg_port: self.wg_port.clone(),
                    },
                ),
            ),
            Some(Err(e)) => Some(Err(RegistrationFailure::Registration(e))),
        }
    }

    /// The answer once the script run after registering has finished: the
    /// reply where it succeeded, else [`RegistrationFailure::PostHook`].
    pub fn finish_registration(reply: RegistrationReply, post_hook: Result<String, HookError>) -> (res: Result<
        RegistrationReply,
        RegistrationFailure,
    >)
        ensures
            match post_hook {
                Ok(_) => res == Ok::<RegistrationReply, RegistrationFailure>(reply),
                Err(_) => res matches Err(RegistrationFailure::PostHook),
            },
    {
        match post_hook {
            Ok(_) => Ok(reply),
            Err(_) => Err(RegistrationFailure::PostHook),
        }
    }

    /// Registers `key` with the configuration, or gives `None`, changing
    /// nothing, where no address can be computed for it without overflow.
    pub fn try_register(&mut self, key: String) -> (res: Option<Result<RegisterResult, String>>)
        ensures
            final(self).port() == old(self).port(),
            final(self).hook_scripts() == old(self).hook_scripts(),
            match res {
                Some(r) => can_assign_ipv4(
                    old(self).configuration().addresses(),
                    old(self).configuration().ipv4_map(),
                    key@,
                ) && register_outcome(old(self).configuration(), final(self).configuration(), key@, r),
                None => !can_assign_ipv4(
                    old(self).configuration().addresses(),
                    old(self).configuration().ipv4_map(),
                    key@,
                ) && final(self).configuration() == old(self).configuration(),
            },
    {
        self.config.try_register(key)
    }
}

/// Whether the server's TLS settings are refused: a private key is given
/// but the identity is incomplete, which it is unless both the certificate
/// and the key are given. A certificate given without a key is not refused:
/// the server then runs without TLS.
pub fn tls_settings_refused(cert: Option<&str>, key: Option<&str>) -> (res: bool)
    ensures
        res == (key is Some && cert is None),
{
    let has_identity = cert.is_some() && key.is_some();
    !has_identity && key.is_some()
}

} // verus!
