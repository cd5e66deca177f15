//! Listener configuration as the API shows and changes it.

use vstd::prelude::*;
use crate::errors::AppError;
use crate::ip::{push_signed_decimal, signed_decimal};
use crate::models::{ServerListener, UpdateServerListener};
use crate::text::{
    push_chars, to_uppercase, uppercase,
    chars_of, contains_text, find_text, is_blank, is_blank_text, push_str, str_eq, string_of,
    trim_chars, trimmed,
};

verus! {

broadcast use vstd::string::group_string_axioms;

/// Whether a protocol is served over TLS: `dot`, `doh`, `doq`, `doh3`.
pub open spec fn tls_protocol(p: Seq<char>) -> bool {
    p == "dot"@ || p == "doh"@ || p == "doq"@ || p == "doh3"@
}

/// Whether a listener's protocol is served over TLS.
pub fn requires_tls(protocol: &str) -> (r: bool)
    ensures
        r == tls_protocol(protocol@),
{
    str_eq(protocol, "dot") || str_eq(protocol, "doh") || str_eq(protocol, "doq") || str_eq(
        protocol,
        "doh3",
    )
}

/// Whether an enabled listener lacks the certificate or key its protocol
/// needs.
pub fn tls_material_missing(listener: &ServerListener) -> (r: bool)
    ensures
        r == (tls_protocol(listener.protocol@) && (listener.tls_cert is None
            || listener.tls_key is None)),
{
    requires_tls(listener.protocol.as_str()) && (listener.tls_cert.is_none()
        || listener.tls_key.is_none())
}

/// A listener as the API shows it.
#[derive(Debug)]
pub struct ListenerResponse {
    pub protocol: String,
    pub enabled: bool,
    pub bind_address: String,
    pub port: i32,
    pub has_tls_cert: bool,
    pub has_tls_key: bool,
    pub requires_tls: bool,
    pub description: String,
    pub tls_cert: Option<String>,
    pub tls_key: Option<String>,
}

/// The description of a listener's protocol.
pub open spec fn protocol_description(p: Seq<char>) -> Seq<char> {
    if p == "udp"@ {
        "标准 UDP DNS (端口 53)"@
    } else if p == "dot"@ {
        "DNS over TLS (端口 853)"@
    } else if p == "doh"@ {
        "DNS over HTTPS (端口 443)"@
    } else if p == "doq"@ {
        "DNS over QUIC (端口 853)"@
    } else if p == "doh3"@ {
        "DNS over HTTP/3 (端口 443)"@
    } else {
        "未知协议"@
    }
}

fn text(s: &str) -> (r: String)
    ensures
        r@ == s@,
{
    string_of(&chars_of(s))
}

fn describe(protocol: &str) -> (d: String)
    ensures
        d@ == protocol_description(protocol@),
{
    if str_eq(protocol, "udp") {
        text("标准 UDP DNS (端口 53)")
    } else if str_eq(protocol, "dot") {
        text("DNS over TLS (端口 853)")
    } else if str_eq(protocol, "doh") {
        text("DNS over HTTPS (端口 443)")
    } else if str_eq(protocol, "doq") {
        text("DNS over QUIC (端口 853)")
    } else if str_eq(protocol, "doh3") {
        text("DNS over HTTP/3 (端口 443)")
    } else {
        text("未知协议")
    }
}

impl ListenerResponse {
    /// The view of a stored listener: its fields, whether it holds a
    /// certificate and a key, whether its protocol needs TLS, and the
    /// protocol's description.
    pub fn from_listener(l: ServerListener) -> (r: ListenerResponse)
        ensures
            r.protocol == l.protocol,
            r.enabled == l.enabled,
            r.bind_address == l.bind_address,
            r.port == l.port,
            r.has_tls_cert == l.tls_cert is Some,
            r.has_tls_key == l.tls_key is Some,
            r.requires_tls == tls_protocol(l.protocol@),
            r.description@ == protocol_description(l.protocol@),
            r.tls_cert == l.tls_cert,
            r.tls_key == l.tls_key,
    {
        let requires_tls: bool = requires_tls(l.protocol.as_str());
        let description: String = describe(l.protocol.as_str());
        let has_tls_cert: bool = l.tls_cert.is_some();
        let has_tls_key: bool = l.tls_key.is_some();
        ListenerResponse {
            protocol: l.protocol,
            enabled: l.enabled,
            bind_address: l.bind_address,
            port: l.port,
            has_tls_cert,
            has_tls_key,
            requires_tls,
            description,
            tls_cert: l.tls_cert,
            tls_key: l.tls_key,
        }
    }
}

/// Every listener, as the API lists them.
#[derive(Debug)]
pub struct ListListenersResponse {
    pub data: Vec<ListenerResponse>,
}

impl ListListenersResponse {
    /// The views of stored listeners, in order.
    pub fn from_listeners(listeners: Vec<ServerListener>) -> (r: ListListenersResponse)
        ensures
            r.data@.len() == listeners@.len(),
            forall|i: int|
                0 <= i < listeners@.len() ==> (#[trigger] r.data@[i]).protocol
                    == listeners@[i].protocol && r.data@[i].port == listeners@[i].port
                    && r.data@[i].enabled == listeners@[i].enabled,
    {
        let mut data: Vec<ListenerResponse> = Vec::new();
        let mut rest = listeners;
        let ghost all = rest@;
        let mut taken: usize = 0;
        while taken < rest.len()
            invariant
                rest@ == all,
                0 <= taken <= all.len(),
                data@.len() == taken,
                forall|i: int|
                    0 <= i < taken ==> (#[trigger] data@[i]).protocol == all[i].protocol
                        && data@[i].port == all[i].port && data@[i].enabled == all[i].enabled,
            decreases all.len() - taken,
        {
            let l: ServerListener = rest[taken].clone();
            data.push(ListenerResponse::from_listener(l));
            taken = taken + 1;
        }
        ListListenersResponse { data }
    }
}

/// A request to change a listener.
#[derive(Debug)]
pub struct UpdateListenerRequest {
    pub enabled: Option<bool>,
    pub bind_address: Option<String>,
    pub port: Option<i32>,
    pub tls_cert: Option<String>,
    pub tls_key: Option<String>,
}

/// What is wrong with a listener change, if anything: a port outside
/// 1..=65535; a certificate that is not blank and not PEM; a key that is
/// not blank and not PEM.
pub open spec fn listener_update_problem(req: UpdateListenerRequest) -> Option<Seq<char>> {
    if req.port matches Some(p) && !(1 <= p <= 65535) {
        Some("端口必须在 1-65535 之间"@)
    } else if req.tls_cert matches Some(c) && !is_blank_text(c@) && !contains_text(
        c@,
        "-----BEGIN CERTIFICATE-----"@,
    ) {
        Some("证书格式无效，请提供 PEM 格式的证书"@)
    } else if req.tls_key matches Some(k) && !is_blank_text(k@) && !contains_text(
        k@,
        "-----BEGIN"@,
    ) {
        Some("私钥格式无效，请提供 PEM 格式的私钥"@)
    } else {
        None
    }
}

impl UpdateListenerRequest {
    /// Checks the change.
    pub fn validate(&self) -> (r: Result<(), String>)
        ensures
            match listener_update_problem(*self) {
                Some(m) => r matches Err(e) && e@ == m,
                None => r is Ok,
            },
    {
        match self.port {
            Some(p) => {
                if !(1 <= p && p <= 65535) {
                    return Err(text("端口必须在 1-65535 之间"));
                }
            },
            None => {},
        }
        match &self.tls_cert {
            Some(c) => {
                if !is_blank(c.as_str()) && !find_text(c.as_str(), "-----BEGIN CERTIFICATE-----") {
                    return Err(text("证书格式无效，请提供 PEM 格式的证书"));
                }
            },
            None => {},
        }
        match &self.tls_key {
            Some(k) => {
                if !is_blank(k.as_str()) && !find_text(k.as_str(), "-----BEGIN") {
                    return Err(text("私钥格式无效，请提供 PEM 格式的私钥"));
                }
            },
            None => {},
        }
        Ok(())
    }

    /// The change to store: the fields as given, the certificate and key
    /// trimmed (an empty text clears the stored one).
    pub fn into_update(self) -> (u: UpdateServerListener)
        ensures
            u.enabled == self.enabled,
            u.bind_address == self.bind_address,
            u.port == self.port,
            match self.tls_cert {
                Some(c) => u.tls_cert matches Some(t) && t@ == trimmed(c@),
                None => u.tls_cert is None,
            },
            match self.tls_key {
                Some(k) => u.tls_key matches Some(t) && t@ == trimmed(k@),
                None => u.tls_key is None,
            },
    {
        let tls_cert: Option<String> = match &self.tls_cert {
            Some(c) => Some(string_of(&trim_chars(&chars_of(c.as_str())))),
            None => None,
        };
        let tls_key: Option<String> = match &self.tls_key {
            Some(k) => Some(string_of(&trim_chars(&chars_of(k.as_str())))),
            None => None,
        };
        UpdateServerListener {
            enabled: self.enabled,
            bind_address: self.bind_address,
            port: self.port,
            tls_cert,
            tls_key,
        }
    }
}

/// What a listener's certificate says.
#[derive(Debug)]
pub struct CertificateInfo {
    pub subject: String,
    pub issuer: String,
    pub not_before: String,
    pub not_after: String,
    pub serial_number: String,
    pub is_expired: bool,
    pub days_until_expiry: i64,
}

/// The message for a listener that does not exist.
pub fn listener_not_found(protocol: &str) -> (m: String)
    ensures
        m@ == "监听器 '"@ + protocol@ + "' 不存在"@,
{
    let mut v: Vec<char> = Vec::new();
    push_str(&mut v, "监听器 '");
    push_str(&mut v, protocol);
    push_str(&mut v, "' 不存在");
    string_of(&v)
}

/// What follows once an updated listener configuration is stored.
#[derive(Debug, Clone, Copy, PartialEq, Eq, Structural)]
pub enum ListenerAction {
    /// The listener is disabled: stop it.
    Stop,
    /// The listener is enabled: (re)start it, warning first when it needs
    /// TLS material that is missing.
    Start { warn_missing_tls: bool },
}

/// The action for a stored listener configuration.
pub fn listener_action(listener: &ServerListener) -> (a: ListenerAction)
    ensures
        !listener.enabled ==> a == ListenerAction::Stop,
        listener.enabled ==> a == (ListenerAction::Start {
            warn_missing_tls: tls_protocol(listener.protocol@) && (listener.tls_cert is None
                || listener.tls_key is None),
        }),
{
    if !listener.enabled {
        ListenerAction::Stop
    } else {
        ListenerAction::Start { warn_missing_tls: tls_material_missing(listener) }
    }
}

/// What a listener that failed to start leads to: the stored enabled flag
/// is turned back off, so the configuration never claims a listener that is
/// not running, and the update fails with an internal error naming the cause.
pub fn failed_start(cause: &str) -> (r: (UpdateServerListener, AppError))
    ensures
        r.0.enabled == Some(false),
        r.0.bind_address is None,
        r.0.port is None,
        r.0.tls_cert is None,
        r.0.tls_key is None,
        r.1 matches AppError::Internal(m) && m@ == "启动失败: "@ + cause@,
{
    let mut v: Vec<char> = Vec::new();
    push_str(&mut v, "启动失败: ");
    push_str(&mut v, cause);
    let revert = UpdateServerListener {
        enabled: Some(false),
        bind_address: None,
        port: None,
        tls_cert: None,
        tls_key: None,
    };
    (revert, AppError::Internal(string_of(&v)))
}

/// The file names a TLS listener's certificate and key are written to, in
/// the temporary directory: `fluxdns_<protocol>_cert.pem` and
/// `fluxdns_<protocol>_key.pem`.
pub open spec fn tls_file_names(protocol: Seq<char>) -> (Seq<char>, Seq<char>) {
    ("fluxdns_"@ + protocol + "_cert.pem"@, "fluxdns_"@ + protocol + "_key.pem"@)
}

/// The certificate and key a TLS listener is started with, and the file
/// names they are written to; both must be configured, or starting is
/// refused naming the protocol in capitals.
pub fn tls_material(protocol: &str, listener: &ServerListener) -> (r: Result<((String, String), (String, String)), String>)
    ensures
        match (listener.tls_cert, listener.tls_key) {
            (Some(c), Some(k)) => r matches Ok((material, files)) && material.0@ == c@ && material.1@ == k@
                && files.0@ == tls_file_names(protocol@).0 && files.1@ == tls_file_names(protocol@).1,
            _ => r matches Err(m) && m@ == uppercase(protocol@)
                + " listener requires both a TLS certificate and a private key"@,
        },
{
    match (&listener.tls_cert, &listener.tls_key) {
        (Some(c), Some(k)) => {
            let mut cert_file: Vec<char> = Vec::new();
            push_str(&mut cert_file, "fluxdns_");
            push_str(&mut cert_file, protocol);
            push_str(&mut cert_file, "_cert.pem");
            let mut key_file: Vec<char> = Vec::new();
            push_str(&mut key_file, "fluxdns_");
            push_str(&mut key_file, protocol);
            push_str(&mut key_file, "_key.pem");
            Ok(((c.clone(), k.clone()), (string_of(&cert_file), string_of(&key_file))))
        },
        _ => {
            let upper: String = to_uppercase(protocol);
            let mut v: Vec<char> = Vec::new();
            push_str(&mut v, upper.as_str());
            push_str(&mut v, " listener requires both a TLS certificate and a private key");
            Err(string_of(&v))
        },
    }
}

/// The socket address text a listener binds: its address, a colon and its
/// port.
pub fn bind_address_text(listener: &ServerListener) -> (t: String)
    ensures
        t@ == listener.bind_address@ + seq![':'] + signed_decimal(listener.port as int),
{
    let mut v: Vec<char> = Vec::new();
    push_str(&mut v, listener.bind_address.as_str());
    v.push(':');
    push_signed_decimal(&mut v, listener.port as i64);
    assert(v@ =~= listener.bind_address@ + seq![':'] + signed_decimal(listener.port as int));
    string_of(&v)
}

} // verus!
