//! Suggestions of Metasploit modules for detected services: a fixed table
//! keyed by the lowercase service name.
use vstd::prelude::*;
use crate::text::{chars_of, chars_equal, lower_of, lowercase};

verus! {

/// A detected service, as the suggestion table reads it.
#[derive(Debug, Clone)]
pub struct ServiceInfo {
    pub port: u16,
    pub service: String,
    pub banner: Option<String>,
}

/// A module suggested for the service on a port.
#[derive(Debug, Clone)]
pub struct ModuleSuggestion {
    pub port: u16,
    pub service: String,
    pub module: String,
}

/// The module the table holds for a lowercase service name.
pub open spec fn module_for_name(name: Seq<char>) -> Option<Seq<char>> {
    if name == "ssh"@ {
        Some("auxiliary/scanner/ssh/ssh_version"@)
    } else if name == "http"@ {
        Some("auxiliary/scanner/http/http_version"@)
    } else if name == "https"@ {
        Some("auxiliary/scanner/http/http_version"@)
    } else if name == "smb"@ {
        Some("exploit/windows/smb/ms17_010_eternalblue"@)
    } else if name == "microsoft-ds"@ {
        Some("exploit/windows/smb/ms17_010_eternalblue"@)
    } else if name == "ftp"@ {
        Some("auxiliary/scanner/ftp/ftp_version"@)
    } else if name == "smtp"@ {
        Some("auxiliary/scanner/smtp/smtp_version"@)
    } else if name == "pop3"@ {
        Some("auxiliary/scanner/pop3/pop3_version"@)
    } else if name == "imap"@ {
        Some("auxiliary/scanner/imap/imap_version"@)
    } else if name == "mssql"@ {
        Some("auxiliary/scanner/mssql/mssql_ping"@)
    } else if name == "postgresql"@ {
        Some("auxiliary/scanner/postgres/postgres_version"@)
    } else if name == "postgres"@ {
        Some("auxiliary/scanner/postgres/postgres_version"@)
    } else if name == "rdp"@ {
        Some("auxiliary/scanner/rdp/rdp_scanner"@)
    } else if name == "ms-wbt-server"@ {
        Some("auxiliary/scanner/rdp/rdp_scanner"@)
    } else if name == "telnet"@ {
        Some("auxiliary/scanner/telnet/telnet_version"@)
    } else if name == "snmp"@ {
        Some("auxiliary/scanner/snmp/snmp_enum"@)
    } else if name == "oracle"@ {
        Some("auxiliary/scanner/oracle/tnslsnr_version"@)
    } else if name == "redis"@ {
        Some("auxiliary/scanner/redis/redis_server"@)
    } else if name == "vnc"@ {
        Some("auxiliary/scanner/vnc/vnc_none_auth"@)
    } else if name == "ldap"@ {
        Some("auxiliary/scanner/ldap/ldap_search"@)
    } else {
        None
    }
}

/// Looks a lowercase service name up in the table.
pub fn module_for(name: &str) -> (r: Option<&'static str>)
    ensures
        match r {
            Some(m) => module_for_name(name@) == Some(m@),
            None => module_for_name(name@) is None,
        },
{
    let c = chars_of(name);
    if chars_equal(&c, "ssh") {
        Some("auxiliary/scanner/ssh/ssh_version")
    } else if chars_equal(&c, "http") {
        Some("auxiliary/scanner/http/http_version")
    } else if chars_equal(&c, "https") {
        Some("auxiliary/scanner/http/http_version")
    } else if chars_equal(&c, "smb") {
        Some("exploit/windows/smb/ms17_010_eternalblue")
    } else if chars_equal(&c, "microsoft-ds") {
        Some("exploit/windows/smb/ms17_010_eternalblue")
    } else if chars_equal(&c, "ftp") {
        Some("auxiliary/scanner/ftp/ftp_version")
    } else if chars_equal(&c, "smtp") {
        Some("auxiliary/scanner/smtp/smtp_version")
    } else if chars_equal(&c, "pop3") {
        Some("auxiliary/scanner/pop3/pop3_version")
    } else if chars_equal(&c, "imap") {
        Some("auxiliary/scanner/imap/imap_version")
    } else if chars_equal(&c, "mssql") {
        Some("auxiliary/scanner/mssql/mssql_ping")
    } else if chars_equal(&c, "postgresql") {
        Some("auxiliary/scanner/postgres/postgres_version")
    } else if chars_equal(&c, "postgres") {
        Some("auxiliary/scanner/postgres/postgres_version")
    } else if chars_equal(&c, "rdp") {
        Some("auxiliary/scanner/rdp/rdp_scanner")
    } else if chars_equal(&c, "ms-wbt-server") {
        Some("auxiliary/scanner/rdp/rdp_scanner")
    } else if chars_equal(&c, "telnet") {
        Some("auxiliary/scanner/telnet/telnet_version")
    } else if chars_equal(&c, "snmp") {
        Some("auxiliary/scanner/snmp/snmp_enum")
    } else if chars_equal(&c, "oracle") {
        Some("auxiliary/scanner/oracle/tnslsnr_version")
    } else if chars_equal(&c, "redis") {
        Some("auxiliary/scanner/redis/redis_server")
    } else if chars_equal(&c, "vnc") {
        Some("auxiliary/scanner/vnc/vnc_none_auth")
    } else if chars_equal(&c, "ldap") {
        Some("auxiliary/scanner/ldap/ldap_search")
    } else {
        None
    }
}

/// The suggestions for a list of services, in order: one for each service
/// whose lowercase name the table holds.
pub open spec fn suggestions_for(services: Seq<ServiceInfo>) -> Seq<(u16, Seq<char>, Seq<char>)>
    decreases services.len(),
{
    if services.len() == 0 {
        Seq::empty()
    } else {
        let s = services.last();
        let init = suggestions_for(services.drop_last());
        match module_for_name(lower_of(s.service@)) {
            Some(m) => init.push((s.port, s.service@, m)),
            None => init,
        }
    }
}

pub open spec fn suggestion_view(m: ModuleSuggestion) -> (u16, Seq<char>, Seq<char>) {
    (m.port, m.service@, m.module@)
}

/// Suggests modules for the detected services.
pub fn suggest_modules(services: &Vec<ServiceInfo>) -> (r: Vec<ModuleSuggestion>)
    ensures
        r@.map_values(|m: ModuleSuggestion| suggestion_view(m)) == suggestions_for(services@),
{
    let mut r: Vec<ModuleSuggestion> = Vec::new();
    let mut k: usize = 0;
    while k < services.len()
        invariant
            k <= services.len(),
            r@.map_values(|m: ModuleSuggestion| suggestion_view(m)) == suggestions_for(
                services@.take(k as int),
            ),
        decreases services.len() - k,
    {
        assert(services@.take(k + 1).drop_last() =~= services@.take(k as int));
        let s = &services[k];
        let lower = lowercase(s.service.as_str());
        let ghost before = r@;
        match module_for(lower.as_str()) {
            Some(module) => {
                let m = ModuleSuggestion {
                    port: s.port,
                    service: s.service.clone(),
                    module: module.to_string(),
                };
                r.push(m);
                assert(r@.map_values(|m: ModuleSuggestion| suggestion_view(m)) =~= before.map_values(
                    |m: ModuleSuggestion| suggestion_view(m),
                ).push(suggestion_view(m)));
            },
            None => {},
        }
        k = k + 1;
    }
    assert(services@.take(services.len() as int) =~= services@);
    r
}

} // verus!
