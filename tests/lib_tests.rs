use netscan::add;
use netscan::suggest::{suggest_modules, module_for, ServiceInfo};

#[test]
fn it_works() {
    let result = add(2, 2);
    assert_eq!(result, 4);
}

#[test]
fn test_suggest_modules_basic() {
    let services = vec![
        ServiceInfo {
            port: 22,
            service: "ssh".to_string(),
            banner: None,
        },
        ServiceInfo {
            port: 80,
            service: "http".to_string(),
            banner: None,
        },
        ServiceInfo {
            port: 445,
            service: "microsoft-ds".to_string(),
            banner: None,
        },
        ServiceInfo {
            port: 21,
            service: "ftp".to_string(),
            banner: None,
        },
        ServiceInfo {
            port: 3306,
            service: "mysql".to_string(),
            banner: None,
        },
    ];
    let suggestions = suggest_modules(&services);
    assert_eq!(suggestions.len(), 4);
    assert_eq!(suggestions[0].module, "auxiliary/scanner/ssh/ssh_version");
    assert_eq!(suggestions[1].module, "auxiliary/scanner/http/http_version");
    assert_eq!(
        suggestions[2].module,
        "exploit/windows/smb/ms17_010_eternalblue"
    );
    assert_eq!(suggestions[3].module, "auxiliary/scanner/ftp/ftp_version");
}

#[test]
fn suggest_modules_matches_names_in_any_case() {
    let services = vec![
        ServiceInfo { port: 22, service: "SSH".to_string(), banner: None },
        ServiceInfo { port: 5432, service: "PostgreSQL".to_string(), banner: None },
        ServiceInfo { port: 9, service: "Discard".to_string(), banner: None },
    ];
    let suggestions = suggest_modules(&services);
    assert_eq!(suggestions.len(), 2);
    assert_eq!(suggestions[0].port, 22);
    assert_eq!(suggestions[0].service, "SSH");
    assert_eq!(suggestions[0].module, "auxiliary/scanner/ssh/ssh_version");
    assert_eq!(suggestions[1].port, 5432);
    assert_eq!(suggestions[1].module, "auxiliary/scanner/postgres/postgres_version");
}

#[test]
fn module_table_lookups() {
    assert_eq!(module_for("rdp"), Some("auxiliary/scanner/rdp/rdp_scanner"));
    assert_eq!(module_for("ms-wbt-server"), Some("auxiliary/scanner/rdp/rdp_scanner"));
    assert_eq!(module_for("ldap"), Some("auxiliary/scanner/ldap/ldap_search"));
    assert_eq!(module_for("SSH"), None);
    assert_eq!(module_for(""), None);
}
