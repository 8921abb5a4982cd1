use blightmud::tools::patch::{
    migrate_servers, migrate_v2_settings_and_servers, Connection, FileProbe, MigratedFile,
    MigrationStep, V2Connection,
};

fn probe(old_exists: bool, new_exists: bool) -> FileProbe {
    FileProbe {
        old_exists,
        new_exists,
        old_path: "/old/servers.ron".to_string(),
        new_path: "/new/servers.ron".to_string(),
    }
}

#[test]
fn migrate_v2_servers_entries() {
    let old = vec![
        (
            "lotr".to_string(),
            V2Connection { host: "lotr-mud.com".to_string(), port: 5555, tls: Some(true) },
        ),
        (
            "mymud".to_string(),
            V2Connection { host: "mymud.com".to_string(), port: 4000, tls: Some(false) },
        ),
        ("plain".to_string(), V2Connection { host: "plain.org".to_string(), port: 23, tls: None }),
    ];
    let new = migrate_servers(old);
    assert_eq!(new.len(), 3);
    assert_eq!(new[0].0, "lotr");
    assert_eq!(
        new[0].1,
        Connection { host: "lotr-mud.com".to_string(), port: 5555, tls: true, verify_cert: false }
    );
    assert_eq!(new[1].1.tls, false);
    assert_eq!(new[2].1.tls, false);
    assert!(!new[2].1.verify_cert);
}

#[test]
fn migrate_v2_servers_steps() {
    let none = probe(false, false);
    let steps = migrate_v2_settings_and_servers(&probe(true, false), &none, &none);
    assert_eq!(steps.len(), 2);
    assert_eq!(steps[0], MigrationStep::Migrate(MigratedFile::Servers));
    assert_eq!(
        steps[1],
        MigrationStep::Info(
            "Migrated servers.ron from /old/servers.ron to /new/servers.ron".to_string()
        )
    );
}

#[test]
fn migrate_refuses_to_overwrite() {
    let none = probe(false, false);
    let steps = migrate_v2_settings_and_servers(&probe(true, true), &none, &none);
    assert_eq!(steps[0], MigrationStep::Error("Can't migrate servers.ron:".to_string()));
    assert_eq!(
        steps[1],
        MigrationStep::Error("servers.ron already exists at /new/servers.ron".to_string())
    );
}
