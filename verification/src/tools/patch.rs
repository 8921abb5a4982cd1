//! Moving configuration files of the previous major release to where the
//! current one keeps them: which files to move, and what to tell the user.
use vstd::prelude::*;
use crate::text::{push_str, string_of};

verus! {

/// A file that the migration moves.
#[derive(Debug, Clone, Copy, PartialEq, Eq, Structural)]
pub enum MigratedFile {
    Servers,
    Settings,
    TtsSettings,
}

/// What was found on disk for one file: whether the old and the new copy
/// exist, and both paths as shown to the user.
#[derive(Debug, PartialEq, Eq)]
pub struct FileProbe {
    pub old_exists: bool,
    pub new_exists: bool,
    pub old_path: String,
    pub new_path: String,
}

/// One step of the migration, in order.
#[derive(Debug, PartialEq, Eq)]
pub enum MigrationStep {
    /// Tell the user an error.
    Error(String),
    /// Move the file to its new place (converting its contents).
    Migrate(MigratedFile),
    /// Tell the user what was done.
    Info(String),
}

/// A server entry of the previous release: TLS was optional then.
#[derive(Debug, PartialEq, Eq)]
pub struct V2Connection {
    pub host: String,
    pub port: u16,
    pub tls: Option<bool>,
}

/// A server entry.
#[derive(Debug, PartialEq, Eq)]
pub struct Connection {
    pub host: String,
    pub port: u16,
    pub tls: bool,
    pub verify_cert: bool,
}

impl Connection {
    /// The entry an old one becomes: no TLS unless it was asked for, and no
    /// certificate verification.
    pub fn from_v2(v2: V2Connection) -> (r: Connection)
        ensures
            r.host == v2.host,
            r.port == v2.port,
            r.tls == (v2.tls == Some(true)),
            !r.verify_cert,
    {
        let tls = match v2.tls {
            Some(t) => t,
            None => false,
        };
        Connection { host: v2.host, port: v2.port, tls, verify_cert: false }
    }
}

/// The entry `v2` becomes (see `Connection::from_v2`).
pub open spec fn migrated_entry(v2: V2Connection) -> Connection {
    Connection { host: v2.host, port: v2.port, tls: v2.tls == Some(true), verify_cert: false }
}

/// The server list of the previous release converted entry by entry: every
/// server keeps its name, host and port, takes TLS only when it was asked
/// for, and certificate verification off.
pub fn migrate_servers(servers: Vec<(String, V2Connection)>) -> (r: Vec<(String, Connection)>)
    ensures
        r@.len() == servers@.len(),
        forall|i: int|
            0 <= i < servers@.len() ==> (#[trigger] r@[i]).0 == servers@[i].0 && r@[i].1
                == migrated_entry(servers@[i].1),
{
    let ghost src = servers@;
    let mut rest = servers;
    let mut out: Vec<(String, Connection)> = Vec::new();
    let ghost mut k: int = 0;
    while rest.len() > 0
        invariant
            0 <= k <= src.len(),
            rest@ == src.skip(k),
            out@.len() == k,
            forall|i: int|
                0 <= i < k ==> (#[trigger] out@[i]).0 == src[i].0 && out@[i].1 == migrated_entry(
                    src[i].1,
                ),
        decreases rest@.len(),
    {
        let (name, v2) = rest.remove(0);
        assert(src.skip(k).skip(1) =~= src.skip(k + 1));
        out.push((name, Connection::from_v2(v2)));
        proof {
            k = k + 1;
        }
    }
    proof {
        assert(src.skip(k).len() == 0);
    }
    out
}

/// The file's name as shown to the user.
pub open spec fn file_label(f: MigratedFile) -> Seq<char> {
    match f {
        MigratedFile::Servers => "servers.ron"@,
        MigratedFile::Settings => "settings.ron"@,
        MigratedFile::TtsSettings => "tts_settings.ron"@,
    }
}

fn label_of(f: MigratedFile) -> (r: &'static str)
    ensures
        r@ == file_label(f),
{
    match f {
        MigratedFile::Servers => "servers.ron",
        MigratedFile::Settings => "settings.ron",
        MigratedFile::TtsSettings => "tts_settings.ron",
    }
}

/// A step as a tag and a text: 0 for an error, 1 for a move (with the
/// file's label as text), 2 for a report.
pub open spec fn step_view(s: MigrationStep) -> (int, Seq<char>) {
    match s {
        MigrationStep::Error(t) => (0, t@),
        MigrationStep::Migrate(f) => (1, file_label(f)),
        MigrationStep::Info(t) => (2, t@),
    }
}

/// The steps for one file: nothing when there is no old copy; when the
/// new one exists already, errors (the text-to-speech settings skip the
/// first, general one); otherwise the move and a report of it.
pub open spec fn file_steps(f: MigratedFile, p: FileProbe) -> Seq<(int, Seq<char>)> {
    if !p.old_exists {
        Seq::empty()
    } else if p.new_exists {
        let exists_msg = file_label(f) + " already exists at "@ + p.new_path@;
        if f == MigratedFile::TtsSettings {
            seq![(0int, exists_msg)]
        } else {
            seq![(0int, "Can't migrate "@ + file_label(f) + ":"@), (0int, exists_msg)]
        }
    } else {
        seq![
            (1int, file_label(f)),
            (2int, "Migrated "@ + file_label(f) + " from "@ + p.old_path@ + " to "@ + p.new_path@),
        ]
    }
}

/// The views of `steps`.
pub open spec fn step_views(steps: Seq<MigrationStep>) -> Seq<(int, Seq<char>)> {
    steps.map_values(|s: MigrationStep| step_view(s))
}

/// Appends the steps for one file.
fn push_file_steps(f: MigratedFile, p: &FileProbe, out: &mut Vec<MigrationStep>)
    ensures
        step_views(final(out)@) == step_views(old(out)@) + file_steps(f, *p),
{
    let ghost before = step_views(out@);
    if p.old_exists {
        let label = label_of(f);
        if p.new_exists {
            let mut exists_msg: Vec<char> = Vec::new();
            push_str(&mut exists_msg, label);
            push_str(&mut exists_msg, " already exists at ");
            push_str(&mut exists_msg, p.new_path.as_str());
            let exists_msg = string_of(exists_msg.as_slice());
            if f == MigratedFile::TtsSettings {
                out.push(MigrationStep::Error(exists_msg));
            } else {
                let mut general: Vec<char> = Vec::new();
                push_str(&mut general, "Can't migrate ");
                push_str(&mut general, label);
                push_str(&mut general, ":");
                out.push(MigrationStep::Error(string_of(general.as_slice())));
                out.push(MigrationStep::Error(exists_msg));
            }
        } else {
            let mut report: Vec<char> = Vec::new();
            push_str(&mut report, "Migrated ");
            push_str(&mut report, label);
            push_str(&mut report, " from ");
            push_str(&mut report, p.old_path.as_str());
            push_str(&mut report, " to ");
            push_str(&mut report, p.new_path.as_str());
            out.push(MigrationStep::Migrate(f));
            out.push(MigrationStep::Info(string_of(report.as_slice())));
        }
    }
    assert(step_views(out@) =~= before + file_steps(f, *p));
}

/// What migrating the server list, the settings and the text-to-speech
/// settings of the previous release takes, in that order, given what was
/// found on disk for each: a file is moved when only its old copy exists,
/// and the user is told about every move and every file left in place
/// because a new copy exists.
pub fn migrate_v2_settings_and_servers(
    servers: &FileProbe,
    settings: &FileProbe,
    tts_settings: &FileProbe,
) -> (r: Vec<MigrationStep>)
    ensures
        step_views(r@) == file_steps(MigratedFile::Servers, *servers) + file_steps(
            MigratedFile::Settings,
            *settings,
        ) + file_steps(MigratedFile::TtsSettings, *tts_settings),
{
    let mut out: Vec<MigrationStep> = Vec::new();
    assert(step_views(out@) =~= Seq::<(int, Seq<char>)>::empty());
    push_file_steps(MigratedFile::Servers, servers, &mut out);
    push_file_steps(MigratedFile::Settings, settings, &mut out);
    push_file_steps(MigratedFile::TtsSettings, tts_settings, &mut out);
    assert(step_views(out@) =~= file_steps(MigratedFile::Servers, *servers) + file_steps(
        MigratedFile::Settings,
        *settings,
    ) + file_steps(MigratedFile::TtsSettings, *tts_settings));
    out
}

} // verus!
