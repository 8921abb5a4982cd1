//! Help files: which names the client has help for, where a name's text
//! comes from, the placeholders filled into it, and what the client is
//! shown. Rendering the markdown is the caller's.
use vstd::prelude::*;
use crate::text::{chars_of, push_str, str_eq, string_of};

verus! {

/// The resource file (under `resources/help/`) holding the help for
/// `name`, if the client has built-in help for it.
pub open spec fn help_table(name: Seq<char>) -> Option<Seq<char>> {
    if name == "help"@ {
        Some("help.md"@)
    } else if name == "changes"@ {
        Some("changes.md"@)
    } else if name == "welcome"@ {
        Some("welcome.md"@)
    } else if name == "logging"@ {
        Some("logging.md"@)
    } else if name == "blight"@ {
        Some("lua_blight.md"@)
    } else if name == "bindings"@ {
        Some("bindings.md"@)
    } else if name == "core"@ {
        Some("core.md"@)
    } else if name == "tts"@ {
        Some("no_tts.md"@)
    } else if name == "status_area"@ {
        Some("lua_status_area.md"@)
    } else if name == "alias"@ {
        Some("lua_aliases.md"@)
    } else if name == "config"@ {
        Some("lua_settings.md"@)
    } else if name == "script"@ {
        Some("script.md"@)
    } else if name == "trigger"@ {
        Some("lua_trigger.md"@)
    } else if name == "timers"@ {
        Some("lua_timers.md"@)
    } else if name == "gmcp"@ {
        Some("lua_gmcp.md"@)
    } else if name == "msdp"@ {
        Some("msdp.md"@)
    } else if name == "regex"@ {
        Some("regex.md"@)
    } else if name == "line"@ {
        Some("line.md"@)
    } else if name == "mud"@ {
        Some("mud.md"@)
    } else if name == "audio"@ {
        Some("audio.md"@)
    } else if name == "log"@ {
        Some("log.md"@)
    } else if name == "config_scripts"@ {
        Some("config_scripts.md"@)
    } else if name == "scripting"@ {
        Some("scripting.md"@)
    } else if name == "settings"@ {
        Some("settings.md"@)
    } else if name == "storage"@ {
        Some("lua_storage.md"@)
    } else if name == "colors"@ {
        Some("lua_colors.md"@)
    } else if name == "tasks"@ {
        Some("lua_tasks.md"@)
    } else if name == "socket"@ {
        Some("socket.md"@)
    } else if name == "plugin"@ {
        Some("plugin.md"@)
    } else if name == "plugin_developer"@ {
        Some("plugin_developer.md"@)
    } else if name == "servers"@ {
        Some("servers.md"@)
    } else {
        None
    }
}

/// The resource file holding the built-in help for `name`, if any.
pub fn help_file(name: &str) -> (r: Option<&'static str>)
    ensures
        match help_table(name@) {
            Some(f) => r matches Some(s) && s@ == f,
            None => r is None,
        },
{
    proof {
        reveal_strlit("help");
        reveal_strlit("help.md");
        reveal_strlit("changes");
        reveal_strlit("changes.md");
        reveal_strlit("welcome");
        reveal_strlit("welcome.md");
        reveal_strlit("logging");
        reveal_strlit("logging.md");
        reveal_strlit("blight");
        reveal_strlit("lua_blight.md");
        reveal_strlit("bindings");
        reveal_strlit("bindings.md");
        reveal_strlit("core");
        reveal_strlit("core.md");
        reveal_strlit("tts");
        reveal_strlit("no_tts.md");
        reveal_strlit("status_area");
        reveal_strlit("lua_status_area.md");
        reveal_strlit("alias");
        reveal_strlit("lua_aliases.md");
        reveal_strlit("config");
        reveal_strlit("lua_settings.md");
        reveal_strlit("script");
        reveal_strlit("script.md");
        reveal_strlit("trigger");
        reveal_strlit("lua_trigger.md");
        reveal_strlit("timers");
        reveal_strlit("lua_timers.md");
        reveal_strlit("gmcp");
        reveal_strlit("lua_gmcp.md");
        reveal_strlit("msdp");
        reveal_strlit("msdp.md");
        reveal_strlit("regex");
        reveal_strlit("regex.md");
        reveal_strlit("line");
        reveal_strlit("line.md");
        reveal_strlit("mud");
        reveal_strlit("mud.md");
        reveal_strlit("audio");
        reveal_strlit("audio.md");
        reveal_strlit("log");
        reveal_strlit("log.md");
        reveal_strlit("config_scripts");
        reveal_strlit("config_scripts.md");
        reveal_strlit("scripting");
        reveal_strlit("scripting.md");
        reveal_strlit("settings");
        reveal_strlit("settings.md");
        reveal_strlit("storage");
        reveal_strlit("lua_storage.md");
        reveal_strlit("colors");
        reveal_strlit("lua_colors.md");
        reveal_strlit("tasks");
        reveal_strlit("lua_tasks.md");
        reveal_strlit("socket");
        reveal_strlit("socket.md");
        reveal_strlit("plugin");
        reveal_strlit("plugin.md");
        reveal_strlit("plugin_developer");
        reveal_strlit("plugin_developer.md");
        reveal_strlit("servers");
        reveal_strlit("servers.md");
    }
    if str_eq(name, "help") {
        Some("help.md")
    } else if str_eq(name, "changes") {
        Some("changes.md")
    } else if str_eq(name, "welcome") {
        Some("welcome.md")
    } else if str_eq(name, "logging") {
        Some("logging.md")
    } else if str_eq(name, "blight") {
        Some("lua_blight.md")
    } else if str_eq(name, "bindings") {
        Some("bindings.md")
    } else if str_eq(name, "core") {
        Some("core.md")
    } else if str_eq(name, "tts") {
        Some("no_tts.md")
    } else if str_eq(name, "status_area") {
        Some("lua_status_area.md")
    } else if str_eq(name, "alias") {
        Some("lua_aliases.md")
    } else if str_eq(name, "config") {
        Some("lua_settings.md")
    } else if str_eq(name, "script") {
        Some("script.md")
    } else if str_eq(name, "trigger") {
        Some("lua_trigger.md")
    } else if str_eq(name, "timers") {
        Some("lua_timers.md")
    } else if str_eq(name, "gmcp") {
        Some("lua_gmcp.md")
    } else if str_eq(name, "msdp") {
        Some("msdp.md")
    } else if str_eq(name, "regex") {
        Some("regex.md")
    } else if str_eq(name, "line") {
        Some("line.md")
    } else if str_eq(name, "mud") {
        Some("mud.md")
    } else if str_eq(name, "audio") {
        Some("audio.md")
    } else if str_eq(name, "log") {
        Some("log.md")
    } else if str_eq(name, "config_scripts") {
        Some("config_scripts.md")
    } else if str_eq(name, "scripting") {
        Some("scripting.md")
    } else if str_eq(name, "settings") {
        Some("settings.md")
    } else if str_eq(name, "storage") {
        Some("lua_storage.md")
    } else if str_eq(name, "colors") {
        Some("lua_colors.md")
    } else if str_eq(name, "tasks") {
        Some("lua_tasks.md")
    } else if str_eq(name, "socket") {
        Some("socket.md")
    } else if str_eq(name, "plugin") {
        Some("plugin.md")
    } else if str_eq(name, "plugin_developer") {
        Some("plugin_developer.md")
    } else if str_eq(name, "servers") {
        Some("servers.md")
    } else {
        None
    }
}

/// Where the help for a name comes from.
#[derive(Debug, Clone, Copy, PartialEq, Eq)]
pub enum HelpSource {
    /// Built-in help, from this resource file.
    Builtin(&'static str),
    /// The README of the installed plugin of that name.
    Plugin,
    /// There is none.
    Missing,
}

/// Built-in help wins over a plugin's README; without either there is no
/// help.
pub fn help_source(name: &str, plugin_readme_exists: bool) -> (r: HelpSource)
    ensures
        match help_table(name@) {
            Some(f) => r matches HelpSource::Builtin(s) && s@ == f,
            None => if plugin_readme_exists {
                r == HelpSource::Plugin
            } else {
                r == HelpSource::Missing
            },
        },
{
    match help_file(name) {
        Some(f) => HelpSource::Builtin(f),
        None => if plugin_readme_exists {
            HelpSource::Plugin
        } else {
            HelpSource::Missing
        },
    }
}

/// What showing help tells the client.
#[derive(Debug, PartialEq, Eq)]
pub enum HelpEvent {
    /// Lock or unlock scrolling around the help text.
    ScrollLock(bool),
    /// The rendered help, as output.
    Output(String),
    /// A message.
    Info(String),
}

/// The answer when there is no help of that name.
pub fn missing_help() -> (r: HelpEvent)
    ensures
        r matches HelpEvent::Info(m) && m@ == "No such help file found"@,
{
    HelpEvent::Info("No such help file found".to_owned())
}

/// The answer when a plugin's README cannot be addressed.
pub fn invalid_plugin_help(name: &str) -> (r: HelpEvent)
    ensures
        r matches HelpEvent::Info(m) && m@ == "Invalid helpfile for plugin: "@ + name@,
{
    let mut cs: Vec<char> = Vec::new();
    push_str(&mut cs, "Invalid helpfile for plugin: ");
    push_str(&mut cs, name);
    HelpEvent::Info(string_of(cs.as_slice()))
}

/// The answer for rendered markdown: the text after two blank lines, or a
/// message when it could not be rendered.
pub fn rendered_help(rendered: Option<String>) -> (r: HelpEvent)
    ensures
        match rendered {
            Some(t) => r matches HelpEvent::Output(o) && o@ == "\n\n"@ + t@,
            None => r matches HelpEvent::Info(m) && m@ == "Error parsing help file"@,
        },
{
    match rendered {
        Some(t) => {
            let mut cs: Vec<char> = Vec::new();
            push_str(&mut cs, "\n\n");
            push_str(&mut cs, t.as_str());
            HelpEvent::Output(string_of(cs.as_slice()))
        },
        None => HelpEvent::Info("Error parsing help file".to_owned()),
    }
}

/// What showing help sends: the answer, between a scroll lock and its
/// release when `lock` is set.
pub fn show_help_events(lock: bool, answer: HelpEvent) -> (r: Vec<HelpEvent>)
    ensures
        lock ==> r@ == seq![HelpEvent::ScrollLock(true), answer, HelpEvent::ScrollLock(false)],
        !lock ==> r@ == seq![answer],
{
    let mut out: Vec<HelpEvent> = Vec::new();
    if lock {
        out.push(HelpEvent::ScrollLock(true));
    }
    out.push(answer);
    if lock {
        out.push(HelpEvent::ScrollLock(false));
    }
    out
}

/// `s` with every occurrence of `pat`, from the left and not overlapping,
/// replaced by `rep`.
pub open spec fn replaced(s: Seq<char>, pat: Seq<char>, rep: Seq<char>) -> Seq<char>
    decreases s.len(),
{
    if pat.len() == 0 || s.len() < pat.len() {
        s
    } else if s.take(pat.len() as int) == pat {
        rep + replaced(s.skip(pat.len() as int), pat, rep)
    } else {
        seq![s[0]] + replaced(s.skip(1), pat, rep)
    }
}

/// Whether `pat` occurs in `s` at `i`.
fn occurs_at(s: &[char], pat: &[char], i: usize) -> (r: bool)
    requires
        i <= s@.len(),
    ensures
        r == (i + pat@.len() <= s@.len() && s@.skip(i as int).take(pat@.len() as int) == pat@),
{
    if pat.len() > s.len() - i {
        return false;
    }
    let n = s.len();
    let mut k: usize = 0;
    while k < pat.len()
        invariant
            n == s@.len(),
            i + pat@.len() <= s@.len(),
            k <= pat@.len(),
            forall|j: int| 0 <= j < k ==> s@[i + j] == pat@[j],
        decreases pat@.len() - k,
    {
        if s[i + k] != pat[k] {
            assert(s@.skip(i as int).take(pat@.len() as int)[k as int] != pat@[k as int]);
            return false;
        }
        k += 1;
    }
    assert(s@.skip(i as int).take(pat@.len() as int) =~= pat@);
    true
}

/// `text` with every `pat` replaced by `rep`, as `str::replace` does for a
/// pattern that is not empty.
pub fn replace_all(text: &str, pat: &str, rep: &str) -> (r: String)
    requires
        pat@.len() > 0,
    ensures
        r@ == replaced(text@, pat@, rep@),
{
    let s = chars_of(text);
    let p = chars_of(pat);
    let rp = chars_of(rep);
    let mut out: Vec<char> = Vec::new();
    let mut i: usize = 0;
    assert(s@.skip(0) =~= s@);
    while i < s.len()
        invariant
            s@ == text@,
            p@ == pat@,
            rp@ == rep@,
            i <= s@.len(),
            out@ + replaced(s@.skip(i as int), p@, rp@) == replaced(s@, p@, rp@),
        decreases s@.len() - i,
    {
        let ghost rest = s@.skip(i as int);
        if p.len() > 0 && occurs_at(s.as_slice(), p.as_slice(), i) {
            assert(rest.take(p@.len() as int) == p@);
            assert(rest.skip(p@.len() as int) =~= s@.skip(i + p@.len()));
            let ghost before = out@;
            let mut k: usize = 0;
            while k < rp.len()
                invariant
                    k <= rp@.len(),
                    out@ == before + rp@.take(k as int),
                decreases rp@.len() - k,
            {
                out.push(rp[k]);
                assert(rp@.take(k + 1) =~= rp@.take(k as int).push(rp@[k as int]));
                k += 1;
            }
            assert(rp@.take(rp@.len() as int) =~= rp@);
            assert(out@ + replaced(s@.skip(i + p@.len()), p@, rp@) =~= before + replaced(rest, p@, rp@));
            i = i + p.len();
        } else {
            proof {
                if p@.len() > 0 && rest.len() >= p@.len() {
                    assert(rest.take(p@.len() as int) != p@);
                }
            }
            assert(rest.skip(1) =~= s@.skip(i + 1));
            let ghost before = out@;
            out.push(s[i]);
            assert(out@ + replaced(s@.skip(i + 1), p@, rp@) =~= before + replaced(rest, p@, rp@));
            i += 1;
        }
    }
    assert(s@.skip(s@.len() as int) =~= Seq::<char>::empty());
    string_of(out.as_slice())
}

/// Fills the placeholders of a help text: the version and the log, data
/// and configuration directories.
pub fn fill_placeholders(
    content: &str,
    version: &str,
    logdir: &str,
    datadir: &str,
    configdir: &str,
) -> (r: String)
    ensures
        r@ == replaced(
            replaced(
                replaced(replaced(content@, "$VERSION"@, version@), "$LOGDIR"@, logdir@),
                "$DATADIR"@,
                datadir@,
            ),
            "$CONFIGDIR"@,
            configdir@,
        ),
{
    proof {
        reveal_strlit("$VERSION");
        reveal_strlit("$LOGDIR");
        reveal_strlit("$DATADIR");
        reveal_strlit("$CONFIGDIR");
    }
    let a = replace_all(content, "$VERSION", version);
    let b = replace_all(a.as_str(), "$LOGDIR", logdir);
    let c = replace_all(b.as_str(), "$DATADIR", datadir);
    replace_all(c.as_str(), "$CONFIGDIR", configdir)
}

/// The help topic a built-in help file belongs to.
spec fn topic_of_file(file: Seq<char>) -> Option<Seq<char>> {
    if file == "help.md"@ {
        Some("help"@)
    } else if file == "changes.md"@ {
        Some("changes"@)
    } else if file == "welcome.md"@ {
        Some("welcome"@)
    } else if file == "logging.md"@ {
        Some("logging"@)
    } else if file == "lua_blight.md"@ {
        Some("blight"@)
    } else if file == "bindings.md"@ {
        Some("bindings"@)
    } else if file == "core.md"@ {
        Some("core"@)
    } else if file == "no_tts.md"@ {
        Some("tts"@)
    } else if file == "lua_status_area.md"@ {
        Some("status_area"@)
    } else if file == "lua_aliases.md"@ {
        Some("alias"@)
    } else if file == "lua_settings.md"@ {
        Some("config"@)
    } else if file == "script.md"@ {
        Some("script"@)
    } else if file == "lua_trigger.md"@ {
        Some("trigger"@)
    } else if file == "lua_timers.md"@ {
        Some("timers"@)
    } else if file == "lua_gmcp.md"@ {
        Some("gmcp"@)
    } else if file == "msdp.md"@ {
        Some("msdp"@)
    } else if file == "regex.md"@ {
        Some("regex"@)
    } else if file == "line.md"@ {
        Some("line"@)
    } else if file == "mud.md"@ {
        Some("mud"@)
    } else if file == "audio.md"@ {
        Some("audio"@)
    } else if file == "log.md"@ {
        Some("log"@)
    } else if file == "config_scripts.md"@ {
        Some("config_scripts"@)
    } else if file == "scripting.md"@ {
        Some("scripting"@)
    } else if file == "settings.md"@ {
        Some("settings"@)
    } else if file == "lua_storage.md"@ {
        Some("storage"@)
    } else if file == "lua_colors.md"@ {
        Some("colors"@)
    } else if file == "lua_tasks.md"@ {
        Some("tasks"@)
    } else if file == "socket.md"@ {
        Some("socket"@)
    } else if file == "plugin.md"@ {
        Some("plugin"@)
    } else if file == "plugin_developer.md"@ {
        Some("plugin_developer"@)
    } else if file == "servers.md"@ {
        Some("servers"@)
    } else {
        None
    }
}

/// Each listed topic's file reads back as that topic.
proof fn lemma_file_topic(a: Seq<char>)
    ensures
        help_table(a) matches Some(f) ==> topic_of_file(f) == Some(a) && f.len() > 3 && f.subrange(
            f.len() - 3,
            f.len() as int,
        ) == ".md"@,
{
    reveal_strlit(".md");
    if a == "help"@ {
        assert(help_table(a) == Some("help.md"@));
        assert(topic_of_file("help.md"@) == Some("help"@)) by {
            reveal_strlit("help.md");
        }
        assert("help.md"@.len() > 3 && "help.md"@.subrange(
            "help.md"@.len() - 3,
            "help.md"@.len() as int,
        ) =~= ".md"@) by {
            reveal_strlit("help.md");
        }
    } else if a == "changes"@ {
        assert(help_table(a) == Some("changes.md"@));
        assert(topic_of_file("changes.md"@) == Some("changes"@)) by {
            reveal_strlit("changes.md");
            reveal_strlit("help.md");
            assert("changes.md"@.len() != "help.md"@.len());
        }
        assert("changes.md"@.len() > 3 && "changes.md"@.subrange(
            "changes.md"@.len() - 3,
            "changes.md"@.len() as int,
        ) =~= ".md"@) by {
            reveal_strlit("changes.md");
        }
    } else if a == "welcome"@ {
        assert(help_table(a) == Some("welcome.md"@));
        assert(topic_of_file("welcome.md"@) == Some("welcome"@)) by {
            reveal_strlit("welcome.md");
            reveal_strlit("help.md");
            assert("welcome.md"@.len() != "help.md"@.len());
            reveal_strlit("changes.md");
            assert("welcome.md"@[0] != "changes.md"@[0]);
        }
        assert("welcome.md"@.len() > 3 && "welcome.md"@.subrange(
            "welcome.md"@.len() - 3,
            "welcome.md"@.len() as int,
        ) =~= ".md"@) by {
            reveal_strlit("welcome.md");
        }
    } else if a == "logging"@ {
        assert(help_table(a) == Some("logging.md"@));
        assert(topic_of_file("logging.md"@) == Some("logging"@)) by {
            reveal_strlit("logging.md");
            reveal_strlit("help.md");
            assert("logging.md"@.len() != "help.md"@.len());
            reveal_strlit("changes.md");
            assert("logging.md"@[0] != "changes.md"@[0]);
            reveal_strlit("welcome.md");
            assert("logging.md"@[0] != "welcome.md"@[0]);
        }
        assert("logging.md"@.len() > 3 && "logging.md"@.subrange(
            "logging.md"@.len() - 3,
            "logging.md"@.len() as int,
        ) =~= ".md"@) by {
            reveal_strlit("logging.md");
        }
    } else if a == "blight"@ {
        assert(help_table(a) == Some("lua_blight.md"@));
        assert(topic_of_file("lua_blight.md"@) == Some("blight"@)) by {
            reveal_strlit("lua_blight.md");
            reveal_strlit("help.md");
            assert("lua_blight.md"@.len() != "help.md"@.len());
            reveal_strlit("changes.md");
            assert("lua_blight.md"@.len() != "changes.md"@.len());
            reveal_strlit("welcome.md");
            assert("lua_blight.md"@.len() != "welcome.md"@.len());
            reveal_strlit("logging.md");
            assert("lua_blight.md"@.len() != "logging.md"@.len());
        }
        assert("lua_blight.md"@.len() > 3 && "lua_blight.md"@.subrange(
            "lua_blight.md"@.len() - 3,
            "lua_blight.md"@.len() as int,
        ) =~= ".md"@) by {
            reveal_strlit("lua_blight.md");
        }
    } else if a == "bindings"@ {
        assert(help_table(a) == Some("bindings.md"@));
        assert(topic_of_file("bindings.md"@) == Some("bindings"@)) by {
            reveal_strlit("bindings.md");
            reveal_strlit("help.md");
            assert("bindings.md"@.len() != "help.md"@.len());
            reveal_strlit("changes.md");
            assert("bindings.md"@.len() != "changes.md"@.len());
            reveal_strlit("welcome.md");
            assert("bindings.md"@.len() != "welcome.md"@.len());
            reveal_strlit("logging.md");
            assert("bindings.md"@.len() != "logging.md"@.len());
            reveal_strlit("lua_blight.md");
            assert("bindings.md"@.len() != "lua_blight.md"@.len());
        }
        assert("bindings.md"@.len() > 3 && "bindings.md"@.subrange(
            "bindings.md"@.len() - 3,
            "bindings.md"@.len() as int,
        ) =~= ".md"@) by {
            reveal_strlit("bindings.md");
        }
    } else if a == "core"@ {
        assert(help_table(a) == Some("core.md"@));
        assert(topic_of_file("core.md"@) == Some("core"@)) by {
            reveal_strlit("core.md");
            reveal_strlit("help.md");
            assert("core.md"@[0] != "help.md"@[0]);
            reveal_strlit("changes.md");
            assert("core.md"@.len() != "changes.md"@.len());
            reveal_strlit("welcome.md");
            assert("core.md"@.len() != "welcome.md"@.len());
            reveal_strlit("logging.md");
            assert("core.md"@.len() != "logging.md"@.len());
            reveal_strlit("lua_blight.md");
            assert("core.md"@.len() != "lua_blight.md"@.len());
            reveal_strlit("bindings.md");
            assert("core.md"@.len() != "bindings.md"@.len());
        }
        assert("core.md"@.len() > 3 && "core.md"@.subrange(
            "core.md"@.len() - 3,
            "core.md"@.len() as int,
        ) =~= ".md"@) by {
            reveal_strlit("core.md");
        }
    } else if a == "tts"@ {
        assert(help_table(a) == Some("no_tts.md"@));
        assert(topic_of_file("no_tts.md"@) == Some("tts"@)) by {
            reveal_strlit("no_tts.md");
            reveal_strlit("help.md");
            assert("no_tts.md"@.len() != "help.md"@.len());
            reveal_strlit("changes.md");
            assert("no_tts.md"@.len() != "changes.md"@.len());
            reveal_strlit("welcome.md");
            assert("no_tts.md"@.len() != "welcome.md"@.len());
            reveal_strlit("logging.md");
            assert("no_tts.md"@.len() != "logging.md"@.len());
            reveal_strlit("lua_blight.md");
            assert("no_tts.md"@.len() != "lua_blight.md"@.len());
            reveal_strlit("bindings.md");
            assert("no_tts.md"@.len() != "bindings.md"@.len());
            reveal_strlit("core.md");
            assert("no_tts.md"@.len() != "core.md"@.len());
        }
        assert("no_tts.md"@.len() > 3 && "no_tts.md"@.subrange(
            "no_tts.md"@.len() - 3,
            "no_tts.md"@.len() as int,
        ) =~= ".md"@) by {
            reveal_strlit("no_tts.md");
        }
    } else if a == "status_area"@ {
        assert(help_table(a) == Some("lua_status_area.md"@));
        assert(topic_of_file("lua_status_area.md"@) == Some("status_area"@)) by {
            reveal_strlit("lua_status_area.md");
            reveal_strlit("help.md");
            assert("lua_status_area.md"@.len() != "help.md"@.len());
            reveal_strlit("changes.md");
            assert("lua_status_area.md"@.len() != "changes.md"@.len());
            reveal_strlit("welcome.md");
            assert("lua_status_area.md"@.len() != "welcome.md"@.len());
            reveal_strlit("logging.md");
            assert("lua_status_area.md"@.len() != "logging.md"@.len());
            reveal_strlit("lua_blight.md");
            assert("lua_status_area.md"@.len() != "lua_blight.md"@.len());
            reveal_strlit("bindings.md");
            assert("lua_status_area.md"@.len() != "bindings.md"@.len());
            reveal_strlit("core.md");
            assert("lua_status_area.md"@.len() != "core.md"@.len());
            reveal_strlit("no_tts.md");
            assert("lua_status_area.md"@.len() != "no_tts.md"@.len());
        }
        assert("lua_status_area.md"@.len() > 3 && "lua_status_area.md"@.subrange(
            "lua_status_area.md"@.len() - 3,
            "lua_status_area.md"@.len() as int,
        ) =~= ".md"@) by {
            reveal_strlit("lua_status_area.md");
        }
    } else if a == "alias"@ {
        assert(help_table(a) == Some("lua_aliases.md"@));
        assert(topic_of_file("lua_aliases.md"@) == Some("alias"@)) by {
            reveal_strlit("lua_aliases.md");
            reveal_strlit("help.md");
            assert("lua_aliases.md"@.len() != "help.md"@.len());
            reveal_strlit("changes.md");
            assert("lua_aliases.md"@.len() != "changes.md"@.len());
            reveal_strlit("welcome.md");
            assert("lua_aliases.md"@.len() != "welcome.md"@.len());
            reveal_strlit("logging.md");
            assert("lua_aliases.md"@.len() != "logging.md"@.len());
            reveal_strlit("lua_blight.md");
            assert("lua_aliases.md"@.len() != "lua_blight.md"@.len());
            reveal_strlit("bindings.md");
            assert("lua_aliases.md"@.len() != "bindings.md"@.len());
            reveal_strlit("core.md");
            assert("lua_aliases.md"@.len() != "core.md"@.len());
            reveal_strlit("no_tts.md");
            assert("lua_aliases.md"@.len() != "no_tts.md"@.len());
            reveal_strlit("lua_status_area.md");
            assert("lua_aliases.md"@.len() != "lua_status_area.md"@.len());
        }
        assert("lua_aliases.md"@.len() > 3 && "lua_aliases.md"@.subrange(
            "lua_aliases.md"@.len() - 3,
            "lua_aliases.md"@.len() as int,
        ) =~= ".md"@) by {
            reveal_strlit("lua_aliases.md");
        }
    } else if a == "config"@ {
        assert(help_table(a) == Some("lua_settings.md"@));
        assert(topic_of_file("lua_settings.md"@) == Some("config"@)) by {
            reveal_strlit("lua_settings.md");
            reveal_strlit("help.md");
            assert("lua_settings.md"@.len() != "help.md"@.len());
            reveal_strlit("changes.md");
            assert("lua_settings.md"@.len() != "changes.md"@.len());
            reveal_strlit("welcome.md");
            assert("lua_settings.md"@.len() != "welcome.md"@.len());
            reveal_strlit("logging.md");
            assert("lua_settings.md"@.len() != "logging.md"@.len());
            reveal_strlit("lua_blight.md");
            assert("lua_settings.md"@.len() != "lua_blight.md"@.len());
            reveal_strlit("bindings.md");
            assert("lua_settings.md"@.len() != "bindings.md"@.len());
            reveal_strlit("core.md");
            assert("lua_settings.md"@.len() != "core.md"@.len());
            reveal_strlit("no_tts.md");
            assert("lua_settings.md"@.len() != "no_tts.md"@.len());
            reveal_strlit("lua_status_area.md");
            assert("lua_settings.md"@.len() != "lua_status_area.md"@.len());
            reveal_strlit("lua_aliases.md");
            assert("lua_settings.md"@.len() != "lua_aliases.md"@.len());
        }
        assert("lua_settings.md"@.len() > 3 && "lua_settings.md"@.subrange(
            "lua_settings.md"@.len() - 3,
            "lua_settings.md"@.len() as int,
        ) =~= ".md"@) by {
            reveal_strlit("lua_settings.md");
        }
    } else if a == "script"@ {
        assert(help_table(a) == Some("script.md"@));
        assert(topic_of_file("script.md"@) == Some("script"@)) by {
            reveal_strlit("script.md");
            reveal_strlit("help.md");
            assert("script.md"@.len() != "help.md"@.len());
            reveal_strlit("changes.md");
            assert("script.md"@.len() != "changes.md"@.len());
            reveal_strlit("welcome.md");
            assert("script.md"@.len() != "welcome.md"@.len());
            reveal_strlit("logging.md");
            assert("script.md"@.len() != "logging.md"@.len());
            reveal_strlit("lua_blight.md");
            assert("script.md"@.len() != "lua_blight.md"@.len());
            reveal_strlit("bindings.md");
            assert("script.md"@.len() != "bindings.md"@.len());
            reveal_strlit("core.md");
            assert("script.md"@.len() != "core.md"@.len());
            reveal_strlit("no_tts.md");
            assert("script.md"@[0] != "no_tts.md"@[0]);
            reveal_strlit("lua_status_area.md");
            assert("script.md"@.len() != "lua_status_area.md"@.len());
            reveal_strlit("lua_aliases.md");
            assert("script.md"@.len() != "lua_aliases.md"@.len());
            reveal_strlit("lua_settings.md");
            assert("script.md"@.len() != "lua_settings.md"@.len());
        }
        assert("script.md"@.len() > 3 && "script.md"@.subrange(
            "script.md"@.len() - 3,
            "script.md"@.len() as int,
        ) =~= ".md"@) by {
            reveal_strlit("script.md");
        }
    } else if a == "trigger"@ {
        assert(help_table(a) == Some("lua_trigger.md"@));
        assert(topic_of_file("lua_trigger.md"@) == Some("trigger"@)) by {
            reveal_strlit("lua_trigger.md");
            reveal_strlit("help.md");
            assert("lua_trigger.md"@.len() != "help.md"@.len());
            reveal_strlit("changes.md");
            assert("lua_trigger.md"@.len() != "changes.md"@.len());
            reveal_strlit("welcome.md");
            assert("lua_trigger.md"@.len() != "welcome.md"@.len());
            reveal_strlit("logging.md");
            assert("lua_trigger.md"@.len() != "logging.md"@.len());
            reveal_strlit("lua_blight.md");
            assert("lua_trigger.md"@.len() != "lua_blight.md"@.len());
            reveal_strlit("bindings.md");
            assert("lua_trigger.md"@.len() != "bindings.md"@.len());
            reveal_strlit("core.md");
            assert("lua_trigger.md"@.len() != "core.md"@.len());
            reveal_strlit("no_tts.md");
            assert("lua_trigger.md"@.len() != "no_tts.md"@.len());
            reveal_strlit("lua_status_area.md");
            assert("lua_trigger.md"@.len() != "lua_status_area.md"@.len());
            reveal_strlit("lua_aliases.md");
            assert("lua_trigger.md"@[4] != "lua_aliases.md"@[4]);
            reveal_strlit("lua_settings.md");
            assert("lua_trigger.md"@.len() != "lua_settings.md"@.len());
            reveal_strlit("script.md");
            assert("lua_trigger.md"@.len() != "script.md"@.len());
        }
        assert("lua_trigger.md"@.len() > 3 && "lua_trigger.md"@.subrange(
            "lua_trigger.md"@.len() - 3,
            "lua_trigger.md"@.len() as int,
        ) =~= ".md"@) by {
            reveal_strlit("lua_trigger.md");
        }
    } else if a == "timers"@ {
        assert(help_table(a) == Some("lua_timers.md"@));
        assert(topic_of_file("lua_timers.md"@) == Some("timers"@)) by {
            reveal_strlit("lua_timers.md");
            reveal_strlit("help.md");
            assert("lua_timers.md"@.len() != "help.md"@.len());
            reveal_strlit("changes.md");
            assert("lua_timers.md"@.len() != "changes.md"@.len());
            reveal_strlit("welcome.md");
            assert("lua_timers.md"@.len() != "welcome.md"@.len());
            reveal_strlit("logging.md");
            assert("lua_timers.md"@.len() != "logging.md"@.len());
            reveal_strlit("lua_blight.md");
            assert("lua_timers.md"@[4] != "lua_blight.md"@[4]);
            reveal_strlit("bindings.md");
            assert("lua_timers.md"@.len() != "bindings.md"@.len());
            reveal_strlit("core.md");
            assert("lua_timers.md"@.len() != "core.md"@.len());
            reveal_strlit("no_tts.md");
            assert("lua_timers.md"@.len() != "no_tts.md"@.len());
            reveal_strlit("lua_status_area.md");
            assert("lua_timers.md"@.len() != "lua_status_area.md"@.len());
            reveal_strlit("lua_aliases.md");
            assert("lua_timers.md"@.len() != "lua_aliases.md"@.len());
            reveal_strlit("lua_settings.md");
            assert("lua_timers.md"@.len() != "lua_settings.md"@.len());
            reveal_strlit("script.md");
            assert("lua_timers.md"@.len() != "script.md"@.len());
            reveal_strlit("lua_trigger.md");
            assert("lua_timers.md"@.len() != "lua_trigger.md"@.len());
        }
        assert("lua_timers.md"@.len() > 3 && "lua_timers.md"@.subrange(
            "lua_timers.md"@.len() - 3,
            "lua_timers.md"@.len() as int,
        ) =~= ".md"@) by {
            reveal_strlit("lua_timers.md");
        }
    } else if a == "gmcp"@ {
        assert(help_table(a) == Some("lua_gmcp.md"@));
        assert(topic_of_file("lua_gmcp.md"@) == Some("gmcp"@)) by {
            reveal_strlit("lua_gmcp.md");
            reveal_strlit("help.md");
            assert("lua_gmcp.md"@.len() != "help.md"@.len());
            reveal_strlit("changes.md");
            assert("lua_gmcp.md"@.len() != "changes.md"@.len());
            reveal_strlit("welcome.md");
            assert("lua_gmcp.md"@.len() != "welcome.md"@.len());
            reveal_strlit("logging.md");
            assert("lua_gmcp.md"@.len() != "logging.md"@.len());
            reveal_strlit("lua_blight.md");
            assert("lua_gmcp.md"@.len() != "lua_blight.md"@.len());
            reveal_strlit("bindings.md");
            assert("lua_gmcp.md"@[0] != "bindings.md"@[0]);
            reveal_strlit("core.md");
            assert("lua_gmcp.md"@.len() != "core.md"@.len());
            reveal_strlit("no_tts.md");
            assert("lua_gmcp.md"@.len() != "no_tts.md"@.len());
            reveal_strlit("lua_status_area.md");
            assert("lua_gmcp.md"@.len() != "lua_status_area.md"@.len());
            reveal_strlit("lua_aliases.md");
            assert("lua_gmcp.md"@.len() != "lua_aliases.md"@.len());
            reveal_strlit("lua_settings.md");
            assert("lua_gmcp.md"@.len() != "lua_settings.md"@.len());
            reveal_strlit("script.md");
            assert("lua_gmcp.md"@.len() != "script.md"@.len());
            reveal_strlit("lua_trigger.md");
            assert("lua_gmcp.md"@.len() != "lua_trigger.md"@.len());
            reveal_strlit("lua_timers.md");
            assert("lua_gmcp.md"@.len() != "lua_timers.md"@.len());
        }
        assert("lua_gmcp.md"@.len() > 3 && "lua_gmcp.md"@.subrange(
            "lua_gmcp.md"@.len() - 3,
            "lua_gmcp.md"@.len() as int,
        ) =~= ".md"@) by {
            reveal_strlit("lua_gmcp.md");
        }
    } else if a == "msdp"@ {
        assert(help_table(a) == Some("msdp.md"@));
        assert(topic_of_file("msdp.md"@) == Some("msdp"@)) by {
            reveal_strlit("msdp.md");
            reveal_strlit("help.md");
            assert("msdp.md"@[0] != "help.md"@[0]);
            reveal_strlit("changes.md");
            assert("msdp.md"@.len() != "changes.md"@.len());
            reveal_strlit("welcome.md");
            assert("msdp.md"@.len() != "welcome.md"@.len());
            reveal_strlit("logging.md");
            assert("msdp.md"@.len() != "logging.md"@.len());
            reveal_strlit("lua_blight.md");
            assert("msdp.md"@.len() != "lua_blight.md"@.len());
            reveal_strlit("bindings.md");
            assert("msdp.md"@.len() != "bindings.md"@.len());
            reveal_strlit("core.md");
            assert("msdp.md"@[0] != "core.md"@[0]);
            reveal_strlit("no_tts.md");
            assert("msdp.md"@.len() != "no_tts.md"@.len());
            reveal_strlit("lua_status_area.md");
            assert("msdp.md"@.len() != "lua_status_area.md"@.len());
            reveal_strlit("lua_aliases.md");
            assert("msdp.md"@.len() != "lua_aliases.md"@.len());
            reveal_strlit("lua_settings.md");
            assert("msdp.md"@.len() != "lua_settings.md"@.len());
            reveal_strlit("script.md");
            assert("msdp.md"@.len() != "script.md"@.len());
            reveal_strlit("lua_trigger.md");
            assert("msdp.md"@.len() != "lua_trigger.md"@.len());
            reveal_strlit("lua_timers.md");
            assert("msdp.md"@.len() != "lua_timers.md"@.len());
            reveal_strlit("lua_gmcp.md");
            assert("msdp.md"@.len() != "lua_gmcp.md"@.len());
        }
        assert("msdp.md"@.len() > 3 && "msdp.md"@.subrange(
            "msdp.md"@.len() - 3,
            "msdp.md"@.len() as int,
        ) =~= ".md"@) by {
            reveal_strlit("msdp.md");
        }
    } else if a == "regex"@ {
        assert(help_table(a) == Some("regex.md"@));
        assert(topic_of_file("regex.md"@) == Some("regex"@)) by {
            reveal_strlit("regex.md");
            reveal_strlit("help.md");
            assert("regex.md"@.len() != "help.md"@.len());
            reveal_strlit("changes.md");
            assert("regex.md"@.len() != "changes.md"@.len());
            reveal_strlit("welcome.md");
            assert("regex.md"@.len() != "welcome.md"@.len());
            reveal_strlit("logging.md");
            assert("regex.md"@.len() != "logging.md"@.len());
            reveal_strlit("lua_blight.md");
            assert("regex.md"@.len() != "lua_blight.md"@.len());
            reveal_strlit("bindings.md");
            assert("regex.md"@.len() != "bindings.md"@.len());
            reveal_strlit("core.md");
            assert("regex.md"@.len() != "core.md"@.len());
            reveal_strlit("no_tts.md");
            assert("regex.md"@.len() != "no_tts.md"@.len());
            reveal_strlit("lua_status_area.md");
            assert("regex.md"@.len() != "lua_status_area.md"@.len());
            reveal_strlit("lua_aliases.md");
            assert("regex.md"@.len() != "lua_aliases.md"@.len());
            reveal_strlit("lua_settings.md");
            assert("regex.md"@.len() != "lua_settings.md"@.len());
            reveal_strlit("script.md");
            assert("regex.md"@.len() != "script.md"@.len());
            reveal_strlit("lua_trigger.md");
            assert("regex.md"@.len() != "lua_trigger.md"@.len());
            reveal_strlit("lua_timers.md");
            assert("regex.md"@.len() != "lua_timers.md"@.len());
            reveal_strlit("lua_gmcp.md");
            assert("regex.md"@.len() != "lua_gmcp.md"@.len());
            reveal_strlit("msdp.md");
            assert("regex.md"@.len() != "msdp.md"@.len());
        }
        assert("regex.md"@.len() > 3 && "regex.md"@.subrange(
            "regex.md"@.len() - 3,
            "regex.md"@.len() as int,
        ) =~= ".md"@) by {
            reveal_strlit("regex.md");
        }
    } else if a == "line"@ {
        assert(help_table(a) == Some("line.md"@));
        assert(topic_of_file("line.md"@) == Some("line"@)) by {
            reveal_strlit("line.md");
            reveal_strlit("help.md");
            assert("line.md"@[0] != "help.md"@[0]);
            reveal_strlit("changes.md");
            assert("line.md"@.len() != "changes.md"@.len());
            reveal_strlit("welcome.md");
            assert("line.md"@.len() != "welcome.md"@.len());
            reveal_strlit("logging.md");
            assert("line.md"@.len() != "logging.md"@.len());
            reveal_strlit("lua_blight.md");
            assert("line.md"@.len() != "lua_blight.md"@.len());
            reveal_strlit("bindings.md");
            assert("line.md"@.len() != "bindings.md"@.len());
            reveal_strlit("core.md");
            assert("line.md"@[0] != "core.md"@[0]);
            reveal_strlit("no_tts.md");
            assert("line.md"@.len() != "no_tts.md"@.len());
            reveal_strlit("lua_status_area.md");
            assert("line.md"@.len() != "lua_status_area.md"@.len());
            reveal_strlit("lua_aliases.md");
            assert("line.md"@.len() != "lua_aliases.md"@.len());
            reveal_strlit("lua_settings.md");
            assert("line.md"@.len() != "lua_settings.md"@.len());
            reveal_strlit("script.md");
            assert("line.md"@.len() != "script.md"@.len());
            reveal_strlit("lua_trigger.md");
            assert("line.md"@.len() != "lua_trigger.md"@.len());
            reveal_strlit("lua_timers.md");
            assert("line.md"@.len() != "lua_timers.md"@.len());
            reveal_strlit("lua_gmcp.md");
            assert("line.md"@.len() != "lua_gmcp.md"@.len());
            reveal_strlit("msdp.md");
            assert("line.md"@[0] != "msdp.md"@[0]);
            reveal_strlit("regex.md");
            assert("line.md"@.len() != "regex.md"@.len());
        }
        assert("line.md"@.len() > 3 && "line.md"@.subrange(
            "line.md"@.len() - 3,
            "line.md"@.len() as int,
        ) =~= ".md"@) by {
            reveal_strlit("line.md");
        }
    } else if a == "mud"@ {
        assert(help_table(a) == Some("mud.md"@));
        assert(topic_of_file("mud.md"@) == Some("mud"@)) by {
            reveal_strlit("mud.md");
            reveal_strlit("help.md");
            assert("mud.md"@.len() != "help.md"@.len());
            reveal_strlit("changes.md");
            assert("mud.md"@.len() != "changes.md"@.len());
            reveal_strlit("welcome.md");
            assert("mud.md"@.len() != "welcome.md"@.len());
            reveal_strlit("logging.md");
            assert("mud.md"@.len() != "logging.md"@.len());
            reveal_strlit("lua_blight.md");
            assert("mud.md"@.len() != "lua_blight.md"@.len());
            reveal_strlit("bindings.md");
            assert("mud.md"@.len() != "bindings.md"@.len());
            reveal_strlit("core.md");
            assert("mud.md"@.len() != "core.md"@.len());
            reveal_strlit("no_tts.md");
            assert("mud.md"@.len() != "no_tts.md"@.len());
            reveal_strlit("lua_status_area.md");
            assert("mud.md"@.len() != "lua_status_area.md"@.len());
            reveal_strlit("lua_aliases.md");
            assert("mud.md"@.len() != "lua_aliases.md"@.len());
            reveal_strlit("lua_settings.md");
            assert("mud.md"@.len() != "lua_settings.md"@.len());
            reveal_strlit("script.md");
            assert("mud.md"@.len() != "script.md"@.len());
            reveal_strlit("lua_trigger.md");
            assert("mud.md"@.len() != "lua_trigger.md"@.len());
            reveal_strlit("lua_timers.md");
            assert("mud.md"@.len() != "lua_timers.md"@.len());
            reveal_strlit("lua_gmcp.md");
            assert("mud.md"@.len() != "lua_gmcp.md"@.len());
            reveal_strlit("msdp.md");
            assert("mud.md"@.len() != "msdp.md"@.len());
            reveal_strlit("regex.md");
            assert("mud.md"@.len() != "regex.md"@.len());
            reveal_strlit("line.md");
            assert("mud.md"@.len() != "line.md"@.len());
        }
        assert("mud.md"@.len() > 3 && "mud.md"@.subrange(
            "mud.md"@.len() - 3,
            "mud.md"@.len() as int,
        ) =~= ".md"@) by {
            reveal_strlit("mud.md");
        }
    } else if a == "audio"@ {
        assert(help_table(a) == Some("audio.md"@));
        assert(topic_of_file("audio.md"@) == Some("audio"@)) by {
            reveal_strlit("audio.md");
            reveal_strlit("help.md");
            assert("audio.md"@.len() != "help.md"@.len());
            reveal_strlit("changes.md");
            assert("audio.md"@.len() != "changes.md"@.len());
            reveal_strlit("welcome.md");
            assert("audio.md"@.len() != "welcome.md"@.len());
            reveal_strlit("logging.md");
            assert("audio.md"@.len() != "logging.md"@.len());
            reveal_strlit("lua_blight.md");
            assert("audio.md"@.len() != "lua_blight.md"@.len());
            reveal_strlit("bindings.md");
            assert("audio.md"@.len() != "bindings.md"@.len());
            reveal_strlit("core.md");
            assert("audio.md"@.len() != "core.md"@.len());
            reveal_strlit("no_tts.md");
            assert("audio.md"@.len() != "no_tts.md"@.len());
            reveal_strlit("lua_status_area.md");
            assert("audio.md"@.len() != "lua_status_area.md"@.len());
            reveal_strlit("lua_aliases.md");
            assert("audio.md"@.len() != "lua_aliases.md"@.len());
            reveal_strlit("lua_settings.md");
            assert("audio.md"@.len() != "lua_settings.md"@.len());
            reveal_strlit("script.md");
            assert("audio.md"@.len() != "script.md"@.len());
            reveal_strlit("lua_trigger.md");
            assert("audio.md"@.len() != "lua_trigger.md"@.len());
            reveal_strlit("lua_timers.md");
            assert("audio.md"@.len() != "lua_timers.md"@.len());
            reveal_strlit("lua_gmcp.md");
            assert("audio.md"@.len() != "lua_gmcp.md"@.len());
            reveal_strlit("msdp.md");
            assert("audio.md"@.len() != "msdp.md"@.len());
            reveal_strlit("regex.md");
            assert("audio.md"@[0] != "regex.md"@[0]);
            reveal_strlit("line.md");
            assert("audio.md"@.len() != "line.md"@.len());
            reveal_strlit("mud.md");
            assert("audio.md"@.len() != "mud.md"@.len());
        }
        assert("audio.md"@.len() > 3 && "audio.md"@.subrange(
            "audio.md"@.len() - 3,
            "audio.md"@.len() as int,
        ) =~= ".md"@) by {
            reveal_strlit("audio.md");
        }
    } else if a == "log"@ {
        assert(help_table(a) == Some("log.md"@));
        assert(topic_of_file("log.md"@) == Some("log"@)) by {
            reveal_strlit("log.md");
            reveal_strlit("help.md");
            assert("log.md"@.len() != "help.md"@.len());
            reveal_strlit("changes.md");
            assert("log.md"@.len() != "changes.md"@.len());
            reveal_strlit("welcome.md");
            assert("log.md"@.len() != "welcome.md"@.len());
            reveal_strlit("logging.md");
            assert("log.md"@.len() != "logging.md"@.len());
            reveal_strlit("lua_blight.md");
            assert("log.md"@.len() != "lua_blight.md"@.len());
            reveal_strlit("bindings.md");
            assert("log.md"@.len() != "bindings.md"@.len());
            reveal_strlit("core.md");
            assert("log.md"@.len() != "core.md"@.len());
            reveal_strlit("no_tts.md");
            assert("log.md"@.len() != "no_tts.md"@.len());
            reveal_strlit("lua_status_area.md");
            assert("log.md"@.len() != "lua_status_area.md"@.len());
            reveal_strlit("lua_aliases.md");
            assert("log.md"@.len() != "lua_aliases.md"@.len());
            reveal_strlit("lua_settings.md");
            assert("log.md"@.len() != "lua_settings.md"@.len());
            reveal_strlit("script.md");
            assert("log.md"@.len() != "script.md"@.len());
            reveal_strlit("lua_trigger.md");
            assert("log.md"@.len() != "lua_trigger.md"@.len());
            reveal_strlit("lua_timers.md");
            assert("log.md"@.len() != "lua_timers.md"@.len());
            reveal_strlit("lua_gmcp.md");
            assert("log.md"@.len() != "lua_gmcp.md"@.len());
            reveal_strlit("msdp.md");
            assert("log.md"@.len() != "msdp.md"@.len());
            reveal_strlit("regex.md");
            assert("log.md"@.len() != "regex.md"@.len());
            reveal_strlit("line.md");
            assert("log.md"@.len() != "line.md"@.len());
            reveal_strlit("mud.md");
            assert("log.md"@[0] != "mud.md"@[0]);
            reveal_strlit("audio.md");
            assert("log.md"@.len() != "audio.md"@.len());
        }
        assert("log.md"@.len() > 3 && "log.md"@.subrange(
            "log.md"@.len() - 3,
            "log.md"@.len() as int,
        ) =~= ".md"@) by {
            reveal_strlit("log.md");
        }
    } else if a == "config_scripts"@ {
        assert(help_table(a) == Some("config_scripts.md"@));
        assert(topic_of_file("config_scripts.md"@) == Some("config_scripts"@)) by {
            reveal_strlit("config_scripts.md");
            reveal_strlit("help.md");
            assert("config_scripts.md"@.len() != "help.md"@.len());
            reveal_strlit("changes.md");
            assert("config_scripts.md"@.len() != "changes.md"@.len());
            reveal_strlit("welcome.md");
            assert("config_scripts.md"@.len() != "welcome.md"@.len());
            reveal_strlit("logging.md");
            assert("config_scripts.md"@.len() != "logging.md"@.len());
            reveal_strlit("lua_blight.md");
            assert("config_scripts.md"@.len() != "lua_blight.md"@.len());
            reveal_strlit("bindings.md");
            assert("config_scripts.md"@.len() != "bindings.md"@.len());
            reveal_strlit("core.md");
            assert("config_scripts.md"@.len() != "core.md"@.len());
            reveal_strlit("no_tts.md");
            assert("config_scripts.md"@.len() != "no_tts.md"@.len());
            reveal_strlit("lua_status_area.md");
            assert("config_scripts.md"@.len() != "lua_status_area.md"@.len());
            reveal_strlit("lua_aliases.md");
            assert("config_scripts.md"@.len() != "lua_aliases.md"@.len());
            reveal_strlit("lua_settings.md");
            assert("config_scripts.md"@.len() != "lua_settings.md"@.len());
            reveal_strlit("script.md");
            assert("config_scripts.md"@.len() != "script.md"@.len());
            reveal_strlit("lua_trigger.md");
            assert("config_scripts.md"@.len() != "lua_trigger.md"@.len());
            reveal_strlit("lua_timers.md");
            assert("config_scripts.md"@.len() != "lua_timers.md"@.len());
            reveal_strlit("lua_gmcp.md");
            assert("config_scripts.md"@.len() != "lua_gmcp.md"@.len());
            reveal_strlit("msdp.md");
            assert("config_scripts.md"@.len() != "msdp.md"@.len());
            reveal_strlit("regex.md");
            assert("config_scripts.md"@.len() != "regex.md"@.len());
            reveal_strlit("line.md");
            assert("config_scripts.md"@.len() != "line.md"@.len());
            reveal_strlit("mud.md");
            assert("config_scripts.md"@.len() != "mud.md"@.len());
            reveal_strlit("audio.md");
            assert("config_scripts.md"@.len() != "audio.md"@.len());
            reveal_strlit("log.md");
            assert("config_scripts.md"@.len() != "log.md"@.len());
        }
        assert("config_scripts.md"@.len() > 3 && "config_scripts.md"@.subrange(
            "config_scripts.md"@.len() - 3,
            "config_scripts.md"@.len() as int,
        ) =~= ".md"@) by {
            reveal_strlit("config_scripts.md");
        }
    } else if a == "scripting"@ {
        assert(help_table(a) == Some("scripting.md"@));
        assert(topic_of_file("scripting.md"@) == Some("scripting"@)) by {
            reveal_strlit("scripting.md");
            reveal_strlit("help.md");
            assert("scripting.md"@.len() != "help.md"@.len());
            reveal_strlit("changes.md");
            assert("scripting.md"@.len() != "changes.md"@.len());
            reveal_strlit("welcome.md");
            assert("scripting.md"@.len() != "welcome.md"@.len());
            reveal_strlit("logging.md");
            assert("scripting.md"@.len() != "logging.md"@.len());
            reveal_strlit("lua_blight.md");
            assert("scripting.md"@.len() != "lua_blight.md"@.len());
            reveal_strlit("bindings.md");
            assert("scripting.md"@.len() != "bindings.md"@.len());
            reveal_strlit("core.md");
            assert("scripting.md"@.len() != "core.md"@.len());
            reveal_strlit("no_tts.md");
            assert("scripting.md"@.len() != "no_tts.md"@.len());
            reveal_strlit("lua_status_area.md");
            assert("scripting.md"@.len() != "lua_status_area.md"@.len());
            reveal_strlit("lua_aliases.md");
            assert("scripting.md"@.len() != "lua_aliases.md"@.len());
            reveal_strlit("lua_settings.md");
            assert("scripting.md"@.len() != "lua_settings.md"@.len());
            reveal_strlit("script.md");
            assert("scripting.md"@.len() != "script.md"@.len());
            reveal_strlit("lua_trigger.md");
            assert("scripting.md"@.len() != "lua_trigger.md"@.len());
            reveal_strlit("lua_timers.md");
            assert("scripting.md"@.len() != "lua_timers.md"@.len());
            reveal_strlit("lua_gmcp.md");
            assert("scripting.md"@.len() != "lua_gmcp.md"@.len());
            reveal_strlit("msdp.md");
            assert("scripting.md"@.len() != "msdp.md"@.len());
            reveal_strlit("regex.md");
            assert("scripting.md"@.len() != "regex.md"@.len());
            reveal_strlit("line.md");
            assert("scripting.md"@.len() != "line.md"@.len());
            reveal_strlit("mud.md");
            assert("scripting.md"@.len() != "mud.md"@.len());
            reveal_strlit("audio.md");
            assert("scripting.md"@.len() != "audio.md"@.len());
            reveal_strlit("log.md");
            assert("scripting.md"@.len() != "log.md"@.len());
            reveal_strlit("config_scripts.md");
            assert("scripting.md"@.len() != "config_scripts.md"@.len());
        }
        assert("scripting.md"@.len() > 3 && "scripting.md"@.subrange(
            "scripting.md"@.len() - 3,
            "scripting.md"@.len() as int,
        ) =~= ".md"@) by {
            reveal_strlit("scripting.md");
        }
    } else if a == "settings"@ {
        assert(help_table(a) == Some("settings.md"@));
        assert(topic_of_file("settings.md"@) == Some("settings"@)) by {
            reveal_strlit("settings.md");
            reveal_strlit("help.md");
            assert("settings.md"@.len() != "help.md"@.len());
            reveal_strlit("changes.md");
            assert("settings.md"@.len() != "changes.md"@.len());
            reveal_strlit("welcome.md");
            assert("settings.md"@.len() != "welcome.md"@.len());
            reveal_strlit("logging.md");
            assert("settings.md"@.len() != "logging.md"@.len());
            reveal_strlit("lua_blight.md");
            assert("settings.md"@.len() != "lua_blight.md"@.len());
            reveal_strlit("bindings.md");
            assert("settings.md"@[0] != "bindings.md"@[0]);
            reveal_strlit("core.md");
            assert("settings.md"@.len() != "core.md"@.len());
            reveal_strlit("no_tts.md");
            assert("settings.md"@.len() != "no_tts.md"@.len());
            reveal_strlit("lua_status_area.md");
            assert("settings.md"@.len() != "lua_status_area.md"@.len());
            reveal_strlit("lua_aliases.md");
            assert("settings.md"@.len() != "lua_aliases.md"@.len());
            reveal_strlit("lua_settings.md");
            assert("settings.md"@.len() != "lua_settings.md"@.len());
            reveal_strlit("script.md");
            assert("settings.md"@.len() != "script.md"@.len());
            reveal_strlit("lua_trigger.md");
            assert("settings.md"@.len() != "lua_trigger.md"@.len());
            reveal_strlit("lua_timers.md");
            assert("settings.md"@.len() != "lua_timers.md"@.len());
            reveal_strlit("lua_gmcp.md");
            assert("settings.md"@[0] != "lua_gmcp.md"@[0]);
            reveal_strlit("msdp.md");
            assert("settings.md"@.len() != "msdp.md"@.len());
            reveal_strlit("regex.md");
            assert("settings.md"@.len() != "regex.md"@.len());
            reveal_strlit("line.md");
            assert("settings.md"@.len() != "line.md"@.len());
            reveal_strlit("mud.md");
            assert("settings.md"@.len() != "mud.md"@.len());
            reveal_strlit("audio.md");
            assert("settings.md"@.len() != "audio.md"@.len());
            reveal_strlit("log.md");
            assert("settings.md"@.len() != "log.md"@.len());
            reveal_strlit("config_scripts.md");
            assert("settings.md"@.len() != "config_scripts.md"@.len());
            reveal_strlit("scripting.md");
            assert("settings.md"@.len() != "scripting.md"@.len());
        }
        assert("settings.md"@.len() > 3 && "settings.md"@.subrange(
            "settings.md"@.len() - 3,
            "settings.md"@.len() as int,
        ) =~= ".md"@) by {
            reveal_strlit("settings.md");
        }
    } else if a == "storage"@ {
        assert(help_table(a) == Some("lua_storage.md"@));
        assert(topic_of_file("lua_storage.md"@) == Some("storage"@)) by {
            reveal_strlit("lua_storage.md");
            reveal_strlit("help.md");
            assert("lua_storage.md"@.len() != "help.md"@.len());
            reveal_strlit("changes.md");
            assert("lua_storage.md"@.len() != "changes.md"@.len());
            reveal_strlit("welcome.md");
            assert("lua_storage.md"@.len() != "welcome.md"@.len());
            reveal_strlit("logging.md");
            assert("lua_storage.md"@.len() != "logging.md"@.len());
            reveal_strlit("lua_blight.md");
            assert("lua_storage.md"@.len() != "lua_blight.md"@.len());
            reveal_strlit("bindings.md");
            assert("lua_storage.md"@.len() != "bindings.md"@.len());
            reveal_strlit("core.md");
            assert("lua_storage.md"@.len() != "core.md"@.len());
            reveal_strlit("no_tts.md");
            assert("lua_storage.md"@.len() != "no_tts.md"@.len());
            reveal_strlit("lua_status_area.md");
            assert("lua_storage.md"@.len() != "lua_status_area.md"@.len());
            reveal_strlit("lua_aliases.md");
            assert("lua_storage.md"@[4] != "lua_aliases.md"@[4]);
            reveal_strlit("lua_settings.md");
            assert("lua_storage.md"@.len() != "lua_settings.md"@.len());
            reveal_strlit("script.md");
            assert("lua_storage.md"@.len() != "script.md"@.len());
            reveal_strlit("lua_trigger.md");
            assert("lua_storage.md"@[4] != "lua_trigger.md"@[4]);
            reveal_strlit("lua_timers.md");
            assert("lua_storage.md"@.len() != "lua_timers.md"@.len());
            reveal_strlit("lua_gmcp.md");
            assert("lua_storage.md"@.len() != "lua_gmcp.md"@.len());
            reveal_strlit("msdp.md");
            assert("lua_storage.md"@.len() != "msdp.md"@.len());
            reveal_strlit("regex.md");
            assert("lua_storage.md"@.len() != "regex.md"@.len());
            reveal_strlit("line.md");
            assert("lua_storage.md"@.len() != "line.md"@.len());
            reveal_strlit("mud.md");
            assert("lua_storage.md"@.len() != "mud.md"@.len());
            reveal_strlit("audio.md");
            assert("lua_storage.md"@.len() != "audio.md"@.len());
            reveal_strlit("log.md");
            assert("lua_storage.md"@.len() != "log.md"@.len());
            reveal_strlit("config_scripts.md");
            assert("lua_storage.md"@.len() != "config_scripts.md"@.len());
            reveal_strlit("scripting.md");
            assert("lua_storage.md"@.len() != "scripting.md"@.len());
            reveal_strlit("settings.md");
            assert("lua_storage.md"@.len() != "settings.md"@.len());
        }
        assert("lua_storage.md"@.len() > 3 && "lua_storage.md"@.subrange(
            "lua_storage.md"@.len() - 3,
            "lua_storage.md"@.len() as int,
        ) =~= ".md"@) by {
            reveal_strlit("lua_storage.md");
        }
    } else if a == "colors"@ {
        assert(help_table(a) == Some("lua_colors.md"@));
        assert(topic_of_file("lua_colors.md"@) == Some("colors"@)) by {
            reveal_strlit("lua_colors.md");
            reveal_strlit("help.md");
            assert("lua_colors.md"@.len() != "help.md"@.len());
            reveal_strlit("changes.md");
            assert("lua_colors.md"@.len() != "changes.md"@.len());
            reveal_strlit("welcome.md");
            assert("lua_colors.md"@.len() != "welcome.md"@.len());
            reveal_strlit("logging.md");
            assert("lua_colors.md"@.len() != "logging.md"@.len());
            reveal_strlit("lua_blight.md");
            assert("lua_colors.md"@[4] != "lua_blight.md"@[4]);
            reveal_strlit("bindings.md");
            assert("lua_colors.md"@.len() != "bindings.md"@.len());
            reveal_strlit("core.md");
            assert("lua_colors.md"@.len() != "core.md"@.len());
            reveal_strlit("no_tts.md");
            assert("lua_colors.md"@.len() != "no_tts.md"@.len());
            reveal_strlit("lua_status_area.md");
            assert("lua_colors.md"@.len() != "lua_status_area.md"@.len());
            reveal_strlit("lua_aliases.md");
            assert("lua_colors.md"@.len() != "lua_aliases.md"@.len());
            reveal_strlit("lua_settings.md");
            assert("lua_colors.md"@.len() != "lua_settings.md"@.len());
            reveal_strlit("script.md");
            assert("lua_colors.md"@.len() != "script.md"@.len());
            reveal_strlit("lua_trigger.md");
            assert("lua_colors.md"@.len() != "lua_trigger.md"@.len());
            reveal_strlit("lua_timers.md");
            assert("lua_colors.md"@[4] != "lua_timers.md"@[4]);
            reveal_strlit("lua_gmcp.md");
            assert("lua_colors.md"@.len() != "lua_gmcp.md"@.len());
            reveal_strlit("msdp.md");
            assert("lua_colors.md"@.len() != "msdp.md"@.len());
            reveal_strlit("regex.md");
            assert("lua_colors.md"@.len() != "regex.md"@.len());
            reveal_strlit("line.md");
            assert("lua_colors.md"@.len() != "line.md"@.len());
            reveal_strlit("mud.md");
            assert("lua_colors.md"@.len() != "mud.md"@.len());
            reveal_strlit("audio.md");
            assert("lua_colors.md"@.len() != "audio.md"@.len());
            reveal_strlit("log.md");
            assert("lua_colors.md"@.len() != "log.md"@.len());
            reveal_strlit("config_scripts.md");
            assert("lua_colors.md"@.len() != "config_scripts.md"@.len());
            reveal_strlit("scripting.md");
            assert("lua_colors.md"@.len() != "scripting.md"@.len());
            reveal_strlit("settings.md");
            assert("lua_colors.md"@.len() != "settings.md"@.len());
            reveal_strlit("lua_storage.md");
            assert("lua_colors.md"@.len() != "lua_storage.md"@.len());
        }
        assert("lua_colors.md"@.len() > 3 && "lua_colors.md"@.subrange(
            "lua_colors.md"@.len() - 3,
            "lua_colors.md"@.len() as int,
        ) =~= ".md"@) by {
            reveal_strlit("lua_colors.md");
        }
    } else if a == "tasks"@ {
        assert(help_table(a) == Some("lua_tasks.md"@));
        assert(topic_of_file("lua_tasks.md"@) == Some("tasks"@)) by {
            reveal_strlit("lua_tasks.md");
            reveal_strlit("help.md");
            assert("lua_tasks.md"@.len() != "help.md"@.len());
            reveal_strlit("changes.md");
            assert("lua_tasks.md"@.len() != "changes.md"@.len());
            reveal_strlit("welcome.md");
            assert("lua_tasks.md"@.len() != "welcome.md"@.len());
            reveal_strlit("logging.md");
            assert("lua_tasks.md"@.len() != "logging.md"@.len());
            reveal_strlit("lua_blight.md");
            assert("lua_tasks.md"@.len() != "lua_blight.md"@.len());
            reveal_strlit("bindings.md");
            assert("lua_tasks.md"@.len() != "bindings.md"@.len());
            reveal_strlit("core.md");
            assert("lua_tasks.md"@.len() != "core.md"@.len());
            reveal_strlit("no_tts.md");
            assert("lua_tasks.md"@.len() != "no_tts.md"@.len());
            reveal_strlit("lua_status_area.md");
            assert("lua_tasks.md"@.len() != "lua_status_area.md"@.len());
            reveal_strlit("lua_aliases.md");
            assert("lua_tasks.md"@.len() != "lua_aliases.md"@.len());
            reveal_strlit("lua_settings.md");
            assert("lua_tasks.md"@.len() != "lua_settings.md"@.len());
            reveal_strlit("script.md");
            assert("lua_tasks.md"@.len() != "script.md"@.len());
            reveal_strlit("lua_trigger.md");
            assert("lua_tasks.md"@.len() != "lua_trigger.md"@.len());
            reveal_strlit("lua_timers.md");
            assert("lua_tasks.md"@.len() != "lua_timers.md"@.len());
            reveal_strlit("lua_gmcp.md");
            assert("lua_tasks.md"@.len() != "lua_gmcp.md"@.len());
            reveal_strlit("msdp.md");
            assert("lua_tasks.md"@.len() != "msdp.md"@.len());
            reveal_strlit("regex.md");
            assert("lua_tasks.md"@.len() != "regex.md"@.len());
            reveal_strlit("line.md");
            assert("lua_tasks.md"@.len() != "line.md"@.len());
            reveal_strlit("mud.md");
            assert("lua_tasks.md"@.len() != "mud.md"@.len());
            reveal_strlit("audio.md");
            assert("lua_tasks.md"@.len() != "audio.md"@.len());
            reveal_strlit("log.md");
            assert("lua_tasks.md"@.len() != "log.md"@.len());
            reveal_strlit("config_scripts.md");
            assert("lua_tasks.md"@.len() != "config_scripts.md"@.len());
            reveal_strlit("scripting.md");
            assert("lua_tasks.md"@[0] != "scripting.md"@[0]);
            reveal_strlit("settings.md");
            assert("lua_tasks.md"@.len() != "settings.md"@.len());
            reveal_strlit("lua_storage.md");
            assert("lua_tasks.md"@.len() != "lua_storage.md"@.len());
            reveal_strlit("lua_colors.md");
            assert("lua_tasks.md"@.len() != "lua_colors.md"@.len());
        }
        assert("lua_tasks.md"@.len() > 3 && "lua_tasks.md"@.subrange(
            "lua_tasks.md"@.len() - 3,
            "lua_tasks.md"@.len() as int,
        ) =~= ".md"@) by {
            reveal_strlit("lua_tasks.md");
        }
    } else if a == "socket"@ {
        assert(help_table(a) == Some("socket.md"@));
        assert(topic_of_file("socket.md"@) == Some("socket"@)) by {
            reveal_strlit("socket.md");
            reveal_strlit("help.md");
            assert("socket.md"@.len() != "help.md"@.len());
            reveal_strlit("changes.md");
            assert("socket.md"@.len() != "changes.md"@.len());
            reveal_strlit("welcome.md");
            assert("socket.md"@.len() != "welcome.md"@.len());
            reveal_strlit("logging.md");
            assert("socket.md"@.len() != "logging.md"@.len());
            reveal_strlit("lua_blight.md");
            assert("socket.md"@.len() != "lua_blight.md"@.len());
            reveal_strlit("bindings.md");
            assert("socket.md"@.len() != "bindings.md"@.len());
            reveal_strlit("core.md");
            assert("socket.md"@.len() != "core.md"@.len());
            reveal_strlit("no_tts.md");
            assert("socket.md"@[0] != "no_tts.md"@[0]);
            reveal_strlit("lua_status_area.md");
            assert("socket.md"@.len() != "lua_status_area.md"@.len());
            reveal_strlit("lua_aliases.md");
            assert("socket.md"@.len() != "lua_aliases.md"@.len());
            reveal_strlit("lua_settings.md");
            assert("socket.md"@.len() != "lua_settings.md"@.len());
            reveal_strlit("script.md");
            assert("socket.md"@[1] != "script.md"@[1]);
            reveal_strlit("lua_trigger.md");
            assert("socket.md"@.len() != "lua_trigger.md"@.len());
            reveal_strlit("lua_timers.md");
            assert("socket.md"@.len() != "lua_timers.md"@.len());
            reveal_strlit("lua_gmcp.md");
            assert("socket.md"@.len() != "lua_gmcp.md"@.len());
            reveal_strlit("msdp.md");
            assert("socket.md"@.len() != "msdp.md"@.len());
            reveal_strlit("regex.md");
            assert("socket.md"@.len() != "regex.md"@.len());
            reveal_strlit("line.md");
            assert("socket.md"@.len() != "line.md"@.len());
            reveal_strlit("mud.md");
            assert("socket.md"@.len() != "mud.md"@.len());
            reveal_strlit("audio.md");
            assert("socket.md"@.len() != "audio.md"@.len());
            reveal_strlit("log.md");
            assert("socket.md"@.len() != "log.md"@.len());
            reveal_strlit("config_scripts.md");
            assert("socket.md"@.len() != "config_scripts.md"@.len());
            reveal_strlit("scripting.md");
            assert("socket.md"@.len() != "scripting.md"@.len());
            reveal_strlit("settings.md");
            assert("socket.md"@.len() != "settings.md"@.len());
            reveal_strlit("lua_storage.md");
            assert("socket.md"@.len() != "lua_storage.md"@.len());
            reveal_strlit("lua_colors.md");
            assert("socket.md"@.len() != "lua_colors.md"@.len());
            reveal_strlit("lua_tasks.md");
            assert("socket.md"@.len() != "lua_tasks.md"@.len());
        }
        assert("socket.md"@.len() > 3 && "socket.md"@.subrange(
            "socket.md"@.len() - 3,
            "socket.md"@.len() as int,
        ) =~= ".md"@) by {
            reveal_strlit("socket.md");
        }
    } else if a == "plugin"@ {
        assert(help_table(a) == Some("plugin.md"@));
        assert(topic_of_file("plugin.md"@) == Some("plugin"@)) by {
            reveal_strlit("plugin.md");
            reveal_strlit("help.md");
            assert("plugin.md"@.len() != "help.md"@.len());
            reveal_strlit("changes.md");
            assert("plugin.md"@.len() != "changes.md"@.len());
            reveal_strlit("welcome.md");
            assert("plugin.md"@.len() != "welcome.md"@.len());
            reveal_strlit("logging.md");
            assert("plugin.md"@.len() != "logging.md"@.len());
            reveal_strlit("lua_blight.md");
            assert("plugin.md"@.len() != "lua_blight.md"@.len());
            reveal_strlit("bindings.md");
            assert("plugin.md"@.len() != "bindings.md"@.len());
            reveal_strlit("core.md");
            assert("plugin.md"@.len() != "core.md"@.len());
            reveal_strlit("no_tts.md");
            assert("plugin.md"@[0] != "no_tts.md"@[0]);
            reveal_strlit("lua_status_area.md");
            assert("plugin.md"@.len() != "lua_status_area.md"@.len());
            reveal_strlit("lua_aliases.md");
            assert("plugin.md"@.len() != "lua_aliases.md"@.len());
            reveal_strlit("lua_settings.md");
            assert("plugin.md"@.len() != "lua_settings.md"@.len());
            reveal_strlit("script.md");
            assert("plugin.md"@[0] != "script.md"@[0]);
            reveal_strlit("lua_trigger.md");
            assert("plugin.md"@.len() != "lua_trigger.md"@.len());
            reveal_strlit("lua_timers.md");
            assert("plugin.md"@.len() != "lua_timers.md"@.len());
            reveal_strlit("lua_gmcp.md");
            assert("plugin.md"@.len() != "lua_gmcp.md"@.len());
            reveal_strlit("msdp.md");
            assert("plugin.md"@.len() != "msdp.md"@.len());
            reveal_strlit("regex.md");
            assert("plugin.md"@.len() != "regex.md"@.len());
            reveal_strlit("line.md");
            assert("plugin.md"@.len() != "line.md"@.len());
            reveal_strlit("mud.md");
            assert("plugin.md"@.len() != "mud.md"@.len());
            reveal_strlit("audio.md");
            assert("plugin.md"@.len() != "audio.md"@.len());
            reveal_strlit("log.md");
            assert("plugin.md"@.len() != "log.md"@.len());
            reveal_strlit("config_scripts.md");
            assert("plugin.md"@.len() != "config_scripts.md"@.len());
            reveal_strlit("scripting.md");
            assert("plugin.md"@.len() != "scripting.md"@.len());
            reveal_strlit("settings.md");
            assert("plugin.md"@.len() != "settings.md"@.len());
            reveal_strlit("lua_storage.md");
            assert("plugin.md"@.len() != "lua_storage.md"@.len());
            reveal_strlit("lua_colors.md");
            assert("plugin.md"@.len() != "lua_colors.md"@.len());
            reveal_strlit("lua_tasks.md");
            assert("plugin.md"@.len() != "lua_tasks.md"@.len());
            reveal_strlit("socket.md");
            assert("plugin.md"@[0] != "socket.md"@[0]);
        }
        assert("plugin.md"@.len() > 3 && "plugin.md"@.subrange(
            "plugin.md"@.len() - 3,
            "plugin.md"@.len() as int,
        ) =~= ".md"@) by {
            reveal_strlit("plugin.md");
        }
    } else if a == "plugin_developer"@ {
        assert(help_table(a) == Some("plugin_developer.md"@));
        assert(topic_of_file("plugin_developer.md"@) == Some("plugin_developer"@)) by {
            reveal_strlit("plugin_developer.md");
            reveal_strlit("help.md");
            assert("plugin_developer.md"@.len() != "help.md"@.len());
            reveal_strlit("changes.md");
            assert("plugin_developer.md"@.len() != "changes.md"@.len());
            reveal_strlit("welcome.md");
            assert("plugin_developer.md"@.len() != "welcome.md"@.len());
            reveal_strlit("logging.md");
            assert("plugin_developer.md"@.len() != "logging.md"@.len());
            reveal_strlit("lua_blight.md");
            assert("plugin_developer.md"@.len() != "lua_blight.md"@.len());
            reveal_strlit("bindings.md");
            assert("plugin_developer.md"@.len() != "bindings.md"@.len());
            reveal_strlit("core.md");
            assert("plugin_developer.md"@.len() != "core.md"@.len());
            reveal_strlit("no_tts.md");
            assert("plugin_developer.md"@.len() != "no_tts.md"@.len());
            reveal_strlit("lua_status_area.md");
            assert("plugin_developer.md"@.len() != "lua_status_area.md"@.len());
            reveal_strlit("lua_aliases.md");
            assert("plugin_developer.md"@.len() != "lua_aliases.md"@.len());
            reveal_strlit("lua_settings.md");
            assert("plugin_developer.md"@.len() != "lua_settings.md"@.len());
            reveal_strlit("script.md");
            assert("plugin_developer.md"@.len() != "script.md"@.len());
            reveal_strlit("lua_trigger.md");
            assert("plugin_developer.md"@.len() != "lua_trigger.md"@.len());
            reveal_strlit("lua_timers.md");
            assert("plugin_developer.md"@.len() != "lua_timers.md"@.len());
            reveal_strlit("lua_gmcp.md");
            assert("plugin_developer.md"@.len() != "lua_gmcp.md"@.len());
            reveal_strlit("msdp.md");
            assert("plugin_developer.md"@.len() != "msdp.md"@.len());
            reveal_strlit("regex.md");
            assert("plugin_developer.md"@.len() != "regex.md"@.len());
            reveal_strlit("line.md");
            assert("plugin_developer.md"@.len() != "line.md"@.len());
            reveal_strlit("mud.md");
            assert("plugin_developer.md"@.len() != "mud.md"@.len());
            reveal_strlit("audio.md");
            assert("plugin_developer.md"@.len() != "audio.md"@.len());
            reveal_strlit("log.md");
            assert("plugin_developer.md"@.len() != "log.md"@.len());
            reveal_strlit("config_scripts.md");
            assert("plugin_developer.md"@.len() != "config_scripts.md"@.len());
            reveal_strlit("scripting.md");
            assert("plugin_developer.md"@.len() != "scripting.md"@.len());
            reveal_strlit("settings.md");
            assert("plugin_developer.md"@.len() != "settings.md"@.len());
            reveal_strlit("lua_storage.md");
            assert("plugin_developer.md"@.len() != "lua_storage.md"@.len());
            reveal_strlit("lua_colors.md");
            assert("plugin_developer.md"@.len() != "lua_colors.md"@.len());
            reveal_strlit("lua_tasks.md");
            assert("plugin_developer.md"@.len() != "lua_tasks.md"@.len());
            reveal_strlit("socket.md");
            assert("plugin_developer.md"@.len() != "socket.md"@.len());
            reveal_strlit("plugin.md");
            assert("plugin_developer.md"@.len() != "plugin.md"@.len());
        }
        assert("plugin_developer.md"@.len() > 3 && "plugin_developer.md"@.subrange(
            "plugin_developer.md"@.len() - 3,
            "plugin_developer.md"@.len() as int,
        ) =~= ".md"@) by {
            reveal_strlit("plugin_developer.md");
        }
    } else if a == "servers"@ {
        assert(help_table(a) == Some("servers.md"@));
        assert(topic_of_file("servers.md"@) == Some("servers"@)) by {
            reveal_strlit("servers.md");
            reveal_strlit("help.md");
            assert("servers.md"@.len() != "help.md"@.len());
            reveal_strlit("changes.md");
            assert("servers.md"@[0] != "changes.md"@[0]);
            reveal_strlit("welcome.md");
            assert("servers.md"@[0] != "welcome.md"@[0]);
            reveal_strlit("logging.md");
            assert("servers.md"@[0] != "logging.md"@[0]);
            reveal_strlit("lua_blight.md");
            assert("servers.md"@.len() != "lua_blight.md"@.len());
            reveal_strlit("bindings.md");
            assert("servers.md"@.len() != "bindings.md"@.len());
            reveal_strlit("core.md");
            assert("servers.md"@.len() != "core.md"@.len());
            reveal_strlit("no_tts.md");
            assert("servers.md"@.len() != "no_tts.md"@.len());
            reveal_strlit("lua_status_area.md");
            assert("servers.md"@.len() != "lua_status_area.md"@.len());
            reveal_strlit("lua_aliases.md");
            assert("servers.md"@.len() != "lua_aliases.md"@.len());
            reveal_strlit("lua_settings.md");
            assert("servers.md"@.len() != "lua_settings.md"@.len());
            reveal_strlit("script.md");
            assert("servers.md"@.len() != "script.md"@.len());
            reveal_strlit("lua_trigger.md");
            assert("servers.md"@.len() != "lua_trigger.md"@.len());
            reveal_strlit("lua_timers.md");
            assert("servers.md"@.len() != "lua_timers.md"@.len());
            reveal_strlit("lua_gmcp.md");
            assert("servers.md"@.len() != "lua_gmcp.md"@.len());
            reveal_strlit("msdp.md");
            assert("servers.md"@.len() != "msdp.md"@.len());
            reveal_strlit("regex.md");
            assert("servers.md"@.len() != "regex.md"@.len());
            reveal_strlit("line.md");
            assert("servers.md"@.len() != "line.md"@.len());
            reveal_strlit("mud.md");
            assert("servers.md"@.len() != "mud.md"@.len());
            reveal_strlit("audio.md");
            assert("servers.md"@.len() != "audio.md"@.len());
            reveal_strlit("log.md");
            assert("servers.md"@.len() != "log.md"@.len());
            reveal_strlit("config_scripts.md");
            assert("servers.md"@.len() != "config_scripts.md"@.len());
            reveal_strlit("scripting.md");
            assert("servers.md"@.len() != "scripting.md"@.len());
            reveal_strlit("settings.md");
            assert("servers.md"@.len() != "settings.md"@.len());
            reveal_strlit("lua_storage.md");
            assert("servers.md"@.len() != "lua_storage.md"@.len());
            reveal_strlit("lua_colors.md");
            assert("servers.md"@.len() != "lua_colors.md"@.len());
            reveal_strlit("lua_tasks.md");
            assert("servers.md"@.len() != "lua_tasks.md"@.len());
            reveal_strlit("socket.md");
            assert("servers.md"@.len() != "socket.md"@.len());
            reveal_strlit("plugin.md");
            assert("servers.md"@.len() != "plugin.md"@.len());
            reveal_strlit("plugin_developer.md");
            assert("servers.md"@.len() != "plugin_developer.md"@.len());
        }
        assert("servers.md"@.len() > 3 && "servers.md"@.subrange(
            "servers.md"@.len() - 3,
            "servers.md"@.len() as int,
        ) =~= ".md"@) by {
            reveal_strlit("servers.md");
        }
    }
}

/// Each help topic has a file of its own: two names that both have built-in
/// help share a file only when they are the same name, and every file is a
/// markdown file.
pub proof fn lemma_help_files_distinct(a: Seq<char>, b: Seq<char>)
    ensures
        help_table(a) is Some && help_table(a) == help_table(b) ==> a == b,
        help_table(a) matches Some(f) ==> f.len() > 3 && f.subrange(f.len() - 3, f.len() as int)
            == ".md"@,
{
    lemma_file_topic(a);
    lemma_file_topic(b);
}

/// The built-in help files, topic by topic.
pub proof fn lemma_help_table_entries()
    ensures
        help_table("help"@) == Some("help.md"@),
        help_table("changes"@) == Some("changes.md"@),
        help_table("welcome"@) == Some("welcome.md"@),
        help_table("logging"@) == Some("logging.md"@),
        help_table("blight"@) == Some("lua_blight.md"@),
        help_table("bindings"@) == Some("bindings.md"@),
        help_table("core"@) == Some("core.md"@),
        help_table("tts"@) == Some("no_tts.md"@),
        help_table("status_area"@) == Some("lua_status_area.md"@),
        help_table("alias"@) == Some("lua_aliases.md"@),
        help_table("config"@) == Some("lua_settings.md"@),
        help_table("script"@) == Some("script.md"@),
        help_table("trigger"@) == Some("lua_trigger.md"@),
        help_table("timers"@) == Some("lua_timers.md"@),
        help_table("gmcp"@) == Some("lua_gmcp.md"@),
        help_table("msdp"@) == Some("msdp.md"@),
        help_table("regex"@) == Some("regex.md"@),
        help_table("line"@) == Some("line.md"@),
        help_table("mud"@) == Some("mud.md"@),
        help_table("audio"@) == Some("audio.md"@),
        help_table("log"@) == Some("log.md"@),
        help_table("config_scripts"@) == Some("config_scripts.md"@),
        help_table("scripting"@) == Some("scripting.md"@),
        help_table("settings"@) == Some("settings.md"@),
        help_table("storage"@) == Some("lua_storage.md"@),
        help_table("colors"@) == Some("lua_colors.md"@),
        help_table("tasks"@) == Some("lua_tasks.md"@),
        help_table("socket"@) == Some("socket.md"@),
        help_table("plugin"@) == Some("plugin.md"@),
        help_table("plugin_developer"@) == Some("plugin_developer.md"@),
        help_table("servers"@) == Some("servers.md"@),
{
    assert(help_table("help"@) == Some("help.md"@)) by {
        reveal_strlit("help");
    }
    assert(help_table("changes"@) == Some("changes.md"@)) by {
        reveal_strlit("changes");
        reveal_strlit("help");
        assert("changes"@.len() != "help"@.len());
    }
    assert(help_table("welcome"@) == Some("welcome.md"@)) by {
        reveal_strlit("welcome");
        reveal_strlit("help");
        assert("welcome"@.len() != "help"@.len());
        reveal_strlit("changes");
        assert("welcome"@[0] != "changes"@[0]);
    }
    assert(help_table("logging"@) == Some("logging.md"@)) by {
        reveal_strlit("logging");
        reveal_strlit("help");
        assert("logging"@.len() != "help"@.len());
        reveal_strlit("changes");
        assert("logging"@[0] != "changes"@[0]);
        reveal_strlit("welcome");
        assert("logging"@[0] != "welcome"@[0]);
    }
    assert(help_table("blight"@) == Some("lua_blight.md"@)) by {
        reveal_strlit("blight");
        reveal_strlit("help");
        assert("blight"@.len() != "help"@.len());
        reveal_strlit("changes");
        assert("blight"@.len() != "changes"@.len());
        reveal_strlit("welcome");
        assert("blight"@.len() != "welcome"@.len());
        reveal_strlit("logging");
        assert("blight"@.len() != "logging"@.len());
    }
    assert(help_table("bindings"@) == Some("bindings.md"@)) by {
        reveal_strlit("bindings");
        reveal_strlit("help");
        assert("bindings"@.len() != "help"@.len());
        reveal_strlit("changes");
        assert("bindings"@.len() != "changes"@.len());
        reveal_strlit("welcome");
        assert("bindings"@.len() != "welcome"@.len());
        reveal_strlit("logging");
        assert("bindings"@.len() != "logging"@.len());
        reveal_strlit("blight");
        assert("bindings"@.len() != "blight"@.len());
    }
    assert(help_table("core"@) == Some("core.md"@)) by {
        reveal_strlit("core");
        reveal_strlit("help");
        assert("core"@[0] != "help"@[0]);
        reveal_strlit("changes");
        assert("core"@.len() != "changes"@.len());
        reveal_strlit("welcome");
        assert("core"@.len() != "welcome"@.len());
        reveal_strlit("logging");
        assert("core"@.len() != "logging"@.len());
        reveal_strlit("blight");
        assert("core"@.len() != "blight"@.len());
        reveal_strlit("bindings");
        assert("core"@.len() != "bindings"@.len());
    }
    assert(help_table("tts"@) == Some("no_tts.md"@)) by {
        reveal_strlit("tts");
        reveal_strlit("help");
        assert("tts"@.len() != "help"@.len());
        reveal_strlit("changes");
        assert("tts"@.len() != "changes"@.len());
        reveal_strlit("welcome");
        assert("tts"@.len() != "welcome"@.len());
        reveal_strlit("logging");
        assert("tts"@.len() != "logging"@.len());
        reveal_strlit("blight");
        assert("tts"@.len() != "blight"@.len());
        reveal_strlit("bindings");
        assert("tts"@.len() != "bindings"@.len());
        reveal_strlit("core");
        assert("tts"@.len() != "core"@.len());
    }
    assert(help_table("status_area"@) == Some("lua_status_area.md"@)) by {
        reveal_strlit("status_area");
        reveal_strlit("help");
        assert("status_area"@.len() != "help"@.len());
        reveal_strlit("changes");
        assert("status_area"@.len() != "changes"@.len());
        reveal_strlit("welcome");
        assert("status_area"@.len() != "welcome"@.len());
        reveal_strlit("logging");
        assert("status_area"@.len() != "logging"@.len());
        reveal_strlit("blight");
        assert("status_area"@.len() != "blight"@.len());
        reveal_strlit("bindings");
        assert("status_area"@.len() != "bindings"@.len());
        reveal_strlit("core");
        assert("status_area"@.len() != "core"@.len());
        reveal_strlit("tts");
        assert("status_area"@.len() != "tts"@.len());
    }
    assert(help_table("alias"@) == Some("lua_aliases.md"@)) by {
        reveal_strlit("alias");
        reveal_strlit("help");
        assert("alias"@.len() != "help"@.len());
        reveal_strlit("changes");
        assert("alias"@.len() != "changes"@.len());
        reveal_strlit("welcome");
        assert("alias"@.len() != "welcome"@.len());
        reveal_strlit("logging");
        assert("alias"@.len() != "logging"@.len());
        reveal_strlit("blight");
        assert("alias"@.len() != "blight"@.len());
        reveal_strlit("bindings");
        assert("alias"@.len() != "bindings"@.len());
        reveal_strlit("core");
        assert("alias"@.len() != "core"@.len());
        reveal_strlit("tts");
        assert("alias"@.len() != "tts"@.len());
        reveal_strlit("status_area");
        assert("alias"@.len() != "status_area"@.len());
    }
    assert(help_table("config"@) == Some("lua_settings.md"@)) by {
        reveal_strlit("config");
        reveal_strlit("help");
        assert("config"@.len() != "help"@.len());
        reveal_strlit("changes");
        assert("config"@.len() != "changes"@.len());
        reveal_strlit("welcome");
        assert("config"@.len() != "welcome"@.len());
        reveal_strlit("logging");
        assert("config"@.len() != "logging"@.len());
        reveal_strlit("blight");
        assert("config"@[0] != "blight"@[0]);
        reveal_strlit("bindings");
        assert("config"@.len() != "bindings"@.len());
        reveal_strlit("core");
        assert("config"@.len() != "core"@.len());
        reveal_strlit("tts");
        assert("config"@.len() != "tts"@.len());
        reveal_strlit("status_area");
        assert("config"@.len() != "status_area"@.len());
        reveal_strlit("alias");
        assert("config"@.len() != "alias"@.len());
    }
    assert(help_table("script"@) == Some("script.md"@)) by {
        reveal_strlit("script");
        reveal_strlit("help");
        assert("script"@.len() != "help"@.len());
        reveal_strlit("changes");
        assert("script"@.len() != "changes"@.len());
        reveal_strlit("welcome");
        assert("script"@.len() != "welcome"@.len());
        reveal_strlit("logging");
        assert("script"@.len() != "logging"@.len());
        reveal_strlit("blight");
        assert("script"@[0] != "blight"@[0]);
        reveal_strlit("bindings");
        assert("script"@.len() != "bindings"@.len());
        reveal_strlit("core");
        assert("script"@.len() != "core"@.len());
        reveal_strlit("tts");
        assert("script"@.len() != "tts"@.len());
        reveal_strlit("status_area");
        assert("script"@.len() != "status_area"@.len());
        reveal_strlit("alias");
        assert("script"@.len() != "alias"@.len());
        reveal_strlit("config");
        assert("script"@[0] != "config"@[0]);
    }
    assert(help_table("trigger"@) == Some("lua_trigger.md"@)) by {
        reveal_strlit("trigger");
        reveal_strlit("help");
        assert("trigger"@.len() != "help"@.len());
        reveal_strlit("changes");
        assert("trigger"@[0] != "changes"@[0]);
        reveal_strlit("welcome");
        assert("trigger"@[0] != "welcome"@[0]);
        reveal_strlit("logging");
        assert("trigger"@[0] != "logging"@[0]);
        reveal_strlit("blight");
        assert("trigger"@.len() != "blight"@.len());
        reveal_strlit("bindings");
        assert("trigger"@.len() != "bindings"@.len());
        reveal_strlit("core");
        assert("trigger"@.len() != "core"@.len());
        reveal_strlit("tts");
        assert("trigger"@.len() != "tts"@.len());
        reveal_strlit("status_area");
        assert("trigger"@.len() != "status_area"@.len());
        reveal_strlit("alias");
        assert("trigger"@.len() != "alias"@.len());
        reveal_strlit("config");
        assert("trigger"@.len() != "config"@.len());
        reveal_strlit("script");
        assert("trigger"@.len() != "script"@.len());
    }
    assert(help_table("timers"@) == Some("lua_timers.md"@)) by {
        reveal_strlit("timers");
        reveal_strlit("help");
        assert("timers"@.len() != "help"@.len());
        reveal_strlit("changes");
        assert("timers"@.len() != "changes"@.len());
        reveal_strlit("welcome");
        assert("timers"@.len() != "welcome"@.len());
        reveal_strlit("logging");
        assert("timers"@.len() != "logging"@.len());
        reveal_strlit("blight");
        assert("timers"@[0] != "blight"@[0]);
        reveal_strlit("bindings");
        assert("timers"@.len() != "bindings"@.len());
        reveal_strlit("core");
        assert("timers"@.len() != "core"@.len());
        reveal_strlit("tts");
        assert("timers"@.len() != "tts"@.len());
        reveal_strlit("status_area");
        assert("timers"@.len() != "status_area"@.len());
        reveal_strlit("alias");
        assert("timers"@.len() != "alias"@.len());
        reveal_strlit("config");
        assert("timers"@[0] != "config"@[0]);
        reveal_strlit("script");
        assert("timers"@[0] != "script"@[0]);
        reveal_strlit("trigger");
        assert("timers"@.len() != "trigger"@.len());
    }
    assert(help_table("gmcp"@) == Some("lua_gmcp.md"@)) by {
        reveal_strlit("gmcp");
        reveal_strlit("help");
        assert("gmcp"@[0] != "help"@[0]);
        reveal_strlit("changes");
        assert("gmcp"@.len() != "changes"@.len());
        reveal_strlit("welcome");
        assert("gmcp"@.len() != "welcome"@.len());
        reveal_strlit("logging");
        assert("gmcp"@.len() != "logging"@.len());
        reveal_strlit("blight");
        assert("gmcp"@.len() != "blight"@.len());
        reveal_strlit("bindings");
        assert("gmcp"@.len() != "bindings"@.len());
        reveal_strlit("core");
        assert("gmcp"@[0] != "core"@[0]);
        reveal_strlit("tts");
        assert("gmcp"@.len() != "tts"@.len());
        reveal_strlit("status_area");
        assert("gmcp"@.len() != "status_area"@.len());
        reveal_strlit("alias");
        assert("gmcp"@.len() != "alias"@.len());
        reveal_strlit("config");
        assert("gmcp"@.len() != "config"@.len());
        reveal_strlit("script");
        assert("gmcp"@.len() != "script"@.len());
        reveal_strlit("trigger");
        assert("gmcp"@.len() != "trigger"@.len());
        reveal_strlit("timers");
        assert("gmcp"@.len() != "timers"@.len());
    }
    assert(help_table("msdp"@) == Some("msdp.md"@)) by {
        reveal_strlit("msdp");
        reveal_strlit("help");
        assert("msdp"@[0] != "help"@[0]);
        reveal_strlit("changes");
        assert("msdp"@.len() != "changes"@.len());
        reveal_strlit("welcome");
        assert("msdp"@.len() != "welcome"@.len());
        reveal_strlit("logging");
        assert("msdp"@.len() != "logging"@.len());
        reveal_strlit("blight");
        assert("msdp"@.len() != "blight"@.len());
        reveal_strlit("bindings");
        assert("msdp"@.len() != "bindings"@.len());
        reveal_strlit("core");
        assert("msdp"@[0] != "core"@[0]);
        reveal_strlit("tts");
        assert("msdp"@.len() != "tts"@.len());
        reveal_strlit("status_area");
        assert("msdp"@.len() != "status_area"@.len());
        reveal_strlit("alias");
        assert("msdp"@.len() != "alias"@.len());
        reveal_strlit("config");
        assert("msdp"@.len() != "config"@.len());
        reveal_strlit("script");
        assert("msdp"@.len() != "script"@.len());
        reveal_strlit("trigger");
        assert("msdp"@.len() != "trigger"@.len());
        reveal_strlit("timers");
        assert("msdp"@.len() != "timers"@.len());
        reveal_strlit("gmcp");
        assert("msdp"@[0] != "gmcp"@[0]);
    }
    assert(help_table("regex"@) == Some("regex.md"@)) by {
        reveal_strlit("regex");
        reveal_strlit("help");
        assert("regex"@.len() != "help"@.len());
        reveal_strlit("changes");
        assert("regex"@.len() != "changes"@.len());
        reveal_strlit("welcome");
        assert("regex"@.len() != "welcome"@.len());
        reveal_strlit("logging");
        assert("regex"@.len() != "logging"@.len());
        reveal_strlit("blight");
        assert("regex"@.len() != "blight"@.len());
        reveal_strlit("bindings");
        assert("regex"@.len() != "bindings"@.len());
        reveal_strlit("core");
        assert("regex"@.len() != "core"@.len());
        reveal_strlit("tts");
        assert("regex"@.len() != "tts"@.len());
        reveal_strlit("status_area");
        assert("regex"@.len() != "status_area"@.len());
        reveal_strlit("alias");
        assert("regex"@[0] != "alias"@[0]);
        reveal_strlit("config");
        assert("regex"@.len() != "config"@.len());
        reveal_strlit("script");
        assert("regex"@.len() != "script"@.len());
        reveal_strlit("trigger");
        assert("regex"@.len() != "trigger"@.len());
        reveal_strlit("timers");
        assert("regex"@.len() != "timers"@.len());
        reveal_strlit("gmcp");
        assert("regex"@.len() != "gmcp"@.len());
        reveal_strlit("msdp");
        assert("regex"@.len() != "msdp"@.len());
    }
    assert(help_table("line"@) == Some("line.md"@)) by {
        reveal_strlit("line");
        reveal_strlit("help");
        assert("line"@[0] != "help"@[0]);
        reveal_strlit("changes");
        assert("line"@.len() != "changes"@.len());
        reveal_strlit("welcome");
        assert("line"@.len() != "welcome"@.len());
        reveal_strlit("logging");
        assert("line"@.len() != "logging"@.len());
        reveal_strlit("blight");
        assert("line"@.len() != "blight"@.len());
        reveal_strlit("bindings");
        assert("line"@.len() != "bindings"@.len());
        reveal_strlit("core");
        assert("line"@[0] != "core"@[0]);
        reveal_strlit("tts");
        assert("line"@.len() != "tts"@.len());
        reveal_strlit("status_area");
        assert("line"@.len() != "status_area"@.len());
        reveal_strlit("alias");
        assert("line"@.len() != "alias"@.len());
        reveal_strlit("config");
        assert("line"@.len() != "config"@.len());
        reveal_strlit("script");
        assert("line"@.len() != "script"@.len());
        reveal_strlit("trigger");
        assert("line"@.len() != "trigger"@.len());
        reveal_strlit("timers");
        assert("line"@.len() != "timers"@.len());
        reveal_strlit("gmcp");
        assert("line"@[0] != "gmcp"@[0]);
        reveal_strlit("msdp");
        assert("line"@[0] != "msdp"@[0]);
        reveal_strlit("regex");
        assert("line"@.len() != "regex"@.len());
    }
    assert(help_table("mud"@) == Some("mud.md"@)) by {
        reveal_strlit("mud");
        reveal_strlit("help");
        assert("mud"@.len() != "help"@.len());
        reveal_strlit("changes");
        assert("mud"@.len() != "changes"@.len());
        reveal_strlit("welcome");
        assert("mud"@.len() != "welcome"@.len());
        reveal_strlit("logging");
        assert("mud"@.len() != "logging"@.len());
        reveal_strlit("blight");
        assert("mud"@.len() != "blight"@.len());
        reveal_strlit("bindings");
        assert("mud"@.len() != "bindings"@.len());
        reveal_strlit("core");
        assert("mud"@.len() != "core"@.len());
        reveal_strlit("tts");
        assert("mud"@[0] != "tts"@[0]);
        reveal_strlit("status_area");
        assert("mud"@.len() != "status_area"@.len());
        reveal_strlit("alias");
        assert("mud"@.len() != "alias"@.len());
        reveal_strlit("config");
        assert("mud"@.len() != "config"@.len());
        reveal_strlit("script");
        assert("mud"@.len() != "script"@.len());
        reveal_strlit("trigger");
        assert("mud"@.len() != "trigger"@.len());
        reveal_strlit("timers");
        assert("mud"@.len() != "timers"@.len());
        reveal_strlit("gmcp");
        assert("mud"@.len() != "gmcp"@.len());
        reveal_strlit("msdp");
        assert("mud"@.len() != "msdp"@.len());
        reveal_strlit("regex");
        assert("mud"@.len() != "regex"@.len());
        reveal_strlit("line");
        assert("mud"@.len() != "line"@.len());
    }
    assert(help_table("audio"@) == Some("audio.md"@)) by {
        reveal_strlit("audio");
        reveal_strlit("help");
        assert("audio"@.len() != "help"@.len());
        reveal_strlit("changes");
        assert("audio"@.len() != "changes"@.len());
        reveal_strlit("welcome");
        assert("audio"@.len() != "welcome"@.len());
        reveal_strlit("logging");
        assert("audio"@.len() != "logging"@.len());
        reveal_strlit("blight");
        assert("audio"@.len() != "blight"@.len());
        reveal_strlit("bindings");
        assert("audio"@.len() != "bindings"@.len());
        reveal_strlit("core");
        assert("audio"@.len() != "core"@.len());
        reveal_strlit("tts");
        assert("audio"@.len() != "tts"@.len());
        reveal_strlit("status_area");
        assert("audio"@.len() != "status_area"@.len());
        reveal_strlit("alias");
        assert("audio"@[1] != "alias"@[1]);
        reveal_strlit("config");
        assert("audio"@.len() != "config"@.len());
        reveal_strlit("script");
        assert("audio"@.len() != "script"@.len());
        reveal_strlit("trigger");
        assert("audio"@.len() != "trigger"@.len());
        reveal_strlit("timers");
        assert("audio"@.len() != "timers"@.len());
        reveal_strlit("gmcp");
        assert("audio"@.len() != "gmcp"@.len());
        reveal_strlit("msdp");
        assert("audio"@.len() != "msdp"@.len());
        reveal_strlit("regex");
        assert("audio"@[0] != "regex"@[0]);
        reveal_strlit("line");
        assert("audio"@.len() != "line"@.len());
        reveal_strlit("mud");
        assert("audio"@.len() != "mud"@.len());
    }
    assert(help_table("log"@) == Some("log.md"@)) by {
        reveal_strlit("log");
        reveal_strlit("help");
        assert("log"@.len() != "help"@.len());
        reveal_strlit("changes");
        assert("log"@.len() != "changes"@.len());
        reveal_strlit("welcome");
        assert("log"@.len() != "welcome"@.len());
        reveal_strlit("logging");
        assert("log"@.len() != "logging"@.len());
        reveal_strlit("blight");
        assert("log"@.len() != "blight"@.len());
        reveal_strlit("bindings");
        assert("log"@.len() != "bindings"@.len());
        reveal_strlit("core");
        assert("log"@.len() != "core"@.len());
        reveal_strlit("tts");
        assert("log"@[0] != "tts"@[0]);
        reveal_strlit("status_area");
        assert("log"@.len() != "status_area"@.len());
        reveal_strlit("alias");
        assert("log"@.len() != "alias"@.len());
        reveal_strlit("config");
        assert("log"@.len() != "config"@.len());
        reveal_strlit("script");
        assert("log"@.len() != "script"@.len());
        reveal_strlit("trigger");
        assert("log"@.len() != "trigger"@.len());
        reveal_strlit("timers");
        assert("log"@.len() != "timers"@.len());
        reveal_strlit("gmcp");
        assert("log"@.len() != "gmcp"@.len());
        reveal_strlit("msdp");
        assert("log"@.len() != "msdp"@.len());
        reveal_strlit("regex");
        assert("log"@.len() != "regex"@.len());
        reveal_strlit("line");
        assert("log"@.len() != "line"@.len());
        reveal_strlit("mud");
        assert("log"@[0] != "mud"@[0]);
        reveal_strlit("audio");
        assert("log"@.len() != "audio"@.len());
    }
    assert(help_table("config_scripts"@) == Some("config_scripts.md"@)) by {
        reveal_strlit("config_scripts");
        reveal_strlit("help");
        assert("config_scripts"@.len() != "help"@.len());
        reveal_strlit("changes");
        assert("config_scripts"@.len() != "changes"@.len());
        reveal_strlit("welcome");
        assert("config_scripts"@.len() != "welcome"@.len());
        reveal_strlit("logging");
        assert("config_scripts"@.len() != "logging"@.len());
        reveal_strlit("blight");
        assert("config_scripts"@.len() != "blight"@.len());
        reveal_strlit("bindings");
        assert("config_scripts"@.len() != "bindings"@.len());
        reveal_strlit("core");
        assert("config_scripts"@.len() != "core"@.len());
        reveal_strlit("tts");
        assert("config_scripts"@.len() != "tts"@.len());
        reveal_strlit("status_area");
        assert("config_scripts"@.len() != "status_area"@.len());
        reveal_strlit("alias");
        assert("config_scripts"@.len() != "alias"@.len());
        reveal_strlit("config");
        assert("config_scripts"@.len() != "config"@.len());
        reveal_strlit("script");
        assert("config_scripts"@.len() != "script"@.len());
        reveal_strlit("trigger");
        assert("config_scripts"@.len() != "trigger"@.len());
        reveal_strlit("timers");
        assert("config_scripts"@.len() != "timers"@.len());
        reveal_strlit("gmcp");
        assert("config_scripts"@.len() != "gmcp"@.len());
        reveal_strlit("msdp");
        assert("config_scripts"@.len() != "msdp"@.len());
        reveal_strlit("regex");
        assert("config_scripts"@.len() != "regex"@.len());
        reveal_strlit("line");
        assert("config_scripts"@.len() != "line"@.len());
        reveal_strlit("mud");
        assert("config_scripts"@.len() != "mud"@.len());
        reveal_strlit("audio");
        assert("config_scripts"@.len() != "audio"@.len());
        reveal_strlit("log");
        assert("config_scripts"@.len() != "log"@.len());
    }
    assert(help_table("scripting"@) == Some("scripting.md"@)) by {
        reveal_strlit("scripting");
        reveal_strlit("help");
        assert("scripting"@.len() != "help"@.len());
        reveal_strlit("changes");
        assert("scripting"@.len() != "changes"@.len());
        reveal_strlit("welcome");
        assert("scripting"@.len() != "welcome"@.len());
        reveal_strlit("logging");
        assert("scripting"@.len() != "logging"@.len());
        reveal_strlit("blight");
        assert("scripting"@.len() != "blight"@.len());
        reveal_strlit("bindings");
        assert("scripting"@.len() != "bindings"@.len());
        reveal_strlit("core");
        assert("scripting"@.len() != "core"@.len());
        reveal_strlit("tts");
        assert("scripting"@.len() != "tts"@.len());
        reveal_strlit("status_area");
        assert("scripting"@.len() != "status_area"@.len());
        reveal_strlit("alias");
        assert("scripting"@.len() != "alias"@.len());
        reveal_strlit("config");
        assert("scripting"@.len() != "config"@.len());
        reveal_strlit("script");
        assert("scripting"@.len() != "script"@.len());
        reveal_strlit("trigger");
        assert("scripting"@.len() != "trigger"@.len());
        reveal_strlit("timers");
        assert("scripting"@.len() != "timers"@.len());
        reveal_strlit("gmcp");
        assert("scripting"@.len() != "gmcp"@.len());
        reveal_strlit("msdp");
        assert("scripting"@.len() != "msdp"@.len());
        reveal_strlit("regex");
        assert("scripting"@.len() != "regex"@.len());
        reveal_strlit("line");
        assert("scripting"@.len() != "line"@.len());
        reveal_strlit("mud");
        assert("scripting"@.len() != "mud"@.len());
        reveal_strlit("audio");
        assert("scripting"@.len() != "audio"@.len());
        reveal_strlit("log");
        assert("scripting"@.len() != "log"@.len());
        reveal_strlit("config_scripts");
        assert("scripting"@.len() != "config_scripts"@.len());
    }
    assert(help_table("settings"@) == Some("settings.md"@)) by {
        reveal_strlit("settings");
        reveal_strlit("help");
        assert("settings"@.len() != "help"@.len());
        reveal_strlit("changes");
        assert("settings"@.len() != "changes"@.len());
        reveal_strlit("welcome");
        assert("settings"@.len() != "welcome"@.len());
        reveal_strlit("logging");
        assert("settings"@.len() != "logging"@.len());
        reveal_strlit("blight");
        assert("settings"@.len() != "blight"@.len());
        reveal_strlit("bindings");
        assert("settings"@[0] != "bindings"@[0]);
        reveal_strlit("core");
        assert("settings"@.len() != "core"@.len());
        reveal_strlit("tts");
        assert("settings"@.len() != "tts"@.len());
        reveal_strlit("status_area");
        assert("settings"@.len() != "status_area"@.len());
        reveal_strlit("alias");
        assert("settings"@.len() != "alias"@.len());
        reveal_strlit("config");
        assert("settings"@.len() != "config"@.len());
        reveal_strlit("script");
        assert("settings"@.len() != "script"@.len());
        reveal_strlit("trigger");
        assert("settings"@.len() != "trigger"@.len());
        reveal_strlit("timers");
        assert("settings"@.len() != "timers"@.len());
        reveal_strlit("gmcp");
        assert("settings"@.len() != "gmcp"@.len());
        reveal_strlit("msdp");
        assert("settings"@.len() != "msdp"@.len());
        reveal_strlit("regex");
        assert("settings"@.len() != "regex"@.len());
        reveal_strlit("line");
        assert("settings"@.len() != "line"@.len());
        reveal_strlit("mud");
        assert("settings"@.len() != "mud"@.len());
        reveal_strlit("audio");
        assert("settings"@.len() != "audio"@.len());
        reveal_strlit("log");
        assert("settings"@.len() != "log"@.len());
        reveal_strlit("config_scripts");
        assert("settings"@.len() != "config_scripts"@.len());
        reveal_strlit("scripting");
        assert("settings"@.len() != "scripting"@.len());
    }
    assert(help_table("storage"@) == Some("lua_storage.md"@)) by {
        reveal_strlit("storage");
        reveal_strlit("help");
        assert("storage"@.len() != "help"@.len());
        reveal_strlit("changes");
        assert("storage"@[0] != "changes"@[0]);
        reveal_strlit("welcome");
        assert("storage"@[0] != "welcome"@[0]);
        reveal_strlit("logging");
        assert("storage"@[0] != "logging"@[0]);
        reveal_strlit("blight");
        assert("storage"@.len() != "blight"@.len());
        reveal_strlit("bindings");
        assert("storage"@.len() != "bindings"@.len());
        reveal_strlit("core");
        assert("storage"@.len() != "core"@.len());
        reveal_strlit("tts");
        assert("storage"@.len() != "tts"@.len());
        reveal_strlit("status_area");
        assert("storage"@.len() != "status_area"@.len());
        reveal_strlit("alias");
        assert("storage"@.len() != "alias"@.len());
        reveal_strlit("config");
        assert("storage"@.len() != "config"@.len());
        reveal_strlit("script");
        assert("storage"@.len() != "script"@.len());
        reveal_strlit("trigger");
        assert("storage"@[0] != "trigger"@[0]);
        reveal_strlit("timers");
        assert("storage"@.len() != "timers"@.len());
        reveal_strlit("gmcp");
        assert("storage"@.len() != "gmcp"@.len());
        reveal_strlit("msdp");
        assert("storage"@.len() != "msdp"@.len());
        reveal_strlit("regex");
        assert("storage"@.len() != "regex"@.len());
        reveal_strlit("line");
        assert("storage"@.len() != "line"@.len());
        reveal_strlit("mud");
        assert("storage"@.len() != "mud"@.len());
        reveal_strlit("audio");
        assert("storage"@.len() != "audio"@.len());
        reveal_strlit("log");
        assert("storage"@.len() != "log"@.len());
        reveal_strlit("config_scripts");
        assert("storage"@.len() != "config_scripts"@.len());
        reveal_strlit("scripting");
        assert("storage"@.len() != "scripting"@.len());
        reveal_strlit("settings");
        assert("storage"@.len() != "settings"@.len());
    }
    assert(help_table("colors"@) == Some("lua_colors.md"@)) by {
        reveal_strlit("colors");
        reveal_strlit("help");
        assert("colors"@.len() != "help"@.len());
        reveal_strlit("changes");
        assert("colors"@.len() != "changes"@.len());
        reveal_strlit("welcome");
        assert("colors"@.len() != "welcome"@.len());
        reveal_strlit("logging");
        assert("colors"@.len() != "logging"@.len());
        reveal_strlit("blight");
        assert("colors"@[0] != "blight"@[0]);
        reveal_strlit("bindings");
        assert("colors"@.len() != "bindings"@.len());
        reveal_strlit("core");
        assert("colors"@.len() != "core"@.len());
        reveal_strlit("tts");
        assert("colors"@.len() != "tts"@.len());
        reveal_strlit("status_area");
        assert("colors"@.len() != "status_area"@.len());
        reveal_strlit("alias");
        assert("colors"@.len() != "alias"@.len());
        reveal_strlit("config");
        assert("colors"@[2] != "config"@[2]);
        reveal_strlit("script");
        assert("colors"@[0] != "script"@[0]);
        reveal_strlit("trigger");
        assert("colors"@.len() != "trigger"@.len());
        reveal_strlit("timers");
        assert("colors"@[0] != "timers"@[0]);
        reveal_strlit("gmcp");
        assert("colors"@.len() != "gmcp"@.len());
        reveal_strlit("msdp");
        assert("colors"@.len() != "msdp"@.len());
        reveal_strlit("regex");
        assert("colors"@.len() != "regex"@.len());
        reveal_strlit("line");
        assert("colors"@.len() != "line"@.len());
        reveal_strlit("mud");
        assert("colors"@.len() != "mud"@.len());
        reveal_strlit("audio");
        assert("colors"@.len() != "audio"@.len());
        reveal_strlit("log");
        assert("colors"@.len() != "log"@.len());
        reveal_strlit("config_scripts");
        assert("colors"@.len() != "config_scripts"@.len());
        reveal_strlit("scripting");
        assert("colors"@.len() != "scripting"@.len());
        reveal_strlit("settings");
        assert("colors"@.len() != "settings"@.len());
        reveal_strlit("storage");
        assert("colors"@.len() != "storage"@.len());
    }
    assert(help_table("tasks"@) == Some("lua_tasks.md"@)) by {
        reveal_strlit("tasks");
        reveal_strlit("help");
        assert("tasks"@.len() != "help"@.len());
        reveal_strlit("changes");
        assert("tasks"@.len() != "changes"@.len());
        reveal_strlit("welcome");
        assert("tasks"@.len() != "welcome"@.len());
        reveal_strlit("logging");
        assert("tasks"@.len() != "logging"@.len());
        reveal_strlit("blight");
        assert("tasks"@.len() != "blight"@.len());
        reveal_strlit("bindings");
        assert("tasks"@.len() != "bindings"@.len());
        reveal_strlit("core");
        assert("tasks"@.len() != "core"@.len());
        reveal_strlit("tts");
        assert("tasks"@.len() != "tts"@.len());
        reveal_strlit("status_area");
        assert("tasks"@.len() != "status_area"@.len());
        reveal_strlit("alias");
        assert("tasks"@[0] != "alias"@[0]);
        reveal_strlit("config");
        assert("tasks"@.len() != "config"@.len());
        reveal_strlit("script");
        assert("tasks"@.len() != "script"@.len());
        reveal_strlit("trigger");
        assert("tasks"@.len() != "trigger"@.len());
        reveal_strlit("timers");
        assert("tasks"@.len() != "timers"@.len());
        reveal_strlit("gmcp");
        assert("tasks"@.len() != "gmcp"@.len());
        reveal_strlit("msdp");
        assert("tasks"@.len() != "msdp"@.len());
        reveal_strlit("regex");
        assert("tasks"@[0] != "regex"@[0]);
        reveal_strlit("line");
        assert("tasks"@.len() != "line"@.len());
        reveal_strlit("mud");
        assert("tasks"@.len() != "mud"@.len());
        reveal_strlit("audio");
        assert("tasks"@[0] != "audio"@[0]);
        reveal_strlit("log");
        assert("tasks"@.len() != "log"@.len());
        reveal_strlit("config_scripts");
        assert("tasks"@.len() != "config_scripts"@.len());
        reveal_strlit("scripting");
        assert("tasks"@.len() != "scripting"@.len());
        reveal_strlit("settings");
        assert("tasks"@.len() != "settings"@.len());
        reveal_strlit("storage");
        assert("tasks"@.len() != "storage"@.len());
        reveal_strlit("colors");
        assert("tasks"@.len() != "colors"@.len());
    }
    assert(help_table("socket"@) == Some("socket.md"@)) by {
        reveal_strlit("socket");
        reveal_strlit("help");
        assert("socket"@.len() != "help"@.len());
        reveal_strlit("changes");
        assert("socket"@.len() != "changes"@.len());
        reveal_strlit("welcome");
        assert("socket"@.len() != "welcome"@.len());
        reveal_strlit("logging");
        assert("socket"@.len() != "logging"@.len());
        reveal_strlit("blight");
        assert("socket"@[0] != "blight"@[0]);
        reveal_strlit("bindings");
        assert("socket"@.len() != "bindings"@.len());
        reveal_strlit("core");
        assert("socket"@.len() != "core"@.len());
        reveal_strlit("tts");
        assert("socket"@.len() != "tts"@.len());
        reveal_strlit("status_area");
        assert("socket"@.len() != "status_area"@.len());
        reveal_strlit("alias");
        assert("socket"@.len() != "alias"@.len());
        reveal_strlit("config");
        assert("socket"@[0] != "config"@[0]);
        reveal_strlit("script");
        assert("socket"@[1] != "script"@[1]);
        reveal_strlit("trigger");
        assert("socket"@.len() != "trigger"@.len());
        reveal_strlit("timers");
        assert("socket"@[0] != "timers"@[0]);
        reveal_strlit("gmcp");
        assert("socket"@.len() != "gmcp"@.len());
        reveal_strlit("msdp");
        assert("socket"@.len() != "msdp"@.len());
        reveal_strlit("regex");
        assert("socket"@.len() != "regex"@.len());
        reveal_strlit("line");
        assert("socket"@.len() != "line"@.len());
        reveal_strlit("mud");
        assert("socket"@.len() != "mud"@.len());
        reveal_strlit("audio");
        assert("socket"@.len() != "audio"@.len());
        reveal_strlit("log");
        assert("socket"@.len() != "log"@.len());
        reveal_strlit("config_scripts");
        assert("socket"@.len() != "config_scripts"@.len());
        reveal_strlit("scripting");
        assert("socket"@.len() != "scripting"@.len());
        reveal_strlit("settings");
        assert("socket"@.len() != "settings"@.len());
        reveal_strlit("storage");
        assert("socket"@.len() != "storage"@.len());
        reveal_strlit("colors");
        assert("socket"@[0] != "colors"@[0]);
        reveal_strlit("tasks");
        assert("socket"@.len() != "tasks"@.len());
    }
    assert(help_table("plugin"@) == Some("plugin.md"@)) by {
        reveal_strlit("plugin");
        reveal_strlit("help");
        assert("plugin"@.len() != "help"@.len());
        reveal_strlit("changes");
        assert("plugin"@.len() != "changes"@.len());
        reveal_strlit("welcome");
        assert("plugin"@.len() != "welcome"@.len());
        reveal_strlit("logging");
        assert("plugin"@.len() != "logging"@.len());
        reveal_strlit("blight");
        assert("plugin"@[0] != "blight"@[0]);
        reveal_strlit("bindings");
        assert("plugin"@.len() != "bindings"@.len());
        reveal_strlit("core");
        assert("plugin"@.len() != "core"@.len());
        reveal_strlit("tts");
        assert("plugin"@.len() != "tts"@.len());
        reveal_strlit("status_area");
        assert("plugin"@.len() != "status_area"@.len());
        reveal_strlit("alias");
        assert("plugin"@.len() != "alias"@.len());
        reveal_strlit("config");
        assert("plugin"@[0] != "config"@[0]);
        reveal_strlit("script");
        assert("plugin"@[0] != "script"@[0]);
        reveal_strlit("trigger");
        assert("plugin"@.len() != "trigger"@.len());
        reveal_strlit("timers");
        assert("plugin"@[0] != "timers"@[0]);
        reveal_strlit("gmcp");
        assert("plugin"@.len() != "gmcp"@.len());
        reveal_strlit("msdp");
        assert("plugin"@.len() != "msdp"@.len());
        reveal_strlit("regex");
        assert("plugin"@.len() != "regex"@.len());
        reveal_strlit("line");
        assert("plugin"@.len() != "line"@.len());
        reveal_strlit("mud");
        assert("plugin"@.len() != "mud"@.len());
        reveal_strlit("audio");
        assert("plugin"@.len() != "audio"@.len());
        reveal_strlit("log");
        assert("plugin"@.len() != "log"@.len());
        reveal_strlit("config_scripts");
        assert("plugin"@.len() != "config_scripts"@.len());
        reveal_strlit("scripting");
        assert("plugin"@.len() != "scripting"@.len());
        reveal_strlit("settings");
        assert("plugin"@.len() != "settings"@.len());
        reveal_strlit("storage");
        assert("plugin"@.len() != "storage"@.len());
        reveal_strlit("colors");
        assert("plugin"@[0] != "colors"@[0]);
        reveal_strlit("tasks");
        assert("plugin"@.len() != "tasks"@.len());
        reveal_strlit("socket");
        assert("plugin"@[0] != "socket"@[0]);
    }
    assert(help_table("plugin_developer"@) == Some("plugin_developer.md"@)) by {
        reveal_strlit("plugin_developer");
        reveal_strlit("help");
        assert("plugin_developer"@.len() != "help"@.len());
        reveal_strlit("changes");
        assert("plugin_developer"@.len() != "changes"@.len());
        reveal_strlit("welcome");
        assert("plugin_developer"@.len() != "welcome"@.len());
        reveal_strlit("logging");
        assert("plugin_developer"@.len() != "logging"@.len());
        reveal_strlit("blight");
        assert("plugin_developer"@.len() != "blight"@.len());
        reveal_strlit("bindings");
        assert("plugin_developer"@.len() != "bindings"@.len());
        reveal_strlit("core");
        assert("plugin_developer"@.len() != "core"@.len());
        reveal_strlit("tts");
        assert("plugin_developer"@.len() != "tts"@.len());
        reveal_strlit("status_area");
        assert("plugin_developer"@.len() != "status_area"@.len());
        reveal_strlit("alias");
        assert("plugin_developer"@.len() != "alias"@.len());
        reveal_strlit("config");
        assert("plugin_developer"@.len() != "config"@.len());
        reveal_strlit("script");
        assert("plugin_developer"@.len() != "script"@.len());
        reveal_strlit("trigger");
        assert("plugin_developer"@.len() != "trigger"@.len());
        reveal_strlit("timers");
        assert("plugin_developer"@.len() != "timers"@.len());
        reveal_strlit("gmcp");
        assert("plugin_developer"@.len() != "gmcp"@.len());
        reveal_strlit("msdp");
        assert("plugin_developer"@.len() != "msdp"@.len());
        reveal_strlit("regex");
        assert("plugin_developer"@.len() != "regex"@.len());
        reveal_strlit("line");
        assert("plugin_developer"@.len() != "line"@.len());
        reveal_strlit("mud");
        assert("plugin_developer"@.len() != "mud"@.len());
        reveal_strlit("audio");
        assert("plugin_developer"@.len() != "audio"@.len());
        reveal_strlit("log");
        assert("plugin_developer"@.len() != "log"@.len());
        reveal_strlit("config_scripts");
        assert("plugin_developer"@.len() != "config_scripts"@.len());
        reveal_strlit("scripting");
        assert("plugin_developer"@.len() != "scripting"@.len());
        reveal_strlit("settings");
        assert("plugin_developer"@.len() != "settings"@.len());
        reveal_strlit("storage");
        assert("plugin_developer"@.len() != "storage"@.len());
        reveal_strlit("colors");
        assert("plugin_developer"@.len() != "colors"@.len());
        reveal_strlit("tasks");
        assert("plugin_developer"@.len() != "tasks"@.len());
        reveal_strlit("socket");
        assert("plugin_developer"@.len() != "socket"@.len());
        reveal_strlit("plugin");
        assert("plugin_developer"@.len() != "plugin"@.len());
    }
    assert(help_table("servers"@) == Some("servers.md"@)) by {
        reveal_strlit("servers");
        reveal_strlit("help");
        assert("servers"@.len() != "help"@.len());
        reveal_strlit("changes");
        assert("servers"@[0] != "changes"@[0]);
        reveal_strlit("welcome");
        assert("servers"@[0] != "welcome"@[0]);
        reveal_strlit("logging");
        assert("servers"@[0] != "logging"@[0]);
        reveal_strlit("blight");
        assert("servers"@.len() != "blight"@.len());
        reveal_strlit("bindings");
        assert("servers"@.len() != "bindings"@.len());
        reveal_strlit("core");
        assert("servers"@.len() != "core"@.len());
        reveal_strlit("tts");
        assert("servers"@.len() != "tts"@.len());
        reveal_strlit("status_area");
        assert("servers"@.len() != "status_area"@.len());
        reveal_strlit("alias");
        assert("servers"@.len() != "alias"@.len());
        reveal_strlit("config");
        assert("servers"@.len() != "config"@.len());
        reveal_strlit("script");
        assert("servers"@.len() != "script"@.len());
        reveal_strlit("trigger");
        assert("servers"@[0] != "trigger"@[0]);
        reveal_strlit("timers");
        assert("servers"@.len() != "timers"@.len());
        reveal_strlit("gmcp");
        assert("servers"@.len() != "gmcp"@.len());
        reveal_strlit("msdp");
        assert("servers"@.len() != "msdp"@.len());
        reveal_strlit("regex");
        assert("servers"@.len() != "regex"@.len());
        reveal_strlit("line");
        assert("servers"@.len() != "line"@.len());
        reveal_strlit("mud");
        assert("servers"@.len() != "mud"@.len());
        reveal_strlit("audio");
        assert("servers"@.len() != "audio"@.len());
        reveal_strlit("log");
        assert("servers"@.len() != "log"@.len());
        reveal_strlit("config_scripts");
        assert("servers"@.len() != "config_scripts"@.len());
        reveal_strlit("scripting");
        assert("servers"@.len() != "scripting"@.len());
        reveal_strlit("settings");
        assert("servers"@.len() != "settings"@.len());
        reveal_strlit("storage");
        assert("servers"@[1] != "storage"@[1]);
        reveal_strlit("colors");
        assert("servers"@.len() != "colors"@.len());
        reveal_strlit("tasks");
        assert("servers"@.len() != "tasks"@.len());
        reveal_strlit("socket");
        assert("servers"@.len() != "socket"@.len());
        reveal_strlit("plugin");
        assert("servers"@.len() != "plugin"@.len());
        reveal_strlit("plugin_developer");
        assert("servers"@.len() != "plugin_developer"@.len());
    }
}

} // verus!
