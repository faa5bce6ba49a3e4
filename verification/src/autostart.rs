//! What is written to make the client start with the session: a desktop
//! entry on Linux, a launch agent on macOS, and on Windows the script that
//! creates the shortcut. The command is the program and its arguments.

use vstd::prelude::*;
use crate::config::{join_path, joined};
use crate::pathset::views;
use crate::text::chars_of;

verus! {

/// The parts joined with `sep` between each two.
pub open spec fn joined_with(parts: Seq<Seq<char>>, sep: Seq<char>) -> Seq<char>
    decreases parts.len(),
{
    if parts.len() == 0 {
        Seq::empty()
    } else if parts.len() == 1 {
        parts[0]
    } else {
        joined_with(parts.drop_last(), sep) + sep + parts.last()
    }
}

/// The text with a backtick put before each double quote.
pub open spec fn quoted(s: Seq<char>) -> Seq<char>
    decreases s.len(),
{
    if s.len() == 0 {
        Seq::empty()
    } else if s.last() == '"' {
        quoted(s.drop_last()).push('`').push('"')
    } else {
        quoted(s.drop_last()).push(s.last())
    }
}

/// One argument as an entry of a launch agent's argument list.
pub open spec fn agent_argument(a: Seq<char>) -> Seq<char> {
    "    <string>"@ + a + "</string>"@
}

/// The entries of a launch agent's argument list, one per line.
pub open spec fn agent_arguments(cmd: Seq<Seq<char>>) -> Seq<char>
    decreases cmd.len(),
{
    if cmd.len() == 0 {
        Seq::empty()
    } else if cmd.len() == 1 {
        agent_argument(cmd[0])
    } else {
        agent_arguments(cmd.drop_last()) + "\n"@ + agent_argument(cmd.last())
    }
}

/// What precedes the command in a desktop entry.
pub const DESKTOP_ENTRY_HEAD: &'static str =
    "[Desktop Entry]\nType=Application\nName=Brandy Box\nExec=";

/// What follows the command in a desktop entry.
pub const DESKTOP_ENTRY_TAIL: &'static str = "\nX-GNOME-Autostart-enabled=true\n";

/// What precedes the arguments in a launch agent.
pub const LAUNCH_AGENT_HEAD: &'static str =
    "<?xml version=\"1.0\" encoding=\"UTF-8\"?>\n<!DOCTYPE plist PUBLIC \"-//Apple//DTD PLIST 1.0//EN\" \"http://www.apple.com/DTDs/PropertyList-1.0.dtd\">\n<plist version=\"1.0\">\n<dict>\n  <key>Label</key>\n  <string>rocks.brandstaetter.brandybox</string>\n  <key>ProgramArguments</key>\n  <array>\n";

/// What follows the arguments in a launch agent.
pub const LAUNCH_AGENT_TAIL: &'static str =
    "\n  </array>\n  <key>RunAtLoad</key>\n  <true/>\n</dict>\n</plist>\n";

/// The parts from index `from` on, joined with `sep`.
pub fn join_with(parts: &Vec<String>, from: usize, sep: &str) -> (r: String)
    requires
        from <= parts.len(),
    ensures
        r@ == joined_with(views(parts@).skip(from as int), sep@),
{
    let ghost all = views(parts@).skip(from as int);
    let mut r = String::new();
    let mut i: usize = from;
    assert(all.take(0) =~= Seq::<Seq<char>>::empty());
    while i < parts.len()
        invariant
            from <= i <= parts.len(),
            all == views(parts@).skip(from as int),
            r@ == joined_with(all.take(i - from), sep@),
        decreases parts.len() - i,
    {
        proof {
            assert(all.take(i + 1 - from).drop_last() =~= all.take(i - from));
            assert(all.take(i + 1 - from).last() == parts@[i as int]@);
        }
        if i > from {
            r.append(sep);
        }
        r.append(parts[i].as_str());
        proof {
            if i == from {
                assert(r@ =~= parts@[i as int]@);
            }
        }
        i += 1;
    }
    assert(all.take(parts.len() - from) =~= all);
    r
}

/// Appends `s` to `out` with a backtick before each double quote.
fn push_quoted(out: &mut String, s: &str)
    ensures
        final(out)@ == old(out)@ + quoted(s@),
{
    let v = chars_of(s);
    let mut i: usize = 0;
    assert(v@.take(0) =~= Seq::<char>::empty());
    assert(out@ =~= old(out)@ + quoted(v@.take(0)));
    while i < v.len()
        invariant
            i <= v.len(),
            out@ == old(out)@ + quoted(v@.take(i as int)),
        decreases v.len() - i,
    {
        assert(v@.take(i + 1).drop_last() =~= v@.take(i as int));
        if v[i] == '"' {
            out.push('`');
        }
        out.push(v[i]);
        assert(out@ =~= old(out)@ + quoted(v@.take(i + 1)));
        i += 1;
    }
    assert(v@.take(v.len() as int) =~= v@);
}

/// The desktop entry that starts `cmd` with the session.
pub fn desktop_entry(cmd: &Vec<String>) -> (r: String)
    ensures
        r@ == DESKTOP_ENTRY_HEAD@ + joined_with(views(cmd@), " "@) + DESKTOP_ENTRY_TAIL@,
{
    let mut r = DESKTOP_ENTRY_HEAD.to_owned();
    let exec = join_with(cmd, 0, " ");
    assert(views(cmd@).skip(0) =~= views(cmd@));
    r.append(exec.as_str());
    r.append(DESKTOP_ENTRY_TAIL);
    r
}

/// The launch agent that starts `cmd` at login.
pub fn launch_agent(cmd: &Vec<String>) -> (r: String)
    ensures
        r@ == LAUNCH_AGENT_HEAD@ + agent_arguments(views(cmd@)) + LAUNCH_AGENT_TAIL@,
{
    let mut r = LAUNCH_AGENT_HEAD.to_owned();
    let mut i: usize = 0;
    assert(views(cmd@).take(0) =~= Seq::<Seq<char>>::empty());
    assert(r@ =~= LAUNCH_AGENT_HEAD@ + agent_arguments(views(cmd@).take(0)));
    while i < cmd.len()
        invariant
            i <= cmd.len(),
            r@ == LAUNCH_AGENT_HEAD@ + agent_arguments(views(cmd@).take(i as int)),
        decreases cmd.len() - i,
    {
        proof {
            assert(views(cmd@).take(i + 1).drop_last() =~= views(cmd@).take(i as int));
            assert(views(cmd@).take(i + 1).last() == cmd@[i as int]@);
        }
        if i > 0 {
            r.append("\n");
        }
        r.append("    <string>");
        r.append(cmd[i].as_str());
        r.append("</string>");
        assert(r@ =~= LAUNCH_AGENT_HEAD@ + agent_arguments(views(cmd@).take(i + 1)));
        i += 1;
    }
    assert(views(cmd@).take(cmd.len() as int) =~= views(cmd@));
    r.append(LAUNCH_AGENT_TAIL);
    r
}

/// The program of a command: its first part, or nothing.
pub open spec fn program(cmd: Seq<Seq<char>>) -> Seq<char> {
    if cmd.len() == 0 {
        Seq::empty()
    } else {
        cmd[0]
    }
}

/// The arguments of a command: the parts behind the first, joined by
/// spaces.
pub open spec fn arguments(cmd: Seq<Seq<char>>) -> Seq<char> {
    if cmd.len() == 0 {
        Seq::empty()
    } else {
        joined_with(cmd.skip(1), " "@)
    }
}

/// The text of the script that creates the shortcut `lnk` to `cmd`.
pub open spec fn shortcut_text(lnk: Seq<char>, cmd: Seq<Seq<char>>) -> Seq<char> {
    "$s = (New-Object -COM WScript.Shell).CreateShortcut(\""@ + lnk + "\"); $s.TargetPath = \""@
        + quoted(program(cmd)) + "\"; $s.Arguments = \""@ + quoted(arguments(cmd))
        + "\"; $s.Save()"@
}

/// The PowerShell script that creates the shortcut `lnk` to `cmd`; double
/// quotes in the program and in the arguments are escaped.
pub fn shortcut_script(lnk: &str, cmd: &Vec<String>) -> (r: String)
    ensures
        r@ == shortcut_text(lnk@, views(cmd@)),
{
    let mut r = "$s = (New-Object -COM WScript.Shell).CreateShortcut(\"".to_owned();
    r.append(lnk);
    r.append("\"); $s.TargetPath = \"");
    if cmd.len() > 0 {
        push_quoted(&mut r, cmd[0].as_str());
    }
    r.append("\"; $s.Arguments = \"");
    if cmd.len() > 0 {
        let args = join_with(cmd, 1, " ");
        push_quoted(&mut r, args.as_str());
    }
    r.append("\"; $s.Save()");
    proof {
        assert(quoted(Seq::<char>::empty()) =~= Seq::<char>::empty());
        assert(r@ =~= "$s = (New-Object -COM WScript.Shell).CreateShortcut(\""@ + lnk@
            + "\"); $s.TargetPath = \""@ + quoted(program(views(cmd@)))
            + "\"; $s.Arguments = \""@ + quoted(arguments(views(cmd@))) + "\"; $s.Save()"@);
    }
    r
}

/// The kinds of host that autostart is set up for.
#[derive(Clone, Copy, PartialEq, Eq, Structural, Debug)]
pub enum Platform {
    Windows,
    MacOs,
    Linux,
}

/// What the host is to do to switch autostart on or off.
pub enum AutostartChange {
    /// Write the file, creating its directory.
    Write { path: String, content: String },
    /// Remove the file if it is there.
    Remove { path: String },
    /// Run the script in PowerShell.
    Run { script: String },
}

impl Platform {
    /// Where the autostart files of the platform live, below the base
    /// directory: the roaming application data on Windows, the home
    /// directory on macOS, the configuration directory on Linux.
    pub open spec fn directory(self) -> Seq<char> {
        match self {
            Platform::Windows => "Microsoft/Windows/Start Menu/Programs/Startup"@,
            Platform::MacOs => "Library/LaunchAgents"@,
            Platform::Linux => "autostart"@,
        }
    }

    /// The name of the file that starts the client.
    pub open spec fn file(self) -> Seq<char> {
        match self {
            Platform::Windows => "BrandyBox.lnk"@,
            Platform::MacOs => "rocks.brandstaetter.brandybox.plist"@,
            Platform::Linux => "brandybox.desktop"@,
        }
    }

    /// The file that starts the client, below `base`.
    pub open spec fn path(self, base: Seq<char>) -> Seq<char> {
        joined(joined(base, self.directory()), self.file())
    }

    /// Where the autostart files live, below `base`.
    pub fn autostart_dir(self, base: &str) -> (r: String)
        ensures
            r@ == joined(base@, self.directory()),
    {
        match self {
            Platform::Windows => join_path(base, "Microsoft/Windows/Start Menu/Programs/Startup"),
            Platform::MacOs => join_path(base, "Library/LaunchAgents"),
            Platform::Linux => join_path(base, "autostart"),
        }
    }

    /// The file that starts the client, below `base`.
    pub fn autostart_file(self, base: &str) -> (r: String)
        ensures
            r@ == self.path(base@),
    {
        let dir = self.autostart_dir(base);
        match self {
            Platform::Windows => join_path(dir.as_str(), "BrandyBox.lnk"),
            Platform::MacOs => join_path(dir.as_str(), "rocks.brandstaetter.brandybox.plist"),
            Platform::Linux => join_path(dir.as_str(), "brandybox.desktop"),
        }
    }
}

/// What switches autostart on or off. Switching it off removes the
/// platform's file. Switching it on writes the desktop entry on Linux and
/// the launch agent on macOS, and on Windows runs the script that creates
/// the shortcut.
pub fn apply_autostart_platform(platform: Platform, enabled: bool, cmd: &Vec<String>, base: &str) -> (r:
    AutostartChange)
    ensures
        match r {
            AutostartChange::Remove { path } => !enabled && path@ == platform.path(base@),
            AutostartChange::Write { path, content } => enabled && platform != Platform::Windows
                && path@ == platform.path(base@) && content@ == if platform == Platform::Linux {
                DESKTOP_ENTRY_HEAD@ + joined_with(views(cmd@), " "@) + DESKTOP_ENTRY_TAIL@
            } else {
                LAUNCH_AGENT_HEAD@ + agent_arguments(views(cmd@)) + LAUNCH_AGENT_TAIL@
            },
            AutostartChange::Run { script } => enabled && platform == Platform::Windows && script@
                == shortcut_text(platform.path(base@), views(cmd@)),
        },
{
    let path = platform.autostart_file(base);
    if !enabled {
        return AutostartChange::Remove { path };
    }
    match platform {
        Platform::Linux => AutostartChange::Write { path, content: desktop_entry(cmd) },
        Platform::MacOs => AutostartChange::Write { path, content: launch_agent(cmd) },
        Platform::Windows => AutostartChange::Run { script: shortcut_script(path.as_str(), cmd) },
    }
}

} // verus!
