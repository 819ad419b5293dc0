use vstd::prelude::*;

use crate::path::{path_text, strings_view, FsPath, PathView};
use crate::platform::{Platform, PlatformPolicy, PolicyView};

verus! {

/// Why a relocation could not be planned.
#[derive(Clone, Debug, PartialEq, Eq)]
pub enum RelocationError {
    /// The executable's path is too short to hold the application tree.
    NoApplicationUnit,
}

impl RelocationError {
    /// A human-readable description of the error.
    pub fn message(&self) -> (r: String)
        ensures
            r@ == "Failed to determine the application's location"@,
    {
        String::from_str("Failed to determine the application's location")
    }
}

/// The relocation to carry out once the running process has exited.
#[derive(Clone, Debug, PartialEq, Eq)]
pub struct MigrationPlan {
    pub platform: Platform,
    /// The application tree that moves: the bundle on macOS, the executable's
    /// directory elsewhere.
    pub source: FsPath,
    /// Where the tree goes: a directory of the bundle's name inside the canonical
    /// install root on macOS, the root itself (which receives the directory's
    /// contents) elsewhere.
    pub destination: FsPath,
    /// What is started once the tree has moved.
    pub launch: FsPath,
    /// What is started where the move did not happen.
    pub fallback: FsPath,
    /// The embedded resource bundle, where it will be once the tree has moved.
    pub resource_source: Option<FsPath>,
    /// The resource directory of the canonical install root.
    pub resource_target: FsPath,
    /// The required subdirectories of the resource directory.
    pub subdirs: Vec<String>,
    /// Where the script is written.
    pub script_path: FsPath,
    /// The first-run marker beside the executable.
    pub marker_path: FsPath,
    pub separator: String,
}

pub struct MigrationPlanView {
    pub platform: Platform,
    pub source: PathView,
    pub destination: PathView,
    pub launch: PathView,
    pub fallback: PathView,
    pub resource_source: Option<PathView>,
    pub resource_target: PathView,
    pub subdirs: Seq<Seq<char>>,
    pub script_path: PathView,
    pub marker_path: PathView,
    pub separator: Seq<char>,
}

impl View for MigrationPlan {
    type V = MigrationPlanView;

    open spec fn view(&self) -> MigrationPlanView {
        MigrationPlanView {
            platform: self.platform,
            source: self.source@,
            destination: self.destination@,
            launch: self.launch@,
            fallback: self.fallback@,
            resource_source: match self.resource_source {
                Some(p) => Some(p@),
                None => None,
            },
            resource_target: self.resource_target@,
            subdirs: strings_view(self.subdirs@),
            script_path: self.script_path@,
            marker_path: self.marker_path@,
            separator: self.separator@,
        }
    }
}

/// How many levels the application tree lies above the executable: a macOS
/// bundle is `Name.app/Contents/MacOS/exe`; elsewhere the tree is the
/// executable's directory.
pub open spec fn unit_depth(platform: Platform) -> nat {
    match platform {
        Platform::MacOs => 3,
        _ => 1,
    }
}

/// The root of the application tree of the executable `exe`, if its path is long
/// enough.
pub open spec fn unit_of(exe: PathView, platform: Platform) -> Option<PathView> {
    if exe.comps.len() > unit_depth(platform) {
        exe.ancestor(unit_depth(platform))
    } else {
        None
    }
}

/// The root of the application tree of the executable `exe`: the `.app` bundle
/// on macOS, the executable's directory elsewhere; `None` when the path is too
/// short to hold it.
pub fn application_root(exe: &FsPath, platform: Platform) -> (r: Option<FsPath>)
    ensures
        r is None <==> unit_of(exe@, platform) is None,
        r matches Some(u) ==> unit_of(exe@, platform) == Some(u@),
{
    let depth: usize = match platform {
        Platform::MacOs => 3,
        _ => 1,
    };
    if exe.comps.len() <= depth {
        return None;
    }
    exe.ancestor(depth)
}

/// `p` moved along with `from` to `to`; unchanged when it is not below `from`.
pub open spec fn rebase(p: PathView, from: PathView, to: PathView) -> PathView {
    if p.is_under(from) {
        to.extend(p.comps.subrange(from.comps.len() as int, p.comps.len() as int))
    } else {
        p
    }
}

pub open spec fn script_name(platform: Platform) -> Seq<char> {
    match platform {
        Platform::Windows => "anglewing_install.bat"@,
        _ => "anglewing_install_script.sh"@,
    }
}

/// The plan that `plan_migration` builds.
pub open spec fn migration_plan_for(
    exe: PathView,
    policy: PolicyView,
    subdirs: Seq<Seq<char>>,
    embedded: Option<PathView>,
    temp_dir: PathView,
) -> Option<MigrationPlanView> {
    match unit_of(exe, policy.platform) {
        None => None,
        Some(unit) => {
            let destination = match policy.platform {
                Platform::MacOs => policy.install_root.child(unit.comps.last()),
                _ => policy.install_root,
            };
            let (launch, fallback) = match policy.platform {
                Platform::MacOs => (destination, unit),
                _ => (policy.install_root.child(exe.comps.last()), exe),
            };
            Some(
                MigrationPlanView {
                    platform: policy.platform,
                    source: unit,
                    destination,
                    launch,
                    fallback,
                    resource_source: match embedded {
                        Some(e) => Some(rebase(e, unit, destination)),
                        None => None,
                    },
                    resource_target: policy.install_root.child(policy.resource_dir),
                    subdirs,
                    script_path: temp_dir.child(script_name(policy.platform)),
                    marker_path: exe.parent()->0.child(policy.marker_name),
                    separator: policy.separator,
                },
            )
        },
    }
}

/// The moved location of `p`, as `rebase` states it.
fn rebase_path(p: &FsPath, from: &FsPath, to: &FsPath) -> (r: FsPath)
    ensures
        r@ == rebase(p@, from@, to@),
{
    if p.starts_with(from) {
        let mut rest: Vec<String> = Vec::new();
        let mut i: usize = from.comps.len();
        while i < p.comps.len()
            invariant
                from.comps.len() <= i <= p.comps.len(),
                rest@ == p.comps@.subrange(from.comps.len() as int, i as int),
            decreases p.comps.len() - i,
        {
            rest.push(p.comps[i].clone());
            i = i + 1;
        }
        let r = to.join_all(&rest);
        assert(strings_view(rest@) =~= p@.comps.subrange(from@.comps.len() as int, p@.comps.len() as int));
        r
    } else {
        p.duplicate()
    }
}

/// The relocation of the executable `exe` to the canonical install root of
/// `policy`: the application tree moves into the root, the embedded bundle is
/// found where the move puts it, and the script goes to `temp_dir`. Fails when the
/// executable's path is too short to hold the tree.
pub fn plan_migration(
    exe: &FsPath,
    policy: &PlatformPolicy,
    subdirs: &Vec<String>,
    embedded: &Option<FsPath>,
    temp_dir: &FsPath,
) -> (r: Result<MigrationPlan, RelocationError>)
    ensures
        migration_plan_for(exe@, policy@, strings_view(subdirs@), crate::platform::opt_view(*embedded), temp_dir@)
            is None ==> r == Err::<MigrationPlan, RelocationError>(RelocationError::NoApplicationUnit),
        migration_plan_for(exe@, policy@, strings_view(subdirs@), crate::platform::opt_view(*embedded), temp_dir@)
            matches Some(p) ==> r matches Ok(q) && q@ == p,
{
    let unit = match application_root(exe, policy.platform) {
        Some(u) => u,
        None => {
            return Err(RelocationError::NoApplicationUnit);
        },
    };
    let unit_name = match unit.file_name() {
        Some(n) => n,
        None => {
            return Err(RelocationError::NoApplicationUnit);
        },
    };
    let exe_name = match exe.file_name() {
        Some(n) => n,
        None => {
            return Err(RelocationError::NoApplicationUnit);
        },
    };
    let exe_dir = match exe.parent() {
        Some(d) => d,
        None => {
            return Err(RelocationError::NoApplicationUnit);
        },
    };
    let (destination, launch, fallback) = match policy.platform {
        Platform::MacOs => {
            let d = policy.install_root.join(unit_name.as_str());
            let l = d.duplicate();
            (d, l, unit.duplicate())
        },
        _ => (policy.install_root.duplicate(), policy.install_root.join(exe_name.as_str()), exe.duplicate()),
    };
    let resource_source = match embedded {
        Some(e) => Some(rebase_path(e, &unit, &destination)),
        None => None,
    };
    let script = match policy.platform {
        Platform::Windows => String::from_str("anglewing_install.bat"),
        _ => String::from_str("anglewing_install_script.sh"),
    };
    let plan = MigrationPlan {
        platform: policy.platform,
        source: unit,
        destination,
        launch,
        fallback,
        resource_source,
        resource_target: policy.install_root.join(policy.resource_dir.as_str()),
        subdirs: crate::path::copy_strings(subdirs),
        script_path: temp_dir.join(script.as_str()),
        marker_path: exe_dir.join(policy.marker_name.as_str()),
        separator: policy.separator.clone(),
    };
    Ok(plan)
}

/// The parts written one after the other.
pub open spec fn concat_all(parts: Seq<Seq<char>>) -> Seq<char>
    decreases parts.len(),
{
    if parts.len() == 0 {
        Seq::empty()
    } else {
        concat_all(parts.drop_last()) + parts.last()
    }
}

/// The quoting rules of the text a path is written into.
#[derive(Clone, Copy, Debug, PartialEq, Eq, Structural)]
pub enum Quoting {
    /// Between double quotes in a POSIX shell script.
    Shell,
    /// Between double quotes in a batch file.
    Batch,
    /// Between single quotes in a PowerShell command inside a batch file.
    PowerShell,
}

/// What is written before the character `c` so that it stands for itself: a
/// backslash before `\`, `"`, `$` and `` ` `` in a shell script; a second `%` in a
/// batch file; and, in PowerShell, a second `'` as well.
pub open spec fn escape_prefix(q: Quoting, c: char) -> Seq<char> {
    match q {
        Quoting::Shell => if c == '\\' || c == '"' || c == '$' || c == '`' {
            seq!['\\']
        } else {
            seq![]
        },
        Quoting::Batch => if c == '%' {
            seq!['%']
        } else {
            seq![]
        },
        Quoting::PowerShell => if c == '%' {
            seq!['%']
        } else if c == '\'' {
            seq!['\'']
        } else {
            seq![]
        },
    }
}

/// The text `s` with each character escaped by the rules of `q`.
pub open spec fn escaped(q: Quoting, s: Seq<char>) -> Seq<char>
    decreases s.len(),
{
    if s.len() == 0 {
        Seq::empty()
    } else {
        escaped(q, s.drop_last()) + escape_prefix(q, s.last()) + seq![s.last()]
    }
}

pub open spec fn quoting_of(platform: Platform) -> Quoting {
    match platform {
        Platform::Windows => Quoting::Batch,
        _ => Quoting::Shell,
    }
}

/// A path as the plan's script writes it: its escaped text between double quotes.
pub open spec fn qp(path: PathView, p: MigrationPlanView) -> Seq<char> {
    "\""@ + escaped(quoting_of(p.platform), path_text(path, p.separator)) + "\""@
}

/// The line that moves the application tree into the install root.
pub open spec fn move_line(p: MigrationPlanView) -> Seq<char> {
    match p.platform {
        Platform::Windows => concat_all(
            seq!["robocopy "@, qp(p.source, p), " "@, qp(p.destination, p), " /E /MOVE"@],
        ),
        Platform::MacOs => concat_all(seq!["mv "@, qp(p.source, p), " "@, qp(p.destination, p)]),
        Platform::Linux => concat_all(
            seq![
                "cp -R "@,
                qp(p.source.child("."@), p),
                " "@,
                qp(p.destination, p),
                " && rm -rf "@,
                qp(p.source, p),
            ],
        ),
    }
}

pub open spec fn mkdir_line(p: MigrationPlanView, sub: Seq<char>) -> Seq<char> {
    match p.platform {
        Platform::Windows => concat_all(
            seq!["if not exist "@, qp(p.resource_target.child(sub), p), " mkdir "@, qp(p.resource_target.child(sub), p)],
        ),
        _ => concat_all(seq!["mkdir -p "@, qp(p.resource_target.child(sub), p)]),
    }
}

pub open spec fn mkdir_lines(p: MigrationPlanView) -> Seq<Seq<char>> {
    Seq::new(p.subdirs.len(), |i: int| mkdir_line(p, p.subdirs[i]))
}

/// The line that copies the embedded bundle into the resource directory; a note
/// where the move already put it there; a warning where there is none.
pub open spec fn copy_line(p: MigrationPlanView) -> Seq<char> {
    let target = qp(p.resource_target, p);
    match p.resource_source {
        None => match p.platform {
            Platform::Windows => "echo Warning: no embedded resource bundle"@,
            _ => "echo \"Warning: no embedded resource bundle\""@,
        },
        Some(e) => if e == p.resource_target {
            "echo Resource bundle in place"@
        } else {
            match p.platform {
                Platform::Windows => concat_all(
                    seq!["if exist "@, qp(e, p), " xcopy /E /I /Y "@, qp(e, p), " "@, target],
                ),
                _ => concat_all(
                    seq!["if [ -d "@, qp(e, p), " ]; then cp -R "@, qp(e.child("."@), p), " "@, target, "; fi"@],
                ),
            }
        },
    }
}

/// The line that starts the moved application, or the one at its old place where
/// the move did not happen.
pub open spec fn relaunch_line(p: MigrationPlanView) -> Seq<char> {
    let new = qp(p.launch, p);
    let old = qp(p.fallback, p);
    match p.platform {
        Platform::Windows => concat_all(
            seq!["if exist "@, new, " (start \"\" "@, new, ") else (start \"\" "@, old, ")"@],
        ),
        Platform::MacOs => concat_all(
            seq!["if [ -e "@, new, " ]; then open "@, new, "; else open "@, old, "; fi"@],
        ),
        Platform::Linux => concat_all(
            seq!["if [ -x "@, new, " ]; then nohup "@, new, " >/dev/null 2>&1 & else nohup "@, old, " >/dev/null 2>&1 & fi"@],
        ),
    }
}

/// The line that puts a desktop shortcut to the moved application.
pub open spec fn shortcut_line(p: MigrationPlanView) -> Seq<char> {
    concat_all(
        seq![
            "powershell -Command \"$s = (New-Object -ComObject WScript.Shell).CreateShortcut([Environment]::GetFolderPath('Desktop') + '\\Anglewing.lnk'); $s.TargetPath = '"@,
            escaped(Quoting::PowerShell, path_text(p.launch, p.separator)),
            "'; $s.Save()\""@,
        ],
    )
}

/// The lines of the script: wait, move the tree, create the resource
/// subdirectories, copy the bundle, set permissions (or, on Windows, add a desktop
/// shortcut), relaunch, delete the script.
pub open spec fn script_lines(p: MigrationPlanView) -> Seq<Seq<char>> {
    match p.platform {
        Platform::Windows => seq!["@echo off"@, "timeout /t 2 /nobreak > nul"@, move_line(p)]
            + mkdir_lines(p) + seq![
            copy_line(p),
            shortcut_line(p),
            relaunch_line(p),
            "del \"%~f0\""@,
            "exit"@,
        ],
        _ => seq!["#!/bin/bash"@, "sleep 2"@, move_line(p)] + mkdir_lines(p) + seq![
            copy_line(p),
            concat_all(seq!["chmod -R 755 "@, qp(p.destination, p)]),
            concat_all(seq!["chmod -R u=rwX,go=rX "@, qp(p.resource_target, p)]),
            relaunch_line(p),
            "rm \"$0\""@,
            "exit 0"@,
        ],
    }
}

pub open spec fn line_end(platform: Platform) -> Seq<char> {
    match platform {
        Platform::Windows => "\r\n"@,
        _ => "\n"@,
    }
}

/// Each line followed by the line end.
pub open spec fn join_lines(lines: Seq<Seq<char>>, end: Seq<char>) -> Seq<char>
    decreases lines.len(),
{
    if lines.len() == 0 {
        Seq::empty()
    } else {
        join_lines(lines.drop_last(), end) + lines.last() + end
    }
}

/// The text of the script for `p`.
pub open spec fn script_text(p: MigrationPlanView) -> Seq<char> {
    join_lines(script_lines(p), line_end(p.platform))
}

/// The parts of `parts`, written one after the other.
pub fn concat_parts(parts: &Vec<String>) -> (r: String)
    ensures
        r@ == concat_all(strings_view(parts@)),
{
    let mut r = String::new();
    let mut i: usize = 0;
    while i < parts.len()
        invariant
            i <= parts.len(),
            r@ == concat_all(strings_view(parts@).subrange(0, i as int)),
        decreases parts.len() - i,
    {
        proof {
            let s = strings_view(parts@);
            assert(s.subrange(0, i + 1).drop_last() =~= s.subrange(0, i as int));
        }
        r.append(parts[i].as_str());
        i = i + 1;
    }
    assert(strings_view(parts@).subrange(0, parts@.len() as int) =~= strings_view(parts@));
    r
}

fn lit(s: &str) -> (r: String)
    ensures
        r@ == s@,
{
    String::from_str(s)
}

fn prefix_for(q: Quoting, c: char) -> (r: &'static str)
    ensures
        r@ == escape_prefix(q, c),
{
    proof {
        reveal_strlit("\\");
        reveal_strlit("%");
        reveal_strlit("'");
        reveal_strlit("");
    }
    match q {
        Quoting::Shell => if c == '\\' || c == '"' || c == '$' || c == '`' {
            "\\"
        } else {
            ""
        },
        Quoting::Batch => if c == '%' {
            "%"
        } else {
            ""
        },
        Quoting::PowerShell => if c == '%' {
            "%"
        } else if c == '\'' {
            "'"
        } else {
            ""
        },
    }
}

/// The text `s` with each character escaped by the rules of `q`.
pub fn escape_text(q: Quoting, s: &str) -> (r: String)
    ensures
        r@ == escaped(q, s@),
{
    let n = s.unicode_len();
    let mut r = String::new();
    let mut i: usize = 0;
    while i < n
        invariant
            n == s@.len(),
            i <= n,
            r@ == escaped(q, s@.subrange(0, i as int)),
        decreases n - i,
    {
        let c = s.get_char(i);
        let one = s.substring_char(i, i + 1);
        proof {
            let t = s@.subrange(0, i + 1);
            assert(t.drop_last() =~= s@.subrange(0, i as int));
            assert(t.last() == c);
            assert(one@ =~= seq![c]);
        }
        r.append(prefix_for(q, c));
        r.append(one);
        i = i + 1;
    }
    assert(s@.subrange(0, n as int) =~= s@);
    r
}

fn quoted(path: &FsPath, p: &MigrationPlan) -> (r: String)
    ensures
        r@ == qp(path@, p@),
{
    let q = match p.platform {
        Platform::Windows => Quoting::Batch,
        _ => Quoting::Shell,
    };
    let text = path.render(p.separator.as_str());
    let mut r = String::from_str("\"");
    r.append(escape_text(q, text.as_str()).as_str());
    r.append("\"");
    r
}

/// Whether the two paths are the same.
pub fn same_path(a: &FsPath, b: &FsPath) -> (r: bool)
    ensures
        r == (a@ == b@),
{
    a.root == b.root && crate::path::comps_equal(&a.comps, &b.comps)
}

fn move_line_of(p: &MigrationPlan) -> (r: String)
    ensures
        r@ == move_line(p@),
{
    let ghost v = p@;
    match p.platform {
        Platform::Windows => {
            let parts = vec![lit("robocopy "), quoted(&p.source, p), lit(" "), quoted(&p.destination, p), lit(" /E /MOVE")];
            let r = concat_parts(&parts);
            assert(strings_view(parts@) =~= seq!["robocopy "@, qp(v.source, v), " "@, qp(v.destination, v), " /E /MOVE"@]);
            r
        },
        Platform::MacOs => {
            let parts = vec![lit("mv "), quoted(&p.source, p), lit(" "), quoted(&p.destination, p)];
            let r = concat_parts(&parts);
            assert(strings_view(parts@) =~= seq!["mv "@, qp(v.source, v), " "@, qp(v.destination, v)]);
            r
        },
        Platform::Linux => {
            let contents = p.source.join(".");
            let parts = vec![lit("cp -R "), quoted(&contents, p), lit(" "), quoted(&p.destination, p), lit(" && rm -rf "), quoted(&p.source, p)];
            let r = concat_parts(&parts);
            assert(strings_view(parts@) =~= seq!["cp -R "@, qp(v.source.child("."@), v), " "@, qp(v.destination, v), " && rm -rf "@, qp(v.source, v)]);
            r
        },
    }
}

fn mkdir_line_of(p: &MigrationPlan, sub: &String) -> (r: String)
    ensures
        r@ == mkdir_line(p@, sub@),
{
    let ghost v = p@;
    let dir = p.resource_target.join(sub.as_str());
    match p.platform {
        Platform::Windows => {
            let parts = vec![lit("if not exist "), quoted(&dir, p), lit(" mkdir "), quoted(&dir, p)];
            let r = concat_parts(&parts);
            assert(strings_view(parts@) =~= seq!["if not exist "@, qp(dir@, v), " mkdir "@, qp(dir@, v)]);
            r
        },
        _ => {
            let parts = vec![lit("mkdir -p "), quoted(&dir, p)];
            let r = concat_parts(&parts);
            assert(strings_view(parts@) =~= seq!["mkdir -p "@, qp(dir@, v)]);
            r
        },
    }
}

fn copy_line_of(p: &MigrationPlan) -> (r: String)
    ensures
        r@ == copy_line(p@),
{
    let ghost v = p@;
    match &p.resource_source {
        None => match p.platform {
            Platform::Windows => lit("echo Warning: no embedded resource bundle"),
            _ => lit("echo \"Warning: no embedded resource bundle\""),
        },
        Some(e) => {
            if same_path(e, &p.resource_target) {
                return lit("echo Resource bundle in place");
            }
            let target = quoted(&p.resource_target, p);
            match p.platform {
                Platform::Windows => {
                    let parts = vec![lit("if exist "), quoted(e, p), lit(" xcopy /E /I /Y "), quoted(e, p), lit(" "), target];
                    let r = concat_parts(&parts);
                    assert(strings_view(parts@) =~= seq!["if exist "@, qp(e@, v), " xcopy /E /I /Y "@, qp(e@, v), " "@, qp(v.resource_target, v)]);
                    r
                },
                _ => {
                    let all = e.join(".");
                    let parts = vec![lit("if [ -d "), quoted(e, p), lit(" ]; then cp -R "), quoted(&all, p), lit(" "), target, lit("; fi")];
                    let r = concat_parts(&parts);
                    assert(strings_view(parts@) =~= seq!["if [ -d "@, qp(e@, v), " ]; then cp -R "@, qp(e@.child("."@), v), " "@, qp(v.resource_target, v), "; fi"@]);
                    r
                },
            }
        },
    }
}

fn relaunch_line_of(p: &MigrationPlan) -> (r: String)
    ensures
        r@ == relaunch_line(p@),
{
    let ghost new = qp(p@.launch, p@);
    let ghost old = qp(p@.fallback, p@);
    match p.platform {
        Platform::Windows => {
            let parts = vec![lit("if exist "), quoted(&p.launch, p), lit(" (start \"\" "), quoted(&p.launch, p), lit(") else (start \"\" "), quoted(&p.fallback, p), lit(")")];
            let r = concat_parts(&parts);
            assert(strings_view(parts@) =~= seq!["if exist "@, new, " (start \"\" "@, new, ") else (start \"\" "@, old, ")"@]);
            r
        },
        Platform::MacOs => {
            let parts = vec![lit("if [ -e "), quoted(&p.launch, p), lit(" ]; then open "), quoted(&p.launch, p), lit("; else open "), quoted(&p.fallback, p), lit("; fi")];
            let r = concat_parts(&parts);
            assert(strings_view(parts@) =~= seq!["if [ -e "@, new, " ]; then open "@, new, "; else open "@, old, "; fi"@]);
            r
        },
        Platform::Linux => {
            let parts = vec![lit("if [ -x "), quoted(&p.launch, p), lit(" ]; then nohup "), quoted(&p.launch, p), lit(" >/dev/null 2>&1 & else nohup "), quoted(&p.fallback, p), lit(" >/dev/null 2>&1 & fi")];
            let r = concat_parts(&parts);
            assert(strings_view(parts@) =~= seq!["if [ -x "@, new, " ]; then nohup "@, new, " >/dev/null 2>&1 & else nohup "@, old, " >/dev/null 2>&1 & fi"@]);
            r
        },
    }
}

fn shortcut_line_of(p: &MigrationPlan) -> (r: String)
    ensures
        r@ == shortcut_line(p@),
{
    let target = p.launch.render(p.separator.as_str());
    let parts = vec![
        lit("powershell -Command \"$s = (New-Object -ComObject WScript.Shell).CreateShortcut([Environment]::GetFolderPath('Desktop') + '\\Anglewing.lnk'); $s.TargetPath = '"),
        escape_text(Quoting::PowerShell, target.as_str()),
        lit("'; $s.Save()\""),
    ];
    let r = concat_parts(&parts);
    assert(strings_view(parts@) =~= seq![
        "powershell -Command \"$s = (New-Object -ComObject WScript.Shell).CreateShortcut([Environment]::GetFolderPath('Desktop') + '\\Anglewing.lnk'); $s.TargetPath = '"@,
        escaped(Quoting::PowerShell, path_text(p@.launch, p@.separator)),
        "'; $s.Save()\""@,
    ]);
    r
}

/// The lines of the migration script for `p`.
pub fn render_script_lines(p: &MigrationPlan) -> (r: Vec<String>)
    ensures
        strings_view(r@) == script_lines(p@),
{
    let mut lines: Vec<String> = Vec::new();
    match p.platform {
        Platform::Windows => {
            lines.push(lit("@echo off"));
            lines.push(lit("timeout /t 2 /nobreak > nul"));
        },
        _ => {
            lines.push(lit("#!/bin/bash"));
            lines.push(lit("sleep 2"));
        },
    }
    lines.push(move_line_of(p));
    proof {
        match p.platform {
            Platform::Windows => assert(strings_view(lines@) =~= seq!["@echo off"@, "timeout /t 2 /nobreak > nul"@, move_line(p@)]),
            _ => assert(strings_view(lines@) =~= seq!["#!/bin/bash"@, "sleep 2"@, move_line(p@)]),
        }
    }
    let ghost head = strings_view(lines@);
    let mut i: usize = 0;
    while i < p.subdirs.len()
        invariant
            i <= p.subdirs.len(),
            strings_view(lines@) == head + mkdir_lines(p@).subrange(0, i as int),
        decreases p.subdirs.len() - i,
    {
        let l = mkdir_line_of(p, &p.subdirs[i]);
        let ghost prev = strings_view(lines@);
        lines.push(l);
        proof {
            assert(strings_view(lines@) =~= prev.push(l@));
            assert(mkdir_lines(p@)[i as int] == mkdir_line(p@, p@.subdirs[i as int]));
            assert(mkdir_lines(p@).subrange(0, i + 1) =~= mkdir_lines(p@).subrange(0, i as int).push(l@));
        }
        i = i + 1;
    }
    assert(mkdir_lines(p@).subrange(0, p.subdirs.len() as int) =~= mkdir_lines(p@));
    let ghost mid = strings_view(lines@);
    let copy = copy_line_of(p);
    lines.push(copy);
    match p.platform {
        Platform::Windows => {
            let shortcut = shortcut_line_of(p);
            let relaunch = relaunch_line_of(p);
            lines.push(shortcut);
            lines.push(relaunch);
            lines.push(lit("del \"%~f0\""));
            lines.push(lit("exit"));
            assert(strings_view(lines@) =~= mid + seq![copy@, shortcut@, relaunch@, "del \"%~f0\""@, "exit"@]);
        },
        _ => {
            let parts1 = vec![lit("chmod -R 755 "), quoted(&p.destination, p)];
            let chmod_app = concat_parts(&parts1);
            assert(strings_view(parts1@) =~= seq!["chmod -R 755 "@, qp(p@.destination, p@)]);
            let parts2 = vec![lit("chmod -R u=rwX,go=rX "), quoted(&p.resource_target, p)];
            let chmod_res = concat_parts(&parts2);
            assert(strings_view(parts2@) =~= seq!["chmod -R u=rwX,go=rX "@, qp(p@.resource_target, p@)]);
            let relaunch = relaunch_line_of(p);
            lines.push(chmod_app);
            lines.push(chmod_res);
            lines.push(relaunch);
            lines.push(lit("rm \"$0\""));
            lines.push(lit("exit 0"));
            assert(strings_view(lines@) =~= mid + seq![copy@, chmod_app@, chmod_res@, relaunch@, "rm \"$0\""@, "exit 0"@]);
        },
    }
    assert(strings_view(lines@) =~= script_lines(p@));
    lines
}

/// The lines written one after another, each followed by `end`.
pub fn join_with_line_end(lines: &Vec<String>, end: &str) -> (r: String)
    ensures
        r@ == join_lines(strings_view(lines@), end@),
{
    let mut r = String::new();
    let mut i: usize = 0;
    while i < lines.len()
        invariant
            i <= lines.len(),
            r@ == join_lines(strings_view(lines@).subrange(0, i as int), end@),
        decreases lines.len() - i,
    {
        proof {
            let s = strings_view(lines@);
            assert(s.subrange(0, i + 1).drop_last() =~= s.subrange(0, i as int));
        }
        r.append(lines[i].as_str());
        r.append(end);
        i = i + 1;
    }
    assert(strings_view(lines@).subrange(0, lines@.len() as int) =~= strings_view(lines@));
    r
}

/// The text of the migration script for `p`.
pub fn render_script(p: &MigrationPlan) -> (r: String)
    ensures
        r@ == script_text(p@),
{
    let lines = render_script_lines(p);
    let end = match p.platform {
        Platform::Windows => "\r\n",
        _ => "\n",
    };
    join_with_line_end(&lines, end)
}

} // verus!
